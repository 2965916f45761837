use bpmn_engine::script::{Script, ScriptType};

#[test]
fn test_schema_ref_round_trip_for_every_language() {
    let languages = vec![
        (ScriptType::Groovy, "http://groovy-lang.org"),
        (ScriptType::Java, "http://www.java.com"),
        (ScriptType::JavaScript, "http://www.javascript.com"),
        (ScriptType::JUEL, "http://www.juel.org"),
        (ScriptType::Lua, "http://www.lua.org"),
        (ScriptType::Python, "http://www.python.org"),
        (ScriptType::XPath, "http://www.w3.org/1999/XPath"),
    ];
    for (lang, schema) in languages {
        assert_eq!(lang.schema_ref(), schema);
        assert_eq!(ScriptType::from_schema_ref(schema).unwrap(), lang);
    }
}

#[test]
fn test_from_schema_ref_rejects_unknown() {
    let err = ScriptType::from_schema_ref("http://example.invalid").unwrap_err();
    assert_eq!(
        err.message,
        "Unknown script type schema reference: http://example.invalid"
    );
}

#[test]
fn test_script_new_keeps_text_and_language() {
    let script = Script::new("myVariable > 10", &ScriptType::Groovy);
    assert_eq!(script.script(), "myVariable > 10");
    assert_eq!(script.script_type(), ScriptType::Groovy);
    assert_eq!(script.script_type().schema_ref(), "http://groovy-lang.org");
}

#[test]
fn test_default_script_type_is_xpath() {
    assert_eq!(ScriptType::default(), ScriptType::XPath);
}
