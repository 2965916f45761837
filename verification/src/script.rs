//! Scripts: guard expressions attached to conditional sequence flows. The
//! engine stores and classifies them; it does not execute them.

use vstd::prelude::*;
use crate::errors::EnumParseError;
use crate::text::str_eq;

verus! {

/// The language a script is written in.
#[derive(Clone, Copy, PartialEq, Eq, Structural, Debug)]
pub enum ScriptType {
    Groovy,
    Java,
    JavaScript,
    JUEL,
    Lua,
    Python,
    XPath,
}

impl Default for ScriptType {
    /// The default script language.
    fn default() -> (r: Self)
        ensures
            r == ScriptType::XPath,
    {
        ScriptType::XPath
    }
}

/// The schema reference URI that names each script language.
pub open spec fn spec_schema_ref(t: ScriptType) -> Seq<char> {
    match t {
        ScriptType::Groovy => "http://groovy-lang.org"@,
        ScriptType::Java => "http://www.java.com"@,
        ScriptType::JavaScript => "http://www.javascript.com"@,
        ScriptType::JUEL => "http://www.juel.org"@,
        ScriptType::Lua => "http://www.lua.org"@,
        ScriptType::Python => "http://www.python.org"@,
        ScriptType::XPath => "http://www.w3.org/1999/XPath"@,
    }
}

/// The script language named by a schema reference URI, if any.
pub open spec fn spec_from_schema_ref(s: Seq<char>) -> Option<ScriptType> {
    if s == spec_schema_ref(ScriptType::Groovy) {
        Some(ScriptType::Groovy)
    } else if s == spec_schema_ref(ScriptType::Java) {
        Some(ScriptType::Java)
    } else if s == spec_schema_ref(ScriptType::JavaScript) {
        Some(ScriptType::JavaScript)
    } else if s == spec_schema_ref(ScriptType::JUEL) {
        Some(ScriptType::JUEL)
    } else if s == spec_schema_ref(ScriptType::Lua) {
        Some(ScriptType::Lua)
    } else if s == spec_schema_ref(ScriptType::Python) {
        Some(ScriptType::Python)
    } else if s == spec_schema_ref(ScriptType::XPath) {
        Some(ScriptType::XPath)
    } else {
        None
    }
}

impl ScriptType {
    /// Returns the schema reference URI for this script language.
    pub fn schema_ref(&self) -> (r: &str)
        ensures
            r@ == spec_schema_ref(*self),
    {
        match self {
            ScriptType::Groovy => "http://groovy-lang.org",
            ScriptType::Java => "http://www.java.com",
            ScriptType::JavaScript => "http://www.javascript.com",
            ScriptType::JUEL => "http://www.juel.org",
            ScriptType::Lua => "http://www.lua.org",
            ScriptType::Python => "http://www.python.org",
            ScriptType::XPath => "http://www.w3.org/1999/XPath",
        }
    }

    /// Resolves a schema reference URI to its script language; unknown URIs
    /// are rejected.
    pub fn from_schema_ref(schema_ref: &str) -> (r: Result<Self, EnumParseError>)
        ensures
            match r {
                Ok(t) => spec_from_schema_ref(schema_ref@) == Some(t),
                Err(e) => spec_from_schema_ref(schema_ref@) is None && e.message@
                    == "Unknown script type schema reference: "@ + schema_ref@,
            },
    {
        if str_eq(schema_ref, "http://groovy-lang.org") {
            Ok(ScriptType::Groovy)
        } else if str_eq(schema_ref, "http://www.java.com") {
            Ok(ScriptType::Java)
        } else if str_eq(schema_ref, "http://www.javascript.com") {
            Ok(ScriptType::JavaScript)
        } else if str_eq(schema_ref, "http://www.juel.org") {
            Ok(ScriptType::JUEL)
        } else if str_eq(schema_ref, "http://www.lua.org") {
            Ok(ScriptType::Lua)
        } else if str_eq(schema_ref, "http://www.python.org") {
            Ok(ScriptType::Python)
        } else if str_eq(schema_ref, "http://www.w3.org/1999/XPath") {
            Ok(ScriptType::XPath)
        } else {
            Err(
                EnumParseError {
                    message: String::from_str("Unknown script type schema reference: ").concat(
                        schema_ref,
                    ),
                },
            )
        }
    }
}

/// An executable script or expression, tagged with its language.
#[derive(Clone, PartialEq, Debug)]
pub enum Script {
    Groovy(String),
    Java(String),
    JavaScript(String),
    JUEL(String),
    Lua(String),
    Python(String),
    XPath(String),
}

/// The language tag of a script value.
pub open spec fn spec_script_type(s: Script) -> ScriptType {
    match s {
        Script::Groovy(_) => ScriptType::Groovy,
        Script::Java(_) => ScriptType::Java,
        Script::JavaScript(_) => ScriptType::JavaScript,
        Script::JUEL(_) => ScriptType::JUEL,
        Script::Lua(_) => ScriptType::Lua,
        Script::Python(_) => ScriptType::Python,
        Script::XPath(_) => ScriptType::XPath,
    }
}

/// The source text of a script value.
pub open spec fn spec_script_text(s: Script) -> Seq<char> {
    match s {
        Script::Groovy(t) => t@,
        Script::Java(t) => t@,
        Script::JavaScript(t) => t@,
        Script::JUEL(t) => t@,
        Script::Lua(t) => t@,
        Script::Python(t) => t@,
        Script::XPath(t) => t@,
    }
}

impl Script {
    /// Builds a script value of the given language from its source text.
    pub fn new(script: &str, script_type: &ScriptType) -> (r: Self)
        ensures
            spec_script_type(r) == *script_type,
            spec_script_text(r) == script@,
    {
        match script_type {
            ScriptType::Groovy => Script::Groovy(String::from_str(script)),
            ScriptType::Java => Script::Java(String::from_str(script)),
            ScriptType::JavaScript => Script::JavaScript(String::from_str(script)),
            ScriptType::JUEL => Script::JUEL(String::from_str(script)),
            ScriptType::Lua => Script::Lua(String::from_str(script)),
            ScriptType::Python => Script::Python(String::from_str(script)),
            ScriptType::XPath => Script::XPath(String::from_str(script)),
        }
    }

    /// Returns the source text of the script.
    pub fn script(&self) -> (r: &str)
        ensures
            r@ == spec_script_text(*self),
    {
        match self {
            Script::Groovy(script) => script.as_str(),
            Script::Java(script) => script.as_str(),
            Script::JavaScript(script) => script.as_str(),
            Script::JUEL(script) => script.as_str(),
            Script::Lua(script) => script.as_str(),
            Script::Python(script) => script.as_str(),
            Script::XPath(script) => script.as_str(),
        }
    }

    /// Returns the language tag of the script.
    pub fn script_type(&self) -> (r: ScriptType)
        ensures
            r == spec_script_type(*self),
    {
        match self {
            Script::Groovy(_) => ScriptType::Groovy,
            Script::Java(_) => ScriptType::Java,
            Script::JavaScript(_) => ScriptType::JavaScript,
            Script::JUEL(_) => ScriptType::JUEL,
            Script::Lua(_) => ScriptType::Lua,
            Script::Python(_) => ScriptType::Python,
            Script::XPath(_) => ScriptType::XPath,
        }
    }
}

} // verus!
