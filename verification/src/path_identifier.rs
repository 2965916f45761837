//! Path identifiers: structured, parseable names for tokens. The string
//! form is `flow_element_id[/loop_index][/parent_token_id]`, each optional
//! segment present only when set, and parsing the string reproduces the
//! three fields.

use vstd::prelude::*;
use crate::runtime_errors::PathIdentifierParseError;
use crate::text::{append_decimal, dec_digits, dec_val, is_digit_char, lemma_dec_digits_val,
    lemma_dec_val_nonneg, parse_decimal, seq_digits};

verus! {

/// The iteration count distinguishing repeated executions of one flow
/// element.
#[derive(Clone, Copy, PartialEq, Eq, Structural, Debug)]
pub struct LoopIdentifier {
    pub loop_index: usize,
}

/// A token's structured name: the flow element it came from, an optional
/// loop iteration, and an optional parent token.
#[derive(Clone, PartialEq, Debug)]
pub struct PathIdentifier {
    pub flow_element_id: String,
    pub loop_id: Option<LoopIdentifier>,
    pub parent_token_id: Option<String>,
}

/// The mathematical content of a path identifier.
pub struct PathIdentifierView {
    pub flow_element_id: Seq<char>,
    pub loop_index: Option<int>,
    pub parent_token_id: Option<Seq<char>>,
}

impl View for PathIdentifier {
    type V = PathIdentifierView;

    open spec fn view(&self) -> PathIdentifierView {
        PathIdentifierView {
            flow_element_id: self.flow_element_id@,
            loop_index: match self.loop_id {
                Some(l) => Some(l.loop_index as int),
                None => None,
            },
            parent_token_id: match self.parent_token_id {
                Some(ref t) => Some(t@),
                None => None,
            },
        }
    }
}

/// The string form of a path identifier: the flow element identifier,
/// then `/` and the loop index when one is set, then `/` and the parent
/// token identifier when one is set.
pub open spec fn path_string_of(v: PathIdentifierView) -> Seq<char> {
    v.flow_element_id + (match v.loop_index {
        Some(n) => seq!['/'] + dec_digits(n as nat),
        None => Seq::<char>::empty(),
    }) + (match v.parent_token_id {
        Some(t) => seq!['/'] + t,
        None => Seq::<char>::empty(),
    })
}

/// The position of the first `/` at or after `from`, or the length of the
/// sequence when there is none.
pub open spec fn first_slash(s: Seq<char>, from: int) -> int
    decreases s.len() - from,
{
    if from < 0 || from >= s.len() {
        s.len() as int
    } else if s[from] == '/' {
        from
    } else {
        first_slash(s, from + 1)
    }
}

proof fn lemma_first_slash_props(s: Seq<char>, from: int)
    requires
        0 <= from <= s.len(),
    ensures
        from <= first_slash(s, from) <= s.len(),
        first_slash(s, from) < s.len() ==> s[first_slash(s, from)] == '/',
        forall|j: int| from <= j < first_slash(s, from) ==> s[j] != '/',
    decreases s.len() - from,
{
    if from < s.len() && s[from] != '/' {
        lemma_first_slash_props(s, from + 1);
    }
}

/// The segment is a well-formed loop index numeral: nonempty, digits only,
/// and small enough to fit the machine's word.
pub open spec fn is_numeric_segment(seg: Seq<char>) -> bool {
    seg.len() > 0 && seq_digits(seg) && dec_val(seg) <= usize::MAX
}

/// The result of parsing a path identifier string: the first segment names
/// the flow element; a following all-digit segment is the loop index; the
/// next segment after that, if any, is the parent token identifier. Empty
/// input does not parse.
pub open spec fn spec_parse_path(s: Seq<char>) -> Option<PathIdentifierView> {
    if s.len() == 0 {
        None
    } else {
        let e1 = first_slash(s, 0);
        let id = s.take(e1);
        if e1 == s.len() {
            Some(PathIdentifierView { flow_element_id: id, loop_index: None, parent_token_id: None })
        } else {
            let s2 = e1 + 1;
            let e2 = first_slash(s, s2);
            let seg2 = s.subrange(s2, e2);
            if is_numeric_segment(seg2) {
                if e2 == s.len() {
                    Some(
                        PathIdentifierView {
                            flow_element_id: id,
                            loop_index: Some(dec_val(seg2)),
                            parent_token_id: None,
                        },
                    )
                } else {
                    let s3 = e2 + 1;
                    let e3 = first_slash(s, s3);
                    Some(
                        PathIdentifierView {
                            flow_element_id: id,
                            loop_index: Some(dec_val(seg2)),
                            parent_token_id: Some(s.subrange(s3, e3)),
                        },
                    )
                }
            } else {
                Some(
                    PathIdentifierView {
                        flow_element_id: id,
                        loop_index: None,
                        parent_token_id: Some(seg2),
                    },
                )
            }
        }
    }
}

impl PathIdentifier {
    /// Names a token created at an event.
    pub fn new_for_event(flow_element_id: String, parent_token_id: Option<String>) -> (r: Self)
        ensures
            r.flow_element_id == flow_element_id,
            r.loop_id is None,
            r.parent_token_id == parent_token_id,
    {
        PathIdentifier { flow_element_id, loop_id: None, parent_token_id }
    }

    /// Names a token traversing a sequence flow.
    pub fn new_for_sequence_flow(flow_element_id: String, parent_token_id: Option<String>) -> (r:
        Self)
        ensures
            r.flow_element_id == flow_element_id,
            r.loop_id is None,
            r.parent_token_id == parent_token_id,
    {
        PathIdentifier { flow_element_id, loop_id: None, parent_token_id }
    }

    /// Names a token at a flow object, with an optional loop iteration.
    pub fn new_for_flow_object(
        flow_element_id: String,
        loop_id: Option<LoopIdentifier>,
        parent_token_id: Option<String>,
    ) -> (r: Self)
        ensures
            r.flow_element_id == flow_element_id,
            r.loop_id == loop_id,
            r.parent_token_id == parent_token_id,
    {
        PathIdentifier { flow_element_id, loop_id, parent_token_id }
    }

    /// Renders the identifier in its string form.
    pub fn to_text(&self) -> (r: String)
        ensures
            r@ == path_string_of(self@),
    {
        let mut out = String::new();
        out.append(self.flow_element_id.as_str());
        match &self.loop_id {
            Some(l) => {
                proof {
                    reveal_strlit("/");
                }
                out.append("/");
                proof {
                    assert(out@ =~= self.flow_element_id@ + seq!['/']);
                }
                append_decimal(&mut out, l.loop_index);
            }
            None => {}
        }
        match &self.parent_token_id {
            Some(p) => {
                proof {
                    reveal_strlit("/");
                }
                out.append("/");
                out.append(p.as_str());
            }
            None => {}
        }
        proof {
            assert(out@ =~= path_string_of(self@));
        }
        out
    }

    /// Parses the string form back into its fields. Fails exactly when the
    /// input is empty.
    pub fn from_text(s: &str) -> (r: Result<Self, PathIdentifierParseError>)
        ensures
            match r {
                Ok(p) => spec_parse_path(s@) == Some(p@),
                Err(e) => s@.len() == 0 && e.message@ == "Input string is empty."@,
            },
    {
        let n = s.unicode_len();
        if n == 0 {
            return Err(
                PathIdentifierParseError { message: String::from_str("Input string is empty.") },
            );
        }
        let e1 = find_slash(s, 0);
        proof {
            lemma_first_slash_props(s@, 0);
        }
        let flow_element_id = String::from_str(s.substring_char(0, e1));
        proof {
            assert(s@.subrange(0, e1 as int) =~= s@.take(e1 as int));
        }
        if e1 == n {
            return Ok(
                PathIdentifier { flow_element_id, loop_id: None, parent_token_id: None },
            );
        }
        let s2 = e1 + 1;
        let e2 = find_slash(s, s2);
        proof {
            lemma_first_slash_props(s@, s2 as int);
        }
        let seg2 = s.substring_char(s2, e2);
        proof {
            assert(seg2@ == s@.subrange(s2 as int, e2 as int));
        }
        match parse_decimal(seg2) {
            Some(v) => {
                proof {
                    assert(is_numeric_segment(seg2@));
                    lemma_dec_val_nonneg(seg2@);
                    assert(v as int == dec_val(seg2@));
                }
                if e2 == n {
                    let r = PathIdentifier {
                        flow_element_id,
                        loop_id: Some(LoopIdentifier { loop_index: v }),
                        parent_token_id: None,
                    };
                    proof {
                        assert(spec_parse_path(s@) == Some(r@));
                    }
                    Ok(r)
                } else {
                    let s3 = e2 + 1;
                    let e3 = find_slash(s, s3);
                    proof {
                        lemma_first_slash_props(s@, s3 as int);
                    }
                    let parent = String::from_str(s.substring_char(s3, e3));
                    let r = PathIdentifier {
                        flow_element_id,
                        loop_id: Some(LoopIdentifier { loop_index: v }),
                        parent_token_id: Some(parent),
                    };
                    proof {
                        assert(spec_parse_path(s@) == Some(r@));
                    }
                    Ok(r)
                }
            }
            None => {
                proof {
                    assert(!is_numeric_segment(seg2@));
                }
                let r = PathIdentifier {
                    flow_element_id,
                    loop_id: None,
                    parent_token_id: Some(String::from_str(seg2)),
                };
                proof {
                    assert(spec_parse_path(s@) == Some(r@));
                }
                Ok(r)
            }
        }
    }
}

/// Finds the first `/` at or after `from`, returning the string's length
/// when there is none.
fn find_slash(s: &str, from: usize) -> (r: usize)
    requires
        from <= s@.len(),
    ensures
        r == first_slash(s@, from as int),
{
    let n = s.unicode_len();
    let mut i: usize = from;
    while i < n
        invariant
            from <= i <= n,
            n == s@.len(),
            forall|j: int| from <= j < i ==> s@[j] != '/',
        decreases n - i,
    {
        if s.get_char(i) == '/' {
            proof {
                lemma_first_slash_props(s@, from as int);
                assert(first_slash(s@, from as int) == i) by {
                    let r = first_slash(s@, from as int);
                    if r < i {
                        assert(s@[r] != '/');
                    }
                    if r > i {
                        assert(s@[i as int] != '/');
                    }
                }
            }
            return i;
        }
        i += 1;
    }
    proof {
        lemma_first_slash_props(s@, from as int);
        assert(first_slash(s@, from as int) == n) by {
            let r = first_slash(s@, from as int);
            if r < n {
                assert(s@[r] != '/');
            }
        }
    }
    n
}

/// Digits are never the separator character.
proof fn lemma_digits_not_slash(s: Seq<char>)
    requires
        seq_digits(s),
    ensures
        forall|j: int| 0 <= j < s.len() ==> s[j] != '/',
{
    assert forall|j: int| 0 <= j < s.len() implies s[j] != '/' by {
        assert(is_digit_char(s[j]));
        assert('/' as u32 == 47);
    }
}

/// Law: for every path identifier whose flow element identifier is nonempty
/// and free of `/`, whose parent token identifier (when present) is free of
/// `/`, and which does not pair an absent loop index with a parent that
/// reads as a numeral, parsing the string form reproduces the identifier:
/// every combination of present and absent loop index and parent round
/// trips.
pub proof fn lemma_path_identifier_round_trip(p: PathIdentifier)
    requires
        p@.flow_element_id.len() > 0,
        forall|j: int|
            0 <= j < p@.flow_element_id.len() ==> p@.flow_element_id[j] != '/',
        p@.parent_token_id matches Some(t) ==> forall|j: int| 0 <= j < t.len() ==> t[j] != '/',
        p@.loop_index is None ==> (p@.parent_token_id matches Some(t) ==> !is_numeric_segment(t)),
    ensures
        spec_parse_path(path_string_of(p@)) == Some(p@),
{
    let v = p@;
    let id = v.flow_element_id;
    let s = path_string_of(v);
    match v.loop_index {
        None => {
            match v.parent_token_id {
                None => {
                    assert(s =~= id);
                    lemma_first_slash_props(s, 0);
                    let e1 = first_slash(s, 0);
                    assert(e1 == s.len());
                    assert(s.take(e1) =~= id);
                }
                Some(t) => {
                    assert(s =~= id + seq!['/'] + t);
                    lemma_first_slash_props(s, 0);
                    let e1 = first_slash(s, 0);
                    assert(s[id.len() as int] == '/');
                    assert(e1 == id.len());
                    assert(s.take(e1) =~= id);
                    let s2 = e1 + 1;
                    lemma_first_slash_props(s, s2);
                    let e2 = first_slash(s, s2);
                    assert(forall|j: int| s2 <= j < s.len() ==> s[j] == t[j - s2] && s[j] != '/');
                    assert(e2 == s.len());
                    assert(s.subrange(s2, e2) =~= t);
                }
            }
        }
        Some(li) => {
            let digits = dec_digits(li as nat);
            lemma_dec_digits_val(li as nat);
            lemma_digits_not_slash(digits);
            match v.parent_token_id {
                None => {
                    assert(s =~= id + seq!['/'] + digits);
                    lemma_first_slash_props(s, 0);
                    let e1 = first_slash(s, 0);
                    assert(s[id.len() as int] == '/');
                    assert(e1 == id.len());
                    assert(s.take(e1) =~= id);
                    let s2 = e1 + 1;
                    lemma_first_slash_props(s, s2);
                    let e2 = first_slash(s, s2);
                    assert(forall|j: int|
                        s2 <= j < s.len() ==> s[j] == digits[j - s2] && s[j] != '/');
                    assert(e2 == s.len());
                    assert(s.subrange(s2, e2) =~= digits);
                    assert(is_numeric_segment(digits));
                    assert(dec_val(digits) == li);
                }
                Some(t) => {
                    assert(s =~= id + seq!['/'] + digits + seq!['/'] + t);
                    lemma_first_slash_props(s, 0);
                    let e1 = first_slash(s, 0);
                    assert(s[id.len() as int] == '/');
                    assert(e1 == id.len());
                    assert(s.take(e1) =~= id);
                    let s2 = e1 + 1;
                    let dend = s2 + digits.len();
                    lemma_first_slash_props(s, s2);
                    let e2 = first_slash(s, s2);
                    assert(forall|j: int| s2 <= j < dend ==> s[j] == digits[j - s2] && s[j] != '/');
                    assert(s[dend] == '/');
                    assert(e2 == dend);
                    assert(s.subrange(s2, e2) =~= digits);
                    assert(is_numeric_segment(digits));
                    assert(dec_val(digits) == li);
                    let s3 = e2 + 1;
                    lemma_first_slash_props(s, s3);
                    let e3 = first_slash(s, s3);
                    assert(forall|j: int| s3 <= j < s.len() ==> s[j] == t[j - s3] && s[j] != '/');
                    assert(e3 == s.len());
                    assert(s.subrange(s3, e3) =~= t);
                }
            }
        }
    }
}

} // verus!
