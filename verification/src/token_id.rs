//! Token identifier generation: the path identifier's string form plus a
//! random suffix, so that identifiers of concurrent executions never
//! collide in practice.

use vstd::prelude::*;
use crate::path_identifier::{path_string_of, PathIdentifier};
use crate::text::is_digit_char;

verus! {

/// A character of a lowercase hexadecimal numeral.
pub open spec fn is_lower_hex_char(c: char) -> bool {
    is_digit_char(c) || (97 <= c as u32 && c as u32 <= 102)
}

/// The sequence is a fresh token suffix: thirty-two lowercase hexadecimal
/// characters.
pub open spec fn is_token_suffix(s: Seq<char>) -> bool {
    s.len() == 32 && forall|i: int| 0 <= i < s.len() ==> is_lower_hex_char(s[i])
}

/// Relies on `uuid::Uuid::new_v4` for a random identifier and on its
/// `simple` formatter, which renders it as thirty-two lowercase
/// hexadecimal digits. The value is random: nothing relates two calls.
#[verifier::external_body]
fn fresh_token_suffix() -> (r: String)
    ensures
        is_token_suffix(r@),
{
    uuid::Uuid::new_v4().simple().to_string()
}

/// Generates a token identifier: the path identifier's string form, a
/// separating dash, and a random suffix; an optional debug label is
/// prepended with its own dash.
pub fn generate_token_id(path_identifier: PathIdentifier, debug_identifier: Option<String>) -> (r:
    String)
    ensures
        exists|sfx: Seq<char>|
            is_token_suffix(sfx) && r@ == (match debug_identifier {
                Some(d) => d@ + seq!['-'],
                None => Seq::<char>::empty(),
            }) + path_string_of(path_identifier@) + seq!['-'] + sfx,
{
    let suffix = fresh_token_suffix();
    let mut out = String::new();
    match &debug_identifier {
        Some(d) => {
            out.append(d.as_str());
            proof {
                reveal_strlit("-");
            }
            out.append("-");
        }
        None => {}
    }
    let path_text = path_identifier.to_text();
    out.append(path_text.as_str());
    proof {
        reveal_strlit("-");
    }
    out.append("-");
    out.append(suffix.as_str());
    proof {
        assert(out@ =~= (match debug_identifier {
            Some(d) => d@ + seq!['-'],
            None => Seq::<char>::empty(),
        }) + path_string_of(path_identifier@) + seq!['-'] + suffix@);
    }
    out
}

} // verus!
