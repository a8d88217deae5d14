//! Paths as the frontend sees them: forward slashes on every platform.
use vstd::prelude::*;
use crate::text::{chars_of, string_of};

verus! {

/// `s` with every backslash turned into a forward slash.
pub open spec fn forward_slashes(s: Seq<char>) -> Seq<char> {
    s.map_values(|c: char| if c == '\\' { '/' } else { c })
}

/// `std::path::MAIN_SEPARATOR`: the platform's path separator, `/` or `\`.
#[verifier::external_body]
fn main_separator() -> (r: char)
    ensures
        r == '/' || r == '\\',
{
    std::path::MAIN_SEPARATOR
}

/// The frontend form of path `p` on a platform whose separator is
/// `separator`: backslashes become forward slashes where the separator is a
/// backslash; elsewhere the path is kept as it is.
pub fn canon_with_separator(p: &str, separator: char) -> (r: String)
    ensures
        separator == '\\' ==> r@ == forward_slashes(p@),
        separator != '\\' ==> r@ == p@,
{
    let cs = chars_of(p);
    if separator != '\\' {
        return string_of(&cs);
    }
    let mut out: Vec<char> = Vec::new();
    let mut i: usize = 0;
    while i < cs.len()
        invariant
            i <= cs@.len(),
            out@ == forward_slashes(cs@.take(i as int)),
        decreases cs.len() - i,
    {
        let c = cs[i];
        out.push(if c == '\\' {
            '/'
        } else {
            c
        });
        proof {
            assert(cs@.take(i + 1) == cs@.take(i as int).push(c));
            assert(forward_slashes(cs@.take(i + 1)) =~= forward_slashes(cs@.take(i as int)).push(
                if c == '\\' {
                    '/'
                } else {
                    c
                },
            ));
        }
        i = i + 1;
    }
    proof {
        assert(cs@.take(cs@.len() as int) == cs@);
    }
    string_of(&out)
}

/// Frontend-facing path: forward slashes on every platform.
pub fn to_canon(p: &str) -> (r: String)
    ensures
        r@ == p@ || r@ == forward_slashes(p@),
{
    canon_with_separator(p, main_separator())
}

} // verus!
