//! What the renderers share: appending a character to a `String`, what a
//! protocol token is, and the two tokens of a switch.
use vstd::prelude::*;

verus! {

/// `String::push` appends the given character to the end of the string and
/// leaves the characters already in it as they were.
pub assume_specification[ String::push ](s: &mut String, ch: char)
    ensures
        final(s)@ == old(s)@.push(ch),
;

} // verus!

verus! {

/// The characters that separate fields and lines on the wire.
pub open spec fn is_delimiter(c: char) -> bool {
    c == ' ' || c == '\r' || c == '\n'
}

/// A protocol token: at least one character, and no field or line delimiter in it.
pub open spec fn is_token(s: Seq<char>) -> bool {
    &&& s.len() > 0
    &&& forall|k: int| 0 <= k < s.len() ==> !is_delimiter(#[trigger] s[k])
}

/// The token by which the protocol writes a switch: `on` or `off`.
pub open spec fn switch_wire(on: bool) -> Seq<char> {
    if on {
        "on"@
    } else {
        "off"@
    }
}

/// The token of a switch, as a string slice.
pub fn switch_str(on: bool) -> (s: &'static str)
    ensures
        s@ == switch_wire(on),
{
    if on {
        "on"
    } else {
        "off"
    }
}

/// The two switch tokens are proper tokens and differ from each other.
pub proof fn lemma_switch_wire(a: bool, b: bool)
    ensures
        is_token(switch_wire(a)),
        switch_wire(a) == switch_wire(b) ==> a == b,
{
    reveal_strlit("on");
    reveal_strlit("off");
    assert("on"@.len() == 2 && "off"@.len() == 3);
}

} // verus!
