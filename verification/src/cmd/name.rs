use crate::cmd::reply::text;
use vstd::prelude::*;
use vstd::utf8::{is_ascii_chars, is_ascii_chars_encode_utf8};

verus! {

/// The letter `A`.
pub const UPPER_A: u8 = 65;

/// The letter `Z`.
pub const UPPER_Z: u8 = 90;

/// The distance from an upper-case letter to its lower-case form.
pub const CASE_GAP: u8 = 32;

/// `b`, in lower case where it is an upper-case letter.
pub open spec fn lowercase_byte(b: u8) -> u8 {
    if UPPER_A <= b <= UPPER_Z {
        (b + CASE_GAP) as u8
    } else {
        b
    }
}

/// `name` with its upper-case letters in lower case.
pub open spec fn lowercase(name: Seq<u8>) -> Seq<u8> {
    Seq::new(name.len(), |i: int| lowercase_byte(name[i]))
}

/// `name` names `command`, a word in lower case, whatever the case of the
/// letters of `name`.
pub open spec fn is_command(name: Seq<u8>, command: &str) -> bool {
    lowercase(name) == text(command)
}

/// `b`, in lower case where it is an upper-case letter.
pub fn to_lowercase_byte(b: u8) -> (lower: u8)
    ensures
        lower == lowercase_byte(b),
{
    if UPPER_A <= b && b <= UPPER_Z {
        b + CASE_GAP
    } else {
        b
    }
}

/// Whether `name` names `command`, a word in lower case.
pub fn names(name: &[u8], command: &str) -> (yes: bool)
    ensures
        yes == is_command(name@, command),
{
    let word = command.as_bytes();
    if name.len() != word.len() {
        return false;
    }
    let mut i: usize = 0;
    while i < name.len()
        invariant
            i <= name.len(),
            name.len() == word.len(),
            word@ == text(command),
            forall|j: int| 0 <= j < i ==> lowercase_byte(#[trigger] name@[j]) == word@[j],
        decreases name.len() - i,
    {
        if to_lowercase_byte(name[i]) != word[i] {
            assert(lowercase(name@)[i as int] != word@[i as int]);
            return false;
        }
        i += 1;
    }
    assert(lowercase(name@) =~= word@);
    true
}

/// The five commands' names differ from each other.
pub proof fn lemma_names_differ()
    ensures
        text("ping") != text("echo"),
        text("ping") != text("get"),
        text("ping") != text("set"),
        text("ping") != text("del"),
        text("echo") != text("get"),
        text("echo") != text("set"),
        text("echo") != text("del"),
        text("get") != text("set"),
        text("get") != text("del"),
        text("set") != text("del"),
{
    reveal_strlit("ping");
    reveal_strlit("echo");
    reveal_strlit("get");
    reveal_strlit("set");
    reveal_strlit("del");
    assert(is_ascii_chars("ping"@));
    assert(is_ascii_chars("echo"@));
    assert(is_ascii_chars("get"@));
    assert(is_ascii_chars("set"@));
    assert(is_ascii_chars("del"@));
    is_ascii_chars_encode_utf8("ping"@);
    is_ascii_chars_encode_utf8("echo"@);
    is_ascii_chars_encode_utf8("get"@);
    is_ascii_chars_encode_utf8("set"@);
    is_ascii_chars_encode_utf8("del"@);
    assert(text("ping")[0] != text("echo")[0]);
    assert(text("echo")[0] != text("get")[0]);
    assert(text("echo")[0] != text("set")[0]);
    assert(text("echo")[0] != text("del")[0]);
    assert(text("get")[0] != text("set")[0]);
    assert(text("get")[0] != text("del")[0]);
    assert(text("set")[0] != text("del")[0]);
}

} // verus!
