//! Checks on journal entry text.

use vstd::prelude::*;

verus! {

/// Whether `c` has the Unicode `White_Space` property, as `char::is_whitespace` tests it.
pub open spec fn white_space(c: char) -> bool {
    let v = c as u32;
    ||| 0x09 <= v <= 0x0d
    ||| v == 0x20
    ||| v == 0x85
    ||| v == 0xa0
    ||| v == 0x1680
    ||| 0x2000 <= v <= 0x200a
    ||| v == 0x2028
    ||| v == 0x2029
    ||| v == 0x202f
    ||| v == 0x205f
    ||| v == 0x3000
}

/// Whether `c` is a white space character.
fn is_white_space(c: char) -> (r: bool)
    ensures
        r == white_space(c),
{
    let v = c as u32;
    (0x09 <= v && v <= 0x0d) || v == 0x20 || v == 0x85 || v == 0xa0 || v == 0x1680 || (0x2000
        <= v && v <= 0x200a) || v == 0x2028 || v == 0x2029 || v == 0x202f || v == 0x205f || v
        == 0x3000
}

/// Whether an entry is empty or holds only white space, and so is not worth saving.
pub fn is_blank_entry(entry: &str) -> (r: bool)
    ensures
        r == forall|i: int| 0 <= i < entry@.len() ==> #[trigger] white_space(entry@[i]),
{
    let mut blank = true;
    for c in it: entry.chars()
        invariant
            it.seq() == entry@,
            blank == forall|i: int| 0 <= i < it.index() ==> #[trigger] white_space(entry@[i]),
    {
        if !is_white_space(c) {
            blank = false;
        }
    }
    blank
}

} // verus!
