//! Text measurements shared by the document model and the printer.

use vstd::prelude::*;

verus! {

/// The widest column the printer tracks; wider lines count as this wide.
pub const COLUMN_LIMIT: u32 = 0xffff_ffff;

/// `a + b`, held at [`COLUMN_LIMIT`].
pub open spec fn clamp_add(a: int, b: int) -> int {
    if a + b > COLUMN_LIMIT as int {
        COLUMN_LIMIT as int
    } else {
        a + b
    }
}

/// Whether `text` holds a line feed.
pub fn contains_newline(text: &str) -> (r: bool)
    ensures
        r == text@.contains('\n'),
{
    let mut found = false;
    for c in it: text.chars()
        invariant
            it.seq() == text@,
            found == text@.take(it.index()).contains('\n'),
    {
        proof {
            let i = it.index();
            assert(text@.take(i + 1) =~= text@.take(i).push(text@[i]));
            assert(text@.take(i + 1)[i] == text@[i]);
            if text@.take(i).contains('\n') {
                let j = choose|j: int| 0 <= j < i && text@.take(i)[j] == '\n';
                assert(text@.take(i + 1)[j] == '\n');
            }
        }
        if c == '\n' {
            found = true;
        }
    }
    proof {
        assert(text@.take(text@.len() as int) =~= text@);
    }
    found
}

/// The number of characters of `text`, held at [`COLUMN_LIMIT`].
pub fn text_width(text: &str) -> (width: u32)
    ensures
        width as int == clamp_add(0, text@.len() as int),
{
    let mut width: u32 = 0;
    for c in it: text.chars()
        invariant
            it.seq() == text@,
            width as int == clamp_add(0, it.index() as int),
    {
        width = width.saturating_add(1);
    }
    width
}

/// Builds a `String` out of `chars`.
///
/// Trusted: `String`'s `FromIterator<&char>`, which appends the characters in
/// the order in which the iterator yields them.
#[verifier::external_body]
pub(crate) fn string_from_chars(chars: &[char]) -> (text: String)
    ensures
        text@ == chars@,
{
    String::from_iter(chars.iter())
}

} // verus!
