//! Comparing texts character by character.

use vstd::prelude::*;
use vstd::string::StrSliceExecFns;

verus! {

/// Whether two texts hold the same characters.
pub fn same_text(a: &str, b: &str) -> (same: bool)
    ensures
        same == (a@ == b@),
{
    let len = a.unicode_len();
    if len != b.unicode_len() {
        return false;
    }
    let mut i: usize = 0;
    while i < len
        invariant
            i <= len,
            len == a@.len(),
            len == b@.len(),
            forall|k: int| 0 <= k < i ==> a@[k] == b@[k],
        decreases len - i,
    {
        if a.get_char(i) != b.get_char(i) {
            return false;
        }
        i = i + 1;
    }
    assert(a@ =~= b@);
    true
}

/// Whether `text` from index `from` on is `word`.
pub fn rest_is(text: &str, from: usize, word: &str) -> (same: bool)
    requires
        from <= text@.len(),
    ensures
        same == (text@.subrange(from as int, text@.len() as int) == word@),
{
    let len = text.unicode_len();
    let ghost rest = text@.subrange(from as int, len as int);
    if len - from != word.unicode_len() {
        return false;
    }
    let mut i: usize = 0;
    while i < len - from
        invariant
            from <= len,
            i <= len - from,
            len == text@.len(),
            len - from == word@.len(),
            rest == text@.subrange(from as int, len as int),
            forall|k: int| 0 <= k < i ==> rest[k] == word@[k],
        decreases len - from - i,
    {
        if text.get_char(from + i) != word.get_char(i) {
            assert(rest[i as int] != word@[i as int]);
            return false;
        }
        i = i + 1;
    }
    assert(rest =~= word@);
    true
}

} // verus!
