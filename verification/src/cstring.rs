//! Byte-level logic of the remote memory reader: scanning little-endian
//! words for a terminating NUL byte and accumulating the bytes before it.

use vstd::prelude::*;

verus! {

/// True when `bytes` holds a zero byte somewhere.
pub open spec fn has_nul(bytes: Seq<u8>) -> bool {
    exists|i: int| 0 <= i < bytes.len() && bytes[i] == 0
}

/// The bytes of `bytes` that come before its first zero byte; all of
/// `bytes` when no zero byte occurs.
pub open spec fn take_until_nul(bytes: Seq<u8>) -> Seq<u8>
    decreases bytes.len(),
{
    if bytes.len() == 0 {
        Seq::empty()
    } else if bytes[0] == 0 {
        Seq::empty()
    } else {
        seq![bytes[0]] + take_until_nul(bytes.drop_first())
    }
}

pub proof fn lemma_take_until_nul_whole(bytes: Seq<u8>)
    requires
        !has_nul(bytes),
    ensures
        take_until_nul(bytes) == bytes,
    decreases bytes.len(),
{
    if bytes.len() == 0 {
        assert(take_until_nul(bytes) =~= bytes);
    } else {
        assert(bytes[0] != 0);
        assert(!has_nul(bytes.drop_first())) by {
            assert forall|i: int| 0 <= i < bytes.drop_first().len() implies bytes.drop_first()[i]
                != 0 by {
                assert(bytes.drop_first()[i] == bytes[i + 1]);
            }
        }
        lemma_take_until_nul_whole(bytes.drop_first());
        assert(take_until_nul(bytes) =~= bytes);
    }
}

pub proof fn lemma_take_until_nul_prefix(bytes: Seq<u8>, k: int)
    requires
        0 <= k < bytes.len(),
        bytes[k] == 0,
        forall|j: int| 0 <= j < k ==> bytes[j] != 0,
    ensures
        take_until_nul(bytes) == bytes.subrange(0, k),
    decreases bytes.len(),
{
    if k == 0 {
        assert(take_until_nul(bytes) =~= bytes.subrange(0, 0));
    } else {
        assert(bytes[0] != 0);
        assert(bytes.drop_first()[k - 1] == 0);
        assert forall|j: int| 0 <= j < k - 1 implies bytes.drop_first()[j] != 0 by {
            assert(bytes.drop_first()[j] == bytes[j + 1]);
        }
        lemma_take_until_nul_prefix(bytes.drop_first(), k - 1);
        assert(take_until_nul(bytes) =~= bytes.subrange(0, k));
    }
}

pub proof fn lemma_take_until_nul_nul_free(bytes: Seq<u8>)
    ensures
        !has_nul(take_until_nul(bytes)),
    decreases bytes.len(),
{
    if bytes.len() == 0 || bytes[0] == 0 {
    } else {
        lemma_take_until_nul_nul_free(bytes.drop_first());
        let t = take_until_nul(bytes);
        let rest = take_until_nul(bytes.drop_first());
        assert forall|i: int| 0 <= i < t.len() implies t[i] != 0 by {
            if i > 0 {
                assert(t[i] == rest[i - 1]);
            }
        }
    }
}

/// Append to `buf` the bytes of `word` (little-endian order) that come
/// before the word's first zero byte; report whether a zero byte was seen.
pub fn append_word_until_nul(buf: &mut Vec<u8>, word: &Vec<u8>) -> (found: bool)
    ensures
        final(buf)@ == old(buf)@ + take_until_nul(word@),
        found == has_nul(word@),
{
    let mut i: usize = 0;
    while i < word.len()
        invariant
            0 <= i <= word@.len(),
            buf@ == old(buf)@ + word@.subrange(0, i as int),
            forall|j: int| 0 <= j < i ==> word@[j] != 0,
        decreases word@.len() - i,
    {
        if word[i] == 0 {
            proof {
                lemma_take_until_nul_prefix(word@, i as int);
            }
            return true;
        }
        buf.push(word[i]);
        assert(buf@ =~= old(buf)@ + word@.subrange(0, i + 1));
        i = i + 1;
    }
    proof {
        assert(word@.subrange(0, word@.len() as int) =~= word@);
        lemma_take_until_nul_whole(word@);
    }
    false
}

} // verus!
