//! Capability keys: short random strings of ASCII letters.
use rand::seq::IteratorRandom;
use vstd::prelude::*;

verus! {

/// Number of characters in a capability key.
pub const KEY_LEN: usize = 10;

/// An ASCII letter, upper or lower case.
pub open spec fn is_key_char(c: char) -> bool {
    ('a' <= c && c <= 'z') || ('A' <= c && c <= 'Z')
}

/// A well-formed capability key.
pub open spec fn is_key(s: Seq<char>) -> bool {
    &&& s.len() == KEY_LEN
    &&& forall|k: int| 0 <= k < s.len() ==> is_key_char(#[trigger] s[k])
}

/// Relies on rand's `IteratorRandom::choose_multiple` over `thread_rng`: it
/// returns `amount` items of the iterator (all of them when there are fewer),
/// each taken from the iterator.
#[verifier::external_body]
fn choose_chars(alphabet: &str, amount: usize) -> (r: String)
    ensures
        r@.len() == if amount <= alphabet@.len() {
            amount as int
        } else {
            alphabet@.len() as int
        },
        forall|k: int| 0 <= k < r@.len() ==> alphabet@.contains(#[trigger] r@[k]),
{
    alphabet.chars().choose_multiple(&mut rand::thread_rng(), amount).into_iter().collect()
}

/// A fresh random key of `KEY_LEN` letters.
pub fn gen_key() -> (r: String)
    ensures
        is_key(r@),
{
    let letters = "abcdefghijklmnopqrstuvwxyzABCDEFGHIJKLMNOPQRSTUVWXYZ";
    proof {
        reveal_strlit("abcdefghijklmnopqrstuvwxyzABCDEFGHIJKLMNOPQRSTUVWXYZ");
    }
    let r = choose_chars(letters, KEY_LEN);
    assert forall|k: int| 0 <= k < r@.len() implies is_key_char(#[trigger] r@[k]) by {
        let j = choose|j: int| 0 <= j < letters@.len() && letters@[j] == r@[k];
    }
    r
}

} // verus!
