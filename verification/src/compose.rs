//! Choosing the words for a sentence that is to be composed.

use crate::text::{contains, has_inside, string_views, to_chars};
use vstd::prelude::*;

verus! {

/// Whether an entry is a single word: not one that was composed of two
/// words, which bears both with a plus sign between them.
pub open spec fn is_single(word: Seq<char>) -> bool {
    !contains(word, " + "@)
}

/// The single words among the entries, in their order.
pub open spec fn singles(words: Seq<Seq<char>>) -> Seq<Seq<char>>
    decreases words.len(),
{
    if words.len() == 0 {
        Seq::empty()
    } else if is_single(words.last()) {
        singles(words.drop_last()).push(words.last())
    } else {
        singles(words.drop_last())
    }
}

/// The single words among the entries.
pub fn single_words(words: &Vec<String>) -> (out: Vec<String>)
    ensures
        string_views(out@) == singles(string_views(words@)),
{
    let plus = to_chars(" + ");
    let mut out: Vec<String> = Vec::new();
    let mut i: usize = 0;
    assert(string_views(words@).take(0) =~= Seq::<Seq<char>>::empty());
    assert(string_views(out@) =~= singles(string_views(words@).take(0)));
    while i < words.len()
        invariant
            i <= words.len(),
            plus@ == " + "@,
            string_views(out@) == singles(string_views(words@).take(i as int)),
        decreases words.len() - i,
    {
        let ghost before = string_views(out@);
        let ghost next = string_views(words@).take(i + 1);
        assert(next.drop_last() =~= string_views(words@).take(i as int));
        assert(next.last() == words@[i as int]@);
        let chars = to_chars(words[i].as_str());
        if !has_inside(&chars, &plus) {
            out.push(words[i].clone());
            assert(string_views(out@) =~= before.push(words@[i as int]@));
        }
        i += 1;
    }
    assert(string_views(words@).take(words.len() as int) =~= string_views(words@));
    out
}

/// The two places among `n` that `seed` picks: the first is the rest of
/// `seed` by `n`, and the second lies behind it, around the end, by a step
/// that the quotient gives.
pub open spec fn picked(n: int, seed: int) -> (int, int) {
    let i = seed % n;
    let step = 1 + (seed / n) % (n - 1);
    (
        i,
        if i + step < n {
            i + step
        } else {
            i + step - n
        },
    )
}

/// Picks two different places among `n`, as `seed` tells. There are none
/// among fewer than two.
pub fn pick_pair(n: usize, seed: u64) -> (r: Option<(usize, usize)>)
    ensures
        r is Some <==> n >= 2,
        r matches Some((i, j)) ==> i < n && j < n && i != j && (i as int, j as int) == picked(
            n as int,
            seed as int,
        ),
{
    if n < 2 {
        return None;
    }
    let m: u128 = n as u128;
    let s: u128 = seed as u128;
    let i: u128 = s % m;
    let step: u128 = 1 + (s / m) % (m - 1);
    let t: u128 = i + step;
    let j: u128 = if t < m {
        t
    } else {
        t - m
    };
    Some((i as usize, j as usize))
}

} // verus!
