//! FizzBuzz: the counting game in which multiples of three and five are
//! replaced by words.

use crate::text::{decimal, decimal_string};
use vstd::prelude::*;

verus! {

/// What is said for the number `i`: `FizzBuzz` for a multiple of both three
/// and five, `Fizz` for another multiple of three, `Buzz` for another
/// multiple of five, and otherwise the number itself in decimal.
pub open spec fn word_for(i: nat) -> Seq<char> {
    if i % 3 == 0 && i % 5 == 0 {
        "FizzBuzz"@
    } else if i % 3 == 0 {
        "Fizz"@
    } else if i % 5 == 0 {
        "Buzz"@
    } else {
        decimal(i)
    }
}

/// What is said for the number `i`.
pub fn fizzbuzz(i: u64) -> (word: String)
    ensures
        word@ == word_for(i as nat),
{
    if i % 3 == 0 && i % 5 == 0 {
        "FizzBuzz".to_owned()
    } else if i % 3 == 0 {
        "Fizz".to_owned()
    } else if i % 5 == 0 {
        "Buzz".to_owned()
    } else {
        decimal_string(i)
    }
}

/// What is said for the numbers from 1 to `last`, in order.
pub fn fizzbuzz_upto(last: usize) -> (words: Vec<String>)
    ensures
        words@.len() == last,
        forall|k: int| 0 <= k < last ==> (#[trigger] words@[k])@ == word_for((k + 1) as nat),
{
    let mut words: Vec<String> = Vec::new();
    let mut k: usize = 0;
    while k < last
        invariant
            k <= last,
            words@.len() == k,
            forall|j: int| 0 <= j < k ==> (#[trigger] words@[j])@ == word_for((j + 1) as nat),
        decreases last - k,
    {
        words.push(fizzbuzz(k as u64 + 1));
        k += 1;
    }
    words
}

} // verus!
