//! Primes by trial division, and the table of the first hundred of them.

use vstd::arithmetic::div_mod::{lemma_fundamental_div_mod, lemma_fundamental_div_mod_converse};
use vstd::prelude::*;

verus! {

/// `d` divides `n`.
pub open spec fn divides(d: int, n: int) -> bool {
    n % d == 0
}

/// No number strictly between 1 and `n` divides `n`. This holds of every
/// prime, and also of 0 and 1, which have no number in between.
pub open spec fn undivided(n: int) -> bool {
    forall|d: int| 1 < d < n ==> !#[trigger] divides(d, n)
}

/// `n` is a prime number.
pub open spec fn is_prime_number(n: int) -> bool {
    1 < n && undivided(n)
}

/// The number of primes smaller than `n`.
pub open spec fn primes_below(n: int) -> int
    decreases n,
{
    if n <= 2 {
        0
    } else if is_prime_number(n - 1) {
        primes_below(n - 1) + 1
    } else {
        primes_below(n - 1)
    }
}

/// `p` is the prime that has exactly `k` primes below it: the first prime for
/// `k` = 0, the second for `k` = 1, and so on.
pub open spec fn is_nth_prime(p: int, k: int) -> bool {
    is_prime_number(p) && primes_below(p) == k
}

/// Whether no number strictly between 1 and `n` divides `n`. For `n` of 2 or
/// more this says whether `n` is prime; 0 and 1 pass as well.
pub fn is_prime(n: usize) -> (prime: bool)
    ensures
        prime == undivided(n as int),
{
    let mut i: usize = 2;
    while i < n
        invariant
            2 <= i,
            forall|d: int| 1 < d < i ==> !#[trigger] divides(d, n as int),
        decreases n - i,
    {
        if n % i == 0 {
            assert(divides(i as int, n as int));
            return false;
        }
        i += 1;
    }
    true
}

/// Fills `primes` with the first hundred primes in increasing order, from 2
/// to 541.
pub fn get_primes(primes: &mut [usize; 100])
    ensures
        forall|k: int| 0 <= k < 100 ==> is_nth_prime(#[trigger] final(primes)@[k] as int, k),
        final(primes)@ == first_hundred_primes(),
{
    let mut i: usize = 2;
    let mut count: usize = 0;
    while count < 100
        invariant
            2 <= i <= 542,
            count <= 100,
            count == primes_below(i as int),
            forall|k: int| 0 <= k < count ==> is_nth_prime(#[trigger] primes@[k] as int, k),
        decreases 542 - i,
    {
        proof {
            if i == 542 {
                lemma_primes_up_to_541();
            }
        }
        if is_prime(i) {
            primes[count] = i;
            count += 1;
        }
        i += 1;
    }
    proof {
        let table = first_hundred_primes();
        lemma_first_hundred_primes();
        assert forall|k: int| 0 <= k < 100 implies primes@[k] == table[k] by {
            lemma_nth_prime_ordered(primes@[k] as int, k, table[k] as int, k);
        }
    }
}

/// The more numbers lie below, the more primes do.
pub proof fn lemma_primes_below_grows(a: int, b: int)
    requires
        a <= b,
    ensures
        primes_below(a) <= primes_below(b),
    decreases b - a,
{
    if a < b {
        lemma_primes_below_grows(a, b - 1);
    }
}

/// The primes come in increasing order: one with fewer primes below it is
/// the smaller one, and each rank is held by one prime only.
pub proof fn lemma_nth_prime_ordered(p: int, j: int, q: int, k: int)
    requires
        is_nth_prime(p, j),
        is_nth_prime(q, k),
    ensures
        j < k <==> p < q,
        j == k <==> p == q,
{
    if p < q {
        lemma_primes_below_grows(p + 1, q);
    }
    if q < p {
        lemma_primes_below_grows(q + 1, p);
    }
}

/// A number `f` from 2 to 23 that divides `p` has a prime factor, one of the
/// nine primes up to 23 and no larger than `f`, which then divides `p` too.
proof fn lemma_small_factor(p: int, f: int)
    requires
        2 <= f <= 23,
        divides(f, p),
    ensures
        ({
            ||| p % 2 == 0
            ||| 3 <= f && p % 3 == 0
            ||| 5 <= f && p % 5 == 0
            ||| 7 <= f && p % 7 == 0
            ||| 11 <= f && p % 11 == 0
            ||| 13 <= f && p % 13 == 0
            ||| 17 <= f && p % 17 == 0
            ||| 19 <= f && p % 19 == 0
            ||| 23 <= f && p % 23 == 0
        }),
{
    if f == 4 || f == 6 || f == 8 || f == 10 || f == 12 || f == 14 || f == 16 || f == 18 || f
        == 20 || f == 22 {
        assert(p % 2 == 0) by {
            let t = f / 2;
            lemma_fundamental_div_mod(p, f);
            assert(f * (p / f) == 2 * (t * (p / f))) by (nonlinear_arith)
                requires
                    f == 2 * t,
            ;
        }
    } else if f == 9 || f == 15 || f == 21 {
        assert(p % 3 == 0) by {
            let t = f / 3;
            lemma_fundamental_div_mod(p, f);
            assert(f * (p / f) == 3 * (t * (p / f))) by (nonlinear_arith)
                requires
                    f == 3 * t,
            ;
        }
    }
}

/// A number below 24 * 24 that none of the primes up to 23 divides, unless it
/// is that prime itself, is prime.
proof fn lemma_prime_below_576(p: int)
    requires
        1 < p < 576,
        p % 2 != 0 || p == 2,
        p % 3 != 0 || p == 3,
        p % 5 != 0 || p == 5,
        p % 7 != 0 || p == 7,
        p % 11 != 0 || p == 11,
        p % 13 != 0 || p == 13,
        p % 17 != 0 || p == 17,
        p % 19 != 0 || p == 19,
        p % 23 != 0 || p == 23,
    ensures
        is_prime_number(p),
{
    assert forall|d: int| 1 < d < p implies !#[trigger] divides(d, p) by {
        if divides(d, p) {
            let e = p / d;
            lemma_fundamental_div_mod(p, d);
            assert(1 < e < p && (d < 24 || e < 24)) by (nonlinear_arith)
                requires
                    p == d * e,
                    1 < d < p,
                    p < 576,
            ;
            assert(divides(e, p)) by {
                lemma_fundamental_div_mod_converse(p, e, d, 0);
            }
            let f = if d < 24 {
                d
            } else {
                e
            };
            lemma_small_factor(p, f);
        }
    }
}

/// One of the primes up to 23 divides `m` and is smaller than `m`.
spec fn has_small_divisor(m: int) -> bool {
    ||| 2 < m && m % 2 == 0
    ||| 3 < m && m % 3 == 0
    ||| 5 < m && m % 5 == 0
    ||| 7 < m && m % 7 == 0
    ||| 11 < m && m % 11 == 0
    ||| 13 < m && m % 13 == 0
    ||| 17 < m && m % 17 == 0
    ||| 19 < m && m % 19 == 0
    ||| 23 < m && m % 23 == 0
}

/// Every number from `lo` up to, but not including, `hi` has a small
/// divisor.
spec fn composite_run(lo: int, hi: int) -> bool
    decreases hi - lo,
{
    if lo >= hi {
        true
    } else {
        has_small_divisor(lo) && composite_run(lo + 1, hi)
    }
}

/// A run of numbers with small divisors holds no prime.
proof fn lemma_no_prime_in_run(lo: int, hi: int)
    requires
        2 <= lo <= hi,
        composite_run(lo, hi),
    ensures
        primes_below(hi) == primes_below(lo),
    decreases hi - lo,
{
    if lo < hi {
        lemma_no_prime_in_run(lo + 1, hi);
        assert(!is_prime_number(lo)) by {
            assert(divides(2, lo) || divides(3, lo) || divides(5, lo) || divides(7, lo) || divides(
                11,
                lo,
            ) || divides(13, lo) || divides(17, lo) || divides(19, lo) || divides(23, lo));
        }
    }
}

/// Where exactly `k` primes lie below `p + 1`, every number between `p` and
/// `q` has a small divisor, and `q` is prime, `q` is the prime with `k`
/// primes below it.
proof fn lemma_next_prime(p: int, q: int, k: int)
    requires
        primes_below(p + 1) == k,
        1 <= p < q < 576,
        composite_run(p + 1, q),
        q % 2 != 0 || q == 2,
        q % 3 != 0 || q == 3,
        q % 5 != 0 || q == 5,
        q % 7 != 0 || q == 7,
        q % 11 != 0 || q == 11,
        q % 13 != 0 || q == 13,
        q % 17 != 0 || q == 17,
        q % 19 != 0 || q == 19,
        q % 23 != 0 || q == 23,
    ensures
        is_nth_prime(q, k),
        primes_below(q + 1) == k + 1,
{
    lemma_prime_below_576(q);
    lemma_no_prime_in_run(p + 1, q);
}

/// The first hundred primes, in increasing order.
pub open spec fn first_hundred_primes() -> Seq<usize> {
    seq![
        2, 3, 5, 7, 11, 13, 17, 19, 23, 29, 31, 37, 41, 43, 47, 53, 59, 61, 67, 71, 73, 79, 83,
        89, 97, 101, 103, 107, 109, 113, 127, 131, 137, 139, 149, 151, 157, 163, 167, 173, 179,
        181, 191, 193, 197, 199, 211, 223, 227, 229, 233, 239, 241, 251, 257, 263, 269, 271,
        277, 281, 283, 293, 307, 311, 313, 317, 331, 337, 347, 349, 353, 359, 367, 373, 379,
        383, 389, 397, 401, 409, 419, 421, 431, 433, 439, 443, 449, 457, 461, 463, 467, 479,
        487, 491, 499, 503, 509, 521, 523, 541,
    ]
}

/// Every entry of the table is the prime of its rank: entry `k` is prime and
/// has exactly `k` primes below it.
pub proof fn lemma_first_hundred_primes()
    ensures
        first_hundred_primes().len() == 100,
        forall|k: int|
            0 <= k < 100 ==> is_nth_prime(#[trigger] first_hundred_primes()[k] as int, k),
{
    lemma_primes_up_to_97();
    lemma_primes_up_to_229();
    lemma_primes_up_to_379();
    lemma_primes_up_to_541();
}

/// The first quarter of the table: the primes from 2 to 97, each with
/// its rank. Exactly twenty-five primes lie below 98.
proof fn lemma_primes_up_to_97()
    ensures
        primes_below(98) == 25,
        is_nth_prime(2, 0),
        is_nth_prime(3, 1),
        is_nth_prime(5, 2),
        is_nth_prime(7, 3),
        is_nth_prime(11, 4),
        is_nth_prime(13, 5),
        is_nth_prime(17, 6),
        is_nth_prime(19, 7),
        is_nth_prime(23, 8),
        is_nth_prime(29, 9),
        is_nth_prime(31, 10),
        is_nth_prime(37, 11),
        is_nth_prime(41, 12),
        is_nth_prime(43, 13),
        is_nth_prime(47, 14),
        is_nth_prime(53, 15),
        is_nth_prime(59, 16),
        is_nth_prime(61, 17),
        is_nth_prime(67, 18),
        is_nth_prime(71, 19),
        is_nth_prime(73, 20),
        is_nth_prime(79, 21),
        is_nth_prime(83, 22),
        is_nth_prime(89, 23),
        is_nth_prime(97, 24),
{
    reveal_with_fuel(composite_run, 20);
    lemma_next_prime(1, 2, 0);
    lemma_next_prime(2, 3, 1);
    lemma_next_prime(3, 5, 2);
    lemma_next_prime(5, 7, 3);
    lemma_next_prime(7, 11, 4);
    lemma_next_prime(11, 13, 5);
    lemma_next_prime(13, 17, 6);
    lemma_next_prime(17, 19, 7);
    lemma_next_prime(19, 23, 8);
    lemma_next_prime(23, 29, 9);
    lemma_next_prime(29, 31, 10);
    lemma_next_prime(31, 37, 11);
    lemma_next_prime(37, 41, 12);
    lemma_next_prime(41, 43, 13);
    lemma_next_prime(43, 47, 14);
    lemma_next_prime(47, 53, 15);
    lemma_next_prime(53, 59, 16);
    lemma_next_prime(59, 61, 17);
    lemma_next_prime(61, 67, 18);
    lemma_next_prime(67, 71, 19);
    lemma_next_prime(71, 73, 20);
    lemma_next_prime(73, 79, 21);
    lemma_next_prime(79, 83, 22);
    lemma_next_prime(83, 89, 23);
    lemma_next_prime(89, 97, 24);
}

/// The second quarter of the table: the primes from 101 to 229, each with
/// its rank. Exactly fifty primes lie below 230.
proof fn lemma_primes_up_to_229()
    ensures
        primes_below(230) == 50,
        is_nth_prime(101, 25),
        is_nth_prime(103, 26),
        is_nth_prime(107, 27),
        is_nth_prime(109, 28),
        is_nth_prime(113, 29),
        is_nth_prime(127, 30),
        is_nth_prime(131, 31),
        is_nth_prime(137, 32),
        is_nth_prime(139, 33),
        is_nth_prime(149, 34),
        is_nth_prime(151, 35),
        is_nth_prime(157, 36),
        is_nth_prime(163, 37),
        is_nth_prime(167, 38),
        is_nth_prime(173, 39),
        is_nth_prime(179, 40),
        is_nth_prime(181, 41),
        is_nth_prime(191, 42),
        is_nth_prime(193, 43),
        is_nth_prime(197, 44),
        is_nth_prime(199, 45),
        is_nth_prime(211, 46),
        is_nth_prime(223, 47),
        is_nth_prime(227, 48),
        is_nth_prime(229, 49),
{
    reveal_with_fuel(composite_run, 20);
    lemma_primes_up_to_97();
    lemma_next_prime(97, 101, 25);
    lemma_next_prime(101, 103, 26);
    lemma_next_prime(103, 107, 27);
    lemma_next_prime(107, 109, 28);
    lemma_next_prime(109, 113, 29);
    lemma_next_prime(113, 127, 30);
    lemma_next_prime(127, 131, 31);
    lemma_next_prime(131, 137, 32);
    lemma_next_prime(137, 139, 33);
    lemma_next_prime(139, 149, 34);
    lemma_next_prime(149, 151, 35);
    lemma_next_prime(151, 157, 36);
    lemma_next_prime(157, 163, 37);
    lemma_next_prime(163, 167, 38);
    lemma_next_prime(167, 173, 39);
    lemma_next_prime(173, 179, 40);
    lemma_next_prime(179, 181, 41);
    lemma_next_prime(181, 191, 42);
    lemma_next_prime(191, 193, 43);
    lemma_next_prime(193, 197, 44);
    lemma_next_prime(197, 199, 45);
    lemma_next_prime(199, 211, 46);
    lemma_next_prime(211, 223, 47);
    lemma_next_prime(223, 227, 48);
    lemma_next_prime(227, 229, 49);
}

/// The third quarter of the table: the primes from 233 to 379, each with
/// its rank. Exactly seventy-five primes lie below 380.
proof fn lemma_primes_up_to_379()
    ensures
        primes_below(380) == 75,
        is_nth_prime(233, 50),
        is_nth_prime(239, 51),
        is_nth_prime(241, 52),
        is_nth_prime(251, 53),
        is_nth_prime(257, 54),
        is_nth_prime(263, 55),
        is_nth_prime(269, 56),
        is_nth_prime(271, 57),
        is_nth_prime(277, 58),
        is_nth_prime(281, 59),
        is_nth_prime(283, 60),
        is_nth_prime(293, 61),
        is_nth_prime(307, 62),
        is_nth_prime(311, 63),
        is_nth_prime(313, 64),
        is_nth_prime(317, 65),
        is_nth_prime(331, 66),
        is_nth_prime(337, 67),
        is_nth_prime(347, 68),
        is_nth_prime(349, 69),
        is_nth_prime(353, 70),
        is_nth_prime(359, 71),
        is_nth_prime(367, 72),
        is_nth_prime(373, 73),
        is_nth_prime(379, 74),
{
    reveal_with_fuel(composite_run, 20);
    lemma_primes_up_to_229();
    lemma_next_prime(229, 233, 50);
    lemma_next_prime(233, 239, 51);
    lemma_next_prime(239, 241, 52);
    lemma_next_prime(241, 251, 53);
    lemma_next_prime(251, 257, 54);
    lemma_next_prime(257, 263, 55);
    lemma_next_prime(263, 269, 56);
    lemma_next_prime(269, 271, 57);
    lemma_next_prime(271, 277, 58);
    lemma_next_prime(277, 281, 59);
    lemma_next_prime(281, 283, 60);
    lemma_next_prime(283, 293, 61);
    lemma_next_prime(293, 307, 62);
    lemma_next_prime(307, 311, 63);
    lemma_next_prime(311, 313, 64);
    lemma_next_prime(313, 317, 65);
    lemma_next_prime(317, 331, 66);
    lemma_next_prime(331, 337, 67);
    lemma_next_prime(337, 347, 68);
    lemma_next_prime(347, 349, 69);
    lemma_next_prime(349, 353, 70);
    lemma_next_prime(353, 359, 71);
    lemma_next_prime(359, 367, 72);
    lemma_next_prime(367, 373, 73);
    lemma_next_prime(373, 379, 74);
}

/// The fourth quarter of the table: the primes from 383 to 541, each with
/// its rank. Exactly a hundred primes lie below 542.
proof fn lemma_primes_up_to_541()
    ensures
        primes_below(542) == 100,
        is_nth_prime(383, 75),
        is_nth_prime(389, 76),
        is_nth_prime(397, 77),
        is_nth_prime(401, 78),
        is_nth_prime(409, 79),
        is_nth_prime(419, 80),
        is_nth_prime(421, 81),
        is_nth_prime(431, 82),
        is_nth_prime(433, 83),
        is_nth_prime(439, 84),
        is_nth_prime(443, 85),
        is_nth_prime(449, 86),
        is_nth_prime(457, 87),
        is_nth_prime(461, 88),
        is_nth_prime(463, 89),
        is_nth_prime(467, 90),
        is_nth_prime(479, 91),
        is_nth_prime(487, 92),
        is_nth_prime(491, 93),
        is_nth_prime(499, 94),
        is_nth_prime(503, 95),
        is_nth_prime(509, 96),
        is_nth_prime(521, 97),
        is_nth_prime(523, 98),
        is_nth_prime(541, 99),
{
    reveal_with_fuel(composite_run, 20);
    lemma_primes_up_to_379();
    lemma_next_prime(379, 383, 75);
    lemma_next_prime(383, 389, 76);
    lemma_next_prime(389, 397, 77);
    lemma_next_prime(397, 401, 78);
    lemma_next_prime(401, 409, 79);
    lemma_next_prime(409, 419, 80);
    lemma_next_prime(419, 421, 81);
    lemma_next_prime(421, 431, 82);
    lemma_next_prime(431, 433, 83);
    lemma_next_prime(433, 439, 84);
    lemma_next_prime(439, 443, 85);
    lemma_next_prime(443, 449, 86);
    lemma_next_prime(449, 457, 87);
    lemma_next_prime(457, 461, 88);
    lemma_next_prime(461, 463, 89);
    lemma_next_prime(463, 467, 90);
    lemma_next_prime(467, 479, 91);
    lemma_next_prime(479, 487, 92);
    lemma_next_prime(487, 491, 93);
    lemma_next_prime(491, 499, 94);
    lemma_next_prime(499, 503, 95);
    lemma_next_prime(503, 509, 96);
    lemma_next_prime(509, 521, 97);
    lemma_next_prime(521, 523, 98);
    lemma_next_prime(523, 541, 99);
}

} // verus!
