use exercises::primes::{get_primes, is_prime};

#[test]
fn small_numbers() {
    assert!(is_prime(0));
    assert!(is_prime(1));
    assert!(is_prime(2));
    assert!(is_prime(3));
    assert!(!is_prime(4));
    assert!(is_prime(5));
    assert!(!is_prime(6));
    assert!(is_prime(7));
    assert!(!is_prime(8));
    assert!(!is_prime(9));
    assert!(!is_prime(10));
}

#[test]
fn larger_numbers() {
    assert!(is_prime(541));
    assert!(!is_prime(542));
    assert!(!is_prime(529));
    assert!(is_prime(7919));
    assert!(!is_prime(7917));
    assert!(!is_prime(7921));
    assert!(is_prime(65537));
}

#[test]
fn agrees_with_a_sieve() {
    let limit = 2000;
    let mut composite = vec![false; limit];
    for i in 2..limit {
        if !composite[i] {
            let mut j = i * i;
            while j < limit {
                composite[j] = true;
                j += i;
            }
        }
    }
    for n in 2..limit {
        assert_eq!(is_prime(n), !composite[n]);
    }
}

#[test]
fn first_hundred_primes() {
    let mut primes = [0; 100];
    get_primes(&mut primes);
    let expected: [usize; 100] = [
        2, 3, 5, 7, 11, 13, 17, 19, 23, 29, 31, 37, 41, 43, 47, 53, 59, 61, 67, 71, 73, 79, 83, 89,
        97, 101, 103, 107, 109, 113, 127, 131, 137, 139, 149, 151, 157, 163, 167, 173, 179, 181,
        191, 193, 197, 199, 211, 223, 227, 229, 233, 239, 241, 251, 257, 263, 269, 271, 277, 281,
        283, 293, 307, 311, 313, 317, 331, 337, 347, 349, 353, 359, 367, 373, 379, 383, 389, 397,
        401, 409, 419, 421, 431, 433, 439, 443, 449, 457, 461, 463, 467, 479, 487, 491, 499, 503,
        509, 521, 523, 541,
    ];
    assert_eq!(primes, expected);
}

#[test]
fn get_primes_overwrites_what_was_there() {
    let mut primes = [usize::MAX; 100];
    get_primes(&mut primes);
    assert_eq!(primes[0], 2);
    assert_eq!(primes[1], 3);
    assert_eq!(primes[24], 97);
    assert_eq!(primes[99], 541);
    for k in 1..100 {
        assert!(primes[k - 1] < primes[k]);
    }
    let mut again = [0; 100];
    get_primes(&mut again);
    assert_eq!(primes, again);
}

#[test]
fn every_entry_counts_the_primes_below_it() {
    let mut primes = [0; 100];
    get_primes(&mut primes);
    for (k, p) in primes.iter().enumerate() {
        assert!(*p >= 2 && is_prime(*p));
        let below = (2..*p).filter(|n| is_prime(*n)).count();
        assert_eq!(below, k);
    }
}
