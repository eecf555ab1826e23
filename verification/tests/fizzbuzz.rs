use exercises::fizzbuzz::{fizzbuzz, fizzbuzz_upto};

#[test]
fn words_and_numbers() {
    assert_eq!(fizzbuzz(1), "1");
    assert_eq!(fizzbuzz(2), "2");
    assert_eq!(fizzbuzz(3), "Fizz");
    assert_eq!(fizzbuzz(4), "4");
    assert_eq!(fizzbuzz(5), "Buzz");
    assert_eq!(fizzbuzz(6), "Fizz");
    assert_eq!(fizzbuzz(10), "Buzz");
    assert_eq!(fizzbuzz(15), "FizzBuzz");
    assert_eq!(fizzbuzz(30), "FizzBuzz");
    assert_eq!(fizzbuzz(98), "98");
    assert_eq!(fizzbuzz(99), "Fizz");
    assert_eq!(fizzbuzz(100), "Buzz");
    assert_eq!(fizzbuzz(0), "FizzBuzz");
    assert_eq!(fizzbuzz(u64::MAX), "FizzBuzz");
    assert_eq!(fizzbuzz(u64::MAX - 1), "18446744073709551614");
}

#[test]
fn the_first_hundred() {
    let words = fizzbuzz_upto(100);
    assert_eq!(words.len(), 100);
    for (k, word) in words.iter().enumerate() {
        let i = k + 1;
        let expected = if i % 15 == 0 {
            "FizzBuzz".to_string()
        } else if i % 3 == 0 {
            "Fizz".to_string()
        } else if i % 5 == 0 {
            "Buzz".to_string()
        } else {
            i.to_string()
        };
        assert_eq!(*word, expected);
    }
    assert_eq!(words.iter().filter(|w| w.as_str() == "FizzBuzz").count(), 6);
    assert_eq!(words.iter().filter(|w| w.as_str() == "Fizz").count(), 27);
    assert_eq!(words.iter().filter(|w| w.as_str() == "Buzz").count(), 14);
}

#[test]
fn nothing_up_to_zero() {
    assert!(fizzbuzz_upto(0).is_empty());
    assert_eq!(fizzbuzz_upto(1), vec!["1".to_string()]);
}

#[test]
fn words_repeat_every_fifteen() {
    for i in 1u64..200 {
        let here = fizzbuzz(i);
        let there = fizzbuzz(i + 15);
        if i % 3 == 0 || i % 5 == 0 {
            assert_eq!(here, there);
        } else {
            assert_eq!(there, (i + 15).to_string());
        }
    }
}
