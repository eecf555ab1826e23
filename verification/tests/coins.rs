use exercises::coins::{ways_to_pay, Coins};

fn coins(c500: u64, c100: u64, c50: u64) -> Coins {
    Coins { c500, c100, c50 }
}

#[test]
fn ways_to_pay_3950() {
    let ways = ways_to_pay(3950, coins(10, 3, 10));
    let expected = vec![
        coins(7, 0, 9),
        coins(7, 1, 7),
        coins(7, 2, 5),
        coins(7, 3, 3),
    ];
    assert_eq!(ways, expected);
    let lines: Vec<String> = ways.iter().map(|w| w.describe()).collect();
    assert_eq!(
        lines,
        vec![
            "500円X7+100円X0+50円X9=3950",
            "500円X7+100円X1+50円X7=3950",
            "500円X7+100円X2+50円X5=3950",
            "500円X7+100円X3+50円X3=3950",
        ]
    );
}

#[test]
fn agrees_with_a_plain_search() {
    let stock = coins(3, 7, 9);
    for price in (0..2800).step_by(25) {
        let mut expected = Vec::new();
        for a in 0..=stock.c500 {
            for b in 0..=stock.c100 {
                for c in 0..=stock.c50 {
                    if a * 500 + b * 100 + c * 50 == price {
                        expected.push(coins(a, b, c));
                    }
                }
            }
        }
        assert_eq!(ways_to_pay(price, stock), expected);
    }
}

#[test]
fn nothing_costs_nothing() {
    assert_eq!(ways_to_pay(0, coins(0, 0, 0)), vec![coins(0, 0, 0)]);
    assert_eq!(ways_to_pay(0, coins(2, 2, 2)), vec![coins(0, 0, 0)]);
    assert_eq!(coins(0, 0, 0).describe(), "500円X0+100円X0+50円X0=0");
}

#[test]
fn prices_that_cannot_be_paid() {
    assert!(ways_to_pay(50, coins(5, 5, 0)).is_empty());
    assert!(ways_to_pay(75, coins(5, 5, 5)).is_empty());
    assert!(ways_to_pay(10_000, coins(10, 3, 10)).is_empty());
    assert!(ways_to_pay(u64::MAX, coins(1, 1, 1)).is_empty());
}

#[test]
fn large_stock_of_one_kind() {
    let ways = ways_to_pay(500, coins(1_000_000, 0, 0));
    assert_eq!(ways, vec![coins(1, 0, 0)]);
    let ways = ways_to_pay(50_000_000, coins(0, 0, 1_000_000));
    assert_eq!(ways, vec![coins(0, 0, 1_000_000)]);
    assert_eq!(ways[0].describe(), "500円X0+100円X0+50円X1000000=50000000");
}
