//! Paying a price from a stock of 500, 100 and 50 coins.

use crate::text::{decimal, push_decimal};
use vstd::prelude::*;

verus! {

/// A number of coins of each of the three kinds.
#[derive(Clone, Copy, PartialEq, Eq, Structural, Debug)]
pub struct Coins {
    pub c500: u64,
    pub c100: u64,
    pub c50: u64,
}

impl Coins {
    /// The value of the coins together.
    pub open spec fn total(self) -> int {
        500 * self.c500 + 100 * self.c100 + 50 * self.c50
    }

    /// No kind holds more coins than `stock` holds of it.
    pub open spec fn within(self, stock: Coins) -> bool {
        self.c500 <= stock.c500 && self.c100 <= stock.c100 && self.c50 <= stock.c50
    }

    /// `self` comes before `other` when selections are ordered by their 500
    /// coins first, then by their 100 coins, then by their 50 coins.
    pub open spec fn before(self, other: Coins) -> bool {
        ||| self.c500 < other.c500
        ||| self.c500 == other.c500 && self.c100 < other.c100
        ||| self.c500 == other.c500 && self.c100 == other.c100 && self.c50 < other.c50
    }

    /// The line that describes the selection and its value.
    pub open spec fn line(self) -> Seq<char> {
        "500円X"@ + decimal(self.c500 as nat) + "+100円X"@ + decimal(self.c100 as nat) + "+50円X"@
            + decimal(self.c50 as nat) + "="@ + decimal(self.total() as nat)
    }

    /// The line that describes the selection and its value.
    pub fn describe(&self) -> (text: String)
        requires
            self.total() <= u64::MAX,
        ensures
            text@ == self.line(),
    {
        let total: u64 = 500 * self.c500 + 100 * self.c100 + 50 * self.c50;
        let mut text = String::new();
        text.append("500円X");
        push_decimal(&mut text, self.c500);
        text.append("+100円X");
        push_decimal(&mut text, self.c100);
        text.append("+50円X");
        push_decimal(&mut text, self.c50);
        text.append("=");
        push_decimal(&mut text, total);
        text
    }
}

/// `ways` lists all selections from `stock` worth `price`, each once, ordered
/// by their 500 coins, then their 100 coins, then their 50 coins.
pub open spec fn lists_ways(ways: Seq<Coins>, price: int, stock: Coins) -> bool {
    &&& forall|k: int|
        0 <= k < ways.len() ==> (#[trigger] ways[k]).within(stock) && ways[k].total() == price
    &&& forall|j: int, k: int|
        0 <= j < k < ways.len() ==> (#[trigger] ways[j]).before(#[trigger] ways[k])
    &&& forall|c: Coins| c.within(stock) && c.total() == price ==> #[trigger] ways.contains(c)
}

/// The selection `c` comes before the point `(l500, l100, l50)` of the search,
/// which goes through the 500 coins first, then the 100 coins, then the 50
/// coins.
spec fn searched(c: Coins, l500: int, l100: int, l50: int) -> bool {
    ||| c.c500 < l500
    ||| c.c500 == l500 && c.c100 < l100
    ||| c.c500 == l500 && c.c100 == l100 && c.c50 < l50
}

/// `ways` is the list of `lists_ways` as far as the search has come: it holds
/// the selections that come before the point `(l500, l100, l50)` and no
/// others.
spec fn lists_ways_so_far(
    ways: Seq<Coins>,
    price: int,
    stock: Coins,
    l500: int,
    l100: int,
    l50: int,
) -> bool {
    &&& forall|k: int|
        0 <= k < ways.len() ==> (#[trigger] ways[k]).within(stock) && ways[k].total() == price
            && searched(ways[k], l500, l100, l50)
    &&& forall|j: int, k: int|
        0 <= j < k < ways.len() ==> (#[trigger] ways[j]).before(#[trigger] ways[k])
    &&& forall|c: Coins|
        c.within(stock) && c.total() == price && searched(c, l500, l100, l50)
            ==> #[trigger] ways.contains(c)
}

/// All the ways to pay `price` exactly with coins from `stock`.
pub fn ways_to_pay(price: u64, stock: Coins) -> (ways: Vec<Coins>)
    ensures
        lists_ways(ways@, price as int, stock),
{
    let mut ways: Vec<Coins> = Vec::new();
    let mut c500: u64 = 0;
    loop
        invariant_except_break
            c500 <= stock.c500,
            lists_ways_so_far(ways@, price as int, stock, c500 as int, 0, 0),
        ensures
            lists_ways_so_far(ways@, price as int, stock, stock.c500 + 1, 0, 0),
        decreases stock.c500 - c500,
    {
        let mut c100: u64 = 0;
        loop
            invariant_except_break
                c500 <= stock.c500,
                c100 <= stock.c100,
                lists_ways_so_far(ways@, price as int, stock, c500 as int, c100 as int, 0),
            ensures
                c500 <= stock.c500,
                lists_ways_so_far(ways@, price as int, stock, c500 + 1, 0, 0),
            decreases stock.c100 - c100,
        {
            let mut c50: u64 = 0;
            loop
                invariant_except_break
                    c500 <= stock.c500,
                    c100 <= stock.c100,
                    c50 <= stock.c50,
                    lists_ways_so_far(
                        ways@,
                        price as int,
                        stock,
                        c500 as int,
                        c100 as int,
                        c50 as int,
                    ),
                ensures
                    c500 <= stock.c500,
                    c100 <= stock.c100,
                    lists_ways_so_far(ways@, price as int, stock, c500 as int, c100 + 1, 0),
                decreases stock.c50 - c50,
            {
                let here = Coins { c500, c100, c50 };
                let total: u128 = 500 * (c500 as u128) + 100 * (c100 as u128) + 50 * (c50 as u128);
                if total == price as u128 {
                    let ghost earlier = ways@;
                    ways.push(here);
                    proof {
                        assert forall|c: Coins|
                            c.within(stock) && c.total() == price && searched(
                                c,
                                c500 as int,
                                c100 as int,
                                c50 + 1,
                            ) implies #[trigger] ways@.contains(c) by {
                            if c == here {
                                assert(ways@[earlier.len() as int] == c);
                            } else {
                                assert(earlier.contains(c));
                                let k = choose|k: int| 0 <= k < earlier.len() && earlier[k] == c;
                                assert(ways@[k] == c);
                            }
                        }
                    }
                }
                if c50 == stock.c50 {
                    break ;
                }
                c50 += 1;
            }
            if c100 == stock.c100 {
                break ;
            }
            c100 += 1;
        }
        if c500 == stock.c500 {
            break ;
        }
        c500 += 1;
    }
    ways
}

} // verus!
