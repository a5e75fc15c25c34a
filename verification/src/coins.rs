//! Coins, their values in cents, and a small option-arithmetic helper.

use vstd::prelude::*;

verus! {

/// The US states and territories a state quarter can come from.
#[derive(Debug, Clone, Copy, PartialEq, Eq, Structural)]
pub enum UsState {
    AK,
    AL,
    AR,
    AS,
    AZ,
    CA,
    CO,
    CT,
    DC,
    DE,
    FL,
    GA,
    GU,
    HI,
    IA,
    ID,
    IL,
    IN,
    KS,
    KY,
    LA,
    MA,
    MD,
    ME,
    MI,
    MN,
    MO,
    MP,
    MS,
    MT,
    NC,
    ND,
    NE,
    NH,
    NJ,
    NM,
    NV,
    NY,
    OH,
    OK,
    OR,
    PA,
    PR,
    RI,
    SC,
    SD,
    TN,
    TX,
    UM,
    UT,
    VA,
    VI,
    VT,
    WA,
    WI,
    WV,
    WY,
}

/// A US coin; a quarter remembers which state it shows.
#[derive(Debug, Clone, Copy)]
pub enum Coin {
    Penny,
    Nickle,
    Dime,
    Quarter(UsState),
}

/// The value of a coin, in cents.
pub open spec fn coin_value(coin: Coin) -> u32 {
    match coin {
        Coin::Penny => 1,
        Coin::Nickle => 5,
        Coin::Dime => 10,
        Coin::Quarter(_) => 25,
    }
}

/// How many cents a coin is worth.
pub fn value_in_cents(coin: Coin) -> (cents: u32)
    ensures
        cents == coin_value(coin),
{
    match coin {
        Coin::Penny => 1,
        Coin::Nickle => 5,
        Coin::Dime => 10,
        Coin::Quarter(_) => 25,
    }
}

/// Count a coin unless it is a quarter: 1 for any other coin, 0 for a
/// quarter.
pub fn count_nonquarter_coins(coin: Coin) -> (count: u32)
    ensures
        count == if coin matches Coin::Quarter(_) {
            0u32
        } else {
            1u32
        },
{
    let mut count: u32 = 0;
    if let Coin::Quarter(_) = coin {
        count
    } else {
        count += 1;
        count
    }
}

/// Add one inside an `Option`: `None` stays `None`.
pub fn plus_one(x: Option<i32>) -> (r: Option<i32>)
    requires
        x matches Some(i) ==> i < i32::MAX,
    ensures
        r == match x {
            None => None::<i32>,
            Some(i) => Some((i + 1) as i32),
        },
{
    match x {
        None => None,
        Some(i) => Some(i + 1),
    }
}

} // verus!
