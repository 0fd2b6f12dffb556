//! Mexican coins and their face value in pesos (fifty-cent pieces counted in
//! centavos).

use vstd::prelude::*;

verus! {

/// The two mintings of the fifty-cent piece.
#[derive(Debug, Clone, Copy, PartialEq, Eq, Structural)]
pub enum FiftyCent {
    Glod,
    Silver,
}

/// A coin in circulation.
#[derive(Debug, Clone, Copy, PartialEq, Eq, Structural)]
pub enum Coin {
    FiftyCentPesos(FiftyCent),
    OnePeso,
    TwoPesos,
    FivePesos,
    TenPesos,
}

/// The coin's face value: centavos for the fifty-cent piece, pesos otherwise.
pub open spec fn coin_value(peso: Coin) -> u8 {
    match peso {
        Coin::FiftyCentPesos(_) => 50,
        Coin::OnePeso => 1,
        Coin::TwoPesos => 2,
        Coin::FivePesos => 5,
        Coin::TenPesos => 10,
    }
}

/// The numeric value of the coin.
pub fn get_value_pesos(peso: Coin) -> (r: u8)
    ensures
        r == coin_value(peso),
{
    match peso {
        Coin::FiftyCentPesos(_) => 50,
        Coin::OnePeso => 1,
        Coin::TwoPesos => 2,
        Coin::FivePesos => 5,
        Coin::TenPesos => 10,
    }
}

} // verus!
