//! Conversions between platform identities.

use crate::text::{decimal, push_decimal};
use vstd::prelude::*;
use vstd::string::StringExecFns;

verus! {

/// The 64-bit platform identity of account number zero.
pub const STEAM_ID_BASE: u64 = 76561197960265728;

/// The number that a raw 64-bit identity carries: its distance from the
/// base where it is at or above the base, the raw value itself below it.
pub open spec fn account_offset(steamid64: u64) -> u64 {
    if steamid64 < STEAM_ID_BASE {
        steamid64
    } else {
        (steamid64 - STEAM_ID_BASE) as u64
    }
}

/// The account number that a raw 64-bit identity stands for: the number it
/// carries, where that fits 32 bits. An identity whose number does not fit
/// stands for no account.
pub open spec fn account_of(steamid64: u64) -> Option<u32> {
    if account_offset(steamid64) <= u32::MAX {
        Some(account_offset(steamid64) as u32)
    } else {
        None
    }
}

/// The text reported for a number that does not fit an account number.
pub open spec fn overflow_message(offset: nat) -> Seq<char> {
    "Steam ID3 overflow: "@ + decimal(offset)
}

/// Converts a raw 64-bit platform identity to the 32-bit account number, and
/// rejects an identity whose number does not fit 32 bits, naming the number.
pub fn steamid64_to_steamid3(steamid64: u64) -> (r: Result<u32, String>)
    ensures
        match account_of(steamid64) {
            Some(account) => r == Ok::<u32, String>(account),
            None => r is Err && r->Err_0@ == overflow_message(account_offset(steamid64) as nat),
        },
{
    let offset: u64 = if steamid64 < STEAM_ID_BASE {
        steamid64
    } else {
        steamid64 - STEAM_ID_BASE
    };
    if offset <= 0xFFFF_FFFF {
        Ok(offset as u32)
    } else {
        let mut message = String::from_str("Steam ID3 overflow: ");
        push_decimal(&mut message, offset);
        Err(message)
    }
}

} // verus!
