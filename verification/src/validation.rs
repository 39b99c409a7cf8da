//! Input validation for identifiers, quantities and prices.
//!
//! Monetary amounts are integer cents throughout the core, and the caps
//! below are its arithmetic budget: with unit prices at most
//! `MAX_UNIT_PRICE_CENTS`, line quantities at most `MAX_LINE_QTY` and carts
//! at most `MAX_CART_LINES` long, every line amount, cart total and balance
//! adjustment the core computes fits exactly in `i64` with no rounding and
//! no overflow. The price cap (one hundred million currency units per unit)
//! deliberately narrows what a float-valued price field would accept;
//! `validate_price` rejects anything above it. On-hand quantities are capped
//! only by their own storage type (`MAX_ITEM_QTY` is `i32`'s maximum).

use vstd::prelude::*;

use crate::chars::char_alphabetic;
use crate::chars::char_alphanumeric;
use crate::chars::char_numeric;
use crate::chars::is_alphabetic_char;
use crate::chars::is_alphanumeric_char;
use crate::chars::is_numeric_char;

verus! {

/// Largest unit price accepted, in cents (one hundred million currency units).
pub const MAX_UNIT_PRICE_CENTS: i64 = 10_000_000_000;

/// Largest on-hand quantity a single item may reach: the storage type's own
/// maximum.
pub const MAX_ITEM_QTY: i32 = 2_147_483_647;

/// Largest quantity accepted on a single cart line.
pub const MAX_LINE_QTY: i32 = 100_000;

/// Largest number of lines accepted in one cart.
pub const MAX_CART_LINES: usize = 1000;

/// Magnitude at which a counterparty balance saturates, in cents.
pub const BALANCE_LIMIT_CENTS: i64 = 8_000_000_000_000_000_000;

/// Characters allowed in a SKU: alphanumeric, hyphen, underscore.
pub open spec fn sku_char_ok(c: char) -> bool {
    char_alphanumeric(c) || c == '-' || c == '_'
}

/// A well-formed SKU: nonempty, at most 50 characters, only allowed characters.
pub open spec fn valid_sku(s: Seq<char>) -> bool {
    &&& 0 < s.len() <= 50
    &&& forall|i: int| 0 <= i < s.len() ==> sku_char_ok(#[trigger] s[i])
}

/// Characters allowed in a username: alphanumeric or underscore.
pub open spec fn username_char_ok(c: char) -> bool {
    char_alphanumeric(c) || c == '_'
}

/// A well-formed username: 3 to 50 characters, only allowed characters.
pub open spec fn valid_username(s: Seq<char>) -> bool {
    &&& 3 <= s.len() <= 50
    &&& forall|i: int| 0 <= i < s.len() ==> username_char_ok(#[trigger] s[i])
}

/// A strong enough password: at least 8 characters, with both a letter and a
/// digit somewhere in it.
pub open spec fn valid_password(s: Seq<char>) -> bool {
    &&& s.len() >= 8
    &&& exists|i: int| 0 <= i < s.len() && char_alphabetic(#[trigger] s[i])
    &&& exists|i: int| 0 <= i < s.len() && char_numeric(#[trigger] s[i])
}

/// A storable unit price: non-negative and within the cap.
pub open spec fn valid_price(p: i64) -> bool {
    0 <= p <= MAX_UNIT_PRICE_CENTS
}

/// A storable on-hand quantity: non-negative (the upper bound is `i32`'s own).
pub open spec fn valid_quantity(q: i32) -> bool {
    0 <= q <= MAX_ITEM_QTY
}

/// Validate a SKU: nonempty, at most 50 characters, alphanumeric with hyphens
/// and underscores.
pub fn validate_sku(sku: &str) -> (r: Result<(), String>)
    ensures
        r is Ok <==> valid_sku(sku@),
        r matches Err(m) ==> m@ == (if sku@.len() == 0 {
            "SKU bos olamaz"@
        } else if sku@.len() > 50 {
            "SKU en fazla 50 karakter olmali"@
        } else {
            "SKU sadece harf, rakam, tire ve alt cizgi icermeli"@
        }),
{
    let n = sku.unicode_len();
    if n == 0 {
        return Err(String::from_str("SKU bos olamaz"));
    }
    if n > 50 {
        return Err(String::from_str("SKU en fazla 50 karakter olmali"));
    }
    let mut i: usize = 0;
    while i < n
        invariant
            n == sku@.len(),
            0 < n <= 50,
            i <= n,
            forall|j: int| 0 <= j < i ==> sku_char_ok(#[trigger] sku@[j]),
        decreases n - i,
    {
        let c = sku.get_char(i);
        if !(is_alphanumeric_char(c) || c == '-' || c == '_') {
            return Err(String::from_str("SKU sadece harf, rakam, tire ve alt cizgi icermeli"));
        }
        i += 1;
    }
    Ok(())
}

/// Validate a username: 3 to 50 characters, alphanumeric and underscore only.
pub fn validate_username(username: &str) -> (r: Result<(), String>)
    ensures
        r is Ok <==> valid_username(username@),
        r matches Err(m) ==> m@ == (if username@.len() < 3 {
            "Kullanici adi en az 3 karakter olmali"@
        } else if username@.len() > 50 {
            "Kullanici adi en fazla 50 karakter olmali"@
        } else {
            "Kullanici adi sadece harf, rakam ve alt cizgi icermeli"@
        }),
{
    let n = username.unicode_len();
    if n < 3 {
        return Err(String::from_str("Kullanici adi en az 3 karakter olmali"));
    }
    if n > 50 {
        return Err(String::from_str("Kullanici adi en fazla 50 karakter olmali"));
    }
    let mut i: usize = 0;
    while i < n
        invariant
            n == username@.len(),
            3 <= n <= 50,
            i <= n,
            forall|j: int| 0 <= j < i ==> username_char_ok(#[trigger] username@[j]),
        decreases n - i,
    {
        let c = username.get_char(i);
        if !(is_alphanumeric_char(c) || c == '_') {
            return Err(String::from_str("Kullanici adi sadece harf, rakam ve alt cizgi icermeli"));
        }
        i += 1;
    }
    Ok(())
}

/// Validate password strength: at least 8 characters, with at least one
/// letter and at least one digit.
pub fn validate_password_strength(password: &str) -> (r: Result<(), String>)
    ensures
        r is Ok <==> valid_password(password@),
{
    let n = password.unicode_len();
    if n < 8 {
        return Err(String::from_str("Sifre en az 8 karakter olmali"));
    }
    let mut has_letter = false;
    let mut has_digit = false;
    let mut i: usize = 0;
    while i < n
        invariant
            n == password@.len(),
            i <= n,
            has_letter <==> exists|j: int|
                0 <= j < i && char_alphabetic(#[trigger] password@[j]),
            has_digit <==> exists|j: int| 0 <= j < i && char_numeric(#[trigger] password@[j]),
        decreases n - i,
    {
        let c = password.get_char(i);
        if is_alphabetic_char(c) {
            has_letter = true;
        }
        if is_numeric_char(c) {
            has_digit = true;
        }
        i += 1;
    }
    if !has_letter {
        return Err(String::from_str("Sifre en az bir harf icermeli"));
    }
    if !has_digit {
        return Err(String::from_str("Sifre en az bir rakam icermeli"));
    }
    Ok(())
}

/// Validate a unit price in cents: non-negative and within the cap.
///
/// The cap is this crate's choice, not the storage type's: it is the bound
/// under which every total the sale processor computes stays within `i64`.
pub fn validate_price(price: i64) -> (r: Result<(), String>)
    ensures
        r is Ok <==> valid_price(price),
        r matches Err(m) ==> m@ == (if price < 0 {
            "Fiyat negatif olamaz"@
        } else {
            "Gecersiz fiyat degeri"@
        }),
{
    if price < 0 {
        return Err(String::from_str("Fiyat negatif olamaz"));
    }
    if price > MAX_UNIT_PRICE_CENTS {
        return Err(String::from_str("Gecersiz fiyat degeri"));
    }
    Ok(())
}

/// Validate an on-hand quantity: non-negative.
pub fn validate_quantity(quantity: i32) -> (r: Result<(), String>)
    ensures
        r is Ok <==> quantity >= 0,
        r is Ok <==> valid_quantity(quantity),
        r matches Err(m) ==> m@ == "Miktar negatif olamaz"@,
{
    if quantity < 0 {
        return Err(String::from_str("Miktar negatif olamaz"));
    }
    Ok(())
}

} // verus!
