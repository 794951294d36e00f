//! A small annotated service: the operations and types the resolver is
//! exercised on.

use vstd::prelude::*;
use std::collections::HashMap;
use vstd::string::StringSliceAdditionalSpecFns;
use crate::text::{decimal, decimal_string};

verus! {

#[verifier::external_type_specification]
#[verifier::external_body]
pub struct ExAnyhowError(anyhow::Error);

#[verifier::external_type_specification]
#[verifier::external_body]
pub struct ExFmtError(std::fmt::Error);

/// The result of an operation that fails with [`MyError`].
pub type MyResult<T> = Result<T, MyError>;

/// A unit error.
#[derive(Debug, Clone)]
pub struct MyError;

/// A user.
#[derive(Debug, Clone)]
pub struct User {
    pub id: u64,
    pub name: String,
}

/// A receipt for a charge.
#[derive(Debug, Clone)]
pub struct Receipt {
    pub id: String,
    pub cents: u64,
}

/// Why a charge failed.
#[derive(Debug, Clone)]
pub enum ChargeError {
    Declined { code: u32 },
    Offline,
}

/// A billing service.
pub struct Service;

/// `anyhow::Error::msg`: an error carrying `message`. The error is opaque
/// here; nothing is stated about it.
#[verifier::external_body]
fn anyhow_message(message: &'static str) -> anyhow::Error {
    anyhow::Error::msg(message)
}

/// Reserve one unit of `sku`; the reservation is the SKU's length in bytes.
pub fn reserve(sku: &str) -> (r: Result<u32, String>)
    ensures
        r matches Ok(v) && v == (sku.spec_bytes().len() as usize) as u32,
{
    Ok(sku.len() as u32)
}

impl Service {
    /// Charge `cents`; the receipt is identified by the amount.
    pub fn method_charge(&self, cents: u64) -> (r: Result<Receipt, ChargeError>)
        ensures
            r matches Ok(rc) && rc.id@ == decimal(cents as nat) && rc.cents == cents,
    {
        Ok(Receipt { id: decimal_string(cents), cents })
    }
}

/// Echo `name`; the I/O error channel is never used.
pub fn private_io(name: String) -> (r: std::io::Result<String>)
    ensures
        r matches Ok(n) && n@ == name@,
{
    Ok(name)
}

/// `7` when `flag` is set, an error otherwise.
pub fn anyhow_op(flag: bool) -> (r: anyhow::Result<u32>)
    ensures
        flag ==> (r matches Ok(v) && v == 7),
        !flag ==> r is Err,
{
    if flag {
        Ok(7)
    } else {
        Err(anyhow_message("nope"))
    }
}

/// Always succeeds.
pub fn fmt_op() -> (r: std::fmt::Result)
    ensures
        r is Ok,
{
    Ok(())
}

/// Charge `cents` through an explicit receipt list, reserving stock on the
/// way.
pub fn explicit_result(cents: u64) -> (r: Result<Receipt, ChargeError>)
    ensures
        r matches Ok(rc) && rc.id@ == "r1"@ && rc.cents == cents,
{
    let mut receipts: Vec<Receipt> = Vec::new();
    receipts.push(Receipt { id: String::from_str("r1"), cents });
    let _reserved = reserve("sku-1");
    let first = &receipts[0];
    Ok(Receipt { id: first.id.clone(), cents: first.cents })
}

/// Hand the user back.
pub fn local_alias(user: User) -> (r: MyResult<User>)
    ensures
        r matches Ok(u) && u.id == user.id && u.name@ == user.name@,
{
    Ok(user)
}

/// The user with `id`, named "Ada".
pub fn option_user(id: u64) -> (r: Option<User>)
    ensures
        r matches Some(u) && u.id == id && u.name@ == "Ada"@,
{
    Some(User { id, name: String::from_str("Ada") })
}

/// An empty list and an empty map.
pub fn nested() -> (r: (Vec<Option<User>>, HashMap<String, Vec<u8>>))
    ensures
        r.0@.len() == 0,
        r.1@ == Map::<String, Vec<u8>>::empty(),
{
    (Vec::new(), HashMap::new())
}

} // verus!
