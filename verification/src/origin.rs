//! The authenticated source of a transaction.

use vstd::prelude::*;

use crate::AccountId;

verus! {

/// The authenticated source of a transaction. Signature cryptography is out
/// of scope: an `Origin` is treated as already-authenticated input.
#[derive(Clone, Copy, Debug, PartialEq, Eq)]
pub enum Origin {
    Signed(AccountId),
    Root,
    Unsigned,
}

impl Origin {
    /// The signing account, if this origin is `Signed`.
    pub fn signed(&self) -> (r: Option<&AccountId>)
        ensures
            match self {
                Origin::Signed(account_id) => r == Some(account_id),
                _ => r is None,
            },
    {
        if let Origin::Signed(account_id) = self {
            Some(account_id)
        } else {
            None
        }
    }

    /// `Some(())` iff this origin is `Root`.
    pub fn root(&self) -> (r: Option<()>)
        ensures
            r is Some <==> self is Root,
    {
        match self {
            Origin::Root => Some(()),
            _ => None,
        }
    }

    /// `Some(())` iff this origin is `Unsigned`.
    pub fn unsigned(&self) -> (r: Option<()>)
        ensures
            r is Some <==> self is Unsigned,
    {
        match self {
            Origin::Unsigned => Some(()),
            _ => None,
        }
    }
}

} // verus!
