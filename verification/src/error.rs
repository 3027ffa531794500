use vstd::prelude::*;

verus! {

/// The errors that the tip jar reports with a numeric code.
#[derive(Copy, Clone, Debug, PartialEq, Eq, PartialOrd, Ord, Structural)]
pub enum TipJarError {
    AlreadyInitialized,
    TokenNotInitialized,
    InvalidAmount,
    NothingToWithdraw,
    MessageTooLong,
}

/// The numeric code under which each error is reported to callers.
pub open spec fn error_code(e: TipJarError) -> u32 {
    match e {
        TipJarError::AlreadyInitialized => 1,
        TipJarError::TokenNotInitialized => 2,
        TipJarError::InvalidAmount => 3,
        TipJarError::NothingToWithdraw => 4,
        TipJarError::MessageTooLong => 5,
    }
}

impl TipJarError {
    /// The numeric code of this error.
    pub fn code(&self) -> (c: u32)
        ensures
            c == error_code(*self),
    {
        match self {
            TipJarError::AlreadyInitialized => 1,
            TipJarError::TokenNotInitialized => 2,
            TipJarError::InvalidAmount => 3,
            TipJarError::NothingToWithdraw => 4,
            TipJarError::MessageTooLong => 5,
        }
    }
}

/// Why a request to the tip jar was turned down.
///
/// A refused request changes nothing. `Contract` carries one of the coded
/// errors; the other variants are the plain aborts of the contract.
#[derive(Copy, Clone, Debug, PartialEq, Eq, Structural)]
pub enum Refusal {
    /// The contract is paused ("Contract is paused").
    Paused,
    /// The caller is not the administrator ("Unauthorized").
    Unauthorized,
    /// No administrator has been recorded yet.
    AdminMissing,
    /// A coded error.
    Contract(TipJarError),
}

impl Refusal {
    /// The refusal comes only after the caller's authorization was demanded.
    /// The pause flag and the amount and message checks come before it; a
    /// missing token, an empty balance and a missing or different
    /// administrator come after it. Setup demands no authorization and is
    /// refused before any.
    pub open spec fn comes_after_authorization(self) -> bool {
        ||| self == Refusal::Contract(TipJarError::TokenNotInitialized)
        ||| self == Refusal::Contract(TipJarError::NothingToWithdraw)
        ||| self == Refusal::Unauthorized
        ||| self == Refusal::AdminMissing
    }

    /// Whether the caller's authorization is demanded before this refusal.
    pub fn follows_authorization(&self) -> (b: bool)
        ensures
            b == self.comes_after_authorization(),
    {
        match self {
            Refusal::Contract(TipJarError::TokenNotInitialized) => true,
            Refusal::Contract(TipJarError::NothingToWithdraw) => true,
            Refusal::Unauthorized => true,
            Refusal::AdminMissing => true,
            _ => false,
        }
    }
}

} // verus!
