use vstd::prelude::*;

verus! {

/// The role attached to an account.
///
/// `Admin` implies every other privilege; `Sponsor` and `DataSetter` are
/// independent of each other; `Basic` carries no privilege.
#[derive(Clone, Copy, Debug, PartialEq, Eq, Structural)]
pub enum AccountStatus {
    Basic,
    Sponsor,
    DataSetter,
    Admin,
}

impl AccountStatus {
    /// True exactly for `Admin`.
    pub fn is_admin(&self) -> (r: bool)
        ensures
            r == (*self is Admin),
    {
        match self {
            AccountStatus::Basic => false,
            AccountStatus::Sponsor => false,
            AccountStatus::DataSetter => false,
            AccountStatus::Admin => true,
        }
    }

    /// True for `Sponsor` and for `Admin` (admins hold every privilege).
    pub fn is_sponsor(&self) -> (r: bool)
        ensures
            r == (*self is Sponsor || *self is Admin),
    {
        match self {
            AccountStatus::Basic => false,
            AccountStatus::Sponsor => true,
            AccountStatus::DataSetter => false,
            AccountStatus::Admin => true,
        }
    }

    /// True for `DataSetter` and for `Admin` (admins hold every privilege).
    pub fn is_data_sponsor(&self) -> (r: bool)
        ensures
            r == (*self is DataSetter || *self is Admin),
    {
        match self {
            AccountStatus::Basic => false,
            AccountStatus::Sponsor => false,
            AccountStatus::DataSetter => true,
            AccountStatus::Admin => true,
        }
    }
}

} // verus!
