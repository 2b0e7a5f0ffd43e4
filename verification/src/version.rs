//! Symbol versions: the forty sizes a QR symbol can have.

use vstd::prelude::*;

verus! {

/// Smallest symbol version.
pub const MIN_VERSION: u8 = 1;

/// Largest symbol version.
pub const MAX_VERSION: u8 = 40;

/// Whether `n` numbers one of the forty symbol versions.
pub open spec fn is_version_number(n: int) -> bool {
    MIN_VERSION <= n <= MAX_VERSION
}

/// Modules along one side of a symbol of version `n`.
pub open spec fn side_length_of(n: int) -> int {
    4 * (n - 1) + 21
}

/// Sides are odd and run from 21 modules to 177, four more with each
/// version.
pub proof fn lemma_side_length(n: int)
    requires
        is_version_number(n),
    ensures
        21 <= side_length_of(n) <= 177,
        side_length_of(n) % 2 == 1,
        n < MAX_VERSION ==> side_length_of(n + 1) == side_length_of(n) + 4,
{
}

/// Why a number was refused as a symbol version.
#[derive(Debug)]
pub enum ParseQrVersionError {
    /// The number lies outside `1..=40`.
    OutOfRange(u8),
}

/// A symbol version, always within `1..=40`.
#[derive(Debug, Copy, Clone, Ord, PartialOrd, Eq, PartialEq)]
pub struct QrVersion(u8);

impl View for QrVersion {
    type V = int;

    closed spec fn view(&self) -> int {
        self.0 as int
    }
}

impl QrVersion {
    #[verifier::type_invariant]
    spec fn in_range(self) -> bool {
        is_version_number(self.0 as int)
    }

    /// The version number.
    pub fn to_u8(self) -> (n: u8)
        ensures
            n == self@,
            is_version_number(n as int),
    {
        proof {
            use_type_invariant(&self);
        }
        self.0
    }

    /// Modules along one side of the symbol.
    pub fn side_length(&self) -> (side: usize)
        ensures
            side == side_length_of(self@),
            21 <= side <= 177,
    {
        proof {
            use_type_invariant(self);
        }
        let n: usize = self.0 as usize;
        (n - 1) * 4 + 21
    }
}

impl From<QrVersion> for u8 {
    /// The version number.
    fn from(value: QrVersion) -> (n: u8)
        ensures
            n == value@,
            is_version_number(n as int),
    {
        value.to_u8()
    }
}

impl vstd::std_specs::convert::FromSpecImpl<QrVersion> for u8 {
    open spec fn obeys_from_spec() -> bool {
        true
    }

    closed spec fn from_spec(value: QrVersion) -> u8 {
        value.0
    }
}

impl TryFrom<u8> for QrVersion {
    type Error = ParseQrVersionError;

    /// Accepts exactly the numbers `1..=40`.
    fn try_from(value: u8) -> (r: Result<Self, Self::Error>)
        ensures
            is_version_number(value as int) ==> r is Ok && r->Ok_0@ == value,
            !is_version_number(value as int) ==> r == Err::<QrVersion, ParseQrVersionError>(ParseQrVersionError::OutOfRange(value)),
    {
        if value < MIN_VERSION || value > MAX_VERSION {
            Err(ParseQrVersionError::OutOfRange(value))
        } else {
            Ok(QrVersion(value))
        }
    }
}

impl vstd::std_specs::convert::TryFromSpecImpl<u8> for QrVersion {
    open spec fn obeys_try_from_spec() -> bool {
        true
    }

    closed spec fn try_from_spec(value: u8) -> Result<Self, Self::Error> {
        if is_version_number(value as int) {
            Ok(QrVersion(value))
        } else {
            Err(ParseQrVersionError::OutOfRange(value))
        }
    }
}

} // verus!
