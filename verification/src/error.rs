//! The ways in which a run fails.

use crate::text::{decimal, push_decimal};
use vstd::prelude::*;
use vstd::string::StringExecFns;

verus! {

/// The class of a failure.
#[derive(Clone, Copy, Debug, PartialEq, Eq)]
pub enum ErrorKind {
    /// The configuration is not usable. Found before any person is made.
    Configuration,
    /// The synthesis itself failed. No person is handed out.
    Generation,
}

/// A failure of the library.
#[derive(Clone, Copy, Debug, PartialEq, Eq)]
pub enum GenError {
    /// The two percentages do not add up to 100.
    PercentSum,
    /// The first year of birth lies after the last.
    YearRange { min: u32, max: u32 },
    /// No file of male first names was named.
    MissingMaleNames,
    /// No file of female first names was named.
    MissingFemaleNames,
    /// No file of last names was named.
    MissingLastNames,
    /// A salary was drawn below zero. `draw` is the draw as the bits of a
    /// single-precision number.
    NegativeSalary { draw: u32 },
}

impl GenError {
    /// The class of the failure.
    pub open spec fn spec_kind(self) -> ErrorKind {
        match self {
            GenError::NegativeSalary { .. } => ErrorKind::Generation,
            _ => ErrorKind::Configuration,
        }
    }

    /// The class of the failure.
    pub fn kind(&self) -> (kind: ErrorKind)
        ensures
            kind == self.spec_kind(),
    {
        match self {
            GenError::NegativeSalary { .. } => ErrorKind::Generation,
            _ => ErrorKind::Configuration,
        }
    }

    /// The message for a human reader.
    pub open spec fn message_text(self) -> Seq<char> {
        match self {
            GenError::PercentSum => "Female and male percentages must add up to 100."@,
            GenError::YearRange { min, max } => "Minimum year "@ + decimal(min as nat)
                + " exceeds maximum year "@ + decimal(max as nat) + "."@,
            GenError::MissingMaleNames =>
                "Male first names file not specified, and PEOPLEGEN_MALE_FIRST_NAMES not set in environment."@,
            GenError::MissingFemaleNames =>
                "Female first names file not specified, and PEOPLEGEN_FEMALE_FIRST_NAMES not set in environment."@,
            GenError::MissingLastNames =>
                "Last names file not specified, and PEOPLEGEN_LAST_NAMES is not set in environment."@,
            GenError::NegativeSalary { .. } => "Generated negative salary."@,
        }
    }

    /// The message for a human reader.
    pub fn message(&self) -> (s: String)
        ensures
            s@ == self.message_text(),
    {
        match self {
            GenError::PercentSum => String::from_str(
                "Female and male percentages must add up to 100.",
            ),
            GenError::YearRange { min, max } => {
                let mut s = String::from_str("Minimum year ");
                push_decimal(&mut s, *min as u64);
                s.append(" exceeds maximum year ");
                push_decimal(&mut s, *max as u64);
                s.append(".");
                s
            },
            GenError::MissingMaleNames => String::from_str(
                "Male first names file not specified, and PEOPLEGEN_MALE_FIRST_NAMES not set in environment.",
            ),
            GenError::MissingFemaleNames => String::from_str(
                "Female first names file not specified, and PEOPLEGEN_FEMALE_FIRST_NAMES not set in environment.",
            ),
            GenError::MissingLastNames => String::from_str(
                "Last names file not specified, and PEOPLEGEN_LAST_NAMES is not set in environment.",
            ),
            GenError::NegativeSalary { .. } => String::from_str("Generated negative salary."),
        }
    }
}

} // verus!
