//! The configuration of a run, and its cross-validation.

use crate::error::GenError;
use crate::path::{path_is_empty, path_text};
use std::path::PathBuf;
use vstd::prelude::*;

verus! {

/// The style of the CSV header names and of the JSON keys.
#[derive(Debug, Copy, Clone, PartialEq, Eq)]
pub enum HeaderFormat {
    SnakeCase,
    CamelCase,
    Pretty,
}

/// The format of the output.
#[derive(Debug, Copy, Clone, PartialEq, Eq)]
pub enum OutputFormat {
    JsonPretty,
    JsonL,
    Csv,
}

/// Whether two string slices hold the same text.
pub fn same_text(a: &str, b: &str) -> (same: bool)
    ensures
        same == (a@ == b@),
{
    String::from_str(a) == String::from_str(b)
}

impl OutputFormat {
    /// The name of the format, for messages.
    pub open spec fn name(self) -> Seq<char> {
        match self {
            OutputFormat::JsonPretty => "JSON"@,
            OutputFormat::JsonL => "JSON Lines"@,
            OutputFormat::Csv => "CSV"@,
        }
    }

    /// The name of the format, for messages.
    pub fn to_str(&self) -> (s: &str)
        ensures
            s@ == self.name(),
    {
        match self {
            OutputFormat::JsonPretty => "JSON",
            OutputFormat::JsonL => "JSON Lines",
            OutputFormat::Csv => "CSV",
        }
    }

    /// The format that a file extension stands for.
    pub open spec fn of_extension(extension: Seq<char>) -> Option<OutputFormat> {
        if extension == "csv"@ {
            Some(OutputFormat::Csv)
        } else if extension == "json"@ {
            Some(OutputFormat::JsonPretty)
        } else if extension == "jsonl"@ {
            Some(OutputFormat::JsonL)
        } else {
            None
        }
    }

    /// The format that a file extension stands for: `csv`, `json` or `jsonl`.
    pub fn from_extension(extension: &str) -> (format: Option<OutputFormat>)
        ensures
            format == OutputFormat::of_extension(extension@),
    {
        if same_text(extension, "csv") {
            Some(OutputFormat::Csv)
        } else if same_text(extension, "json") {
            Some(OutputFormat::JsonPretty)
        } else if same_text(extension, "jsonl") {
            Some(OutputFormat::JsonL)
        } else {
            None
        }
    }
}

impl HeaderFormat {
    /// The header format that a name stands for.
    pub open spec fn of_name(name: Seq<char>) -> Option<HeaderFormat> {
        if name == "snake"@ {
            Some(HeaderFormat::SnakeCase)
        } else if name == "pretty"@ {
            Some(HeaderFormat::Pretty)
        } else if name == "camel"@ {
            Some(HeaderFormat::CamelCase)
        } else {
            None
        }
    }

    /// The header format that a name stands for: `snake`, `pretty` or `camel`.
    pub fn from_name(name: &str) -> (format: Option<HeaderFormat>)
        ensures
            format == HeaderFormat::of_name(name@),
    {
        if same_text(name, "snake") {
            Some(HeaderFormat::SnakeCase)
        } else if same_text(name, "pretty") {
            Some(HeaderFormat::Pretty)
        } else if same_text(name, "camel") {
            Some(HeaderFormat::CamelCase)
        } else {
            None
        }
    }
}

/// The configuration of a run.
#[derive(Debug)]
pub struct Arguments {
    pub female_percent: u32,
    pub male_percent: u32,
    pub generate_ssns: bool,
    pub generate_ids: bool,
    pub generate_salaries: bool,
    pub salary_mean: u32,
    pub salary_sigma: u32,
    pub header_format: HeaderFormat,
    pub year_min: u32,
    pub year_max: u32,
    pub male_first_names_file: PathBuf,
    pub female_first_names_file: PathBuf,
    pub last_names_file: PathBuf,
    pub output_file: PathBuf,
    pub output_format: OutputFormat,
    pub total: u32,
}

/// What is wrong with two percentages and a range of years, if anything: the
/// percentages must add up to 100, and the first year must not lie after the
/// last.
pub open spec fn ratio_and_years_error(
    female_percent: u32,
    male_percent: u32,
    year_min: u32,
    year_max: u32,
) -> Option<GenError> {
    if female_percent + male_percent != 100 {
        Some(GenError::PercentSum)
    } else if year_min > year_max {
        Some(GenError::YearRange { min: year_min, max: year_max })
    } else {
        None
    }
}

/// Checks two percentages and a range of years.
pub fn check_ratio_and_years(
    female_percent: u32,
    male_percent: u32,
    year_min: u32,
    year_max: u32,
) -> (r: Result<(), GenError>)
    ensures
        match r {
            Ok(_) => ratio_and_years_error(female_percent, male_percent, year_min, year_max)
                is None,
            Err(e) => ratio_and_years_error(female_percent, male_percent, year_min, year_max)
                == Some(e),
        },
{
    if (female_percent as u64 + male_percent as u64) != 100 {
        Err(GenError::PercentSum)
    } else if year_min > year_max {
        Err(GenError::YearRange { min: year_min, max: year_max })
    } else {
        Ok(())
    }
}

impl Arguments {
    /// The first thing that is wrong with the configuration, if anything:
    /// the percentages, the years, then the three name files in turn.
    pub open spec fn config_error(&self) -> Option<GenError> {
        if ratio_and_years_error(
            self.female_percent,
            self.male_percent,
            self.year_min,
            self.year_max,
        ) is Some {
            ratio_and_years_error(
                self.female_percent,
                self.male_percent,
                self.year_min,
                self.year_max,
            )
        } else if path_text(&self.male_first_names_file) == Some(Seq::<char>::empty()) {
            Some(GenError::MissingMaleNames)
        } else if path_text(&self.female_first_names_file) == Some(Seq::<char>::empty()) {
            Some(GenError::MissingFemaleNames)
        } else if path_text(&self.last_names_file) == Some(Seq::<char>::empty()) {
            Some(GenError::MissingLastNames)
        } else {
            None
        }
    }
}

/// Cross-validates the configuration, and hands it back if nothing is wrong
/// with it.
pub fn validate(args: Arguments) -> (r: Result<Arguments, GenError>)
    ensures
        match r {
            Ok(a) => args.config_error() is None && a == args,
            Err(e) => args.config_error() == Some(e),
        },
{
    match check_ratio_and_years(
        args.female_percent,
        args.male_percent,
        args.year_min,
        args.year_max,
    ) {
        Err(e) => Err(e),
        Ok(_) => {
            if path_is_empty(&args.male_first_names_file) {
                Err(GenError::MissingMaleNames)
            } else if path_is_empty(&args.female_first_names_file) {
                Err(GenError::MissingFemaleNames)
            } else if path_is_empty(&args.last_names_file) {
                Err(GenError::MissingLastNames)
            } else {
                Ok(args)
            }
        },
    }
}

} // verus!
