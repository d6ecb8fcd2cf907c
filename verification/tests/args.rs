use peoplegen::args::{check_ratio_and_years, validate, Arguments, HeaderFormat, OutputFormat};
use peoplegen::error::{ErrorKind, GenError};
use peoplegen::path::{path_is_empty, path_str};
use std::path::PathBuf;

fn arguments(female_percent: u32, male_percent: u32, year_min: u32, year_max: u32, files: [&str; 3]) -> Arguments {
    Arguments {
        female_percent,
        male_percent,
        generate_ssns: false,
        generate_ids: false,
        generate_salaries: false,
        salary_mean: 58260,
        salary_sigma: 5000,
        header_format: HeaderFormat::Pretty,
        year_min,
        year_max,
        male_first_names_file: PathBuf::from(files[0]),
        female_first_names_file: PathBuf::from(files[1]),
        last_names_file: PathBuf::from(files[2]),
        output_file: PathBuf::from("people.jsonl"),
        output_format: OutputFormat::JsonL,
        total: 5,
    }
}

#[test]
fn output_format_names() {
    assert_eq!(OutputFormat::JsonPretty.to_str(), "JSON");
    assert_eq!(OutputFormat::JsonL.to_str(), "JSON Lines");
    assert_eq!(OutputFormat::Csv.to_str(), "CSV");
}

#[test]
fn formats_by_extension_and_by_name() {
    assert_eq!(OutputFormat::from_extension("csv"), Some(OutputFormat::Csv));
    assert_eq!(OutputFormat::from_extension("json"), Some(OutputFormat::JsonPretty));
    assert_eq!(OutputFormat::from_extension("jsonl"), Some(OutputFormat::JsonL));
    assert_eq!(OutputFormat::from_extension("CSV"), None);
    assert_eq!(OutputFormat::from_extension(""), None);
    assert_eq!(OutputFormat::from_extension("txt"), None);
    assert_eq!(HeaderFormat::from_name("snake"), Some(HeaderFormat::SnakeCase));
    assert_eq!(HeaderFormat::from_name("camel"), Some(HeaderFormat::CamelCase));
    assert_eq!(HeaderFormat::from_name("pretty"), Some(HeaderFormat::Pretty));
    assert_eq!(HeaderFormat::from_name("Snake"), None);
    assert_eq!(HeaderFormat::from_name("kebab"), None);
}

#[test]
fn a_good_configuration_is_handed_back() {
    let args = validate(arguments(30, 70, 1950, 1950, ["m", "f", "l"])).unwrap();
    assert_eq!((args.female_percent, args.male_percent, args.year_min, args.year_max), (30, 70, 1950, 1950));
    assert_eq!(args.total, 5);
    assert_eq!(path_str(&args.last_names_file), "l");
}

#[test]
fn each_configuration_error_in_its_turn() {
    let e = validate(arguments(30, 71, 2000, 1950, ["", "", ""])).unwrap_err();
    assert_eq!(e, GenError::PercentSum);
    assert_eq!(e.message(), "Female and male percentages must add up to 100.");
    assert_eq!(e.kind(), ErrorKind::Configuration);
    let e = validate(arguments(30, 70, 2000, 1950, ["", "", ""])).unwrap_err();
    assert_eq!(e, GenError::YearRange { min: 2000, max: 1950 });
    assert_eq!(e.message(), "Minimum year 2000 exceeds maximum year 1950.");
    let e = validate(arguments(30, 70, 1950, 2000, ["", "", ""])).unwrap_err();
    assert_eq!(e, GenError::MissingMaleNames);
    assert_eq!(
        e.message(),
        "Male first names file not specified, and PEOPLEGEN_MALE_FIRST_NAMES not set in environment."
    );
    let e = validate(arguments(30, 70, 1950, 2000, ["m", "", ""])).unwrap_err();
    assert_eq!(e, GenError::MissingFemaleNames);
    assert_eq!(
        e.message(),
        "Female first names file not specified, and PEOPLEGEN_FEMALE_FIRST_NAMES not set in environment."
    );
    let e = validate(arguments(30, 70, 1950, 2000, ["m", "f", ""])).unwrap_err();
    assert_eq!(e, GenError::MissingLastNames);
    assert_eq!(
        e.message(),
        "Last names file not specified, and PEOPLEGEN_LAST_NAMES is not set in environment."
    );
    let e = validate(arguments(u32::MAX, 101, 1950, 2000, ["m", "f", "l"])).unwrap_err();
    assert_eq!(e, GenError::PercentSum);
}

#[test]
fn percentages_and_years_alone() {
    assert_eq!(check_ratio_and_years(0, 100, 0, 0), Ok(()));
    assert_eq!(check_ratio_and_years(100, 0, 0, u32::MAX), Ok(()));
    assert_eq!(check_ratio_and_years(50, 49, 1, 2), Err(GenError::PercentSum));
    assert_eq!(check_ratio_and_years(50, 50, 2, 1), Err(GenError::YearRange { min: 2, max: 1 }));
    assert_eq!(
        GenError::YearRange { min: 4_294_967_295, max: 0 }.message(),
        "Minimum year 4294967295 exceeds maximum year 0."
    );
}

#[test]
fn paths_as_text() {
    assert_eq!(path_str(&PathBuf::from("/tmp/names/last.txt")), "/tmp/names/last.txt");
    assert_eq!(path_str(&PathBuf::from("")), "");
    assert_eq!(path_str(&PathBuf::from("rel/\u{e9}t\u{e9}.csv")), "rel/\u{e9}t\u{e9}.csv");
    assert!(path_is_empty(&PathBuf::from("")));
    assert!(path_is_empty(&PathBuf::new()));
    assert!(!path_is_empty(&PathBuf::from(" ")));
    assert!(!path_is_empty(&PathBuf::from("a")));
}
