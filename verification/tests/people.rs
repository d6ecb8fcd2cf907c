use peoplegen::args::{Arguments, HeaderFormat, OutputFormat};
use peoplegen::error::{ErrorKind, GenError};
use peoplegen::people::{
    gender_totals, make_people, make_people_in_order, make_person, person_from_draws,
    ssn_repeat_warning, Gender, Person,
};
use peoplegen::random::{random_in_range, random_index, range_member, range_span};
use peoplegen::salary::salary_from_draw;
use std::path::PathBuf;

fn arguments(total: u32, female_percent: u32, male_percent: u32, year_min: u32, year_max: u32) -> Arguments {
    Arguments {
        female_percent,
        male_percent,
        generate_ssns: true,
        generate_ids: true,
        generate_salaries: true,
        salary_mean: 58260,
        salary_sigma: 5000,
        header_format: HeaderFormat::SnakeCase,
        year_min,
        year_max,
        male_first_names_file: PathBuf::from("male.txt"),
        female_first_names_file: PathBuf::from("female.txt"),
        last_names_file: PathBuf::from("last.txt"),
        output_file: PathBuf::from("out.csv"),
        output_format: OutputFormat::Csv,
        total,
    }
}

fn names(list: &[&str]) -> Vec<String> {
    list.iter().map(|s| s.to_string()).collect()
}

fn draws(values: &[f32]) -> Vec<u32> {
    values.iter().map(|v| v.to_bits()).collect()
}

fn steady_draws(total: u32) -> Vec<u32> {
    (0..total).map(|i| (50_000.0f32 + i as f32 * 0.5).to_bits()).collect()
}

#[test]
fn gender_codes() {
    assert_eq!(Gender::Male.to_str(), "M");
    assert_eq!(Gender::Female.to_str(), "F");
    assert_eq!(Gender::Male.to_string(), String::from("M"));
    assert_eq!(Gender::Female.to_string(), String::from("F"));
}

#[test]
fn seventy_percent_female_of_ten() {
    let args = arguments(10, 70, 30, 1950, 2000);
    let male = names(&["Moe", "Larry", "Curly"]);
    let female = names(&["Ada", "Grace"]);
    let last = names(&["Howard", "Fine", "Hopper"]);
    let people = make_people(&args, &male, &female, &last, &steady_draws(10)).unwrap();
    assert_eq!(people.len(), 10);
    assert_eq!(people.iter().filter(|p| p.gender == Gender::Female).count(), 7);
    assert_eq!(people.iter().filter(|p| p.gender == Gender::Male).count(), 3);
}

#[test]
fn population_has_the_requested_size_and_split() {
    let male = names(&["Moe", "Larry", "Curly"]);
    let female = names(&["Ada", "Grace"]);
    let last = names(&["Howard", "Fine", "Hopper"]);
    for (total, female_percent, males) in
        [(0u32, 50u32, 0usize), (1, 50, 0), (3, 50, 1), (3, 30, 3), (3, 70, 0), (7, 100, 0), (7, 0, 7), (999, 33, 670), (250, 51, 122)]
    {
        let args = arguments(total, female_percent, 100 - female_percent, 1990, 1990);
        let people = make_people(&args, &male, &female, &last, &steady_draws(total)).unwrap();
        assert_eq!(people.len(), total as usize);
        let m = people.iter().filter(|p| p.gender == Gender::Male).count();
        let f = people.iter().filter(|p| p.gender == Gender::Female).count();
        assert_eq!(m, males, "total {} female {}", total, female_percent);
        assert_eq!(m + f, total as usize);
    }
}

#[test]
fn rounding_leaves_the_rest_to_the_larger_percentage() {
    assert_eq!(gender_totals(10, 30, 70), (3, 7));
    assert_eq!(gender_totals(10, 70, 30), (7, 3));
    assert_eq!(gender_totals(3, 70, 30), (3, 0));
    assert_eq!(gender_totals(3, 30, 70), (0, 3));
    assert_eq!(gender_totals(3, 50, 50), (1, 2));
    assert_eq!(gender_totals(1, 99, 1), (1, 0));
    assert_eq!(gender_totals(1, 1, 99), (0, 1));
    assert_eq!(gender_totals(u32::MAX, 1, 99), (42_949_672, 4_252_017_623));
    assert_eq!(gender_totals(u32::MAX, 100, 0), (u32::MAX, 0));
}

#[test]
fn people_are_drawn_from_the_lists_and_the_years() {
    let args = arguments(400, 40, 60, 1932, 2004);
    let male = names(&["Moe", "Larry", "Curly"]);
    let female = names(&["Ada", "Grace"]);
    let last = names(&["Howard", "Fine", "Hopper"]);
    let people = make_people(&args, &male, &female, &last, &steady_draws(400)).unwrap();
    for p in &people {
        let first_names = if p.gender == Gender::Male { &male } else { &female };
        assert!(first_names.contains(&p.first_name));
        assert!(first_names.contains(&p.middle_name));
        assert!(last.contains(&p.last_name));
        assert!(1932 <= p.birth_date.year() && p.birth_date.year() <= 2004);
        assert!(1 <= p.birth_date.month() && p.birth_date.month() <= 12);
        assert!(1 <= p.birth_date.day() && p.birth_date.day() <= 31);
    }
    let mut salaries: Vec<u32> = people.iter().map(|p| p.salary).collect();
    salaries.sort();
    let expected: Vec<u32> = (0..400u32).map(|i| 50_000 + i / 2).collect();
    assert_eq!(salaries, expected);
    let mut ssns: Vec<String> = people.iter().map(|p| p.ssn.clone()).collect();
    ssns.sort();
    let expected: Vec<String> = (1..=400).map(|i| format!("900-01-{:04}", i)).collect();
    assert_eq!(ssns, expected);
}

#[test]
fn births_stay_within_a_single_year() {
    let args = arguments(300, 50, 50, 2000, 2000);
    let list = names(&["X"]);
    let people = make_people(&args, &list, &list, &list, &steady_draws(300)).unwrap();
    assert!(people.iter().all(|p| p.birth_date.year() == 2000));
    let args = arguments(50, 50, 50, 0, 0);
    let people = make_people(&args, &list, &list, &list, &steady_draws(50)).unwrap();
    assert!(people.iter().all(|p| p.birth_date.year() == 0));
    let args = arguments(50, 50, 50, 262_142, 262_142);
    let people = make_people(&args, &list, &list, &list, &steady_draws(50)).unwrap();
    assert!(people.iter().all(|p| p.birth_date.year() == 262_142));
}

#[test]
fn unshuffled_people_come_males_first_with_draws_and_identifiers_in_order() {
    let args = arguments(6, 50, 50, 1980, 1981);
    let male = names(&["Moe"]);
    let female = names(&["Ada"]);
    let last = names(&["Howard"]);
    let salary_draws = draws(&[1.0, 2.9, 3.5, 0.0, 70000.25, 6.0]);
    let people = make_people_in_order(&args, &male, &female, &last, &salary_draws).unwrap();
    let genders: Vec<Gender> = people.iter().map(|p| p.gender).collect();
    assert_eq!(
        genders,
        vec![Gender::Male, Gender::Male, Gender::Male, Gender::Female, Gender::Female, Gender::Female]
    );
    let salaries: Vec<u32> = people.iter().map(|p| p.salary).collect();
    assert_eq!(salaries, vec![1, 2, 3, 0, 70000, 6]);
    let ssns: Vec<&str> = people.iter().map(|p| p.ssn.as_str()).collect();
    assert_eq!(
        ssns,
        vec!["900-01-0001", "900-01-0002", "900-01-0003", "900-01-0004", "900-01-0005", "900-01-0006"]
    );
    assert!(people.iter().take(3).all(|p| p.first_name == "Moe" && p.middle_name == "Moe"));
    assert!(people.iter().skip(3).all(|p| p.first_name == "Ada" && p.middle_name == "Ada"));
}

#[test]
fn a_negative_draw_fails_the_run() {
    let args = arguments(4, 50, 50, 1980, 1990);
    let list = names(&["X"]);
    let salary_draws = draws(&[10.0, -0.5, -7.0, 3.0]);
    let failure = make_people(&args, &list, &list, &list, &salary_draws).unwrap_err();
    assert_eq!(failure, GenError::NegativeSalary { draw: (-0.5f32).to_bits() });
    assert_eq!(failure.kind(), ErrorKind::Generation);
    assert_eq!(failure.message(), "Generated negative salary.");
}

#[test]
fn a_wrong_configuration_fails_before_any_draw_is_looked_at() {
    let list = names(&["X"]);
    let salary_draws = draws(&[-1.0, -2.0]);
    let args = arguments(2, 50, 51, 1980, 1990);
    let failure = make_people(&args, &list, &list, &list, &salary_draws).unwrap_err();
    assert_eq!(failure, GenError::PercentSum);
    assert_eq!(failure.kind(), ErrorKind::Configuration);
    let args = arguments(2, 50, 50, 1991, 1990);
    let failure = make_people(&args, &list, &list, &list, &salary_draws).unwrap_err();
    assert_eq!(failure, GenError::YearRange { min: 1991, max: 1990 });
    assert_eq!(failure.message(), "Minimum year 1991 exceeds maximum year 1990.");
    let args = arguments(2, u32::MAX, 101, 1980, 1990);
    let failure = make_people(&args, &list, &list, &list, &salary_draws).unwrap_err();
    assert_eq!(failure, GenError::PercentSum);
}

#[test]
fn salaries_come_from_draws_as_a_cast_would_give_them() {
    let samples = [
        0.0f32, -0.0, 0.4, 0.999_999, 1.0, 1.5, 2.0, 58260.49, 58260.99, 8_388_607.5, 8_388_608.0,
        16_777_215.0, 16_777_216.0, 16_777_218.0, 4_294_967_040.0, 4_294_967_296.0, 1.0e20,
        f32::MAX, f32::INFINITY, f32::NAN, f32::MIN_POSITIVE, 1.0e-40, 123_456.789, 2_147_483_648.0,
    ];
    for v in samples {
        assert_eq!(salary_from_draw(v.to_bits()), Ok(v as u32), "draw {}", v);
    }
    for v in [-1.0e-45f32, -0.25, -1.0, -58260.0, f32::MIN, f32::NEG_INFINITY, -f32::MIN_POSITIVE] {
        assert_eq!(
            salary_from_draw(v.to_bits()),
            Err(GenError::NegativeSalary { draw: v.to_bits() }),
            "draw {}", v
        );
    }
    assert_eq!(salary_from_draw((-f32::NAN).to_bits()), Ok(0));
    let mut bits: u32 = 0;
    for _ in 0..200_000 {
        bits = bits.wrapping_mul(1_664_525).wrapping_add(1_013_904_223);
        let v = f32::from_bits(bits);
        let expected = if v < 0.0 { Err(GenError::NegativeSalary { draw: bits }) } else { Ok(v as u32) };
        assert_eq!(salary_from_draw(bits), expected, "bits {:#x}", bits);
    }
}

#[test]
fn a_person_from_given_draws() {
    let first = names(&["Moe", "Larry", "Curly"]);
    let last = names(&["Howard", "Fine"]);
    let p = person_from_draws(&first, &last, Gender::Male, 42, 2, 0, 1, 951_782_400 + 86_399, String::from("900-01-0001"));
    assert_eq!(p.first_name, "Curly");
    assert_eq!(p.middle_name, "Moe");
    assert_eq!(p.last_name, "Fine");
    assert_eq!(p.gender, Gender::Male);
    assert_eq!(p.salary, 42);
    assert_eq!(p.ssn, "900-01-0001");
    assert_eq!((p.birth_date.year(), p.birth_date.month(), p.birth_date.day()), (2000, 2, 29));
}

#[test]
fn a_person_at_random() {
    let first = names(&["Moe", "Larry", "Curly"]);
    let last = names(&["Howard", "Fine"]);
    for _ in 0..200 {
        let p: Person = make_person(&first, &last, Gender::Female, 7, 0, 86_400 * 3 - 1, String::from("666-99-9999"));
        assert!(first.contains(&p.first_name) && first.contains(&p.middle_name));
        assert!(last.contains(&p.last_name));
        assert_eq!((p.gender, p.salary, p.ssn.as_str()), (Gender::Female, 7, "666-99-9999"));
        assert_eq!((p.birth_date.year(), p.birth_date.month()), (1970, 1));
        assert!(1 <= p.birth_date.day() && p.birth_date.day() <= 3);
    }
}

#[test]
fn warning_where_identifiers_must_repeat() {
    assert_eq!(ssn_repeat_warning(0), None);
    assert_eq!(ssn_repeat_warning(99_980_001), None);
    assert_eq!(
        ssn_repeat_warning(99_980_002),
        Some(String::from(
            "Warning: There are 99,980,001 total unique SSNs.\nYou're generating 99,980,002 people.\nThere will be some repeated SSNs."
        ))
    );
    assert_eq!(
        ssn_repeat_warning(u32::MAX),
        Some(String::from(
            "Warning: There are 99,980,001 total unique SSNs.\nYou're generating 4,294,967,295 people.\nThere will be some repeated SSNs."
        ))
    );
}

#[test]
fn a_draw_from_a_range_is_its_low_end_plus_an_offset() {
    assert_eq!(range_span(0, 0), 0);
    assert_eq!(range_span(-5, 7), 12);
    assert_eq!(range_span(i64::MIN, i64::MAX), u64::MAX);
    assert_eq!(range_span(i64::MAX - 1, i64::MAX), 1);
    assert_eq!(range_member(-5, 0), -5);
    assert_eq!(range_member(-5, 12), 7);
    assert_eq!(range_member(i64::MIN, u64::MAX), i64::MAX);
    assert_eq!(range_member(i64::MIN, 1 << 63), 0);
    let mut seen = [false; 5];
    for _ in 0..2000 {
        let n = random_in_range(-2, 2);
        assert!(-2 <= n && n <= 2);
        seen[(n + 2) as usize] = true;
        assert!(random_index(3) < 3);
        assert_eq!(random_index(1), 0);
        assert_eq!(random_in_range(i64::MIN, i64::MIN), i64::MIN);
    }
    assert_eq!(seen, [true; 5]);
}
