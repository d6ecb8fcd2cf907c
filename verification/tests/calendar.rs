use peoplegen::calendar::{
    date_of_timestamp, date_str, first_second_of_year, last_second_of_year, leap_year,
    month_length, Date, MAX_YEAR, MIN_YEAR,
};

#[test]
fn dates_that_exist_and_dates_that_do_not() {
    assert!(Date::from_ymd(2015, 3, 14).is_some());
    assert!(Date::from_ymd(2015, 0, 14).is_none());
    assert!(Date::from_ymd(2015, 13, 1).is_none());
    assert!(Date::from_ymd(2015, 2, 29).is_none());
    assert!(Date::from_ymd(2016, 2, 29).is_some());
    assert!(Date::from_ymd(1900, 2, 29).is_none());
    assert!(Date::from_ymd(2000, 2, 29).is_some());
    assert!(Date::from_ymd(-4, 2, 29).is_some());
    assert!(Date::from_ymd(2023, 4, 31).is_none());
    assert!(Date::from_ymd(2023, 4, 0).is_none());
    assert!(Date::from_ymd(MAX_YEAR, 12, 31).is_some());
    assert!(Date::from_ymd(MAX_YEAR + 1, 1, 1).is_none());
    assert!(Date::from_ymd(MIN_YEAR, 1, 1).is_some());
    assert!(Date::from_ymd(MIN_YEAR - 1, 12, 31).is_none());
    let d = Date::from_ymd(1987, 6, 5).unwrap();
    assert_eq!((d.year(), d.month(), d.day()), (1987, 6, 5));
}

#[test]
fn leap_years_and_month_lengths() {
    assert!(leap_year(2024));
    assert!(!leap_year(2023));
    assert!(!leap_year(2100));
    assert!(leap_year(2400));
    assert!(leap_year(0));
    assert_eq!(month_length(2023, 2), 28);
    assert_eq!(month_length(2024, 2), 29);
    assert_eq!(month_length(2024, 4), 30);
    assert_eq!(month_length(2024, 12), 31);
}

#[test]
fn date_text_is_year_month_day() {
    assert_eq!(date_str(&Date::from_ymd(1999, 12, 31).unwrap()), "1999-12-31");
    assert_eq!(date_str(&Date::from_ymd(2001, 2, 3).unwrap()), "2001-02-03");
    assert_eq!(date_str(&Date::from_ymd(987, 1, 9).unwrap()), "0987-01-09");
    assert_eq!(date_str(&Date::from_ymd(0, 1, 1).unwrap()), "0000-01-01");
    assert_eq!(date_str(&Date::from_ymd(9999, 12, 31).unwrap()), "9999-12-31");
    assert_eq!(date_str(&Date::from_ymd(10000, 1, 1).unwrap()), "+10000-01-01");
    assert_eq!(date_str(&Date::from_ymd(262142, 12, 31).unwrap()), "+262142-12-31");
    assert_eq!(date_str(&Date::from_ymd(-1, 12, 31).unwrap()), "-0001-12-31");
    assert_eq!(date_str(&Date::from_ymd(-12345, 6, 7).unwrap()), "-12345-06-07");
}

#[test]
fn seconds_at_the_ends_of_years() {
    assert_eq!(first_second_of_year(1970), 0);
    assert_eq!(last_second_of_year(1969), -1);
    assert_eq!(first_second_of_year(2000), 946_684_800);
    assert_eq!(last_second_of_year(1999), 946_684_799);
    assert_eq!(first_second_of_year(1932), -1_199_232_000);
    assert_eq!(last_second_of_year(2004), 1_104_537_599);
    assert_eq!(first_second_of_year(1), -62_135_596_800);
    assert_eq!(first_second_of_year(0), -62_167_219_200);
    for year in [-400, -1, 0, 1, 1582, 1900, 1970, 2000, 2024, 9999, 100_000] {
        assert_eq!(last_second_of_year(year) + 1, first_second_of_year(year + 1));
    }
}

#[test]
fn dates_of_timestamps() {
    let date = |t: i64| {
        let d = date_of_timestamp(t);
        (d.year(), d.month(), d.day())
    };
    assert_eq!(date(0), (1970, 1, 1));
    assert_eq!(date(86_399), (1970, 1, 1));
    assert_eq!(date(86_400), (1970, 1, 2));
    assert_eq!(date(-1), (1969, 12, 31));
    assert_eq!(date(-86_400), (1969, 12, 31));
    assert_eq!(date(-86_401), (1969, 12, 30));
    assert_eq!(date(951_782_400), (2000, 2, 29));
    assert_eq!(date(1_431_648_000), (2015, 5, 15));
    assert_eq!(date(first_second_of_year(MIN_YEAR)), (MIN_YEAR, 1, 1));
    assert_eq!(date(last_second_of_year(MAX_YEAR)), (MAX_YEAR, 12, 31));
    for year in [1, 1600, 1899, 1999, 2000, 2023, 2024] {
        assert_eq!(date(first_second_of_year(year)), (year, 1, 1));
        assert_eq!(date(last_second_of_year(year)), (year, 12, 31));
    }
}
