use peoplegen::args::{HeaderFormat, OutputFormat};
use peoplegen::calendar::Date;
use peoplegen::headers::{get_headers, Headers};
use peoplegen::output::{
    header_record, id_for, object_of, person_record, person_to_json_object, record_pairs,
    write_csv, write_json, write_jsonl, write_people,
};
use peoplegen::people::{Gender, Person};

fn person(first: &str, middle: &str, last: &str, gender: Gender, ymd: (i32, u32, u32), ssn: &str, salary: u32) -> Person {
    Person {
        first_name: first.to_string(),
        middle_name: middle.to_string(),
        last_name: last.to_string(),
        gender,
        birth_date: Date::from_ymd(ymd.0, ymd.1, ymd.2).unwrap(),
        ssn: ssn.to_string(),
        salary,
    }
}

fn stooges() -> Vec<Person> {
    vec![
        person("Moe", "Larry", "Howard", Gender::Male, (1897, 6, 19), "900-01-0001", 58260),
        person("Ada", "Grace", "O'Neil, Jr.", Gender::Female, (2001, 12, 1), "900-01-0002", 0),
        person("Jo \"J\"", "", "Li\nNg", Gender::Female, (1970, 1, 1), "666-99-9999", 4_294_967_295),
    ]
}

#[test]
fn header_names_of_each_format() {
    let h = get_headers(HeaderFormat::SnakeCase);
    assert_eq!(
        [&h.id, &h.first_name, &h.middle_name, &h.last_name, &h.gender, &h.birth_date, &h.ssn, &h.salary],
        ["id", "first_name", "middle_name", "last_name", "gender", "birth_date", "ssn", "salary"]
    );
    let h = get_headers(HeaderFormat::CamelCase);
    assert_eq!(
        [&h.id, &h.first_name, &h.middle_name, &h.last_name, &h.gender, &h.birth_date, &h.ssn, &h.salary],
        ["id", "firstName", "middleName", "lastName", "gender", "birthDate", "ssn", "salary"]
    );
    let h = get_headers(HeaderFormat::Pretty);
    assert_eq!(
        [&h.id, &h.first_name, &h.middle_name, &h.last_name, &h.gender, &h.birth_date, &h.ssn, &h.salary],
        ["ID", "First Name", "Middle Name", "Last Name", "Gender", "Birth Date", "SSN", "Salary"]
    );
}

#[test]
fn camel_header_with_index_and_identifier() {
    let headers = get_headers(HeaderFormat::CamelCase);
    assert_eq!(
        header_record(&headers, true, true, false),
        vec!["id", "firstName", "middleName", "lastName", "gender", "birthDate", "ssn"]
    );
    let pairs = record_pairs(&stooges()[0], &headers, Some(1), true, false);
    let keys: Vec<&str> = pairs.iter().map(|p| p.0.as_str()).collect();
    assert_eq!(keys, vec!["id", "firstName", "middleName", "lastName", "gender", "birthDate", "ssn"]);
    let object = person_to_json_object(&stooges()[0], &headers, Some(1), true, false);
    let keys: Vec<&str> = object.entries().map(|e| e.0).collect();
    assert_eq!(keys, vec!["id", "firstName", "middleName", "lastName", "gender", "birthDate", "ssn"]);
}

#[test]
fn header_and_row_with_every_choice_of_fields() {
    let headers = get_headers(HeaderFormat::Pretty);
    let p = &stooges()[0];
    assert_eq!(
        header_record(&headers, false, false, false),
        vec!["First Name", "Middle Name", "Last Name", "Gender", "Birth Date"]
    );
    assert_eq!(person_record(p, None, false, false), vec!["Moe", "Larry", "Howard", "M", "1897-06-19"]);
    assert_eq!(
        header_record(&headers, true, true, true),
        vec!["ID", "First Name", "Middle Name", "Last Name", "Gender", "Birth Date", "SSN", "Salary"]
    );
    assert_eq!(
        person_record(p, Some(17), true, true),
        vec!["17", "Moe", "Larry", "Howard", "M", "1897-06-19", "900-01-0001", "58260"]
    );
    assert_eq!(
        header_record(&headers, false, false, true),
        vec!["First Name", "Middle Name", "Last Name", "Gender", "Birth Date", "Salary"]
    );
    assert_eq!(
        person_record(p, None, false, true),
        vec!["Moe", "Larry", "Howard", "M", "1897-06-19", "58260"]
    );
    assert_eq!(
        person_record(p, Some(usize::MAX), true, false)[0],
        format!("{}", usize::MAX)
    );
}

#[test]
fn csv_text() {
    let mut sink = String::from("# ");
    let n = write_csv(&mut sink, HeaderFormat::SnakeCase, true, true, true, stooges());
    assert_eq!(n, 3);
    assert_eq!(
        sink,
        "# id,first_name,middle_name,last_name,gender,birth_date,ssn,salary\n\
         1,Moe,Larry,Howard,M,1897-06-19,900-01-0001,58260\n\
         2,Ada,Grace,\"O'Neil, Jr.\",F,2001-12-01,900-01-0002,0\n\
         3,\"Jo \"\"J\"\"\",,\"Li\nNg\",F,1970-01-01,666-99-9999,4294967295\n"
    );
    let mut sink = String::new();
    let n = write_csv(&mut sink, HeaderFormat::Pretty, false, false, false, Vec::new());
    assert_eq!(n, 0);
    assert_eq!(sink, "First Name,Middle Name,Last Name,Gender,Birth Date\n");
}

#[test]
fn json_lines_text() {
    let mut sink = String::new();
    let n = write_jsonl(&mut sink, HeaderFormat::CamelCase, true, false, true, stooges());
    assert_eq!(n, 3);
    assert_eq!(
        sink,
        "{\"id\":\"1\",\"firstName\":\"Moe\",\"middleName\":\"Larry\",\"lastName\":\"Howard\",\"gender\":\"M\",\"birthDate\":\"1897-06-19\",\"salary\":\"58260\"}\n\
         {\"id\":\"2\",\"firstName\":\"Ada\",\"middleName\":\"Grace\",\"lastName\":\"O'Neil, Jr.\",\"gender\":\"F\",\"birthDate\":\"2001-12-01\",\"salary\":\"0\"}\n\
         {\"id\":\"3\",\"firstName\":\"Jo \\\"J\\\"\",\"middleName\":\"\",\"lastName\":\"Li\\nNg\",\"gender\":\"F\",\"birthDate\":\"1970-01-01\",\"salary\":\"4294967295\"}\n"
    );
    let mut sink = String::from("kept");
    assert_eq!(write_jsonl(&mut sink, HeaderFormat::CamelCase, true, true, true, Vec::new()), 0);
    assert_eq!(sink, "kept");
}

#[test]
fn json_document_text() {
    let mut sink = String::new();
    let people = stooges().into_iter().take(2).collect();
    let n = write_json(&mut sink, HeaderFormat::Pretty, false, true, false, people);
    assert_eq!(n, 2);
    assert_eq!(
        sink,
        "{\"people\":[{\"First Name\":\"Moe\",\"Middle Name\":\"Larry\",\"Last Name\":\"Howard\",\"Gender\":\"M\",\"Birth Date\":\"1897-06-19\",\"SSN\":\"900-01-0001\"},\
         {\"First Name\":\"Ada\",\"Middle Name\":\"Grace\",\"Last Name\":\"O'Neil, Jr.\",\"Gender\":\"F\",\"Birth Date\":\"2001-12-01\",\"SSN\":\"900-01-0002\"}]}\n"
    );
    let mut sink = String::new();
    assert_eq!(write_json(&mut sink, HeaderFormat::Pretty, true, true, true, Vec::new()), 0);
    assert_eq!(sink, "{\"people\":[]}\n");
}

#[test]
fn write_people_picks_the_format() {
    for (header_format, ids, ssns, salaries) in [
        (HeaderFormat::SnakeCase, true, false, true),
        (HeaderFormat::CamelCase, false, true, false),
        (HeaderFormat::Pretty, true, true, true),
    ] {
        let mut by_format = String::new();
        let mut direct = String::new();
        assert_eq!(write_people(&mut by_format, OutputFormat::Csv, header_format, ids, ssns, salaries, stooges()), 3);
        write_csv(&mut direct, header_format, ids, ssns, salaries, stooges());
        assert_eq!(by_format, direct);
        let mut by_format = String::new();
        let mut direct = String::new();
        assert_eq!(write_people(&mut by_format, OutputFormat::JsonL, header_format, ids, ssns, salaries, stooges()), 3);
        write_jsonl(&mut direct, header_format, ids, ssns, salaries, stooges());
        assert_eq!(by_format, direct);
        let mut by_format = String::new();
        let mut direct = String::new();
        assert_eq!(write_people(&mut by_format, OutputFormat::JsonPretty, header_format, ids, ssns, salaries, stooges()), 3);
        write_json(&mut direct, header_format, ids, ssns, salaries, stooges());
        assert_eq!(by_format, direct);
    }
}

fn fields_of_json(value: &json::JsonValue) -> Vec<(String, String)> {
    value.entries().map(|(k, v)| (k.to_string(), v.as_str().unwrap().to_string())).collect()
}

#[test]
fn all_formats_hold_the_same_fields() {
    for header_format in [HeaderFormat::SnakeCase, HeaderFormat::CamelCase, HeaderFormat::Pretty] {
        for flags in 0..8 {
            let (ids, ssns, salaries) = (flags & 1 != 0, flags & 2 != 0, flags & 4 != 0);
            let mut csv_text = String::new();
            write_people(&mut csv_text, OutputFormat::Csv, header_format, ids, ssns, salaries, stooges());
            let mut reader = csv::Reader::from_reader(csv_text.as_bytes());
            let header: Vec<String> = reader.headers().unwrap().iter().map(|h| h.to_string()).collect();
            let from_csv: Vec<Vec<(String, String)>> = reader
                .records()
                .map(|r| header.iter().cloned().zip(r.unwrap().iter().map(|v| v.to_string())).collect())
                .collect();

            let mut jsonl_text = String::new();
            write_people(&mut jsonl_text, OutputFormat::JsonL, header_format, ids, ssns, salaries, stooges());
            assert!(jsonl_text.ends_with('\n'));
            let from_jsonl: Vec<Vec<(String, String)>> =
                jsonl_text.lines().map(|line| fields_of_json(&json::parse(line).unwrap())).collect();

            let mut json_text = String::new();
            write_people(&mut json_text, OutputFormat::JsonPretty, header_format, ids, ssns, salaries, stooges());
            let document = json::parse(&json_text).unwrap();
            assert_eq!(document.len(), 1);
            let from_json: Vec<Vec<(String, String)>> = document["people"].members().map(fields_of_json).collect();

            assert_eq!(from_csv.len(), 3);
            assert_eq!(from_csv, from_jsonl);
            assert_eq!(from_jsonl, from_json);
            if ids {
                let numbers: Vec<&str> = from_csv.iter().map(|r| r[0].1.as_str()).collect();
                assert_eq!(numbers, vec!["1", "2", "3"]);
            }
        }
    }
}

#[test]
fn a_name_that_comes_twice_keeps_its_first_place_and_its_last_value() {
    let headers = Headers {
        id: String::from("k"),
        first_name: String::from("a"),
        middle_name: String::from("k"),
        last_name: String::from("b"),
        gender: String::from("a"),
        birth_date: String::from("c"),
        ssn: String::from("k"),
        salary: String::from("d"),
    };
    let object = person_to_json_object(&stooges()[0], &headers, Some(9), true, true);
    assert_eq!(
        fields_of_json(&object),
        vec![
            (String::from("k"), String::from("900-01-0001")),
            (String::from("a"), String::from("M")),
            (String::from("b"), String::from("Howard")),
            (String::from("c"), String::from("1897-06-19")),
            (String::from("d"), String::from("58260")),
        ]
    );
    assert_eq!(
        object.dump(),
        "{\"k\":\"900-01-0001\",\"a\":\"M\",\"b\":\"Howard\",\"c\":\"1897-06-19\",\"d\":\"58260\"}"
    );
    let pairs = vec![
        (String::from("x"), String::from("1")),
        (String::from("y"), String::from("2")),
        (String::from("x"), String::from("3")),
    ];
    assert_eq!(object_of(&pairs).dump(), "{\"x\":\"3\",\"y\":\"2\"}");
    assert_eq!(object_of(&Vec::new()).dump(), "{}");
}

#[test]
fn running_numbers_start_at_one() {
    assert_eq!(id_for(true, 0), Some(1));
    assert_eq!(id_for(true, 41), Some(42));
    assert_eq!(id_for(false, 0), None);
    assert_eq!(id_for(false, 41), None);
}
