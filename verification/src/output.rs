//! Writing a population out as CSV, as one JSON document, or as JSON Lines.
//!
//! Whatever the format, a person is written as the same fields under the same
//! names, in the same order: the running number, first, middle and last
//! name, gender, date of birth, identifier, salary. Only the envelope differs.

use crate::args::{HeaderFormat, OutputFormat};
use crate::calendar::date_str;
use crate::csv_text::{csv_record_text, texts};
use crate::headers::{get_headers, header_names, lemma_header_names_distinct, HeaderNames, Headers};
use crate::json_tree::{has_key, json_model, json_text, with_member, JsonModel};
use crate::people::Person;
use crate::text::{decimal, push_decimal};
use json::JsonValue;
use vstd::prelude::*;

verus! {

/// The item alone if it is wanted, and nothing otherwise.
pub open spec fn optional<T>(wanted: bool, item: T) -> Seq<T> {
    if wanted {
        seq![item]
    } else {
        Seq::empty()
    }
}

/// The running number of the person at `index`, where such numbers are
/// wanted: they start at 1.
pub open spec fn record_id(generate_ids: bool, index: int) -> Option<usize> {
    if generate_ids {
        Some((index + 1) as usize)
    } else {
        None
    }
}

/// The names of the fields of a record, in their order.
pub open spec fn record_names(
    names: HeaderNames,
    with_id: bool,
    with_ssn: bool,
    with_salary: bool,
) -> Seq<Seq<char>> {
    optional(with_id, names.id) + seq![
        names.first_name,
        names.middle_name,
        names.last_name,
        names.gender,
        names.birth_date,
    ] + optional(with_ssn, names.ssn) + optional(with_salary, names.salary)
}

/// The values of the fields of a person's record, in their order.
pub open spec fn record_values(
    person: Person,
    id: Option<usize>,
    with_ssn: bool,
    with_salary: bool,
) -> Seq<Seq<char>> {
    (match id {
        Some(n) => seq![decimal(n as nat)],
        None => Seq::empty(),
    }) + seq![
        person.first_name@,
        person.middle_name@,
        person.last_name@,
        person.gender.code(),
        person.birth_date@.text(),
    ] + optional(with_ssn, person.ssn@) + optional(with_salary, decimal(person.salary as nat))
}

/// The fields of a person's record as pairs of name and value, in their
/// order.
pub open spec fn record_members(
    person: Person,
    names: HeaderNames,
    id: Option<usize>,
    with_ssn: bool,
    with_salary: bool,
) -> Seq<(Seq<char>, Seq<char>)> {
    (match id {
        Some(n) => seq![(names.id, decimal(n as nat))],
        None => Seq::empty(),
    }) + seq![
        (names.first_name, person.first_name@),
        (names.middle_name, person.middle_name@),
        (names.last_name, person.last_name@),
        (names.gender, person.gender.code()),
        (names.birth_date, person.birth_date@.text()),
    ] + optional(with_ssn, (names.ssn, person.ssn@)) + optional(
        with_salary,
        (names.salary, decimal(person.salary as nat)),
    )
}

/// The pairs of the items of two sequences of one length.
pub open spec fn paired(names: Seq<Seq<char>>, values: Seq<Seq<char>>) -> Seq<
    (Seq<char>, Seq<char>),
> {
    Seq::new(names.len(), |i: int| (names[i], values[i]))
}

/// All formats write the same fields: the pairs of name and value of a
/// record, as the JSON formats write them, are the names of the CSV header
/// paired with the values of the CSV row, one by one.
pub proof fn lemma_same_fields(
    person: Person,
    names: HeaderNames,
    id: Option<usize>,
    with_ssn: bool,
    with_salary: bool,
)
    ensures
        record_names(names, id is Some, with_ssn, with_salary).len() == record_values(
            person,
            id,
            with_ssn,
            with_salary,
        ).len(),
        record_members(person, names, id, with_ssn, with_salary) == paired(
            record_names(names, id is Some, with_ssn, with_salary),
            record_values(person, id, with_ssn, with_salary),
        ),
{
    assert(record_members(person, names, id, with_ssn, with_salary) =~= paired(
        record_names(names, id is Some, with_ssn, with_salary),
        record_values(person, id, with_ssn, with_salary),
    ));
}

/// The number `n` in decimal digits.
pub fn decimal_string(n: u64) -> (s: String)
    ensures
        s@ == decimal(n as nat),
{
    let mut s = String::new();
    push_decimal(&mut s, n);
    s
}

/// The header of a CSV file: the names of the fields that are written.
pub fn header_record(
    headers: &Headers,
    generate_ids: bool,
    save_ssns: bool,
    save_salaries: bool,
) -> (record: Vec<String>)
    ensures
        texts(record@) == record_names(headers@, generate_ids, save_ssns, save_salaries),
{
    let mut record: Vec<String> = Vec::new();
    if generate_ids {
        record.push(headers.id.clone());
    }
    record.push(headers.first_name.clone());
    record.push(headers.middle_name.clone());
    record.push(headers.last_name.clone());
    record.push(headers.gender.clone());
    record.push(headers.birth_date.clone());
    if save_ssns {
        record.push(headers.ssn.clone());
    }
    if save_salaries {
        record.push(headers.salary.clone());
    }
    assert(texts(record@) =~= record_names(headers@, generate_ids, save_ssns, save_salaries));
    record
}

/// The row of a person in a CSV file: the values of the fields that are
/// written.
pub fn person_record(person: &Person, opt_id: Option<usize>, save_ssn: bool, save_salary: bool) -> (record:
    Vec<String>)
    ensures
        texts(record@) == record_values(*person, opt_id, save_ssn, save_salary),
{
    let mut record: Vec<String> = Vec::new();
    match opt_id {
        Some(id) => {
            record.push(decimal_string(id as u64));
        },
        None => {},
    }
    record.push(person.first_name.clone());
    record.push(person.middle_name.clone());
    record.push(person.last_name.clone());
    record.push(person.gender.to_string());
    record.push(date_str(&person.birth_date));
    if save_ssn {
        record.push(person.ssn.clone());
    }
    if save_salary {
        record.push(decimal_string(person.salary as u64));
    }
    assert(texts(record@) =~= record_values(*person, opt_id, save_ssn, save_salary));
    record
}

/// The texts of a list of pairs of strings.
pub open spec fn pair_texts(pairs: Seq<(String, String)>) -> Seq<(Seq<char>, Seq<char>)> {
    pairs.map_values(|p: (String, String)| (p.0@, p.1@))
}

/// The fields of a person's record, as pairs of name and value.
pub fn record_pairs(
    person: &Person,
    headers: &Headers,
    opt_id: Option<usize>,
    save_ssn: bool,
    save_salary: bool,
) -> (pairs: Vec<(String, String)>)
    ensures
        pair_texts(pairs@) == record_members(*person, headers@, opt_id, save_ssn, save_salary),
{
    let mut pairs: Vec<(String, String)> = Vec::new();
    match opt_id {
        Some(id) => {
            pairs.push((headers.id.clone(), decimal_string(id as u64)));
        },
        None => {},
    }
    pairs.push((headers.first_name.clone(), person.first_name.clone()));
    pairs.push((headers.middle_name.clone(), person.middle_name.clone()));
    pairs.push((headers.last_name.clone(), person.last_name.clone()));
    pairs.push((headers.gender.clone(), person.gender.to_string()));
    pairs.push((headers.birth_date.clone(), date_str(&person.birth_date)));
    if save_ssn {
        pairs.push((headers.ssn.clone(), person.ssn.clone()));
    }
    if save_salary {
        pairs.push((headers.salary.clone(), decimal_string(person.salary as u64)));
    }
    assert(pair_texts(pairs@) =~= record_members(
        *person,
        headers@,
        opt_id,
        save_ssn,
        save_salary,
    ));
    pairs
}

/// The members of the object that comes of setting the given members, one
/// after another, in an object that starts empty. Each value is a string.
pub open spec fn inserted(members: Seq<(Seq<char>, Seq<char>)>) -> Seq<(Seq<char>, JsonModel)>
    decreases members.len(),
{
    if members.len() == 0 {
        Seq::empty()
    } else {
        with_member(
            inserted(members.drop_last()),
            members.last().0,
            JsonModel::Text(members.last().1),
        )
    }
}

/// The given members, each value as a JSON string.
pub open spec fn text_members(members: Seq<(Seq<char>, Seq<char>)>) -> Seq<
    (Seq<char>, JsonModel),
> {
    members.map_values(|m: (Seq<char>, Seq<char>)| (m.0, JsonModel::Text(m.1)))
}

/// No two of the members have the same name.
pub open spec fn distinct_names(members: Seq<(Seq<char>, Seq<char>)>) -> bool {
    forall|i: int, j: int|
        0 <= i < j < members.len() ==> (#[trigger] members[i]).0 != (#[trigger] members[j]).0
}

/// Where no name occurs twice, setting the members one after another gives
/// an object with just these members, in their order.
pub proof fn lemma_inserted_distinct(members: Seq<(Seq<char>, Seq<char>)>)
    requires
        distinct_names(members),
    ensures
        inserted(members) == text_members(members),
    decreases members.len(),
{
    if members.len() > 0 {
        let rest = members.drop_last();
        assert(distinct_names(rest)) by {
            assert forall|i: int, j: int| 0 <= i < j < rest.len() implies (#[trigger] rest[i]).0
                != (#[trigger] rest[j]).0 by {
                assert(rest[i] == members[i] && rest[j] == members[j]);
            }
        }
        lemma_inserted_distinct(rest);
        let key = members.last().0;
        assert(!has_key(text_members(rest), key)) by {
            if has_key(text_members(rest), key) {
                let i = choose|i: int|
                    0 <= i < text_members(rest).len() && (#[trigger] text_members(rest)[i]).0
                        == key;
                assert(members[i].0 == key);
                assert(members[members.len() - 1].0 == key);
            }
        }
        assert(inserted(members) =~= text_members(members));
    } else {
        assert(inserted(members) =~= text_members(members));
    }
}

/// The record of a person under the names of a header format has no name
/// twice.
pub proof fn lemma_record_names_distinct(
    person: Person,
    format: HeaderFormat,
    id: Option<usize>,
    with_ssn: bool,
    with_salary: bool,
)
    ensures
        distinct_names(record_members(person, header_names(format), id, with_ssn, with_salary)),
{
    lemma_header_names_distinct(format);
    let names = header_names(format);
    let all = names.all();
    assert(all[0] == names.id && all[1] == names.first_name && all[2] == names.middle_name
        && all[3] == names.last_name && all[4] == names.gender && all[5] == names.birth_date
        && all[6] == names.ssn && all[7] == names.salary);
    let members = record_members(person, names, id, with_ssn, with_salary);
    let shift: int = if id is Some {
        0
    } else {
        1
    };
    assert forall|i: int| 0 <= i < members.len() implies exists|k: int|
        0 <= k < 8 && (#[trigger] members[i]).0 == all[k] && (k == i + shift || (k == 7
            && i + shift == 6 && !with_ssn)) by {
        if i + shift == 6 && !with_ssn {
            assert(members[i].0 == all[7]);
        } else {
            assert(members[i].0 == all[i + shift]);
        }
    }
    assert forall|i: int, j: int| 0 <= i < j < members.len() implies (#[trigger] members[i]).0
        != (#[trigger] members[j]).0 by {
        let ki = choose|k: int|
            0 <= k < 8 && members[i].0 == all[k] && (k == i + shift || (k == 7 && i + shift == 6
                && !with_ssn));
        let kj = choose|k: int|
            0 <= k < 8 && members[j].0 == all[k] && (k == j + shift || (k == 7 && j + shift == 6
                && !with_ssn));
        assert(ki < kj);
        assert(all[ki] != all[kj]);
    }
}

/// The JSON object with the given members, set one after another.
pub fn object_of(pairs: &Vec<(String, String)>) -> (object: JsonValue)
    ensures
        json_model(&object) == JsonModel::Record(inserted(pair_texts(pairs@))),
{
    let mut object = crate::json_tree::new_object();
    let mut i: usize = 0;
    assert(pair_texts(pairs@).take(0) =~= Seq::empty());
    while i < pairs.len()
        invariant
            i <= pairs.len(),
            json_model(&object) == JsonModel::Record(inserted(pair_texts(pairs@).take(i as int))),
        decreases pairs.len() - i,
    {
        let value = crate::json_tree::text_value(pairs[i].1.clone());
        proof {
            let now = pair_texts(pairs@).take(i + 1);
            assert(now.drop_last() =~= pair_texts(pairs@).take(i as int));
            assert(now.last() == (pairs@[i as int].0@, pairs@[i as int].1@));
        }
        crate::json_tree::insert(&mut object, pairs[i].0.as_str(), value).unwrap();
        i = i + 1;
    }
    assert(pair_texts(pairs@).take(pairs.len() as int) =~= pair_texts(pairs@));
    object
}

/// What a person's record holds as a JSON object.
pub open spec fn record_model(
    person: Person,
    names: HeaderNames,
    id: Option<usize>,
    with_ssn: bool,
    with_salary: bool,
) -> JsonModel {
    JsonModel::Record(inserted(record_members(person, names, id, with_ssn, with_salary)))
}

/// A person's record as a JSON object: the fields that are written, each
/// under its name and as a string, in their order.
pub fn person_to_json_object(
    person: &Person,
    headers: &Headers,
    opt_id: Option<usize>,
    save_ssn: bool,
    save_salary: bool,
) -> (object: JsonValue)
    ensures
        json_model(&object) == record_model(*person, headers@, opt_id, save_ssn, save_salary),
{
    let pairs = record_pairs(person, headers, opt_id, save_ssn, save_salary);
    object_of(&pairs)
}

/// The rows of a CSV file: one line for each person, in their order.
pub open spec fn csv_rows(
    people: Seq<Person>,
    generate_ids: bool,
    save_ssns: bool,
    save_salaries: bool,
) -> Seq<char>
    decreases people.len(),
{
    if people.len() == 0 {
        Seq::empty()
    } else {
        csv_rows(people.drop_last(), generate_ids, save_ssns, save_salaries) + csv_record_text(
            record_values(
                people.last(),
                record_id(generate_ids, people.len() - 1),
                save_ssns,
                save_salaries,
            ),
        )
    }
}

/// A CSV file: the line of the header, then the rows.
pub open spec fn csv_document(
    people: Seq<Person>,
    header_format: HeaderFormat,
    generate_ids: bool,
    save_ssns: bool,
    save_salaries: bool,
) -> Seq<char> {
    csv_record_text(
        record_names(header_names(header_format), generate_ids, save_ssns, save_salaries),
    ) + csv_rows(people, generate_ids, save_ssns, save_salaries)
}

/// The JSON object of the person at `index` of a population, under the names
/// of a header format.
pub open spec fn person_model(
    people: Seq<Person>,
    index: int,
    header_format: HeaderFormat,
    generate_ids: bool,
    save_ssns: bool,
    save_salaries: bool,
) -> JsonModel {
    JsonModel::Record(
        text_members(
            record_members(
                people[index],
                header_names(header_format),
                record_id(generate_ids, index),
                save_ssns,
                save_salaries,
            ),
        ),
    )
}

/// A JSON Lines file: for each person, in their order, the person's object
/// on a line of its own.
pub open spec fn jsonl_document(
    people: Seq<Person>,
    header_format: HeaderFormat,
    generate_ids: bool,
    save_ssns: bool,
    save_salaries: bool,
) -> Seq<char>
    decreases people.len(),
{
    if people.len() == 0 {
        Seq::empty()
    } else {
        jsonl_document(people.drop_last(), header_format, generate_ids, save_ssns, save_salaries)
            + json_text(
            person_model(
                people,
                people.len() - 1,
                header_format,
                generate_ids,
                save_ssns,
                save_salaries,
            ),
        ) + seq!['\n']
    }
}

/// The objects of all the people of a population, in their order.
pub open spec fn people_models(
    people: Seq<Person>,
    header_format: HeaderFormat,
    generate_ids: bool,
    save_ssns: bool,
    save_salaries: bool,
) -> Seq<JsonModel> {
    Seq::new(
        people.len(),
        |i: int| person_model(people, i, header_format, generate_ids, save_ssns, save_salaries),
    )
}

/// A JSON file: one object whose one member, `people`, is the array of the
/// people's objects; then a line feed.
pub open spec fn json_document(
    people: Seq<Person>,
    header_format: HeaderFormat,
    generate_ids: bool,
    save_ssns: bool,
    save_salaries: bool,
) -> Seq<char> {
    json_text(
        JsonModel::Record(
            seq![
                (
                    "people"@,
                    JsonModel::List(
                        people_models(
                            people,
                            header_format,
                            generate_ids,
                            save_ssns,
                            save_salaries,
                        ),
                    ),
                ),
            ],
        ),
    ) + seq!['\n']
}

/// What is written for a population in an output format.
pub open spec fn document(
    people: Seq<Person>,
    output_format: OutputFormat,
    header_format: HeaderFormat,
    generate_ids: bool,
    save_ssns: bool,
    save_salaries: bool,
) -> Seq<char> {
    match output_format {
        OutputFormat::Csv => csv_document(
            people,
            header_format,
            generate_ids,
            save_ssns,
            save_salaries,
        ),
        OutputFormat::JsonL => jsonl_document(
            people,
            header_format,
            generate_ids,
            save_ssns,
            save_salaries,
        ),
        OutputFormat::JsonPretty => json_document(
            people,
            header_format,
            generate_ids,
            save_ssns,
            save_salaries,
        ),
    }
}

/// One more person adds one more row to a CSV file.
pub proof fn lemma_csv_step(
    people: Seq<Person>,
    i: int,
    header_format: HeaderFormat,
    generate_ids: bool,
    save_ssns: bool,
    save_salaries: bool,
)
    requires
        0 <= i < people.len(),
    ensures
        csv_document(people.take(i + 1), header_format, generate_ids, save_ssns, save_salaries)
            == csv_document(people.take(i), header_format, generate_ids, save_ssns, save_salaries)
            + csv_record_text(
            record_values(people[i], record_id(generate_ids, i), save_ssns, save_salaries),
        ),
{
    let now = people.take(i + 1);
    assert(now.drop_last() =~= people.take(i));
    assert(now.last() == people[i]);
    let header = csv_record_text(
        record_names(header_names(header_format), generate_ids, save_ssns, save_salaries),
    );
    let rows = csv_rows(people.take(i), generate_ids, save_ssns, save_salaries);
    let row = csv_record_text(
        record_values(people[i], record_id(generate_ids, i), save_ssns, save_salaries),
    );
    assert(csv_rows(now, generate_ids, save_ssns, save_salaries) == rows + row);
    assert(header + (rows + row) =~= header + rows + row);
}

/// One more person adds one more line to a JSON Lines file.
pub proof fn lemma_jsonl_step(
    people: Seq<Person>,
    i: int,
    header_format: HeaderFormat,
    generate_ids: bool,
    save_ssns: bool,
    save_salaries: bool,
)
    requires
        0 <= i < people.len(),
    ensures
        jsonl_document(people.take(i + 1), header_format, generate_ids, save_ssns, save_salaries)
            == jsonl_document(
            people.take(i),
            header_format,
            generate_ids,
            save_ssns,
            save_salaries,
        ) + json_text(
            person_model(people, i, header_format, generate_ids, save_ssns, save_salaries),
        ) + seq!['\n'],
{
    let now = people.take(i + 1);
    assert(now.drop_last() =~= people.take(i));
    assert(now[i] == people[i]);
    assert(person_model(now, i, header_format, generate_ids, save_ssns, save_salaries)
        == person_model(people, i, header_format, generate_ids, save_ssns, save_salaries));
}

/// Whatever the format, a person is written as the same pairs of name and
/// value: the object of the person, which the JSON document and the JSON
/// Lines file are both made of, has as its members the names of the CSV
/// header paired with the values of the person's CSV row, each value as a
/// string.
pub proof fn lemma_formats_agree(
    people: Seq<Person>,
    index: int,
    header_format: HeaderFormat,
    generate_ids: bool,
    save_ssns: bool,
    save_salaries: bool,
)
    requires
        0 <= index < people.len(),
    ensures
        person_model(people, index, header_format, generate_ids, save_ssns, save_salaries)
            == JsonModel::Record(
            text_members(
                paired(
                    record_names(
                        header_names(header_format),
                        generate_ids,
                        save_ssns,
                        save_salaries,
                    ),
                    record_values(
                        people[index],
                        record_id(generate_ids, index),
                        save_ssns,
                        save_salaries,
                    ),
                ),
            ),
        ),
        people_models(people, header_format, generate_ids, save_ssns, save_salaries)[index]
            == person_model(people, index, header_format, generate_ids, save_ssns, save_salaries),
{
    lemma_same_fields(
        people[index],
        header_names(header_format),
        record_id(generate_ids, index),
        save_ssns,
        save_salaries,
    );
}

/// The running number of the person at `index`, where such numbers are
/// wanted.
pub fn id_for(generate_ids: bool, index: usize) -> (id: Option<usize>)
    requires
        index < usize::MAX,
    ensures
        id == record_id(generate_ids, index as int),
{
    if generate_ids {
        Some(index + 1)
    } else {
        None
    }
}

/// Appends a population to `sink` as CSV: a header, then a row for each
/// person. Hands back the number of people written.
pub fn write_csv(
    sink: &mut String,
    header_format: HeaderFormat,
    generate_ids: bool,
    save_ssns: bool,
    save_salaries: bool,
    people: Vec<Person>,
) -> (written: usize)
    ensures
        final(sink)@ == old(sink)@ + csv_document(
            people@,
            header_format,
            generate_ids,
            save_ssns,
            save_salaries,
        ),
        written == people.len(),
{
    let headers = get_headers(header_format);
    let header_rec = header_record(&headers, generate_ids, save_ssns, save_salaries);
    let header_line = crate::csv_text::write_record(&header_rec);
    sink.append(header_line.as_str());
    let mut i: usize = 0;
    assert(people@.take(0) =~= Seq::empty());
    while i < people.len()
        invariant
            i <= people.len(),
            sink@ == old(sink)@ + csv_document(
                people@.take(i as int),
                header_format,
                generate_ids,
                save_ssns,
                save_salaries,
            ),
        decreases people.len() - i,
    {
        let rec = person_record(&people[i], id_for(generate_ids, i), save_ssns, save_salaries);
        let line = crate::csv_text::write_record(&rec);
        proof {
            lemma_csv_step(people@, i as int, header_format, generate_ids, save_ssns, save_salaries);
            let before = csv_document(
                people@.take(i as int),
                header_format,
                generate_ids,
                save_ssns,
                save_salaries,
            );
            assert(old(sink)@ + before + line@ =~= old(sink)@ + (before + line@));
        }
        sink.append(line.as_str());
        i = i + 1;
    }
    assert(people@.take(people.len() as int) =~= people@);
    people.len()
}

/// The object of the person at `index` of a population.
pub fn person_object(
    people: &Vec<Person>,
    index: usize,
    headers: &Headers,
    header_format: HeaderFormat,
    generate_ids: bool,
    save_ssns: bool,
    save_salaries: bool,
) -> (object: JsonValue)
    requires
        index < people.len(),
        headers@ == header_names(header_format),
    ensures
        json_model(&object) == person_model(
            people@,
            index as int,
            header_format,
            generate_ids,
            save_ssns,
            save_salaries,
        ),
{
    proof {
        let id = record_id(generate_ids, index as int);
        lemma_record_names_distinct(people@[index as int], header_format, id, save_ssns, save_salaries);
        lemma_inserted_distinct(
            record_members(
                people@[index as int],
                header_names(header_format),
                id,
                save_ssns,
                save_salaries,
            ),
        );
    }
    person_to_json_object(
        &people[index],
        headers,
        id_for(generate_ids, index),
        save_ssns,
        save_salaries,
    )
}

/// Appends a population to `sink` as JSON Lines: each person's object on a
/// line of its own, with nothing around them. Hands back the number of
/// people written.
pub fn write_jsonl(
    sink: &mut String,
    header_format: HeaderFormat,
    generate_ids: bool,
    save_ssns: bool,
    save_salaries: bool,
    people: Vec<Person>,
) -> (written: usize)
    ensures
        final(sink)@ == old(sink)@ + jsonl_document(
            people@,
            header_format,
            generate_ids,
            save_ssns,
            save_salaries,
        ),
        written == people.len(),
{
    let headers = get_headers(header_format);
    let mut i: usize = 0;
    assert(people@.take(0) =~= Seq::empty());
    while i < people.len()
        invariant
            i <= people.len(),
            headers@ == header_names(header_format),
            sink@ == old(sink)@ + jsonl_document(
                people@.take(i as int),
                header_format,
                generate_ids,
                save_ssns,
                save_salaries,
            ),
        decreases people.len() - i,
    {
        let jv = person_object(
            &people,
            i,
            &headers,
            header_format,
            generate_ids,
            save_ssns,
            save_salaries,
        );
        let json_line = crate::json_tree::dump(&jv);
        proof {
            lemma_jsonl_step(people@, i as int, header_format, generate_ids, save_ssns, save_salaries);
            reveal_strlit("\n");
            let before = jsonl_document(
                people@.take(i as int),
                header_format,
                generate_ids,
                save_ssns,
                save_salaries,
            );
            assert(old(sink)@ + before + json_line@ + "\n"@ =~= old(sink)@ + (before + json_line@
                + seq!['\n']));
        }
        sink.append(json_line.as_str());
        sink.append("\n");
        i = i + 1;
    }
    assert(people@.take(people.len() as int) =~= people@);
    people.len()
}

/// Appends a population to `sink` as one JSON document: an object whose
/// member `people` holds the array of the people's objects. Hands back the
/// number of people written.
pub fn write_json(
    sink: &mut String,
    header_format: HeaderFormat,
    generate_ids: bool,
    save_ssns: bool,
    save_salaries: bool,
    people: Vec<Person>,
) -> (written: usize)
    ensures
        final(sink)@ == old(sink)@ + json_document(
            people@,
            header_format,
            generate_ids,
            save_ssns,
            save_salaries,
        ),
        written == people.len(),
{
    let headers = get_headers(header_format);
    let mut jo = crate::json_tree::new_object();
    let mut ja = crate::json_tree::new_array();
    let mut i: usize = 0;
    assert(people_models(people@, header_format, generate_ids, save_ssns, save_salaries).take(0)
        =~= Seq::empty());
    while i < people.len()
        invariant
            i <= people.len(),
            headers@ == header_names(header_format),
            json_model(&ja) == JsonModel::List(
                people_models(people@, header_format, generate_ids, save_ssns, save_salaries).take(
                    i as int,
                ),
            ),
        decreases people.len() - i,
    {
        let jv = person_object(
            &people,
            i,
            &headers,
            header_format,
            generate_ids,
            save_ssns,
            save_salaries,
        );
        proof {
            let models = people_models(
                people@,
                header_format,
                generate_ids,
                save_ssns,
                save_salaries,
            );
            assert(models.take(i as int).push(json_model(&jv)) =~= models.take(i + 1));
        }
        crate::json_tree::push(&mut ja, jv).unwrap();
        i = i + 1;
    }
    proof {
        let models = people_models(people@, header_format, generate_ids, save_ssns, save_salaries);
        assert(models.take(people.len() as int) =~= models);
        assert(!has_key(Seq::<(Seq<char>, JsonModel)>::empty(), "people"@));
        assert(with_member(Seq::empty(), "people"@, JsonModel::List(models)) =~= seq![
            ("people"@, JsonModel::List(models)),
        ]);
    }
    crate::json_tree::insert(&mut jo, "people", ja).unwrap();
    let json_str = crate::json_tree::dump(&jo);
    sink.append(json_str.as_str());
    sink.append("\n");
    proof {
        reveal_strlit("\n");
        assert(old(sink)@ + json_str@ + "\n"@ =~= old(sink)@ + json_document(
            people@,
            header_format,
            generate_ids,
            save_ssns,
            save_salaries,
        ));
    }
    people.len()
}

/// Appends a population to `sink` in the given output format: whatever the
/// format, the same fields of the same people in the same order. Hands back
/// the number of people written.
pub fn write_people(
    sink: &mut String,
    output_format: OutputFormat,
    header_format: HeaderFormat,
    generate_ids: bool,
    save_ssns: bool,
    save_salaries: bool,
    people: Vec<Person>,
) -> (written: usize)
    ensures
        final(sink)@ == old(sink)@ + document(
            people@,
            output_format,
            header_format,
            generate_ids,
            save_ssns,
            save_salaries,
        ),
        written == people.len(),
{
    match output_format {
        OutputFormat::Csv => write_csv(
            sink,
            header_format,
            generate_ids,
            save_ssns,
            save_salaries,
            people,
        ),
        OutputFormat::JsonL => write_jsonl(
            sink,
            header_format,
            generate_ids,
            save_ssns,
            save_salaries,
            people,
        ),
        OutputFormat::JsonPretty => write_json(
            sink,
            header_format,
            generate_ids,
            save_ssns,
            save_salaries,
            people,
        ),
    }
}

} // verus!
