//! Generated people: what a person is, and how a population is made.

use crate::args::{check_ratio_and_years, ratio_and_years_error, Arguments};
use crate::calendar::{
    date_of_timestamp, first_second_of_year, last_second_of_year, lemma_year_between,
    lemma_years_ordered, year_start, Date, MAX_YEAR, MIN_YEAR, SECONDS_PER_DAY,
};
use crate::counting::{
    count_where, lemma_all_permutation, lemma_count_permutation, lemma_count_prefix,
    lemma_count_split,
};
use crate::error::GenError;
use crate::random::{random_in_range, random_index, shuffle};
use crate::salary::{draw_is_negative, salary_from_draw, salary_of};
use crate::ssn::{default_space, SsnGenerator, SsnModel};
use crate::text::{grouped, push_grouped};
use vstd::prelude::*;
use vstd::seq_lib::to_multiset_len;

verus! {

/// The gender of a person, as the census data has it.
#[derive(PartialEq, Eq, Structural, Clone, Copy, Debug)]
pub enum Gender {
    Male,
    Female,
}

impl Gender {
    /// The one-letter code of the gender.
    pub open spec fn code(self) -> Seq<char> {
        match self {
            Gender::Male => "M"@,
            Gender::Female => "F"@,
        }
    }

    /// The one-letter code of the gender: `M` or `F`.
    pub fn to_str(&self) -> (s: &str)
        ensures
            s@ == self.code(),
    {
        if *self == Gender::Male {
            "M"
        } else {
            "F"
        }
    }

    /// The one-letter code of the gender, as an owned string.
    pub fn to_string(&self) -> (s: String)
        ensures
            s@ == self.code(),
    {
        String::from_str(self.to_str())
    }
}

/// A generated person.
#[derive(Debug, PartialEq)]
pub struct Person {
    pub first_name: String,
    pub middle_name: String,
    pub last_name: String,
    pub gender: Gender,
    pub birth_date: Date,
    pub ssn: String,
    pub salary: u32,
}

/// How many of `total` people are male. The gender with the smaller
/// percentage gets its share rounded down, and the other gender the rest; of
/// two equal percentages, the male share is the one rounded down.
pub open spec fn male_share(total: int, male_percent: int, female_percent: int) -> int {
    if male_percent <= female_percent {
        total * male_percent / 100
    } else {
        total - total * female_percent / 100
    }
}

/// The two shares add up to the total, neither is below its percentage
/// rounded down nor more than one above it, and it is the gender with the
/// larger percentage that gets what rounding leaves over.
pub proof fn lemma_gender_split(total: int, male_percent: int, female_percent: int)
    requires
        0 <= total,
        0 <= male_percent,
        0 <= female_percent,
        male_percent + female_percent == 100,
    ensures
        ({
            let males = male_share(total, male_percent, female_percent);
            let females = total - males;
            &&& 0 <= males <= total
            &&& total * male_percent / 100 <= males <= total * male_percent / 100 + 1
            &&& total * female_percent / 100 <= females <= total * female_percent / 100 + 1
            &&& male_percent > female_percent ==> females == total * female_percent / 100
            &&& male_percent <= female_percent ==> males == total * male_percent / 100
        }),
{
    let m = total * male_percent;
    let f = total * female_percent;
    assert(m + f == total * 100) by (nonlinear_arith)
        requires
            m == total * male_percent,
            f == total * female_percent,
            male_percent + female_percent == 100,
    ;
    assert(0 <= m && 0 <= f) by (nonlinear_arith)
        requires
            m == total * male_percent,
            f == total * female_percent,
            0 <= total,
            0 <= male_percent,
            0 <= female_percent,
    ;
}

/// How many of `total` people are male, and how many female.
pub fn gender_totals(total: u32, male_percent: u32, female_percent: u32) -> (r: (u32, u32))
    requires
        male_percent + female_percent == 100,
    ensures
        r.0 == male_share(total as int, male_percent as int, female_percent as int),
        r.0 + r.1 == total,
{
    proof {
        lemma_gender_split(total as int, male_percent as int, female_percent as int);
    }
    if male_percent <= female_percent {
        let males: u64 = (total as u64 * male_percent as u64) / 100;
        (males as u32, total - males as u32)
    } else {
        let females: u64 = (total as u64 * female_percent as u64) / 100;
        (total - females as u32, females as u32)
    }
}

/// What `make_person` hands out, whatever is drawn: the given gender, salary
/// and identifier; a first and a middle name from the first names and a last
/// name from the last names; and a date of birth on a day from the day of
/// `epoch_start` to the day of `epoch_end`.
pub open spec fn person_drawn(
    p: Person,
    first_names: Seq<String>,
    last_names: Seq<String>,
    gender: Gender,
    salary: u32,
    epoch_start: i64,
    epoch_end: i64,
    ssn: String,
) -> bool {
    &&& first_names.contains(p.first_name)
    &&& first_names.contains(p.middle_name)
    &&& last_names.contains(p.last_name)
    &&& p.gender == gender
    &&& p.salary == salary
    &&& p.ssn == ssn
    &&& p.birth_date@.valid()
    &&& epoch_start as int / (SECONDS_PER_DAY as int) <= p.birth_date@.day_number()
        <= epoch_end as int / (SECONDS_PER_DAY as int)
}

/// The person that the given draws stand for: the names at the three
/// indexes, and the date on which the second `birth` falls.
pub fn person_from_draws(
    first_names: &Vec<String>,
    last_names: &Vec<String>,
    gender: Gender,
    salary: u32,
    first_index: usize,
    mid_index: usize,
    last_index: usize,
    birth: i64,
    ssn: String,
) -> (p: Person)
    requires
        first_index < first_names.len(),
        mid_index < first_names.len(),
        last_index < last_names.len(),
        year_start(MIN_YEAR as int) <= birth < year_start(MAX_YEAR + 1),
    ensures
        p.first_name == first_names[first_index as int],
        p.middle_name == first_names[mid_index as int],
        p.last_name == last_names[last_index as int],
        p.gender == gender,
        p.salary == salary,
        p.ssn == ssn,
        p.birth_date@.valid(),
        p.birth_date@.day_number() == birth as int / (SECONDS_PER_DAY as int),
{
    Person {
        first_name: first_names[first_index].clone(),
        middle_name: first_names[mid_index].clone(),
        last_name: last_names[last_index].clone(),
        gender,
        birth_date: date_of_timestamp(birth),
        ssn,
        salary,
    }
}

/// Makes one person at random: the names are drawn from the two lists, each
/// independently of the others, and the date of birth is the date of a second
/// drawn from `epoch_start` to `epoch_end`.
pub fn make_person(
    first_names: &Vec<String>,
    last_names: &Vec<String>,
    gender: Gender,
    salary: u32,
    epoch_start: i64,
    epoch_end: i64,
    ssn: String,
) -> (p: Person)
    requires
        first_names.len() > 0,
        last_names.len() > 0,
        year_start(MIN_YEAR as int) <= epoch_start <= epoch_end < year_start(MAX_YEAR + 1),
    ensures
        person_drawn(p, first_names@, last_names@, gender, salary, epoch_start, epoch_end, ssn),
{
    let first_index = random_index(first_names.len());
    let mid_index = random_index(first_names.len());
    let last_index = random_index(last_names.len());
    let epoch_birth = random_in_range(epoch_start, epoch_end);
    person_from_draws(
        first_names,
        last_names,
        gender,
        salary,
        first_index,
        mid_index,
        last_index,
        epoch_birth,
        ssn,
    )
}

/// The state of the generator that every population draws its identifiers
/// from: the default space, cycling, before its first identifier.
pub open spec fn ssn_source() -> SsnModel {
    default_space(true)
}

/// Whether `p` can be the person number `i` of a population, before the
/// shuffle: the males come first; the names are of the lists for the
/// person's gender; the date of birth lies in the configured years; the
/// salary is that of draw `i`; the identifier is the one that call `i` of
/// the generator hands out.
pub open spec fn fits(
    p: Person,
    i: int,
    args: &Arguments,
    male_first_names: Seq<String>,
    female_first_names: Seq<String>,
    last_names: Seq<String>,
    salary_draws: Seq<u32>,
) -> bool {
    let males = male_share(args.total as int, args.male_percent as int, args.female_percent as int);
    let first_names = if i < males {
        male_first_names
    } else {
        female_first_names
    };
    &&& p.gender == if i < males {
        Gender::Male
    } else {
        Gender::Female
    }
    &&& first_names.contains(p.first_name)
    &&& first_names.contains(p.middle_name)
    &&& last_names.contains(p.last_name)
    &&& p.birth_date@.valid()
    &&& args.year_min <= p.birth_date@.year <= args.year_max
    &&& salary_of(salary_draws[i]) == Ok::<u32, GenError>(p.salary)
    &&& ssn_source().output(i as nat) == Some(p.ssn@)
}

/// Whether `people` can be a population before the shuffle.
pub open spec fn in_order(
    people: Seq<Person>,
    args: &Arguments,
    male_first_names: Seq<String>,
    female_first_names: Seq<String>,
    last_names: Seq<String>,
    salary_draws: Seq<u32>,
) -> bool {
    &&& people.len() == args.total
    &&& forall|i: int|
        0 <= i < people.len() ==> fits(
            #[trigger] people[i],
            i,
            args,
            male_first_names,
            female_first_names,
            last_names,
            salary_draws,
        )
}

/// Why no population can be made, if so: what is wrong with the percentages
/// or the years, or else the first salary draw that is below zero.
pub open spec fn synthesis_error(args: &Arguments, salary_draws: Seq<u32>) -> Option<GenError> {
    let config = ratio_and_years_error(
        args.female_percent,
        args.male_percent,
        args.year_min,
        args.year_max,
    );
    if config is Some {
        config
    } else {
        first_negative(salary_draws.take(args.total as int))
    }
}

/// The failure for the first draw that is below zero, if there is one.
pub open spec fn first_negative(draws: Seq<u32>) -> Option<GenError>
    decreases draws.len(),
{
    if draws.len() == 0 {
        None
    } else if first_negative(draws.drop_last()) is Some {
        first_negative(draws.drop_last())
    } else if draw_is_negative(draws.last()) {
        Some(GenError::NegativeSalary { draw: draws.last() })
    } else {
        None
    }
}

/// Whether `i` is the place of the first draw that is below zero.
pub open spec fn is_first_negative(draws: Seq<u32>, i: int) -> bool {
    &&& 0 <= i < draws.len()
    &&& draw_is_negative(draws[i])
    &&& forall|j: int| 0 <= j < i ==> !draw_is_negative(#[trigger] draws[j])
}

/// The run fails rather than hand out a negative salary: there is no failure
/// exactly where no draw is below zero, and a failure is that of the first
/// draw below zero.
pub proof fn lemma_first_negative(draws: Seq<u32>)
    ensures
        first_negative(draws) is None <==> forall|i: int|
            0 <= i < draws.len() ==> !draw_is_negative(#[trigger] draws[i]),
        first_negative(draws) matches Some(e) ==> exists|i: int|
            #[trigger] is_first_negative(draws, i) && e == (GenError::NegativeSalary {
                draw: draws[i],
            }),
    decreases draws.len(),
{
    if draws.len() > 0 {
        let rest = draws.drop_last();
        lemma_first_negative(rest);
        assert forall|i: int| 0 <= i < rest.len() implies rest[i] == draws[i] by {}
        if first_negative(rest) is Some {
            let i = choose|i: int|
                #[trigger] is_first_negative(rest, i) && first_negative(rest) == Some(
                    GenError::NegativeSalary { draw: rest[i] },
                );
            assert(is_first_negative(draws, i)) by {
                assert forall|j: int| 0 <= j < i implies !draw_is_negative(#[trigger] draws[j]) by {
                    assert(draws[j] == rest[j]);
                }
            }
            assert(draw_is_negative(draws[i]));
        } else {
            assert forall|j: int| 0 <= j < rest.len() implies !draw_is_negative(
                #[trigger] draws[j],
            ) by {
                assert(draws[j] == rest[j]);
            }
            if draw_is_negative(draws.last()) {
                assert(is_first_negative(draws, draws.len() - 1));
            }
        }
    }
}

/// The lists that the synthesis draws from are not empty where it draws from
/// them, and the years are years that a date can have.
pub open spec fn can_synthesize(
    args: &Arguments,
    male_first_names: Seq<String>,
    female_first_names: Seq<String>,
    last_names: Seq<String>,
    salary_draws: Seq<u32>,
) -> bool {
    let males = male_share(args.total as int, args.male_percent as int, args.female_percent as int);
    &&& salary_draws.len() == args.total
    &&& ratio_and_years_error(args.female_percent, args.male_percent, args.year_min, args.year_max)
        is None ==> {
        &&& args.year_max <= MAX_YEAR
        &&& males > 0 ==> male_first_names.len() > 0
        &&& males < args.total ==> female_first_names.len() > 0
        &&& args.total > 0 ==> last_names.len() > 0
    }
}

/// Makes the people of a population in their first order: the males, then
/// the females. Person `i` gets the salary of draw `i` and the identifier of
/// call `i` of the generator; names and dates of birth are drawn at random.
/// Fails before any person is made if the percentages or the years are
/// wrong, and at the first salary draw that is below zero.
pub fn make_people_in_order(
    args: &Arguments,
    male_first_names: &Vec<String>,
    female_first_names: &Vec<String>,
    last_names: &Vec<String>,
    salary_draws: &Vec<u32>,
) -> (r: Result<Vec<Person>, GenError>)
    requires
        can_synthesize(
            args,
            male_first_names@,
            female_first_names@,
            last_names@,
            salary_draws@,
        ),
    ensures
        match r {
            Ok(people) => synthesis_error(args, salary_draws@) is None && in_order(
                people@,
                args,
                male_first_names@,
                female_first_names@,
                last_names@,
                salary_draws@,
            ),
            Err(e) => synthesis_error(args, salary_draws@) == Some(e),
        },
{
    match check_ratio_and_years(
        args.female_percent,
        args.male_percent,
        args.year_min,
        args.year_max,
    ) {
        Err(e) => {
            return Err(e);
        },
        Ok(_) => {},
    }
    let epoch_start = first_second_of_year(args.year_min as i32);
    let epoch_end = last_second_of_year(args.year_max as i32);
    proof {
        lemma_years_ordered(MIN_YEAR as int, args.year_min as int);
        lemma_years_ordered(args.year_min as int, args.year_max + 1);
        lemma_years_ordered(args.year_max + 1, MAX_YEAR + 1);
    }
    let total_males = gender_totals(args.total, args.male_percent, args.female_percent).0;
    let mut ssns = SsnGenerator::new_auto_reset();
    let mut buf: Vec<Person> = Vec::new();
    let mut i: u32 = 0;
    assert(salary_draws@.take(0) =~= Seq::<u32>::empty());
    while i < args.total
        invariant
            i <= args.total,
            salary_draws@.len() == args.total,
            total_males == male_share(
                args.total as int,
                args.male_percent as int,
                args.female_percent as int,
            ),
            total_males <= args.total,
            total_males > 0 ==> male_first_names.len() > 0,
            total_males < args.total ==> female_first_names.len() > 0,
            args.total > 0 ==> last_names.len() > 0,
            ratio_and_years_error(
                args.female_percent,
                args.male_percent,
                args.year_min,
                args.year_max,
            ) is None,
            args.year_min <= args.year_max <= MAX_YEAR,
            epoch_start == year_start(args.year_min as int),
            epoch_end == year_start(args.year_max + 1) - 1,
            year_start(MIN_YEAR as int) <= epoch_start <= epoch_end < year_start(MAX_YEAR + 1),
            ssns.wf(),
            ssns@ == ssn_source().after(i as nat),
            ssns@.auto_reset,
            first_negative(salary_draws@.take(i as int)) is None,
            buf@.len() == i,
            forall|j: int|
                0 <= j < i ==> fits(
                    #[trigger] buf@[j],
                    j,
                    args,
                    male_first_names@,
                    female_first_names@,
                    last_names@,
                    salary_draws@,
                ),
        decreases args.total - i,
    {
        let draw = salary_draws[i as usize];
        proof {
            assert(salary_draws@.take(i + 1).drop_last() =~= salary_draws@.take(i as int));
            assert(salary_draws@.take(i + 1).last() == draw);
        }
        let salary = match salary_from_draw(draw) {
            Ok(salary) => salary,
            Err(e) => {
                proof {
                    lemma_first_negative_stays(salary_draws@, i + 1, args.total as int);
                }
                return Err(e);
            },
        };
        let ghost before = ssns@;
        let ssn = ssns.next().unwrap();
        let male = i < total_males;
        let p = if male {
            make_person(
                male_first_names,
                last_names,
                Gender::Male,
                salary,
                epoch_start,
                epoch_end,
                ssn,
            )
        } else {
            make_person(
                female_first_names,
                last_names,
                Gender::Female,
                salary,
                epoch_start,
                epoch_end,
                ssn,
            )
        };
        proof {
            let t = p.birth_date@.day_number() * SECONDS_PER_DAY;
            lemma_year_between(p.birth_date@, t, args.year_min as int, args.year_max as int);
            assert(ssn_source().after((i + 1) as nat) == before.step().0);
            assert(ssn_source().output(i as nat) == Some(p.ssn@));
        }
        buf.push(p);
        i = i + 1;
    }
    proof {
        assert(salary_draws@.take(args.total as int) =~= salary_draws@);
    }
    Ok(buf)
}

/// Once a draw below zero has been found among the first `k` draws, it stays
/// the first one among any more of them.
pub proof fn lemma_first_negative_stays(draws: Seq<u32>, k: int, n: int)
    requires
        0 <= k <= n <= draws.len(),
        first_negative(draws.take(k)) is Some,
    ensures
        first_negative(draws.take(n)) == first_negative(draws.take(k)),
    decreases n - k,
{
    if k < n {
        lemma_first_negative_stays(draws, k, n - 1);
        assert(draws.take(n).drop_last() =~= draws.take(n - 1));
    }
}

/// How many of `people` have the given gender.
pub open spec fn count_gender(people: Seq<Person>, gender: Gender) -> nat {
    count_where(people, |p: Person| p.gender == gender)
}

/// What holds of every person of a population, wherever the shuffle puts
/// them: the first and middle names are first names of the person's gender,
/// the last name is a last name, and the date of birth lies in the
/// configured years.
pub open spec fn well_drawn(
    p: Person,
    args: &Arguments,
    male_first_names: Seq<String>,
    female_first_names: Seq<String>,
    last_names: Seq<String>,
) -> bool {
    let first_names = if p.gender == Gender::Male {
        male_first_names
    } else {
        female_first_names
    };
    &&& first_names.contains(p.first_name)
    &&& first_names.contains(p.middle_name)
    &&& last_names.contains(p.last_name)
    &&& p.birth_date@.valid()
    &&& args.year_min <= p.birth_date@.year <= args.year_max
}

/// Whether `people` can be a population: the people of `make_people_in_order`
/// in some order.
pub open spec fn is_population(
    people: Seq<Person>,
    args: &Arguments,
    male_first_names: Seq<String>,
    female_first_names: Seq<String>,
    last_names: Seq<String>,
    salary_draws: Seq<u32>,
) -> bool {
    exists|ordered: Seq<Person>|
        #[trigger] in_order(
            ordered,
            args,
            male_first_names,
            female_first_names,
            last_names,
            salary_draws,
        ) && people.to_multiset() == ordered.to_multiset()
}

/// A population has exactly as many people as were asked for; they split
/// into males and females exactly as `male_share` says; and each of them is
/// well drawn.
pub proof fn lemma_population(
    people: Seq<Person>,
    args: &Arguments,
    male_first_names: Seq<String>,
    female_first_names: Seq<String>,
    last_names: Seq<String>,
    salary_draws: Seq<u32>,
)
    requires
        args.male_percent + args.female_percent == 100,
        is_population(
            people,
            args,
            male_first_names,
            female_first_names,
            last_names,
            salary_draws,
        ),
    ensures
        people.len() == args.total,
        count_gender(people, Gender::Male) == male_share(
            args.total as int,
            args.male_percent as int,
            args.female_percent as int,
        ),
        count_gender(people, Gender::Male) + count_gender(people, Gender::Female) == args.total,
        forall|i: int|
            0 <= i < people.len() ==> well_drawn(
                #[trigger] people[i],
                args,
                male_first_names,
                female_first_names,
                last_names,
            ),
{
    let ordered = choose|ordered: Seq<Person>|
        #[trigger] in_order(
            ordered,
            args,
            male_first_names,
            female_first_names,
            last_names,
            salary_draws,
        ) && people.to_multiset() == ordered.to_multiset();
    let males = male_share(args.total as int, args.male_percent as int, args.female_percent as int);
    lemma_gender_split(args.total as int, args.male_percent as int, args.female_percent as int);
    to_multiset_len(people);
    to_multiset_len(ordered);
    let is_male = |p: Person| p.gender == Gender::Male;
    let is_female = |p: Person| p.gender == Gender::Female;
    let good = |p: Person| well_drawn(p, args, male_first_names, female_first_names, last_names);
    assert forall|i: int| 0 <= i < ordered.len() implies (is_male(#[trigger] ordered[i]) <==> i
        < males) by {
        assert(fits(
            ordered[i],
            i,
            args,
            male_first_names,
            female_first_names,
            last_names,
            salary_draws,
        ));
    }
    assert forall|i: int| 0 <= i < ordered.len() implies good(#[trigger] ordered[i]) by {
        assert(fits(
            ordered[i],
            i,
            args,
            male_first_names,
            female_first_names,
            last_names,
            salary_draws,
        ));
    }
    lemma_count_prefix(ordered, is_male, males);
    lemma_count_permutation(people, ordered, is_male);
    lemma_all_permutation(ordered, people, good);
    lemma_count_split(people, is_male, is_female);
    assert forall|i: int| 0 <= i < people.len() implies well_drawn(
        #[trigger] people[i],
        args,
        male_first_names,
        female_first_names,
        last_names,
    ) by {
        assert(good(people[i]));
    }
}

/// Makes a population: the people of `make_people_in_order`, shuffled, so
/// that the order says nothing of the gender. Every person has an
/// identifier, whether or not it is written out later.
pub fn make_people(
    args: &Arguments,
    male_first_names: &Vec<String>,
    female_first_names: &Vec<String>,
    last_names: &Vec<String>,
    salary_draws: &Vec<u32>,
) -> (r: Result<Vec<Person>, GenError>)
    requires
        can_synthesize(
            args,
            male_first_names@,
            female_first_names@,
            last_names@,
            salary_draws@,
        ),
    ensures
        match r {
            Ok(people) => {
                &&& synthesis_error(args, salary_draws@) is None
                &&& is_population(
                    people@,
                    args,
                    male_first_names@,
                    female_first_names@,
                    last_names@,
                    salary_draws@,
                )
                &&& people@.len() == args.total
                &&& count_gender(people@, Gender::Male) == male_share(
                    args.total as int,
                    args.male_percent as int,
                    args.female_percent as int,
                )
                &&& count_gender(people@, Gender::Male) + count_gender(people@, Gender::Female)
                    == args.total
                &&& forall|i: int|
                    0 <= i < people@.len() ==> well_drawn(
                        #[trigger] people@[i],
                        args,
                        male_first_names@,
                        female_first_names@,
                        last_names@,
                    )
            },
            Err(e) => synthesis_error(args, salary_draws@) == Some(e),
        },
{
    match make_people_in_order(
        args,
        male_first_names,
        female_first_names,
        last_names,
        salary_draws,
    ) {
        Err(e) => Err(e),
        Ok(ordered) => {
            let mut buf = ordered;
            let ghost before = buf@;
            shuffle(&mut buf);
            proof {
                assert(in_order(
                    before,
                    args,
                    male_first_names@,
                    female_first_names@,
                    last_names@,
                    salary_draws@,
                ));
                lemma_population(
                    buf@,
                    args,
                    male_first_names@,
                    female_first_names@,
                    last_names@,
                    salary_draws@,
                );
            }
            Ok(buf)
        },
    }
}

/// The warning for a population that is larger than the space of
/// identifiers.
pub open spec fn repeat_warning_text(available: nat, total: nat) -> Seq<char> {
    "Warning: There are "@ + grouped(available) + " total unique SSNs.\nYou're generating "@
        + grouped(total) + " people.\nThere will be some repeated SSNs."@
}

/// The warning that is due where more people are asked for than there are
/// identifiers: some identifiers will then repeat. It does not stop the run.
pub fn ssn_repeat_warning(total: u32) -> (warning: Option<String>)
    ensures
        match warning {
            Some(text) => total > ssn_source().size() && text@ == repeat_warning_text(
                ssn_source().size() as nat,
                total as nat,
            ),
            None => total <= ssn_source().size(),
        },
{
    let ssns = SsnGenerator::new_auto_reset();
    let available = ssns.total();
    if total as u64 > available {
        let mut text = String::from_str("Warning: There are ");
        push_grouped(&mut text, available);
        text.append(" total unique SSNs.\nYou're generating ");
        push_grouped(&mut text, total as u64);
        text.append(" people.\nThere will be some repeated SSNs.");
        Some(text)
    } else {
        None
    }
}

} // verus!
