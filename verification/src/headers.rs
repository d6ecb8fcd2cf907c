//! The names of the fields, in each of the three header formats.

use crate::args::HeaderFormat;
use vstd::prelude::*;

verus! {

/// The names of the eight fields, as texts.
pub struct HeaderNames {
    pub id: Seq<char>,
    pub first_name: Seq<char>,
    pub middle_name: Seq<char>,
    pub last_name: Seq<char>,
    pub gender: Seq<char>,
    pub birth_date: Seq<char>,
    pub ssn: Seq<char>,
    pub salary: Seq<char>,
}

/// The names of the eight fields.
pub struct Headers {
    pub id: String,
    pub first_name: String,
    pub middle_name: String,
    pub last_name: String,
    pub gender: String,
    pub birth_date: String,
    pub ssn: String,
    pub salary: String,
}

impl View for Headers {
    type V = HeaderNames;

    open spec fn view(&self) -> HeaderNames {
        HeaderNames {
            id: self.id@,
            first_name: self.first_name@,
            middle_name: self.middle_name@,
            last_name: self.last_name@,
            gender: self.gender@,
            birth_date: self.birth_date@,
            ssn: self.ssn@,
            salary: self.salary@,
        }
    }
}

impl HeaderNames {
    /// The eight names, in the order in which the fields are written.
    pub open spec fn all(self) -> Seq<Seq<char>> {
        seq![
            self.id,
            self.first_name,
            self.middle_name,
            self.last_name,
            self.gender,
            self.birth_date,
            self.ssn,
            self.salary,
        ]
    }

    /// No two fields have the same name.
    pub open spec fn distinct(self) -> bool {
        forall|i: int, j: int|
            0 <= i < j < self.all().len() ==> self.all()[i] != self.all()[j]
    }
}

/// The names of the fields in a header format.
pub open spec fn header_names(format: HeaderFormat) -> HeaderNames {
    match format {
        HeaderFormat::SnakeCase => HeaderNames {
            id: "id"@,
            first_name: "first_name"@,
            middle_name: "middle_name"@,
            last_name: "last_name"@,
            gender: "gender"@,
            birth_date: "birth_date"@,
            ssn: "ssn"@,
            salary: "salary"@,
        },
        HeaderFormat::CamelCase => HeaderNames {
            id: "id"@,
            first_name: "firstName"@,
            middle_name: "middleName"@,
            last_name: "lastName"@,
            gender: "gender"@,
            birth_date: "birthDate"@,
            ssn: "ssn"@,
            salary: "salary"@,
        },
        HeaderFormat::Pretty => HeaderNames {
            id: "ID"@,
            first_name: "First Name"@,
            middle_name: "Middle Name"@,
            last_name: "Last Name"@,
            gender: "Gender"@,
            birth_date: "Birth Date"@,
            ssn: "SSN"@,
            salary: "Salary"@,
        },
    }
}

/// The names of the fields in a header format.
pub fn get_headers(header_format: HeaderFormat) -> (headers: Headers)
    ensures
        headers@ == header_names(header_format),
{
    match header_format {
        HeaderFormat::SnakeCase => Headers {
            id: String::from_str("id"),
            first_name: String::from_str("first_name"),
            middle_name: String::from_str("middle_name"),
            last_name: String::from_str("last_name"),
            gender: String::from_str("gender"),
            birth_date: String::from_str("birth_date"),
            ssn: String::from_str("ssn"),
            salary: String::from_str("salary"),
        },
        HeaderFormat::CamelCase => Headers {
            id: String::from_str("id"),
            first_name: String::from_str("firstName"),
            middle_name: String::from_str("middleName"),
            last_name: String::from_str("lastName"),
            gender: String::from_str("gender"),
            birth_date: String::from_str("birthDate"),
            ssn: String::from_str("ssn"),
            salary: String::from_str("salary"),
        },
        HeaderFormat::Pretty => Headers {
            id: String::from_str("ID"),
            first_name: String::from_str("First Name"),
            middle_name: String::from_str("Middle Name"),
            last_name: String::from_str("Last Name"),
            gender: String::from_str("Gender"),
            birth_date: String::from_str("Birth Date"),
            ssn: String::from_str("SSN"),
            salary: String::from_str("Salary"),
        },
    }
}

/// In each header format, no two fields have the same name.
pub proof fn lemma_header_names_distinct(format: HeaderFormat)
    ensures
        header_names(format).distinct(),
{
    reveal_strlit("id");
    reveal_strlit("first_name");
    reveal_strlit("middle_name");
    reveal_strlit("last_name");
    reveal_strlit("gender");
    reveal_strlit("birth_date");
    reveal_strlit("ssn");
    reveal_strlit("salary");
    reveal_strlit("firstName");
    reveal_strlit("middleName");
    reveal_strlit("lastName");
    reveal_strlit("birthDate");
    reveal_strlit("ID");
    reveal_strlit("First Name");
    reveal_strlit("Middle Name");
    reveal_strlit("Last Name");
    reveal_strlit("Gender");
    reveal_strlit("Birth Date");
    reveal_strlit("SSN");
    reveal_strlit("Salary");
    let names = header_names(format).all();
    assert(names[0].len() == 2);
    assert(names[6].len() == 3);
    assert(names[4].len() == 6 && names[7].len() == 6);
    assert(names[4][0] != names[7][0]);
    assert(names[1][0] != names[2][0]);
    assert(names[1][0] != names[3][0]);
    assert(names[1][0] != names[5][0]);
    assert(names[2][0] != names[3][0]);
    assert(names[2][0] != names[5][0]);
    assert(names[3][0] != names[5][0]);
    assert(names[1].len() > 6 && names[2].len() > 6 && names[3].len() > 6 && names[5].len() > 6);
}

} // verus!
