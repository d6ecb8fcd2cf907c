//! An exhaustive, ordered enumerator of fake Social Security numbers.
//!
//! The identifier space is the Cartesian product of a list of prefixes, a
//! range of middle groups and a range of last groups. The generator walks it
//! like an odometer: the last group moves fastest, then the middle group,
//! then the prefix.

use crate::text::{padded, push_padded};
use vstd::prelude::*;

verus! {

/// The longest list of prefixes that a generator takes: with it, and with 99
/// middle groups and 9999 last groups, the size of the space still fits in 64
/// bits.
pub const MAX_PREFIXES: u64 = 18_634_938_315_760;

/// A place in the space: which prefix of the list, which middle group and
/// which last group.
pub struct Place {
    pub prefix_index: int,
    pub mid: int,
    pub last: int,
}

/// The mathematical state of a generator: the configured space, and the
/// place of the identifier that was handed out last (`None` before the
/// first one).
pub struct SsnModel {
    pub prefixes: Seq<u32>,
    pub mid_min: int,
    pub mid_max: int,
    pub last_min: int,
    pub last_max: int,
    pub auto_reset: bool,
    pub cursor: Option<Place>,
}

/// The text of one identifier: `PPP-MM-LLLL`.
pub open spec fn ssn_text(prefix: int, mid: int, last: int) -> Seq<char> {
    padded(prefix as nat, 3) + seq!['-'] + padded(mid as nat, 2) + seq!['-'] + padded(
        last as nat,
        4,
    )
}

impl SsnModel {
    /// How many middle groups the space has.
    pub open spec fn mids(self) -> int {
        self.mid_max - self.mid_min + 1
    }

    /// How many last groups the space has.
    pub open spec fn lasts(self) -> int {
        self.last_max - self.last_min + 1
    }

    /// How many identifiers share one prefix.
    pub open spec fn block(self) -> int {
        self.mids() * self.lasts()
    }

    /// The size of the whole space.
    pub open spec fn size(self) -> int {
        self.prefixes.len() * self.block()
    }

    /// Whether the place lies in the space.
    pub open spec fn in_space(self, place: Place) -> bool {
        &&& 0 <= place.prefix_index < self.prefixes.len()
        &&& self.mid_min <= place.mid <= self.mid_max
        &&& self.last_min <= place.last <= self.last_max
    }

    /// There is a prefix, and no more prefixes than a generator takes; the
    /// ranges are in order and within the widths of the text; and the cursor
    /// lies in the space.
    pub open spec fn valid(self) -> bool {
        &&& 0 < self.prefixes.len() <= MAX_PREFIXES
        &&& 1 <= self.mid_min <= self.mid_max <= 99
        &&& 1 <= self.last_min <= self.last_max <= 9999
        &&& self.cursor matches Some(place) ==> self.in_space(place)
    }

    /// The first place of the space.
    pub open spec fn first(self) -> Place {
        Place { prefix_index: 0, mid: self.mid_min, last: self.last_min }
    }

    /// Whether the place is the last of the space.
    pub open spec fn is_last(self, place: Place) -> bool {
        &&& place.prefix_index == self.prefixes.len() - 1
        &&& place.mid == self.mid_max
        &&& place.last == self.last_max
    }

    /// The place after a place that is not the last: the last group moves
    /// on; at its end it starts over and the middle group moves on; at the
    /// end of both, both start over and the prefix moves on.
    pub open spec fn successor(self, place: Place) -> Place {
        if place.last < self.last_max {
            Place { last: place.last + 1, ..place }
        } else if place.mid < self.mid_max {
            Place { mid: place.mid + 1, last: self.last_min, ..place }
        } else {
            Place { prefix_index: place.prefix_index + 1, mid: self.mid_min, last: self.last_min }
        }
    }

    /// The text of the identifier at a place.
    pub open spec fn text(self, place: Place) -> Seq<char> {
        ssn_text(self.prefixes[place.prefix_index] as int, place.mid, place.last)
    }

    /// The same space with another cursor.
    pub open spec fn at(self, cursor: Option<Place>) -> SsnModel {
        SsnModel { cursor, ..self }
    }

    /// Whether the pass is over: the last identifier of the space was handed
    /// out.
    pub open spec fn exhausted(self) -> bool {
        self.cursor matches Some(place) && self.is_last(place)
    }

    /// The place of the identifier that the next call hands out, if it hands
    /// one out: the first place at the start and, for a generator that
    /// cycles, at the end; nothing at the end otherwise; else the successor.
    pub open spec fn next_place(self) -> Option<Place> {
        match self.cursor {
            None => Some(self.first()),
            Some(place) => if !self.is_last(place) {
                Some(self.successor(place))
            } else if self.auto_reset {
                Some(self.first())
            } else {
                None
            },
        }
    }

    /// One call: the state after it and what it hands out. An exhausted
    /// generator that does not cycle stays as it is and hands out nothing.
    pub open spec fn step(self) -> (SsnModel, Option<Seq<char>>) {
        match self.next_place() {
            Some(place) => (self.at(Some(place)), Some(self.text(place))),
            None => (self, None),
        }
    }
}

/// The prefixes of numbers that were never issued: 900 to 999, then 666.
pub open spec fn default_prefixes() -> Seq<u32> {
    Seq::new(
        101,
        |i: int|
            if i < 100 {
                (900 + i) as u32
            } else {
                666u32
            },
    )
}

/// The default space, before its first identifier.
pub open spec fn default_space(auto_reset: bool) -> SsnModel {
    SsnModel {
        prefixes: default_prefixes(),
        mid_min: 1,
        mid_max: 99,
        last_min: 1,
        last_max: 9999,
        auto_reset,
        cursor: None,
    }
}

/// A generator of fake Social Security numbers.
pub struct SsnGenerator {
    prefixes: Vec<u32>,
    prefix_index: usize,
    mid_min: u32,
    mid_cur: u32,
    mid_max: u32,
    last_min: u32,
    last_cur: u32,
    last_max: u32,
    auto_reset: bool,
}

impl View for SsnGenerator {
    type V = SsnModel;

    closed spec fn view(&self) -> SsnModel {
        SsnModel {
            prefixes: self.prefixes@,
            mid_min: self.mid_min as int,
            mid_max: self.mid_max as int,
            last_min: self.last_min as int,
            last_max: self.last_max as int,
            auto_reset: self.auto_reset,
            cursor: if self.mid_cur == 0 {
                None
            } else {
                Some(
                    Place {
                        prefix_index: self.prefix_index as int,
                        mid: self.mid_cur as int,
                        last: self.last_cur as int,
                    },
                )
            },
        }
    }
}

impl SsnGenerator {
    /// The generator's invariant: a valid model, and a cursor that is all
    /// zero before the first identifier.
    pub closed spec fn wf(&self) -> bool {
        &&& self@.valid()
        &&& self.mid_cur == 0 ==> self.prefix_index == 0 && self.last_cur == 0
    }

    /// A well-formed generator has a valid model.
    pub proof fn lemma_wf_valid(&self)
        requires
            self.wf(),
        ensures
            self@.valid(),
    {
    }

    /// A generator over the default space, which is made of numbers that were
    /// never issued. It stops at the end of the space.
    pub fn new() -> (g: SsnGenerator)
        ensures
            g.wf(),
            g@ == default_space(false),
            g@.size() == 99_980_001,
    {
        let mut prefixes: Vec<u32> = Vec::new();
        let mut p: u32 = 900;
        while p <= 999
            invariant
                900 <= p <= 1000,
                prefixes@.len() == p - 900,
                forall|i: int| 0 <= i < prefixes@.len() ==> prefixes@[i] == 900 + i,
            decreases 1000 - p,
        {
            prefixes.push(p);
            p = p + 1;
        }
        prefixes.push(666);
        assert(prefixes@ =~= default_prefixes());
        proof {
            lemma_default_size(false);
        }
        SsnGenerator {
            prefixes,
            prefix_index: 0,
            mid_min: 1,
            mid_cur: 0,
            mid_max: 99,
            last_min: 1,
            last_cur: 0,
            last_max: 9999,
            auto_reset: false,
        }
    }

    /// The same, but the generator starts over at the end of the space.
    pub fn new_auto_reset() -> (g: SsnGenerator)
        ensures
            g.wf(),
            g@ == default_space(true),
            g@.size() == 99_980_001,
    {
        let mut s = SsnGenerator::new();
        s.auto_reset = true;
        proof {
            lemma_default_size(true);
        }
        s
    }

    /// A generator over a space of the caller's choice.
    pub fn new_for_tests(
        prefixes: Vec<u32>,
        mid_min: u32,
        mid_max: u32,
        last_min: u32,
        last_max: u32,
        auto_reset: bool,
    ) -> (g: SsnGenerator)
        requires
            0 < prefixes@.len() <= MAX_PREFIXES,
            0 < mid_min <= mid_max <= 99,
            0 < last_min <= last_max <= 9999,
        ensures
            g.wf(),
            g@ == (SsnModel {
                prefixes: prefixes@,
                mid_min: mid_min as int,
                mid_max: mid_max as int,
                last_min: last_min as int,
                last_max: last_max as int,
                auto_reset,
                cursor: None,
            }),
    {
        SsnGenerator {
            prefixes,
            prefix_index: 0,
            mid_min,
            mid_cur: 0,
            mid_max,
            last_min,
            last_cur: 0,
            last_max,
            auto_reset,
        }
    }

    /// Puts the generator back before the first identifier.
    pub fn reset(&mut self)
        requires
            old(self).wf(),
        ensures
            final(self).wf(),
            final(self)@ == old(self)@.at(None),
    {
        self.mid_cur = 0;
        self.last_cur = 0;
        self.prefix_index = 0;
    }

    /// The size of the space.
    pub fn total(&self) -> (n: u64)
        requires
            self.wf(),
        ensures
            n == self@.size(),
    {
        proof {
            lemma_size_bound(self@);
        }
        let total_firsts: u64 = self.prefixes.len() as u64;
        let total_lasts: u64 = (self.last_max - self.last_min + 1) as u64;
        let total_mids: u64 = (self.mid_max - self.mid_min + 1) as u64;
        proof {
            let f = total_firsts as int;
            let l = total_lasts as int;
            let m = total_mids as int;
            assert(f * l <= f * (m * l) && f * l * m == f * (m * l)) by (nonlinear_arith)
                requires
                    0 <= f,
                    1 <= l,
                    1 <= m,
            ;
        }
        total_firsts * total_lasts * total_mids
    }

    /// The next identifier of the space, if there is one. At the end of the
    /// space a cycling generator starts over with the first identifier; any
    /// other hands out nothing, and goes on doing so until it is reset.
    pub fn next(&mut self) -> (r: Option<String>)
        requires
            old(self).wf(),
        ensures
            final(self).wf(),
            final(self)@ == old(self)@.step().0,
            match r {
                Some(s) => old(self)@.step().1 == Some(s@),
                None => old(self)@.step().1 is None,
            },
    {
        if (self.prefix_index == (self.prefixes.len() - 1)) && (self.mid_cur == self.mid_max) && (
        self.last_cur == self.last_max) {
            if self.auto_reset {
                self.reset()
            } else {
                return None;
            }
        }
        if (self.prefix_index == 0) && (self.mid_cur == 0) && (self.last_cur == 0) {
            self.mid_cur = self.mid_min;
            self.last_cur = self.last_min;
        } else if (self.mid_cur == self.mid_max) && (self.last_cur == self.last_max) {
            self.prefix_index += 1;
            self.mid_cur = self.mid_min;
            self.last_cur = self.last_min;
        } else if self.last_cur == self.last_max {
            self.mid_cur += 1;
            self.last_cur = self.last_min;
        } else {
            self.last_cur += 1;
        }
        let first = self.prefixes[self.prefix_index];
        let ssn = format_ssn(first, self.mid_cur, self.last_cur);
        Some(ssn)
    }
}

/// The default space has 101 prefixes of 99 times 9999 identifiers each.
pub proof fn lemma_default_size(auto_reset: bool)
    ensures
        default_space(auto_reset).size() == 99_980_001,
{
    let m = default_space(auto_reset);
    assert(m.mids() == 99 && m.lasts() == 9999);
    assert(m.block() == 989_901) by (nonlinear_arith)
        requires
            m.block() == m.mids() * m.lasts(),
            m.mids() == 99,
            m.lasts() == 9999,
    ;
}

/// A space holds at most 989901 identifiers for each of its prefixes, so
/// that its size fits in 64 bits.
pub proof fn lemma_size_bound(m: SsnModel)
    requires
        m.valid(),
    ensures
        0 < m.size() <= m.prefixes.len() * 989_901 <= u64::MAX,
{
    let len = m.prefixes.len() as int;
    let block = m.mids() * m.lasts();
    assert(0 < block <= 989_901) by (nonlinear_arith)
        requires
            block == m.mids() * m.lasts(),
            0 < m.mids() <= 99,
            0 < m.lasts() <= 9999,
    ;
    assert(0 < len * block <= len * 989_901) by (nonlinear_arith)
        requires
            0 < len,
            0 < block <= 989_901,
    ;
    assert(len * 989_901 <= u64::MAX);
}

/// Writes one identifier as `PPP-MM-LLLL`, each group filled up with zeros.
pub fn format_ssn(prefix: u32, mid: u32, last: u32) -> (s: String)
    ensures
        s@ == ssn_text(prefix as int, mid as int, last as int),
{
    let mut s = String::new();
    push_padded(&mut s, prefix as u64, 3);
    s.append("-");
    push_padded(&mut s, mid as u64, 2);
    s.append("-");
    push_padded(&mut s, last as u64, 4);
    proof {
        reveal_strlit("-");
        assert(s@ =~= ssn_text(prefix as int, mid as int, last as int));
    }
    s
}

} // verus!
