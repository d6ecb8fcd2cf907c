//! What holds of every run of the identifier generator.
//!
//! The generator moves from place to place. Here the places are numbered,
//! and the laws are stated by the numbers: call number `k` of a pass hands
//! out identifier number `k` of the space.

use crate::ssn::{default_prefixes, ssn_text, Place, SsnModel};
use crate::text::{lemma_decimal_len_small, lemma_padded, padded};
use vstd::arithmetic::div_mod::{
    lemma_fundamental_div_mod, lemma_fundamental_div_mod_converse, lemma_mod_mod,
};
use vstd::prelude::*;

verus! {

impl SsnModel {
    /// The number of a place, counting the places of the space from 0 in the
    /// order in which the generator visits them.
    pub open spec fn number(self, place: Place) -> int {
        place.prefix_index * self.block() + (place.mid - self.mid_min) * self.lasts() + (place.last
            - self.last_min)
    }

    /// The place with the number `k`.
    pub open spec fn place_at(self, k: int) -> Place {
        Place {
            prefix_index: k / self.block(),
            mid: self.mid_min + (k % self.block()) / self.lasts(),
            last: self.last_min + k % self.lasts(),
        }
    }

    /// The text of the identifier with the number `k`.
    pub open spec fn identifier(self, k: int) -> Seq<char> {
        self.text(self.place_at(k))
    }

    /// How many identifiers of the current pass have been handed out.
    pub open spec fn emitted(self) -> int {
        match self.cursor {
            None => 0,
            Some(place) => self.number(place) + 1,
        }
    }

    /// The state in which `k` identifiers of a pass have been handed out.
    pub open spec fn at_count(self, k: int) -> SsnModel {
        self.at(
            if k == 0 {
                None
            } else {
                Some(self.place_at(k - 1))
            },
        )
    }

    /// The state after `n` calls.
    pub open spec fn after(self, n: nat) -> SsnModel
        decreases n,
    {
        if n == 0 {
            self
        } else {
            self.after((n - 1) as nat).step().0
        }
    }

    /// What call number `n` hands out, counting the calls from 0.
    pub open spec fn output(self, n: nat) -> Option<Seq<char>> {
        self.after(n).step().1
    }

    /// No prefix occurs twice in the list.
    pub open spec fn distinct_prefixes(self) -> bool {
        forall|i: int, j: int|
            0 <= i < j < self.prefixes.len() ==> self.prefixes[i] != self.prefixes[j]
    }
}

/// The number of a place from its three digits: the index of the prefix, and
/// the offsets of the middle and of the last group in their ranges.
pub open spec fn place(pi: int, mo: int, lo: int, mids: int, lasts: int) -> int {
    pi * (mids * lasts) + mo * lasts + lo
}

/// How the number of a place grows under each of the odometer's moves.
pub proof fn lemma_place_succ(pi: int, mo: int, lo: int, mids: int, lasts: int)
    ensures
        place(0, 0, 0, mids, lasts) == 0,
        place(pi, mo, lo + 1, mids, lasts) == place(pi, mo, lo, mids, lasts) + 1,
        place(pi, mo + 1, 0, mids, lasts) == place(pi, mo, lasts - 1, mids, lasts) + 1,
        place(pi + 1, 0, 0, mids, lasts) == place(pi, mids - 1, lasts - 1, mids, lasts) + 1,
{
    assert(place(pi, mo + 1, 0, mids, lasts) == place(pi, mo, lasts - 1, mids, lasts) + 1)
        by (nonlinear_arith);
    assert(place(pi + 1, 0, 0, mids, lasts) == place(pi, mids - 1, lasts - 1, mids, lasts) + 1)
        by (nonlinear_arith);
}

/// A place's number splits back into its three digits.
pub proof fn lemma_position(pi: int, mo: int, lo: int, mids: int, lasts: int)
    requires
        0 <= pi,
        0 <= mo < mids,
        0 <= lo < lasts,
    ensures
        ({
            let k = place(pi, mo, lo, mids, lasts);
            &&& k / (mids * lasts) == pi
            &&& (k % (mids * lasts)) / lasts == mo
            &&& k % lasts == lo
        }),
{
    let block = mids * lasts;
    let k = pi * block + mo * lasts + lo;
    let r = mo * lasts + lo;
    assert(0 <= r < block) by (nonlinear_arith)
        requires
            r == mo * lasts + lo,
            block == mids * lasts,
            0 <= mo < mids,
            0 <= lo < lasts,
    ;
    lemma_fundamental_div_mod_converse(k, block, pi, r);
    lemma_fundamental_div_mod_converse(r, lasts, mo, lo);
    assert(k == (pi * mids + mo) * lasts + lo) by (nonlinear_arith)
        requires
            k == pi * (mids * lasts) + mo * lasts + lo,
    ;
    lemma_fundamental_div_mod_converse(k, lasts, pi * mids + mo, lo);
}

/// Every place has a number below the size, and the last place alone has the
/// number just below it.
pub proof fn lemma_last_place(len: int, pi: int, mo: int, lo: int, mids: int, lasts: int)
    requires
        0 <= pi < len,
        0 <= mo < mids,
        0 <= lo < lasts,
    ensures
        0 <= place(pi, mo, lo, mids, lasts) < len * (mids * lasts),
        place(pi, mo, lo, mids, lasts) + 1 == len * (mids * lasts) <==> pi == len - 1 && mo
            == mids - 1 && lo == lasts - 1,
{
    let block = mids * lasts;
    assert(0 <= mo * lasts + lo && mo * lasts + lo + 1 <= block && (mo * lasts + lo + 1 == block
        <==> mo == mids - 1 && lo == lasts - 1)) by (nonlinear_arith)
        requires
            block == mids * lasts,
            0 <= mo < mids,
            0 <= lo < lasts,
    ;
    assert(0 <= pi * block && pi * block + block <= len * block && (pi * block + block == len
        * block <==> pi == len - 1)) by (nonlinear_arith)
        requires
            0 <= pi < len,
            0 < block,
    ;
}

/// A number below the size splits into a prefix index, a middle offset and
/// a last offset, each within its range, and is made up of them.
pub proof fn lemma_digits(k: int, len: int, mids: int, lasts: int)
    requires
        0 < mids,
        0 < lasts,
        0 <= k < len * (mids * lasts),
    ensures
        0 <= k / (mids * lasts) < len,
        0 <= (k % (mids * lasts)) / lasts < mids,
        0 <= k % lasts < lasts,
        k == place(k / (mids * lasts), (k % (mids * lasts)) / lasts, k % lasts, mids, lasts),
{
    let b = mids * lasts;
    assert(0 < b) by (nonlinear_arith)
        requires
            b == mids * lasts,
            0 < mids,
            0 < lasts,
    ;
    let q = k / b;
    let r = k % b;
    lemma_fundamental_div_mod(k, b);
    lemma_fundamental_div_mod(r, lasts);
    assert(b * q == q * b) by (nonlinear_arith);
    assert(lasts * (r / lasts) == (r / lasts) * lasts) by (nonlinear_arith);
    assert(0 <= q < len) by (nonlinear_arith)
        requires
            k == q * b + r,
            0 <= r < b,
            0 <= k < len * b,
    ;
    assert(0 <= r / lasts < mids) by (nonlinear_arith)
        requires
            r == (r / lasts) * lasts + r % lasts,
            0 <= r % lasts < lasts,
            0 <= r < b,
            b == mids * lasts,
    ;
    assert(b == lasts * mids) by (nonlinear_arith)
        requires
            b == mids * lasts,
    ;
    lemma_mod_mod(k, lasts, mids);
}

/// A place of the space has a number below the size and is the place with
/// that number; the last place alone has the number just below the size.
pub proof fn lemma_number(m: SsnModel, p: Place)
    requires
        m.valid(),
        m.in_space(p),
    ensures
        0 <= m.number(p) < m.size(),
        m.place_at(m.number(p)) == p,
        m.is_last(p) <==> m.number(p) == m.size() - 1,
{
    let len = m.prefixes.len() as int;
    lemma_position(p.prefix_index, p.mid - m.mid_min, p.last - m.last_min, m.mids(), m.lasts());
    lemma_last_place(
        len,
        p.prefix_index,
        p.mid - m.mid_min,
        p.last - m.last_min,
        m.mids(),
        m.lasts(),
    );
}

/// The place with a number below the size lies in the space and has that
/// number.
pub proof fn lemma_place_at(m: SsnModel, k: int)
    requires
        m.valid(),
        0 <= k < m.size(),
    ensures
        m.in_space(m.place_at(k)),
        m.number(m.place_at(k)) == k,
{
    lemma_digits(k, m.prefixes.len() as int, m.mids(), m.lasts());
}

/// The successor of a place that is not the last lies in the space, and its
/// number is the next number.
pub proof fn lemma_successor(m: SsnModel, p: Place)
    requires
        m.valid(),
        m.in_space(p),
        !m.is_last(p),
    ensures
        m.in_space(m.successor(p)),
        m.number(m.successor(p)) == m.number(p) + 1,
{
    lemma_place_succ(p.prefix_index, p.mid - m.mid_min, p.last - m.last_min, m.mids(), m.lasts());
}

/// One call, by the numbers: a call hands out the identifier whose number is
/// the count of those handed out before it in the pass, and the count grows
/// by one; at the end of a pass a cycling generator starts over with number
/// 0, and any other hands out nothing and stays as it is.
pub proof fn lemma_step(m: SsnModel)
    requires
        m.valid(),
    ensures
        m.step().0.valid(),
        0 <= m.emitted() <= m.size(),
        0 < m.size(),
        m.exhausted() <==> m.emitted() == m.size(),
        m == m.at_count(m.emitted()),
        m.exhausted() && !m.auto_reset ==> m.step() == (m, None::<Seq<char>>),
        m.exhausted() && m.auto_reset ==> m.step() == (m.at_count(1), Some(m.identifier(0))),
        !m.exhausted() ==> m.step() == (
            m.at_count(m.emitted() + 1),
            Some(m.identifier(m.emitted())),
        ),
{
    assert(0 < m.size()) by (nonlinear_arith)
        requires
            m.size() == m.prefixes.len() * (m.mids() * m.lasts()),
            0 < m.prefixes.len(),
            0 < m.mids(),
            0 < m.lasts(),
    ;
    lemma_place_at(m, 0);
    assert(m.place_at(0) == m.first()) by {
        lemma_number(m, m.first());
        lemma_place_succ(0, 0, 0, m.mids(), m.lasts());
        assert(m.number(m.first()) == 0) by (nonlinear_arith)
            requires
                m.number(m.first()) == 0 * m.block() + 0 * m.lasts() + 0,
        ;
    }
    match m.cursor {
        None => {},
        Some(p) => {
            lemma_number(m, p);
            if !m.is_last(p) {
                lemma_successor(m, p);
                lemma_number(m, m.successor(p));
            }
        },
    }
}

/// Two identifiers with the same text have the same three groups.
pub proof fn lemma_ssn_text_injective(
    prefix_a: int,
    mid_a: int,
    last_a: int,
    prefix_b: int,
    mid_b: int,
    last_b: int,
)
    requires
        0 <= prefix_a,
        0 <= prefix_b,
        0 <= mid_a <= 99,
        0 <= mid_b <= 99,
        0 <= last_a <= 9999,
        0 <= last_b <= 9999,
        ssn_text(prefix_a, mid_a, last_a) == ssn_text(prefix_b, mid_b, last_b),
    ensures
        prefix_a == prefix_b,
        mid_a == mid_b,
        last_a == last_b,
{
    let text_a = ssn_text(prefix_a, mid_a, last_a);
    let text_b = ssn_text(prefix_b, mid_b, last_b);
    lemma_padded(prefix_a as nat, 3);
    lemma_padded(prefix_b as nat, 3);
    lemma_padded(mid_a as nat, 2);
    lemma_padded(mid_b as nat, 2);
    lemma_padded(last_a as nat, 4);
    lemma_padded(last_b as nat, 4);
    lemma_decimal_len_small(mid_a as nat);
    lemma_decimal_len_small(mid_b as nat);
    lemma_decimal_len_small(last_a as nat);
    lemma_decimal_len_small(last_b as nat);
    let n = padded(prefix_a as nat, 3).len() as int;
    assert(text_a.len() == n + 8);
    assert(text_b.len() == padded(prefix_b as nat, 3).len() + 8);
    assert(padded(prefix_a as nat, 3) =~= text_a.subrange(0, n));
    assert(padded(prefix_b as nat, 3) =~= text_b.subrange(0, n));
    assert(padded(mid_a as nat, 2) =~= text_a.subrange(n + 1, n + 3));
    assert(padded(mid_b as nat, 2) =~= text_b.subrange(n + 1, n + 3));
    assert(padded(last_a as nat, 4) =~= text_a.subrange(n + 4, n + 8));
    assert(padded(last_b as nat, 4) =~= text_b.subrange(n + 4, n + 8));
}

/// From the start of a pass, `n` calls within the space lead to the state
/// in which `n` identifiers have been handed out.
pub proof fn lemma_after_within(m: SsnModel, n: nat)
    requires
        m.valid(),
        m.cursor is None,
        n <= m.size(),
    ensures
        m.after(n) == m.at_count(n as int),
        m.after(n).valid(),
        m.after(n).emitted() == n,
    decreases n,
{
    if n > 0 {
        lemma_after_within(m, (n - 1) as nat);
        let prev = m.after((n - 1) as nat);
        lemma_step(prev);
        lemma_place_at(m, n - 1);
    }
}

/// One full pass: from the start, call number `k` hands out the identifier
/// number `k` of the space, for each `k` below the size.
pub proof fn lemma_full_pass(m: SsnModel, k: nat)
    requires
        m.valid(),
        m.cursor is None,
        k < m.size(),
    ensures
        m.output(k) == Some(m.identifier(k as int)),
{
    lemma_after_within(m, k);
    lemma_step(m.after(k));
}

/// The identifiers of a space are pairwise distinct, where no prefix occurs
/// twice in the list.
pub proof fn lemma_pass_distinct(m: SsnModel, i: nat, j: nat)
    requires
        m.valid(),
        m.distinct_prefixes(),
        i < m.size(),
        j < m.size(),
        i != j,
    ensures
        m.identifier(i as int) != m.identifier(j as int),
{
    lemma_place_at(m, i as int);
    lemma_place_at(m, j as int);
    let a = m.place_at(i as int);
    let b = m.place_at(j as int);
    if m.identifier(i as int) == m.identifier(j as int) {
        lemma_ssn_text_injective(
            m.prefixes[a.prefix_index] as int,
            a.mid,
            a.last,
            m.prefixes[b.prefix_index] as int,
            b.mid,
            b.last,
        );
        if a.prefix_index < b.prefix_index {
            assert(m.prefixes[a.prefix_index] != m.prefixes[b.prefix_index]);
        } else if b.prefix_index < a.prefix_index {
            assert(m.prefixes[b.prefix_index] != m.prefixes[a.prefix_index]);
        }
        assert(a == b);
        assert(false);
    }
}

/// Without cycling, every call after a full pass hands out nothing, and the
/// state stays at the end of the space.
pub proof fn lemma_exhausted_stays(m: SsnModel, n: nat)
    requires
        m.valid(),
        m.cursor is None,
        !m.auto_reset,
        n >= m.size(),
    ensures
        m.after(n) == m.at_count(m.size()),
        m.output(n) is None,
    decreases n,
{
    lemma_step(m);
    if n == m.size() {
        lemma_after_within(m, n);
        lemma_step(m.after(n));
    } else {
        lemma_exhausted_stays(m, (n - 1) as nat);
        lemma_after_within(m, m.size() as nat);
        lemma_step(m.after((n - 1) as nat));
    }
}

/// With cycling, the call after a full pass hands out the very identifier
/// that the first call handed out.
pub proof fn lemma_cycle_restarts(m: SsnModel)
    requires
        m.valid(),
        m.cursor is None,
        m.auto_reset,
    ensures
        m.output(m.size() as nat) == m.output(0),
        m.output(0) == Some(m.identifier(0)),
{
    lemma_step(m);
    lemma_after_within(m, m.size() as nat);
    lemma_step(m.after(m.size() as nat));
}

/// The round trip: from the start of a pass a generator hands out, in as
/// many calls as the space is large, that many identifiers, all different
/// where no prefix occurs twice; the call after them hands out nothing
/// without cycling, and with cycling the first identifier again.
pub proof fn lemma_round_trip(m: SsnModel)
    requires
        m.valid(),
        m.cursor is None,
        m.distinct_prefixes(),
    ensures
        forall|k: nat| k < m.size() ==> #[trigger] m.output(k) is Some,
        forall|i: nat, j: nat|
            i < m.size() && j < m.size() && i != j ==> #[trigger] m.output(i) != #[trigger] m.output(
                j,
            ),
        !m.auto_reset ==> m.output(m.size() as nat) is None,
        m.auto_reset ==> m.output(m.size() as nat) == m.output(0),
{
    lemma_step(m);
    assert forall|k: nat| k < m.size() implies #[trigger] m.output(k) is Some by {
        lemma_full_pass(m, k);
    }
    assert forall|i: nat, j: nat| i < m.size() && j < m.size() && i != j implies #[trigger] m.output(
        i,
    ) != #[trigger] m.output(j) by {
        lemma_full_pass(m, i);
        lemma_full_pass(m, j);
        lemma_pass_distinct(m, i, j);
    }
    if m.auto_reset {
        lemma_cycle_restarts(m);
    } else {
        lemma_exhausted_stays(m, m.size() as nat);
    }
}

/// Enumeration holds no chance: two generators in the same state hand out the
/// same identifier at every call, and are in the same state after it.
pub proof fn lemma_deterministic(a: SsnModel, b: SsnModel, n: nat)
    requires
        a == b,
    ensures
        a.output(n) == b.output(n),
        a.after(n) == b.after(n),
{
}

/// The identifier of a call is a function of the space and the call's number
/// alone: from the start, call number `n` of a cycling generator hands out
/// the identifier whose number is `n` modulo the size.
pub proof fn lemma_cycling_output(m: SsnModel, n: nat)
    requires
        m.valid(),
        m.cursor is None,
        m.auto_reset,
    ensures
        m.output(n) == Some(m.identifier(n as int % m.size())),
        n > 0 ==> m.after(n) == m.at_count((n - 1) % m.size() + 1),
        m.after(n).valid(),
    decreases n,
{
    let s = m.size();
    lemma_step(m);
    if n == 0 {
        assert(0int % s == 0) by (nonlinear_arith)
            requires
                0 < s,
        ;
    } else {
        lemma_cycling_output(m, (n - 1) as nat);
        let prev = m.after((n - 1) as nat);
        lemma_step(prev);
        lemma_mod_succ((n - 1) as int, s);
        if n == 1 {
            assert(0int % s == 0) by (nonlinear_arith)
                requires
                    0 < s,
            ;
        } else {
            lemma_mod_succ((n - 2) as int, s);
            let k = (n - 2) % s + 1;
            lemma_place_at(m, k - 1);
            assert(prev == m.at_count(k));
            assert(prev.emitted() == k);
        }
        lemma_step(m.after(n));
        let now = (n - 1) % s + 1;
        lemma_place_at(m, now - 1);
        assert(m.after(n).emitted() == now);
    }
}

/// How the remainder moves when the number grows by one.
pub proof fn lemma_mod_succ(x: int, d: int)
    requires
        0 <= x,
        0 < d,
    ensures
        0 <= x % d < d,
        (x + 1) % d == if x % d + 1 == d {
            0
        } else {
            x % d + 1
        },
{
    lemma_fundamental_div_mod(x, d);
    let q = x / d;
    let r = x % d;
    assert(0 <= r < d) by (nonlinear_arith)
        requires
            r == x % d,
            0 < d,
    ;
    assert(d * q == q * d) by (nonlinear_arith);
    if r + 1 == d {
        assert(x + 1 == (q + 1) * d + 0) by (nonlinear_arith)
            requires
                x == q * d + r,
                r + 1 == d,
        ;
        lemma_fundamental_div_mod_converse(x + 1, d, q + 1, 0);
    } else {
        lemma_fundamental_div_mod_converse(x + 1, d, q, r + 1);
    }
}

/// No prefix occurs twice among the default prefixes.
pub proof fn lemma_default_prefixes_distinct(m: SsnModel)
    requires
        m.prefixes == default_prefixes(),
    ensures
        m.distinct_prefixes(),
{
}

} // verus!
