//! Calendar periods of one month and the window of periods that a crawl walks.
use vstd::prelude::*;
use crate::text::{append_zero_padded, zero_padded};

verus! {

/// A calendar month: a year and a month number from 1 to 12.
#[derive(Clone, Copy, Debug, PartialEq, Eq, Structural)]
pub struct Period {
    pub year: i32,
    pub month: u32,
}

/// The month after `p`: month 12 wraps to month 1 of the next year.
pub open spec fn succ(p: Period) -> Period {
    if p.month == 12 {
        Period { year: (p.year + 1) as i32, month: 1 }
    } else {
        Period { year: p.year, month: (p.month + 1) as u32 }
    }
}

/// The period `n` months after `p`.
pub open spec fn advance_by(p: Period, n: nat) -> Period
    decreases n,
{
    if n == 0 {
        p
    } else {
        succ(advance_by(p, (n - 1) as nat))
    }
}

/// The periods from `start` through `end`, both included, one month apart;
/// empty where `end` comes before `start`.
pub open spec fn window(start: Period, end: Period) -> Seq<Period> {
    let n = if start.ord() <= end.ord() { end.ord() - start.ord() + 1 } else { 0 };
    Seq::new(n as nat, |i: int| advance_by(start, i as nat))
}

/// The text of a year as four digits, zero padded, with a leading minus sign
/// that counts toward the four where the year is negative.
pub open spec fn year_text(y: int) -> Seq<char> {
    if y < 0 {
        seq!['-'] + zero_padded((-y) as nat, 3)
    } else {
        zero_padded(y as nat, 4)
    }
}

/// The directory name of a period: `<year:04>_<month:02>`.
pub open spec fn dir_name_of(p: Period) -> Seq<char> {
    year_text(p.year as int) + seq!['_'] + zero_padded(p.month as nat, 2)
}

impl Period {
    /// A period is valid when its month lies in 1..=12.
    pub open spec fn wf(self) -> bool {
        1 <= self.month <= 12
    }

    /// The number of months from year 0, month 1 to this period.
    pub open spec fn ord(self) -> int {
        self.year as int * 12 + self.month as int - 1
    }

    /// The lexicographic order on (year, month).
    pub open spec fn not_after(self, other: Period) -> bool {
        self.year < other.year || (self.year == other.year && self.month <= other.month)
    }

    /// The period of the given year and month, where the month lies in 1..=12.
    pub fn new(year: i32, month: u32) -> (r: Option<Period>)
        ensures
            r is Some <==> 1 <= month <= 12,
            r is Some ==> r->0 == (Period { year, month }),
    {
        if 1 <= month && month <= 12 {
            Some(Period { year, month })
        } else {
            None
        }
    }

    /// The month after this one.
    pub fn next(&self) -> (r: Period)
        requires
            self.wf(),
            self.month < 12 || self.year < i32::MAX,
        ensures
            r == succ(*self),
            r.wf(),
            r.ord() == self.ord() + 1,
    {
        if self.month == 12 {
            Period { year: self.year + 1, month: 1 }
        } else {
            Period { year: self.year, month: self.month + 1 }
        }
    }

    /// Whether this period comes before `other` or is the same month.
    pub fn is_not_after(&self, other: &Period) -> (r: bool)
        ensures
            r == self.not_after(*other),
            self.wf() && other.wf() ==> (r <==> self.ord() <= other.ord()),
    {
        self.year < other.year || (self.year == other.year && self.month <= other.month)
    }

    /// The directory name of this period, such as `2012_03`.
    pub fn dir_name(&self) -> (r: String)
        ensures
            r@ == dir_name_of(*self),
    {
        let mut out = String::new();
        if self.year < 0 {
            proof {
                reveal_strlit("-");
            }
            out.append("-");
            let magnitude: i64 = -(self.year as i64);
            append_zero_padded(&mut out, magnitude as u64, 3);
        } else {
            append_zero_padded(&mut out, self.year as u64, 4);
        }
        proof {
            reveal_strlit("_");
        }
        out.append("_");
        append_zero_padded(&mut out, self.month as u64, 2);
        assert(out@ =~= dir_name_of(*self));
        out
    }
}

/// Two valid periods with the same ordinal are the same period.
pub proof fn lemma_ord_injective(p: Period, q: Period)
    requires
        p.wf(),
        q.wf(),
        p.ord() == q.ord(),
    ensures
        p == q,
{
}

/// Advancing a valid period by `n` months gives a valid period `n` months later.
pub proof fn lemma_advance_by(p: Period, n: nat)
    requires
        p.wf(),
        p.ord() + n <= i32::MAX as int * 12 + 11,
    ensures
        advance_by(p, n).wf(),
        advance_by(p, n).ord() == p.ord() + n,
    decreases n,
{
    if n > 0 {
        lemma_advance_by(p, (n - 1) as nat);
    }
}

/// The periods from `start` through `end`, in order, one month apart.
pub fn periods_between(start: Period, end: Period) -> (r: Vec<Period>)
    requires
        start.wf(),
        end.wf(),
    ensures
        r@ == window(start, end),
{
    let mut out: Vec<Period> = Vec::new();
    if !start.is_not_after(&end) {
        assert(out@ =~= window(start, end));
        return out;
    }
    let mut cur = start;
    proof {
        lemma_advance_by(start, 0);
    }
    loop
        invariant
            start.wf(),
            end.wf(),
            start.ord() <= cur.ord() <= end.ord(),
            cur == advance_by(start, (cur.ord() - start.ord()) as nat),
            cur.wf(),
            out@ =~= window(start, end).take(cur.ord() - start.ord()),
        decreases end.ord() - cur.ord(),
    {
        out.push(cur);
        if cur == end {
            assert(out@ =~= window(start, end));
            return out;
        }
        let ghost k = (cur.ord() - start.ord()) as nat;
        cur = cur.next();
        assert(cur == advance_by(start, k + 1));
    }
}

/// The window from `start` through `end` begins at `start`, ends at `end`, and
/// each period in it is the month after the one before, so the ordinals rise
/// by exactly one at each step and no period occurs twice.
pub proof fn lemma_window_gapless(start: Period, end: Period)
    requires
        start.wf(),
        end.wf(),
        start.ord() <= end.ord(),
    ensures
        window(start, end).len() == end.ord() - start.ord() + 1,
        window(start, end)[0] == start,
        window(start, end).last() == end,
        forall|i: int|
            0 <= i < window(start, end).len() ==> (#[trigger] window(start, end)[i]).wf()
                && window(start, end)[i].ord() == start.ord() + i,
        forall|i: int|
            0 <= i < window(start, end).len() - 1 ==> window(start, end)[i + 1] == succ(
                #[trigger] window(start, end)[i],
            ),
        forall|i: int, j: int|
            0 <= i < j < window(start, end).len() ==> (#[trigger] window(start, end)[i]).ord()
                < (#[trigger] window(start, end)[j]).ord(),
{
    let w = window(start, end);
    assert forall|i: int| 0 <= i < w.len() implies (#[trigger] w[i]).wf() && w[i].ord()
        == start.ord() + i by {
        lemma_advance_by(start, i as nat);
    }
    assert forall|i: int| 0 <= i < w.len() - 1 implies w[i + 1] == succ(#[trigger] w[i]) by {
        assert(advance_by(start, (i + 1) as nat) == succ(advance_by(start, i as nat)));
    }
    assert(w[w.len() - 1].wf());
    lemma_ord_injective(w.last(), end);
}

} // verus!
