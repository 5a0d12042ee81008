//! The log: measurements in the order of their timestamps.

use crate::meassurement::{entry_text, Meassurement};
use crate::ratio::Ratio;
use vstd::prelude::*;
use vstd::slice::slice_subrange;

verus! {

/// Whether no entry of `s` is followed, anywhere behind it, by one with a
/// smaller timestamp.
pub open spec fn sorted(s: Seq<Meassurement>) -> bool {
    forall|i: int, j: int|
        0 <= i <= j < s.len() ==> (#[trigger] s[i]).timestamp() <= (#[trigger] s[j]).timestamp()
}

/// Whether `pos` is where an entry with timestamp `ts` goes into `s`: right
/// behind the rightmost entry whose timestamp is smaller than `ts`, and at
/// the front where there is no such entry.
pub open spec fn is_slot(s: Seq<Meassurement>, ts: int, pos: int) -> bool {
    &&& 0 <= pos <= s.len()
    &&& pos > 0 ==> s[pos - 1].timestamp() < ts
    &&& forall|j: int| pos <= j < s.len() ==> (#[trigger] s[j]).timestamp() >= ts
}

/// Where an entry with timestamp `ts` goes into `s`.
pub open spec fn slot(s: Seq<Meassurement>, ts: int) -> int {
    choose|pos: int| is_slot(s, ts, pos)
}

/// The index at which the last `n` entries of a log of `len` entries begin.
pub open spec fn window_start(len: int, n: int) -> int {
    if len >= n {
        len - n
    } else {
        0
    }
}

/// The rate shown beside entry `i` of `s`: that against the entry before it,
/// and none for the first entry.
pub open spec fn rate_at(s: Seq<Meassurement>, i: int) -> Option<Ratio> {
    if i > 0 {
        Some(s[i].diff(&s[i - 1]))
    } else {
        None
    }
}

/// There is one place only for an entry to go.
pub proof fn lemma_slot(s: Seq<Meassurement>, ts: int, pos: int)
    requires
        is_slot(s, ts, pos),
    ensures
        slot(s, ts) == pos,
{
    // The chosen place is a place as well. Were the two apart, the entry
    // right before the later one would have to be both smaller than `ts`
    // and, lying at or behind the earlier one, not smaller.
    let other = slot(s, ts);
    if other < pos {
        assert(s[pos - 1].timestamp() >= ts);
    } else if pos < other {
        assert(s[other - 1].timestamp() >= ts);
    }
}

/// One entry of the list as it is shown.
#[derive(Debug, PartialEq, Eq)]
pub struct Row {
    /// The entry as `[HH:MM] value`.
    pub text: String,
    /// The rate of change against the entry before it; none for the first
    /// entry of the log.
    pub rate: Option<Ratio>,
}

/// Measurements in non-decreasing order of their timestamps.
pub struct MeassurementLog {
    entries: Vec<Meassurement>,
}

impl View for MeassurementLog {
    type V = Seq<Meassurement>;

    closed spec fn view(&self) -> Seq<Meassurement> {
        self.entries@
    }
}

impl MeassurementLog {
    #[verifier::type_invariant]
    spec fn ordered(&self) -> bool {
        sorted(self.entries@)
    }

    /// The empty log.
    pub fn new() -> (log: MeassurementLog)
        ensures
            log@ == Seq::<Meassurement>::empty(),
    {
        MeassurementLog { entries: Vec::new() }
    }

    /// The number of entries.
    pub fn len(&self) -> (n: usize)
        ensures
            n == self@.len(),
    {
        self.entries.len()
    }

    /// All entries, earliest first.
    pub fn entries(&self) -> (all: &[Meassurement])
        ensures
            all@ == self@,
            sorted(all@),
    {
        proof {
            use_type_invariant(self);
        }
        self.entries.as_slice()
    }

    /// Puts `m` right behind the rightmost entry with a smaller timestamp, or
    /// at the front where there is none. The other entries keep their order,
    /// and the log stays sorted.
    pub fn insert(&mut self, m: Meassurement)
        ensures
            is_slot(old(self)@, m.timestamp() as int, slot(old(self)@, m.timestamp() as int)),
            final(self)@ == old(self)@.insert(slot(old(self)@, m.timestamp() as int), m),
            sorted(final(self)@),
    {
        proof {
            use_type_invariant(&*self);
        }
        let mut entries: Vec<Meassurement> = Vec::new();
        core::mem::swap(&mut self.entries, &mut entries);
        let ts = m.timestamp();
        let mut pos: usize = entries.len();
        while pos > 0 && entries[pos - 1].timestamp() >= ts
            invariant
                pos <= entries.len(),
                forall|j: int|
                    pos <= j < entries.len() ==> (#[trigger] entries@[j]).timestamp() >= ts,
            decreases pos,
        {
            pos -= 1;
        }
        proof {
            lemma_slot(entries@, ts as int, pos as int);
            lemma_insert_keeps_sorted(entries@, m, pos as int);
        }
        entries.insert(pos, m);
        core::mem::swap(&mut self.entries, &mut entries);
    }

    /// The last `n` entries, or all of them where there are fewer.
    pub fn window(&self, n: usize) -> (last: &[Meassurement])
        ensures
            last@ == self@.subrange(window_start(self@.len() as int, n as int), self@.len() as int),
    {
        let len = self.entries.len();
        let start = if len >= n {
            len - n
        } else {
            0
        };
        slice_subrange(self.entries.as_slice(), start, len)
    }

    /// The last `n` entries as they are listed, or all of them where there
    /// are fewer: each with its text and with its rate against the entry
    /// before it in the log.
    pub fn rows(&self, n: usize) -> (rows: Vec<Row>)
        ensures
            rows@.len() == self@.len() - window_start(self@.len() as int, n as int),
            forall|k: int|
                0 <= k < rows@.len() ==> {
                    let i = window_start(self@.len() as int, n as int) + k;
                    &&& (#[trigger] rows@[k]).text@ == entry_text(
                        self@[i].y(),
                        self@[i].time().hour(),
                        self@[i].time().minute(),
                    )
                    &&& rows@[k].rate == rate_at(self@, i)
                },
    {
        let len = self.entries.len();
        let start = if len >= n {
            len - n
        } else {
            0
        };
        let mut rows: Vec<Row> = Vec::new();
        let mut i: usize = start;
        while i < len
            invariant
                len == self.entries@.len(),
                start <= i <= len,
                start == window_start(len as int, n as int),
                rows@.len() == i - start,
                forall|k: int|
                    0 <= k < rows@.len() ==> {
                        &&& (#[trigger] rows@[k]).text@ == entry_text(
                            self@[start + k].y(),
                            self@[start + k].time().hour(),
                            self@[start + k].time().minute(),
                        )
                        &&& rows@[k].rate == rate_at(self@, start + k)
                    },
            decreases len - i,
        {
            let m = &self.entries[i];
            let rate = if i > 0 {
                Some(m.diff(&self.entries[i - 1]))
            } else {
                None
            };
            rows.push(Row { text: m.to_string(), rate });
            i += 1;
        }
        rows
    }

    /// One point per entry, in the order of the log: the timestamp and the
    /// value.
    pub fn chart_points(&self) -> (points: Vec<(i16, i16)>)
        ensures
            points@.len() == self@.len(),
            forall|i: int|
                0 <= i < self@.len() ==> #[trigger] points@[i] == (
                    self@[i].timestamp(),
                    self@[i].y(),
                ),
    {
        let mut points: Vec<(i16, i16)> = Vec::new();
        let mut i: usize = 0;
        while i < self.entries.len()
            invariant
                i <= self.entries@.len(),
                points@.len() == i,
                forall|k: int|
                    0 <= k < i ==> #[trigger] points@[k] == (
                        self@[k].timestamp(),
                        self@[k].y(),
                    ),
            decreases self.entries@.len() - i,
        {
            let m = &self.entries[i];
            points.push((m.timestamp(), m.y()));
            i += 1;
        }
        points
    }

    /// The smallest timestamp in the log, and zero for the empty log.
    pub fn min_timestamp(&self) -> (ts: i16)
        ensures
            self@.len() == 0 ==> ts == 0,
            self@.len() > 0 ==> exists|i: int| 0 <= i < self@.len() && self@[i].timestamp() == ts,
            forall|i: int| 0 <= i < self@.len() ==> ts <= (#[trigger] self@[i]).timestamp(),
    {
        proof {
            use_type_invariant(self);
        }
        if self.entries.len() == 0 {
            0
        } else {
            self.entries[0].timestamp()
        }
    }
}

/// A sorted log with one more entry in its slot is sorted.
pub proof fn lemma_insert_keeps_sorted(s: Seq<Meassurement>, m: Meassurement, pos: int)
    requires
        sorted(s),
        is_slot(s, m.timestamp() as int, pos),
    ensures
        sorted(s.insert(pos, m)),
{
    let t = s.insert(pos, m);
    assert forall|i: int, j: int| 0 <= i <= j < t.len() implies (#[trigger] t[i]).timestamp() <= (
    #[trigger] t[j]).timestamp() by {
        // Before `pos` stand the entries up to the one that is smaller than
        // the new entry; behind it stand those that are not.
        if i < pos {
            assert(t[i] == s[i]);
            assert(s[i].timestamp() <= s[pos - 1].timestamp());
        }
        if i > pos {
            assert(t[i] == s[i - 1]);
        }
        if j < pos {
            assert(t[j] == s[j]);
        }
        if j > pos {
            assert(t[j] == s[j - 1]);
        }
    }
}

/// Whether each entry of `s` has a timestamp no greater than that of the
/// entry right behind it.
pub open spec fn neighbours_ordered(s: Seq<Meassurement>) -> bool {
    forall|i: int|
        0 <= i < s.len() - 1 ==> (#[trigger] s[i]).timestamp() <= s[i + 1].timestamp()
}

/// Where neighbours are in order, any two entries are.
proof fn lemma_neighbours_reach(s: Seq<Meassurement>, i: int, j: int)
    requires
        neighbours_ordered(s),
        0 <= i <= j < s.len(),
    ensures
        s[i].timestamp() <= s[j].timestamp(),
    decreases j - i,
{
    if i < j {
        lemma_neighbours_reach(s, i, j - 1);
        assert(s[j - 1].timestamp() <= s[j].timestamp());
    }
}

/// A log is sorted exactly when each entry has a timestamp no greater than
/// that of the entry right behind it.
pub proof fn lemma_sorted_by_neighbours(s: Seq<Meassurement>)
    ensures
        sorted(s) <==> neighbours_ordered(s),
{
    if neighbours_ordered(s) {
        assert forall|i: int, j: int| 0 <= i <= j < s.len() implies (#[trigger] s[i]).timestamp()
            <= (#[trigger] s[j]).timestamp() by {
            lemma_neighbours_reach(s, i, j);
        }
    }
    if sorted(s) {
        assert forall|i: int| 0 <= i < s.len() - 1 implies (#[trigger] s[i]).timestamp() <= s[i
            + 1].timestamp() by {
            assert(s[i].timestamp() <= s[i + 1].timestamp());
        }
    }
}

/// There is a place for every entry in every log.
pub proof fn lemma_slot_exists(s: Seq<Meassurement>, ts: int)
    ensures
        is_slot(s, ts, slot(s, ts)),
    decreases s.len(),
{
    if s.len() == 0 {
        assert(is_slot(s, ts, 0));
    } else if s.last().timestamp() < ts {
        assert(is_slot(s, ts, s.len() as int));
    } else {
        let front = s.drop_last();
        lemma_slot_exists(front, ts);
        let pos = slot(front, ts);
        assert forall|j: int| pos <= j < s.len() implies (#[trigger] s[j]).timestamp() >= ts by {
            if j < front.len() {
                assert(front[j] == s[j]);
            }
        }
        assert(is_slot(s, ts, pos));
    }
}

/// What `insert` does to a sorted log: the log stays sorted and keeps its
/// entries in their order; the new entry stands behind every entry with a
/// smaller timestamp and before every other, so before those that share its
/// timestamp.
pub proof fn lemma_insert_order(s: Seq<Meassurement>, m: Meassurement)
    requires
        sorted(s),
    ensures
        ({
            let pos = slot(s, m.timestamp() as int);
            let t = s.insert(pos, m);
            &&& 0 <= pos <= s.len()
            &&& sorted(t)
            &&& t[pos] == m
            &&& t.remove(pos) == s
            &&& forall|i: int| 0 <= i < pos ==> (#[trigger] t[i]).timestamp() < m.timestamp()
            &&& forall|i: int| pos < i < t.len() ==> (#[trigger] t[i]).timestamp() >= m.timestamp()
        }),
{
    let ts = m.timestamp() as int;
    lemma_slot_exists(s, ts);
    let pos = slot(s, ts);
    let t = s.insert(pos, m);
    lemma_insert_keeps_sorted(s, m, pos);
    assert(t.remove(pos) =~= s);
    assert forall|i: int| 0 <= i < pos implies (#[trigger] t[i]).timestamp() < m.timestamp() by {
        assert(t[i] == s[i]);
        assert(s[i].timestamp() <= s[pos - 1].timestamp());
    }
    assert forall|i: int| pos < i < t.len() implies (#[trigger] t[i]).timestamp()
        >= m.timestamp() by {
        assert(t[i] == s[i - 1]);
    }
}

/// The log that holds the entries of `submitted`, put in one after the other
/// in the order in which they were submitted.
pub open spec fn built_from(submitted: Seq<Meassurement>) -> Seq<Meassurement>
    decreases submitted.len(),
{
    if submitted.len() == 0 {
        Seq::empty()
    } else {
        let log = built_from(submitted.drop_last());
        log.insert(slot(log, submitted.last().timestamp() as int), submitted.last())
    }
}

/// In whatever order entries are submitted, the log they make is sorted and
/// holds as many entries as were submitted.
pub proof fn lemma_any_order_sorted(submitted: Seq<Meassurement>)
    ensures
        sorted(built_from(submitted)),
        built_from(submitted).len() == submitted.len(),
    decreases submitted.len(),
{
    if submitted.len() > 0 {
        lemma_any_order_sorted(submitted.drop_last());
        lemma_insert_order(built_from(submitted.drop_last()), submitted.last());
    }
}

} // verus!
