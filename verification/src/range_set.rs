//! Sets of byte positions, kept as sorted ranges.
use vstd::prelude::*;

verus! {

/// The `length` positions of a file that begin at `start`.
#[derive(Copy, Clone, Debug, PartialEq, Eq, Hash, Structural)]
pub struct Range {
    pub start: usize,
    pub length: usize,
}

impl Range {
    /// The position just behind the range.
    pub open spec fn past(self) -> int {
        self.start + self.length
    }

    pub open spec fn has(self, position: int) -> bool {
        self.start <= position < self.past()
    }

    pub open spec fn positions(self) -> Set<int> {
        Set::new(|position: int| self.has(position))
    }

    pub fn new(start: usize, length: usize) -> (range: Range)
        ensures
            range.start == start,
            range.length == length,
    {
        Range { start, length }
    }

    /// The position just behind the range.
    pub fn end(&self) -> (end: usize)
        requires
            self.past() <= usize::MAX,
        ensures
            end == self.past(),
    {
        self.start + self.length
    }
}

/// Some range of `ranges` holds `position`.
pub open spec fn covered(ranges: Seq<Range>, position: int) -> bool {
    exists|i: int| 0 <= i < ranges.len() && (#[trigger] ranges[i]).has(position)
}

pub open spec fn positions_of(ranges: Seq<Range>) -> Set<int> {
    Set::new(|position: int| covered(ranges, position))
}

/// Ascending ranges, none of them empty, with a gap between any two.
pub open spec fn canonical(ranges: Seq<Range>) -> bool {
    &&& forall|i: int|
        0 <= i < ranges.len() ==> (#[trigger] ranges[i]).length > 0 && ranges[i].past()
            <= usize::MAX
    &&& forall|i: int, j: int|
        #![trigger ranges[i], ranges[j]]
        0 <= i < j < ranges.len() ==> ranges[i].past() < ranges[j].start
}

/// A set of positions. Its view is the set; `ranges` are its maximal runs in
/// ascending order.
#[derive(Debug)]
pub struct RangeSet {
    ranges: Vec<Range>,
}

impl View for RangeSet {
    type V = Set<int>;

    open spec fn view(&self) -> Set<int> {
        positions_of(self.ranges())
    }
}

proof fn lemma_covered_push(ranges: Seq<Range>, range: Range)
    ensures
        forall|x: int| #[trigger] covered(ranges.push(range), x) <==> covered(ranges, x) || range.has(x),
{
    let pushed = ranges.push(range);
    assert forall|x: int| #[trigger] covered(pushed, x) <==> covered(ranges, x) || range.has(x) by {
        if covered(ranges, x) {
            let i = choose|i: int| 0 <= i < ranges.len() && (#[trigger] ranges[i]).has(x);
            assert(pushed[i].has(x));
        }
        if range.has(x) {
            assert(pushed[ranges.len() as int].has(x));
        }
    }
}

proof fn lemma_covered_take(ranges: Seq<Range>, i: int)
    requires
        0 <= i < ranges.len(),
    ensures
        forall|x: int| #[trigger]
            covered(ranges.take(i + 1), x) <==> covered(ranges.take(i), x) || ranges[i].has(x),
{
    assert(ranges.take(i + 1) =~= ranges.take(i).push(ranges[i]));
    lemma_covered_push(ranges.take(i), ranges[i]);
}

impl RangeSet {
    pub closed spec fn ranges(&self) -> Seq<Range> {
        self.ranges@
    }

    /// What holds of every range set.
    #[verifier::type_invariant]
    pub open spec fn well_formed(&self) -> bool {
        canonical(self.ranges())
    }

    pub fn new() -> (set: RangeSet)
        ensures
            set@ == Set::<int>::empty(),
    {
        let set = RangeSet { ranges: Vec::new() };
        assert(set@ =~= Set::<int>::empty());
        set
    }

    /// The maximal runs of the set, in ascending order.
    pub fn as_slice(&self) -> (ranges: &[Range])
        ensures
            ranges@ == self.ranges(),
            canonical(ranges@),
    {
        proof {
            use_type_invariant(self);
        }
        self.ranges.as_slice()
    }

    pub fn contains(&self, value: usize) -> (found: bool)
        ensures
            found == self@.contains(value as int),
    {
        self.contained_length_from_value(value) > 0
    }

    /// How many positions, from `value` on, the set holds without a gap.
    pub fn contained_length_from_value(&self, value: usize) -> (length: usize)
        ensures
            forall|x: int| value <= x < value + length ==> self@.contains(x),
            !self@.contains(value + length),
    {
        proof {
            use_type_invariant(self);
        }
        let mut i: usize = 0;
        while i < self.ranges.len()
            invariant
                i <= self.ranges.len(),
                canonical(self.ranges@),
                forall|j: int| 0 <= j < i ==> (#[trigger] self.ranges@[j]).past() <= value,
            decreases self.ranges.len() - i,
        {
            let range = self.ranges[i];
            if value < range.start {
                assert(!covered(self.ranges@, value as int));
                return 0;
            }
            if value < range.end() {
                let length: usize = range.end() - value;
                assert forall|x: int| value <= x < value + length implies self@.contains(x) by {
                    assert(self.ranges@[i as int].has(x));
                }
                assert(!covered(self.ranges@, value + length));
                return length;
            }
            i = i + 1;
        }
        assert(!covered(self.ranges@, value as int));
        0
    }

    /// Adds the positions of `range`.
    pub fn add_range(&mut self, range: &Range)
        requires
            range.past() <= usize::MAX,
        ensures
            final(self)@ == old(self)@.union(range.positions()),
    {
        proof {
            use_type_invariant(&*self);
        }
        if range.length == 0 {
            assert(self@ =~= self@.union(range.positions()));
            return;
        }
        let ghost before = self.ranges@;
        let mut merged: Vec<Range> = Vec::new();
        let mut i: usize = 0;
        // what ends before `range` begins is kept
        while i < self.ranges.len() && self.ranges[i].end() < range.start
            invariant
                i <= before.len(),
                before == self.ranges@,
                canonical(before),
                merged@ == before.take(i as int),
                forall|j: int| 0 <= j < i ==> (#[trigger] before[j]).past() < range.start,
            decreases before.len() - i,
        {
            merged.push(self.ranges[i]);
            i = i + 1;
            assert(merged@ =~= before.take(i as int));
        }
        let ghost low = i as int;
        let mut start: usize = range.start;
        let mut end: usize = range.end();
        // what overlaps or touches `range` becomes one range with it
        while i < self.ranges.len() && self.ranges[i].start <= end
            invariant
                0 <= low <= i <= before.len(),
                before == self.ranges@,
                canonical(before),
                range.length > 0,
                range.past() <= usize::MAX,
                start <= range.start,
                range.past() <= end,
                low < before.len() ==> before[low].past() >= range.start,
                forall|j: int| 0 <= j < low ==> (#[trigger] before[j]).past() < start,
                forall|j: int|
                    low <= j < i ==> start <= (#[trigger] before[j]).start && before[j].past()
                        <= end,
                forall|x: int|
                    start <= x < end ==> range.has(x) || exists|j: int|
                        low <= j < i && (#[trigger] before[j]).has(x),
            decreases before.len() - i,
        {
            let next = self.ranges[i];
            assert(next.past() >= range.start) by {
                assert(before[low].past() >= range.start);
                assert(before[i as int] == next);
            }
            let ghost (old_start, old_end, old_i) = (start, end, i);
            if next.start < start {
                start = next.start;
            }
            if next.end() > end {
                end = next.end();
            }
            i = i + 1;
            assert forall|x: int| start <= x < end implies range.has(x) || exists|j: int|
                low <= j < i && (#[trigger] before[j]).has(x) by {
                if old_start <= x < old_end {
                } else {
                    assert(before[old_i as int].has(x));
                }
            }
        }
        let ghost high = i as int;
        let run = Range { start, length: end - start };
        merged.push(run);
        proof {
            lemma_covered_push(before.take(low), run);
        }
        assert forall|x: int| #[trigger]
            covered(merged@, x) <==> covered(before.take(high), x) || range.has(x) by {
            let kept = before.take(high);
            if covered(before.take(low), x) {
                let j = choose|j: int| 0 <= j < low && (#[trigger] before.take(low)[j]).has(x);
                assert(kept[j].has(x));
            }
            if run.has(x) && !range.has(x) {
                let j = choose|j: int| low <= j < high && (#[trigger] before[j]).has(x);
                assert(kept[j].has(x));
            }
            if covered(kept, x) {
                let j = choose|j: int| 0 <= j < high && (#[trigger] kept[j]).has(x);
                assert(kept[j] == before[j]);
                if j < low {
                    assert(before.take(low)[j].has(x));
                }
            }
        }
        // the rest lies behind the new range
        while i < self.ranges.len()
            invariant
                0 <= high <= i <= before.len(),
                before == self.ranges@,
                canonical(before),
                canonical(merged@),
                run.past() == end,
                merged@.len() > 0,
                high < before.len() ==> end < before[high].start,
                i == high ==> merged@.last().past() == end,
                i > high ==> merged@.last() == before[i - 1],
                forall|x: int| #[trigger]
                    covered(merged@, x) <==> covered(before.take(i as int), x) || range.has(x),
            decreases before.len() - i,
        {
            let next = self.ranges[i];
            proof {
                lemma_covered_push(merged@, next);
                lemma_covered_take(before, i as int);
                assert(before[i as int] == next);
                if i > high {
                    assert(before[i - 1].past() < before[i as int].start);
                }
                assert forall|j: int| 0 <= j < merged@.len() implies (
                #[trigger] merged@[j]).past() < next.start by {
                    assert(merged@[j].past() <= merged@.last().past());
                }
            }
            merged.push(next);
            i = i + 1;
        }
        assert(before.take(i as int) =~= before);
        self.ranges = merged;
        assert(self@ =~= old(self)@.union(range.positions()));
    }

    /// Adds every position of `other`.
    pub fn add_range_set(&mut self, other: &RangeSet)
        ensures
            final(self)@ == old(self)@.union(other@),
    {
        let ghost before = self@;
        let runs = other.as_slice();
        let mut i: usize = 0;
        assert(self@ =~= before.union(positions_of(runs@.take(0))));
        while i < runs.len()
            invariant
                i <= runs@.len(),
                canonical(runs@),
                self@ == before.union(positions_of(runs@.take(i as int))),
            decreases runs@.len() - i,
        {
            self.add_range(&runs[i]);
            proof {
                lemma_covered_take(runs@, i as int);
            }
            i = i + 1;
            assert(self@ =~= before.union(positions_of(runs@.take(i as int))));
        }
        assert(runs@.take(i as int) =~= runs@);
    }

    /// The positions that are in at least one of the two sets.
    pub fn union(&self, other: &RangeSet) -> (both: RangeSet)
        ensures
            both@ == self@.union(other@),
    {
        let mut both = RangeSet::new();
        both.add_range_set(self);
        both.add_range_set(other);
        assert(both@ =~= self@.union(other@));
        both
    }

    /// Takes away the positions of `range`.
    pub fn subtract_range(&mut self, range: &Range)
        requires
            range.past() <= usize::MAX,
        ensures
            final(self)@ == old(self)@.difference(range.positions()),
    {
        proof {
            use_type_invariant(&*self);
        }
        if range.length == 0 {
            assert(self@ =~= self@.difference(range.positions()));
            return;
        }
        let ghost before = self.ranges@;
        let mut left: Vec<Range> = Vec::new();
        let mut i: usize = 0;
        while i < self.ranges.len()
            invariant
                i <= before.len(),
                before == self.ranges@,
                canonical(before),
                canonical(left@),
                range.length > 0,
                range.past() <= usize::MAX,
                i == 0 ==> left@.len() == 0,
                forall|j: int|
                    0 <= j < left@.len() ==> (#[trigger] left@[j]).past() <= before[i - 1].past(),
                forall|x: int| #[trigger]
                    covered(left@, x) <==> covered(before.take(i as int), x) && !range.has(x),
            decreases before.len() - i,
        {
            let run = self.ranges[i];
            proof {
                lemma_covered_take(before, i as int);
                assert(before[i as int] == run);
                if i > 0 {
                    assert(before[i - 1].past() < run.start);
                }
            }
            if run.start < range.start {
                let end = if run.end() < range.start { run.end() } else { range.start };
                let head = Range { start: run.start, length: end - run.start };
                proof {
                    lemma_covered_push(left@, head);
                }
                left.push(head);
            }
            if range.end() < run.end() {
                let start = if range.end() < run.start { run.start } else { range.end() };
                let rest = Range { start, length: run.end() - start };
                proof {
                    lemma_covered_push(left@, rest);
                }
                left.push(rest);
            }
            i = i + 1;
        }
        assert(before.take(i as int) =~= before);
        self.ranges = left;
        assert(self@ =~= old(self)@.difference(range.positions()));
    }

    /// Takes away every position of `other`.
    pub fn subtract_range_set(&mut self, other: &RangeSet)
        ensures
            final(self)@ == old(self)@.difference(other@),
    {
        let ghost before = self@;
        let runs = other.as_slice();
        let mut i: usize = 0;
        assert(self@ =~= before.difference(positions_of(runs@.take(0))));
        while i < runs.len()
            invariant
                i <= runs@.len(),
                canonical(runs@),
                self@ == before.difference(positions_of(runs@.take(i as int))),
            decreases runs@.len() - i,
        {
            self.subtract_range(&runs[i]);
            proof {
                lemma_covered_take(runs@, i as int);
            }
            i = i + 1;
            assert(self@ =~= before.difference(positions_of(runs@.take(i as int))));
        }
        assert(runs@.take(i as int) =~= runs@);
    }

    /// The positions of this set that are not in `other`.
    pub fn minus(&self, other: &RangeSet) -> (rest: RangeSet)
        ensures
            rest@ == self@.difference(other@),
    {
        let mut rest = RangeSet::new();
        rest.add_range_set(self);
        rest.subtract_range_set(other);
        assert(rest@ =~= self@.difference(other@));
        rest
    }
}

/// Sorted ranges with gaps between them are the only such ranges that cover what they cover.
pub proof fn lemma_canonical_unique(a: Seq<Range>, b: Seq<Range>)
    requires
        canonical(a),
        canonical(b),
        forall|x: int| covered(a, x) == covered(b, x),
    ensures
        a == b,
    decreases a.len(),
{
    if a.len() == 0 {
        if b.len() > 0 {
            assert(b[0].has(b[0].start as int));
            assert(covered(b, b[0].start as int));
        }
        assert(a =~= b);
    } else {
        let first = a[0];
        assert(first.has(first.start as int));
        assert(covered(a, first.start as int));
        assert(b.len() > 0);
        let other = b[0];
        assert(other.has(other.start as int));
        assert(covered(b, other.start as int));
        // the least position of a canonical sequence is where its first range starts
        assert(first.start == other.start);
        // the first position behind the first range is in no range
        assert(!covered(a, first.past()));
        assert(!covered(b, other.past()));
        if first.past() < other.past() {
            assert(other.has(first.past()));
        }
        if other.past() < first.past() {
            assert(first.has(other.past()));
        }
        assert(first == other);
        let (a_rest, b_rest) = (a.skip(1), b.skip(1));
        assert forall|x: int| covered(a_rest, x) == covered(b_rest, x) by {
            lemma_covered_rest(a, x);
            lemma_covered_rest(b, x);
        }
        lemma_canonical_unique(a_rest, b_rest);
        assert(a =~= seq![first] + a_rest);
        assert(b =~= seq![first] + b_rest);
    }
}

proof fn lemma_covered_rest(ranges: Seq<Range>, x: int)
    requires
        ranges.len() > 0,
        canonical(ranges),
    ensures
        covered(ranges.skip(1), x) <==> covered(ranges, x) && !ranges[0].has(x),
{
    let rest = ranges.skip(1);
    if covered(rest, x) {
        let i = choose|i: int| 0 <= i < rest.len() && (#[trigger] rest[i]).has(x);
        assert(ranges[i + 1].has(x));
    }
    if covered(ranges, x) && !ranges[0].has(x) {
        let i = choose|i: int| 0 <= i < ranges.len() && (#[trigger] ranges[i]).has(x);
        assert(rest[i - 1].has(x));
    }
}

/// Two range sets that hold the same positions hold them in the same ranges.
pub proof fn law_equal_positions_equal_ranges(a: RangeSet, b: RangeSet)
    requires
        a.well_formed(),
        b.well_formed(),
        a@ == b@,
    ensures
        a.ranges() == b.ranges(),
{
    assert forall|x: int| covered(a.ranges(), x) == covered(b.ranges(), x) by {
        assert(a@.contains(x) <==> covered(a.ranges(), x));
        assert(b@.contains(x) <==> covered(b.ranges(), x));
    }
    lemma_canonical_unique(a.ranges(), b.ranges());
}

/// A range has the `length` positions from `start` on, and ends behind the last of them.
pub proof fn law_range_has_its_positions(range: Range, x: int)
    ensures
        range.has(x) <==> range.start <= x < range.start + range.length,
        range.positions().contains(x) <==> range.start <= x < range.start + range.length,
        range.past() == range.start + range.length,
{
}

/// A position is in a range set exactly where one of its ranges has it.
pub proof fn law_set_holds_what_its_ranges_have(set: RangeSet, x: int)
    ensures
        set@.contains(x) <==> exists|i: int|
            0 <= i < set.ranges().len() && (#[trigger] set.ranges()[i]).start <= x
                < set.ranges()[i].start + set.ranges()[i].length,
{
    let ranges = set.ranges();
    assert(set@.contains(x) <==> covered(ranges, x));
    if covered(ranges, x) {
        let i = choose|i: int| 0 <= i < ranges.len() && (#[trigger] ranges[i]).has(x);
        assert(ranges[i].start <= x < ranges[i].start + ranges[i].length);
    }
    if exists|i: int|
        0 <= i < ranges.len() && (#[trigger] ranges[i]).start <= x < ranges[i].start
            + ranges[i].length {
        let i = choose|i: int|
            0 <= i < ranges.len() && (#[trigger] ranges[i]).start <= x < ranges[i].start
                + ranges[i].length;
        assert(ranges[i].has(x));
    }
}

/// Ranges are those of a range set exactly where none is empty, each begins behind a gap
/// after all before it, and all positions are numbers that a `usize` can hold.
pub proof fn law_ranges_are_sorted_with_gaps(set: RangeSet)
    ensures
        set.well_formed() <==> {
            let ranges = set.ranges();
            &&& forall|i: int| 0 <= i < ranges.len() ==> (#[trigger] ranges[i]).length > 0
            &&& forall|i: int|
                0 <= i < ranges.len() ==> (#[trigger] ranges[i]).start + ranges[i].length
                    <= usize::MAX
            &&& forall|i: int, j: int|
                #![trigger ranges[i], ranges[j]]
                0 <= i < j < ranges.len() ==> ranges[i].start + ranges[i].length < ranges[j].start
        },
{
}

} // verus!
