//! The cursors of the round-robin selection, one per directory.

use vstd::prelude::*;
use vstd::string::*;
use crate::text::same_text;

verus! {

/// The cursor of one directory.
struct IndexEntry {
    directory: String,
    cursor: usize,
}

/// For each directory that has been served from, the position of the
/// candidate to serve next. The state outlives the requests; whoever shares
/// it between requests gives each call exclusive access.
pub struct MultiFileIndexMap {
    entries: Vec<IndexEntry>,
}

/// The cursor that a selection among `count` candidates starts from: the
/// stored one, or zero where none is stored or the stored one has run past
/// the candidates.
pub open spec fn cursor_in_range(cursors: Map<Seq<char>, nat>, directory: Seq<char>, count: nat) -> nat {
    if cursors.contains_key(directory) && cursors[directory] < count {
        cursors[directory]
    } else {
        0
    }
}

/// The cursors after one selection among `count` candidates of `directory`.
pub open spec fn cursors_after(cursors: Map<Seq<char>, nat>, directory: Seq<char>, count: nat) -> Map<
    Seq<char>,
    nat,
> {
    cursors.insert(directory, cursor_in_range(cursors, directory, count) + 1)
}

/// The cursors after `calls` selections in a row among `count` candidates
/// of `directory`.
pub open spec fn cursors_after_calls(
    cursors: Map<Seq<char>, nat>,
    directory: Seq<char>,
    count: nat,
    calls: nat,
) -> Map<Seq<char>, nat>
    decreases calls,
{
    if calls == 0 {
        cursors
    } else {
        cursors_after(cursors_after_calls(cursors, directory, count, (calls - 1) as nat), directory, count)
    }
}

/// The position that is selected by the call that follows `calls`
/// selections among `count` candidates of `directory`.
pub open spec fn selected_after(
    cursors: Map<Seq<char>, nat>,
    directory: Seq<char>,
    count: nat,
    calls: nat,
) -> nat {
    cursor_in_range(cursors_after_calls(cursors, directory, count, calls), directory, count)
}

/// Selections in a row walk round the candidates: each call selects the
/// position after that of the call before it, and the first position after
/// the last.
pub proof fn lemma_round_robin(cursors: Map<Seq<char>, nat>, directory: Seq<char>, count: nat, calls: nat)
    requires
        count > 0,
    ensures
        selected_after(cursors, directory, count, calls) == (cursor_in_range(cursors, directory, count) + calls)
            % count,
    decreases calls,
{
    let start = cursor_in_range(cursors, directory, count) as int;
    let n = count as int;
    if calls == 0 {
        assert(start % n == start) by (nonlinear_arith)
            requires
                0 <= start < n,
        ;
    } else {
        lemma_round_robin(cursors, directory, count, (calls - 1) as nat);
        let previous = selected_after(cursors, directory, count, (calls - 1) as nat) as int;
        let sum = start + calls - 1;
        assert(0 <= previous < n) by (nonlinear_arith)
            requires
                previous == sum % n,
                n > 0,
        ;
        let now = selected_after(cursors, directory, count, calls) as int;
        assert(now == if previous + 1 < n {
            previous + 1
        } else {
            0
        });
        assert(now == (sum + 1) % n) by (nonlinear_arith)
            requires
                n > 0,
                previous == sum % n,
                0 <= previous < n,
                now == if previous + 1 < n {
                    previous + 1
                } else {
                    0
                },
        ;
    }
}

/// Within as many calls as there are candidates, no position is selected
/// twice.
pub proof fn law_cycle_selects_no_position_twice(
    cursors: Map<Seq<char>, nat>,
    directory: Seq<char>,
    count: nat,
    first: nat,
    second: nat,
)
    requires
        first < second < count,
    ensures
        selected_after(cursors, directory, count, first) != selected_after(cursors, directory, count, second),
{
    lemma_round_robin(cursors, directory, count, first);
    lemma_round_robin(cursors, directory, count, second);
    let start = cursor_in_range(cursors, directory, count) as int;
    let n = count as int;
    assert((start + first) % n != (start + second) % n) by (nonlinear_arith)
        requires
            0 <= first < second < n,
            0 <= start,
    ;
}

/// Within as many calls as there are candidates, every position is
/// selected: `position` by the call that the law returns.
pub proof fn law_cycle_selects_every_position(
    cursors: Map<Seq<char>, nat>,
    directory: Seq<char>,
    count: nat,
    position: nat,
) -> (call: nat)
    requires
        position < count,
    ensures
        call < count,
        selected_after(cursors, directory, count, call) == position,
{
    let start = cursor_in_range(cursors, directory, count);
    let call: nat = if position >= start {
        (position - start) as nat
    } else {
        (position + count - start) as nat
    };
    lemma_round_robin(cursors, directory, count, call);
    let n = count as int;
    let sum = (start + call) as int;
    assert(sum % n == position) by (nonlinear_arith)
        requires
            0 <= position < n,
            sum == position || sum == position + n,
    ;
    call
}

/// After as many calls as there are candidates the cycle starts again: the
/// next call selects what the first selected. Where no cursor was stored, or
/// the stored one was zero or had run past the candidates, that is the
/// first candidate of the listing.
pub proof fn law_cycle_restarts(cursors: Map<Seq<char>, nat>, directory: Seq<char>, count: nat)
    requires
        count > 0,
    ensures
        selected_after(cursors, directory, count, count) == selected_after(cursors, directory, count, 0),
        !cursors.contains_key(directory) || cursors[directory] == 0 || cursors[directory] >= count
            ==> selected_after(cursors, directory, count, count) == 0,
{
    lemma_round_robin(cursors, directory, count, count);
    lemma_round_robin(cursors, directory, count, 0);
    let start = cursor_in_range(cursors, directory, count) as int;
    let n = count as int;
    assert((start + n) % n == (start + 0) % n) by (nonlinear_arith)
        requires
            n > 0,
            0 <= start,
    ;
    assert((0 + n) % n == 0) by (nonlinear_arith)
        requires
            n > 0,
    ;
}

/// No directory has two entries.
spec fn distinct(entries: Seq<IndexEntry>) -> bool {
    forall|i: int, j: int| 0 <= i < j < entries.len() ==> entries[i].directory@ != entries[j].directory@
}

/// The position of the first entry for `directory` among the first `end`;
/// `end` if there is none.
spec fn position_below(entries: Seq<IndexEntry>, directory: Seq<char>, end: int) -> int
    decreases end,
{
    if end <= 0 {
        0
    } else {
        let before = position_below(entries, directory, end - 1);
        if before < end - 1 {
            before
        } else if entries[end - 1].directory@ == directory {
            end - 1
        } else {
            end
        }
    }
}

/// The position of the entry for `directory`; the number of entries if
/// there is none.
spec fn position_of(entries: Seq<IndexEntry>, directory: Seq<char>) -> int {
    position_below(entries, directory, entries.len() as int)
}

/// The cursors that `entries` hold.
spec fn cursors_of(entries: Seq<IndexEntry>) -> Map<Seq<char>, nat> {
    Map::new(
        |directory: Seq<char>| position_of(entries, directory) < entries.len(),
        |directory: Seq<char>| entries[position_of(entries, directory)].cursor as nat,
    )
}

/// `position_below` finds the first entry for `directory`, if there is one.
proof fn lemma_position_below(entries: Seq<IndexEntry>, directory: Seq<char>, end: int)
    requires
        0 <= end <= entries.len(),
    ensures
        0 <= position_below(entries, directory, end) <= end,
        position_below(entries, directory, end) < end ==> entries[position_below(
            entries,
            directory,
            end,
        )].directory@ == directory,
        forall|i: int| 0 <= i < position_below(entries, directory, end) ==> entries[i].directory@ != directory,
    decreases end,
{
    if end > 0 {
        lemma_position_below(entries, directory, end - 1);
    }
}

/// An entry that was found first stays the first, however far one looks.
proof fn lemma_position_found(entries: Seq<IndexEntry>, directory: Seq<char>, found: int, end: int)
    requires
        0 <= found < end <= entries.len(),
        position_below(entries, directory, found) == found,
        entries[found].directory@ == directory,
    ensures
        position_below(entries, directory, end) == found,
    decreases end,
{
    if end > found + 1 {
        lemma_position_found(entries, directory, found, end - 1);
    }
}

/// Entries that hold the same directories up to `end` give the same
/// positions up to `end`.
proof fn lemma_same_positions(left: Seq<IndexEntry>, right: Seq<IndexEntry>, directory: Seq<char>, end: int)
    requires
        0 <= end <= left.len(),
        end <= right.len(),
        forall|i: int| 0 <= i < end ==> left[i].directory@ == right[i].directory@,
    ensures
        position_below(left, directory, end) == position_below(right, directory, end),
    decreases end,
{
    if end > 0 {
        lemma_same_positions(left, right, directory, end - 1);
    }
}

/// Replacing the entry of `directory` stores its new cursor and leaves the
/// other cursors as they were.
proof fn lemma_replaced(before: Seq<IndexEntry>, after: Seq<IndexEntry>, position: int, directory: Seq<char>)
    requires
        distinct(before),
        0 <= position < before.len(),
        position == position_of(before, directory),
        after.len() == before.len(),
        after[position].directory@ == directory,
        forall|i: int| 0 <= i < before.len() && i != position ==> after[i] == before[i],
    ensures
        distinct(after),
        cursors_of(after) == cursors_of(before).insert(directory, after[position].cursor as nat),
{
    let n = before.len() as int;
    lemma_position_below(before, directory, n);
    assert forall|d: Seq<char>| position_of(after, d) == position_of(before, d) by {
        lemma_same_positions(after, before, d, n);
    }
    assert forall|d: Seq<char>| d != directory implies position_of(before, d) != position by {
        lemma_position_below(before, d, n);
    }
    let target = cursors_of(before).insert(directory, after[position].cursor as nat);
    assert forall|d: Seq<char>| cursors_of(after).contains_key(d) == target.contains_key(d) by {
        assert(position_of(after, d) == position_of(before, d));
    }
    assert forall|d: Seq<char>| cursors_of(after).contains_key(d) implies cursors_of(after)[d] == target[d] by {
        lemma_position_below(before, d, n);
        assert(position_of(after, d) == position_of(before, d));
    }
    assert(cursors_of(after) =~= target);
}

/// Appending an entry for a directory that had none stores its cursor and
/// leaves the other cursors as they were.
proof fn lemma_appended(before: Seq<IndexEntry>, after: Seq<IndexEntry>, directory: Seq<char>)
    requires
        distinct(before),
        position_of(before, directory) == before.len(),
        after.len() == before.len() + 1,
        after.last().directory@ == directory,
        forall|i: int| 0 <= i < before.len() ==> after[i] == before[i],
    ensures
        distinct(after),
        cursors_of(after) == cursors_of(before).insert(directory, after.last().cursor as nat),
{
    let n = before.len() as int;
    lemma_position_below(before, directory, n);
    assert forall|d: Seq<char>|
        position_below(after, d, n) == position_of(before, d) && position_of(before, d) <= n by {
        lemma_same_positions(after, before, d, n);
        lemma_position_below(before, d, n);
    }
    let target = cursors_of(before).insert(directory, after.last().cursor as nat);
    assert forall|d: Seq<char>| position_of(after, d) == (if d == directory {
        n
    } else if position_of(before, d) < n {
        position_of(before, d)
    } else {
        n + 1
    }) by {
        assert(position_below(after, d, n) == position_of(before, d) && position_of(before, d) <= n);
    }
    assert forall|d: Seq<char>| cursors_of(after).contains_key(d) == target.contains_key(d) by {
        assert(position_below(after, d, n) == position_of(before, d) && position_of(before, d) <= n);
    }
    assert forall|d: Seq<char>| cursors_of(after).contains_key(d) implies cursors_of(after)[d] == target[d] by {
        lemma_position_below(before, d, n);
        assert(position_below(after, d, n) == position_of(before, d));
    }
    assert(cursors_of(after) =~= target);
}

impl View for MultiFileIndexMap {
    type V = Map<Seq<char>, nat>;

    closed spec fn view(&self) -> Map<Seq<char>, nat> {
        cursors_of(self.entries@)
    }
}

impl MultiFileIndexMap {
    /// No directory is stored twice.
    #[verifier::type_invariant]
    spec fn well_formed(&self) -> bool {
        distinct(self.entries@)
    }

    /// No cursor at all.
    pub fn new() -> (map: Self)
        ensures
            map@ == Map::<Seq<char>, nat>::empty(),
    {
        let map = MultiFileIndexMap { entries: Vec::new() };
        assert(map@ =~= Map::<Seq<char>, nat>::empty());
        map
    }

    /// The cursor stored for `directory`, if any.
    pub fn cursor(&self, directory: &str) -> (cursor: Option<usize>)
        ensures
            match cursor {
                Some(c) => self@.contains_key(directory@) && self@[directory@] == c,
                None => !self@.contains_key(directory@),
            },
    {
        let position = find(&self.entries, directory);
        if position < self.entries.len() {
            Some(self.entries[position].cursor)
        } else {
            None
        }
    }

    /// One selection among the `count` candidates of `directory`: the cursor
    /// is looked up, or starts at zero; one that has run past the candidates
    /// goes back to zero; the candidate at that position is selected, and the
    /// position after it is stored, to be brought into range by the next
    /// selection.
    pub fn select(&mut self, directory: &str, count: usize) -> (selected: usize)
        requires
            count > 0,
        ensures
            selected == cursor_in_range(old(self)@, directory@, count as nat),
            selected < count,
            final(self)@ == cursors_after(old(self)@, directory@, count as nat),
    {
        proof {
            use_type_invariant(&*self);
        }
        let mut entries: Vec<IndexEntry> = Vec::new();
        std::mem::swap(&mut self.entries, &mut entries);
        let ghost before = entries@;
        let position = find(&entries, directory);
        let selected: usize = if position < entries.len() && entries[position].cursor < count {
            entries[position].cursor
        } else {
            0
        };
        let entry = IndexEntry { directory: directory.to_owned(), cursor: selected + 1 };
        if position < entries.len() {
            entries.set(position, entry);
            proof {
                lemma_replaced(before, entries@, position as int, directory@);
            }
        } else {
            entries.push(entry);
            proof {
                lemma_appended(before, entries@, directory@);
            }
        }
        std::mem::swap(&mut self.entries, &mut entries);
        selected
    }
}

/// Finds the entry for `directory`.
fn find(entries: &Vec<IndexEntry>, directory: &str) -> (position: usize)
    ensures
        position == position_of(entries@, directory@),
        position <= entries.len(),
{
    let mut i: usize = 0;
    while i < entries.len()
        invariant
            i <= entries.len(),
            position_below(entries@, directory@, i as int) == i,
        decreases entries.len() - i,
    {
        if same_text(entries[i].directory.as_str(), directory) {
            proof {
                lemma_position_found(entries@, directory@, i as int, entries.len() as int);
            }
            return i;
        }
        i = i + 1;
    }
    i
}

} // verus!
