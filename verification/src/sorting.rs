//! The order of texts, and the stable ordering of a snapshot by one of its
//! text columns.

use crate::inventory::{port_views, PortInfo, PortInfoView};
use crate::text::chars_of;
use vstd::prelude::*;

verus! {

/// Whether `a` and `b` agree before position `i` and differ at it.
pub open spec fn first_difference(a: Seq<char>, b: Seq<char>, i: int) -> bool {
    &&& 0 <= i < a.len()
    &&& i < b.len()
    &&& a.take(i) == b.take(i)
    &&& a[i] != b[i]
}

/// Whether `a` is a prefix of `b`.
pub open spec fn is_prefix(a: Seq<char>, b: Seq<char>) -> bool {
    a.len() <= b.len() && b.take(a.len() as int) == a
}

/// Whether `a` comes before `b` or equals it, in the lexicographic order of
/// their characters: `a` is a prefix of `b`, or at the first position where
/// they differ `a` has the smaller character.
pub open spec fn text_le(a: Seq<char>, b: Seq<char>) -> bool {
    is_prefix(a, b) || exists|i: int| first_difference(a, b, i) && a[i] < b[i]
}

/// Two texts agree on their first `k` characters or differ somewhere before.
proof fn lemma_agree_or_differ(a: Seq<char>, b: Seq<char>, k: int)
    requires
        0 <= k <= a.len(),
        k <= b.len(),
    ensures
        a.take(k) == b.take(k) || exists|i: int| i < k && first_difference(a, b, i),
    decreases k,
{
    if k == 0 {
        assert(a.take(0) =~= b.take(0));
    } else {
        lemma_agree_or_differ(a, b, k - 1);
        if a.take(k - 1) == b.take(k - 1) {
            if a[k - 1] == b[k - 1] {
                assert(a.take(k) =~= a.take(k - 1).push(a[k - 1]));
                assert(b.take(k) =~= b.take(k - 1).push(b[k - 1]));
            } else {
                assert(first_difference(a, b, k - 1));
            }
        } else {
            let i = choose|i: int| i < k - 1 && first_difference(a, b, i);
            assert(i < k && first_difference(a, b, i));
        }
    }
}

/// Texts that agree before two positions and differ at both differ there in
/// the same place.
proof fn lemma_first_difference_unique(a: Seq<char>, b: Seq<char>, i: int, j: int)
    requires
        first_difference(a, b, i),
        first_difference(a, b, j),
    ensures
        i == j,
{
    if i < j {
        assert(a.take(j)[i] == b.take(j)[i]);
    }
    if j < i {
        assert(a.take(i)[j] == b.take(i)[j]);
    }
}

/// Every text comes before itself or equals it.
pub proof fn lemma_text_le_reflexive(a: Seq<char>)
    ensures
        text_le(a, a),
{
    assert(a.take(a.len() as int) =~= a);
}

/// Of two texts, one comes before the other or equals it.
pub proof fn lemma_text_le_total(a: Seq<char>, b: Seq<char>)
    ensures
        text_le(a, b) || text_le(b, a),
{
    let k = if a.len() <= b.len() {
        a.len() as int
    } else {
        b.len() as int
    };
    lemma_agree_or_differ(a, b, k);
    if a.take(k) == b.take(k) {
        if a.len() <= b.len() {
            assert(a.take(k) =~= a);
        } else {
            assert(b.take(k) =~= b);
        }
    } else {
        let i = choose|i: int| i < k && first_difference(a, b, i);
        if a[i] < b[i] {
            assert(first_difference(a, b, i) && a[i] < b[i]);
        } else {
            assert(first_difference(b, a, i) && b[i] < a[i]);
        }
    }
}

/// The order of texts is transitive.
pub proof fn lemma_text_le_transitive(a: Seq<char>, b: Seq<char>, c: Seq<char>)
    requires
        text_le(a, b),
        text_le(b, c),
    ensures
        text_le(a, c),
{
    if is_prefix(a, b) {
        if is_prefix(b, c) {
            assert(c.take(a.len() as int) =~= b.take(a.len() as int));
        } else {
            let j = choose|j: int| first_difference(b, c, j) && b[j] < c[j];
            if j < a.len() {
                assert(a.take(j) =~= b.take(j)) by {
                    assert(b.take(a.len() as int).take(j) =~= b.take(j));
                }
                assert(a[j] == b.take(a.len() as int)[j]);
                assert(first_difference(a, c, j));
            } else {
                assert(c.take(a.len() as int) =~= a) by {
                    assert(b.take(j).take(a.len() as int) =~= b.take(a.len() as int));
                    assert(c.take(j).take(a.len() as int) =~= c.take(a.len() as int));
                }
            }
        }
    } else {
        let i = choose|i: int| first_difference(a, b, i) && a[i] < b[i];
        if is_prefix(b, c) {
            assert(b[i] == c.take(b.len() as int)[i]);
            assert(b.take(i) =~= c.take(i)) by {
                assert(c.take(b.len() as int).take(i) =~= c.take(i));
            }
            assert(first_difference(a, c, i));
        } else {
            let j = choose|j: int| first_difference(b, c, j) && b[j] < c[j];
            if i <= j {
                assert(b.take(i) =~= c.take(i)) by {
                    assert(b.take(j).take(i) =~= b.take(i));
                    assert(c.take(j).take(i) =~= c.take(i));
                }
                if i < j {
                    assert(b.take(j)[i] == c.take(j)[i]);
                }
                assert(first_difference(a, c, i));
            } else {
                assert(a.take(j) =~= b.take(j)) by {
                    assert(a.take(i).take(j) =~= a.take(j));
                    assert(b.take(i).take(j) =~= b.take(j));
                }
                assert(a.take(i)[j] == b.take(i)[j]);
                assert(first_difference(a, c, j));
            }
        }
    }
}

/// Whether `a` comes before `b` or equals it, in the lexicographic order of
/// their characters. This is the order of `str`.
pub fn text_at_most(a: &str, b: &str) -> (result: bool)
    ensures
        result == text_le(a@, b@),
{
    let left = chars_of(a);
    let right = chars_of(b);
    let mut i: usize = 0;
    while i < left.len() && i < right.len()
        invariant
            i <= left.len(),
            i <= right.len(),
            left@ == a@,
            right@ == b@,
            left@.take(i as int) == right@.take(i as int),
        decreases left.len() - i,
    {
        if left[i] != right[i] {
            assert(first_difference(left@, right@, i as int));
            proof {
                if text_le(left@, right@) {
                    if is_prefix(left@, right@) {
                        assert(right@.take(left@.len() as int)[i as int] == left@[i as int]);
                    } else {
                        let j = choose|j: int|
                            first_difference(left@, right@, j) && left@[j] < right@[j];
                        lemma_first_difference_unique(left@, right@, i as int, j);
                    }
                }
            }
            return left[i] < right[i];
        }
        assert(left@.take(i + 1) =~= left@.take(i as int).push(left@[i as int]));
        assert(right@.take(i + 1) =~= right@.take(i as int).push(right@[i as int]));
        i += 1;
    }
    proof {
        if left.len() <= right.len() {
            assert(left@.take(i as int) =~= left@);
        } else {
            assert(right@.take(i as int) =~= right@);
            if text_le(left@, right@) {
                let j = choose|j: int|
                    first_difference(left@, right@, j) && left@[j] < right@[j];
                assert(left@.take(i as int).take(j) =~= left@.take(j));
                assert(right@.take(i as int).take(j) =~= right@.take(j));
                assert(left@.take(i as int)[j] == right@.take(i as int)[j]);
            }
        }
    }
    left.len() <= right.len()
}

/// The column by which a snapshot is ordered.
#[derive(Clone, Copy, Debug, PartialEq, Eq, Structural)]
pub enum SortBy {
    Port,
    Process,
    Protocol,
    State,
}

impl SortBy {
    /// The column that follows this one when the choice is cycled.
    pub open spec fn next_spec(self) -> SortBy {
        match self {
            SortBy::Port => SortBy::Process,
            SortBy::Process => SortBy::Protocol,
            SortBy::Protocol => SortBy::State,
            SortBy::State => SortBy::Port,
        }
    }

    /// The column that follows this one when the choice is cycled: port,
    /// process, protocol, state, and port again.
    pub fn next(self) -> (following: SortBy)
        ensures
            following == self.next_spec(),
    {
        match self {
            SortBy::Port => SortBy::Process,
            SortBy::Process => SortBy::Protocol,
            SortBy::Protocol => SortBy::State,
            SortBy::State => SortBy::Port,
        }
    }
}

/// The text by which a record is ordered under `by`: the local address for
/// the port column, the process name (empty if there is none) for the
/// process column, and the state column for both protocol and state, since
/// the state column of a UDP socket holds the protocol's name.
pub open spec fn sort_key(record: PortInfoView, by: SortBy) -> Seq<char> {
    match by {
        SortBy::Port => record.local_addr,
        SortBy::Process => match record.process_name {
            Some(name) => name,
            None => Seq::empty(),
        },
        SortBy::Protocol => record.state,
        SortBy::State => record.state,
    }
}

/// Whether the rows stand in the order of their keys.
pub open spec fn ordered(rows: Seq<PortInfoView>, by: SortBy) -> bool {
    forall|i: int, j: int|
        0 <= i < j < rows.len() ==> text_le(
            sort_key(#[trigger] rows[i], by),
            sort_key(#[trigger] rows[j], by),
        )
}

/// Where a new row with the key `key` goes into ordered rows: behind the
/// last row whose key does not come after `key`.
pub open spec fn insertion_point(rows: Seq<PortInfoView>, key: Seq<char>, by: SortBy) -> int
    decreases rows.len(),
{
    if rows.len() == 0 {
        0
    } else if text_le(sort_key(rows.last(), by), key) {
        rows.len() as int
    } else {
        insertion_point(rows.drop_last(), key, by)
    }
}

/// The rows in the order of their keys, rows with the same key in the order
/// in which they came.
pub open spec fn stable_sorted(rows: Seq<PortInfoView>, by: SortBy) -> Seq<PortInfoView>
    decreases rows.len(),
{
    if rows.len() == 0 {
        Seq::empty()
    } else {
        let sorted = stable_sorted(rows.drop_last(), by);
        sorted.insert(insertion_point(sorted, sort_key(rows.last(), by), by), rows.last())
    }
}

/// The insertion point lies within the rows; in ordered rows every row
/// before it has a key that does not come after `key`, and every row from it
/// on has a key that comes after `key`.
pub proof fn lemma_insertion_point(rows: Seq<PortInfoView>, key: Seq<char>, by: SortBy)
    requires
        ordered(rows, by),
    ensures
        0 <= insertion_point(rows, key, by) <= rows.len(),
        forall|i: int|
            0 <= i < insertion_point(rows, key, by) ==> text_le(
                sort_key(#[trigger] rows[i], by),
                key,
            ),
        forall|i: int|
            insertion_point(rows, key, by) <= i < rows.len() ==> !text_le(
                sort_key(#[trigger] rows[i], by),
                key,
            ),
    decreases rows.len(),
{
    if rows.len() == 0 {
    } else if text_le(sort_key(rows.last(), by), key) {
        assert forall|i: int| 0 <= i < rows.len() implies text_le(
            sort_key(#[trigger] rows[i], by),
            key,
        ) by {
            if i < rows.len() - 1 {
                lemma_text_le_transitive(sort_key(rows[i], by), sort_key(rows.last(), by), key);
            }
        }
    } else {
        let front = rows.drop_last();
        assert forall|i: int, j: int| 0 <= i < j < front.len() implies text_le(
            sort_key(#[trigger] front[i], by),
            sort_key(#[trigger] front[j], by),
        ) by {
            assert(front[i] == rows[i] && front[j] == rows[j]);
        }
        lemma_insertion_point(front, key, by);
        assert forall|i: int| 0 <= i < insertion_point(rows, key, by) implies text_le(
            sort_key(#[trigger] rows[i], by),
            key,
        ) by {
            assert(rows[i] == front[i]);
        }
        assert forall|i: int| insertion_point(rows, key, by) <= i < rows.len() implies !text_le(
            sort_key(#[trigger] rows[i], by),
            key,
        ) by {
            if i < rows.len() - 1 {
                assert(rows[i] == front[i]);
            }
        }
    }
}

/// Sorting puts the rows in the order of their keys.
pub proof fn lemma_stable_sorted_ordered(rows: Seq<PortInfoView>, by: SortBy)
    ensures
        ordered(stable_sorted(rows, by), by),
        stable_sorted(rows, by).len() == rows.len(),
    decreases rows.len(),
{
    if rows.len() > 0 {
        let sorted = stable_sorted(rows.drop_last(), by);
        let row = rows.last();
        let key = sort_key(row, by);
        let at = insertion_point(sorted, key, by);
        lemma_stable_sorted_ordered(rows.drop_last(), by);
        lemma_insertion_point(sorted, key, by);
        let result = sorted.insert(at, row);
        assert forall|i: int, j: int| 0 <= i < j < result.len() implies text_le(
            sort_key(#[trigger] result[i], by),
            sort_key(#[trigger] result[j], by),
        ) by {
            if j < at {
                assert(result[i] == sorted[i] && result[j] == sorted[j]);
            } else if j == at {
                assert(result[i] == sorted[i]);
            } else if i < at {
                assert(result[i] == sorted[i] && result[j] == sorted[j - 1]);
            } else if i == at {
                assert(result[j] == sorted[j - 1]);
                lemma_text_le_total(sort_key(sorted[j - 1], by), key);
            } else {
                assert(result[i] == sorted[i - 1] && result[j] == sorted[j - 1]);
            }
        }
    }
}

/// Sorting neither drops nor invents a row: it rearranges them.
pub proof fn lemma_stable_sorted_permutes(rows: Seq<PortInfoView>, by: SortBy)
    ensures
        stable_sorted(rows, by).to_multiset() == rows.to_multiset(),
    decreases rows.len(),
{
    broadcast use vstd::seq_lib::group_to_multiset_ensures;

    if rows.len() > 0 {
        let front = rows.drop_last();
        let sorted = stable_sorted(front, by);
        let row = rows.last();
        let at = insertion_point(sorted, sort_key(row, by), by);
        lemma_stable_sorted_permutes(front, by);
        lemma_stable_sorted_ordered(front, by);
        lemma_insertion_point(sorted, sort_key(row, by), by);
        vstd::seq_lib::to_multiset_insert(sorted, at, row);
        vstd::seq_lib::to_multiset_build(front, row);
        assert(rows == front.push(row));
    } else {
        assert(stable_sorted(rows, by) =~= rows);
    }
}

/// Sorting is stable: the rows that share a key stand after sorting in the
/// order in which they stood before.
pub proof fn lemma_stable_sorted_keeps_ties(rows: Seq<PortInfoView>, by: SortBy, key: Seq<char>)
    ensures
        stable_sorted(rows, by).filter(|row: PortInfoView| sort_key(row, by) == key) == rows.filter(
            |row: PortInfoView| sort_key(row, by) == key,
        ),
    decreases rows.len(),
{
    let tied = |row: PortInfoView| sort_key(row, by) == key;
    if rows.len() == 0 {
        assert(stable_sorted(rows, by) =~= rows);
    } else {
        let front = rows.drop_last();
        let sorted = stable_sorted(front, by);
        let row = rows.last();
        let at = insertion_point(sorted, sort_key(row, by), by);
        lemma_stable_sorted_keeps_ties(front, by, key);
        lemma_stable_sorted_ordered(front, by);
        lemma_insertion_point(sorted, sort_key(row, by), by);
        let head = sorted.take(at);
        let tail = sorted.skip(at);
        assert(sorted =~= head + tail);
        assert(sorted.insert(at, row) =~= head.push(row) + tail);
        assert(rows =~= front.push(row));
        Seq::filter_distributes_over_add(head, tail, tied);
        Seq::filter_distributes_over_add(head.push(row), tail, tied);
        head.lemma_filter_push(row, tied);
        front.lemma_filter_push(row, tied);
        if tied(row) {
            lemma_text_le_reflexive(key);
            lemma_none_tied(tail, by, key);
            assert(head.filter(tied) + tail.filter(tied) =~= head.filter(tied));
            assert(head.filter(tied).push(row) + tail.filter(tied) =~= head.filter(tied).push(row));
        }
    }
}

/// Rows whose keys all come after `key` hold no row with the key `key`.
proof fn lemma_none_tied(rows: Seq<PortInfoView>, by: SortBy, key: Seq<char>)
    requires
        forall|i: int| 0 <= i < rows.len() ==> !text_le(sort_key(#[trigger] rows[i], by), key),
        text_le(key, key),
    ensures
        rows.filter(|row: PortInfoView| sort_key(row, by) == key) == Seq::<PortInfoView>::empty(),
    decreases rows.len(),
{
    let tied = |row: PortInfoView| sort_key(row, by) == key;
    reveal(Seq::filter);
    if rows.len() > 0 {
        assert forall|i: int| 0 <= i < rows.drop_last().len() implies !text_le(
            sort_key(#[trigger] rows.drop_last()[i], by),
            key,
        ) by {
            assert(rows.drop_last()[i] == rows[i]);
        }
        lemma_none_tied(rows.drop_last(), by, key);
        assert(!text_le(sort_key(rows[rows.len() - 1], by), key));
    }
}

/// The text by which `record` is ordered under `by`.
pub fn sort_key_of(record: &PortInfo, by: SortBy) -> (key: &str)
    ensures
        key@ == sort_key(record@, by),
{
    proof {
        reveal_strlit("");
        assert(""@ =~= Seq::<char>::empty());
    }
    match by {
        SortBy::Port => record.local_addr.as_str(),
        SortBy::Process => match &record.process_name {
            Some(name) => name.as_str(),
            None => "",
        },
        SortBy::Protocol => record.state.as_str(),
        SortBy::State => record.state.as_str(),
    }
}

/// Where `record` goes into the ordered rows `sorted`: behind the last row
/// whose key does not come after its own.
fn insertion_index(sorted: &Vec<PortInfo>, record: &PortInfo, by: SortBy) -> (at: usize)
    requires
        ordered(port_views(sorted@), by),
    ensures
        at == insertion_point(port_views(sorted@), sort_key(record@, by), by),
        at <= sorted@.len(),
{
    let ghost rows = port_views(sorted@);
    let ghost key = sort_key(record@, by);
    let mut low: usize = 0;
    let mut high: usize = sorted.len();
    while low < high
        invariant
            low <= high <= sorted@.len(),
            rows == port_views(sorted@),
            key == sort_key(record@, by),
            ordered(rows, by),
            forall|j: int| 0 <= j < low ==> text_le(sort_key(#[trigger] rows[j], by), key),
            forall|j: int|
                high <= j < rows.len() ==> !text_le(sort_key(#[trigger] rows[j], by), key),
        decreases high - low,
    {
        let middle: usize = low + (high - low) / 2;
        if text_at_most(sort_key_of(&sorted[middle], by), sort_key_of(record, by)) {
            proof {
                assert forall|j: int| 0 <= j < middle + 1 implies text_le(
                    sort_key(#[trigger] rows[j], by),
                    key,
                ) by {
                    if j < middle {
                        lemma_text_le_transitive(
                            sort_key(rows[j], by),
                            sort_key(rows[middle as int], by),
                            key,
                        );
                    }
                }
            }
            low = middle + 1;
        } else {
            proof {
                assert forall|j: int| middle <= j < rows.len() implies !text_le(
                    sort_key(#[trigger] rows[j], by),
                    key,
                ) by {
                    if middle < j && text_le(sort_key(rows[j], by), key) {
                        lemma_text_le_transitive(
                            sort_key(rows[middle as int], by),
                            sort_key(rows[j], by),
                            key,
                        );
                    }
                }
            }
            high = middle;
        }
    }
    proof {
        lemma_insertion_point(rows, key, by);
        let point = insertion_point(rows, key, by);
        if low < point {
            assert(!text_le(sort_key(rows[low as int], by), key));
        }
        if point < low {
            assert(text_le(sort_key(rows[point], by), key));
        }
    }
    low
}

/// The records in the order of their keys under `by`; records with the same
/// key keep the order in which they came.
pub fn sort_by_column(ports: &Vec<PortInfo>, by: SortBy) -> (sorted: Vec<PortInfo>)
    ensures
        port_views(sorted@) == stable_sorted(port_views(ports@), by),
        ordered(port_views(sorted@), by),
        port_views(sorted@).to_multiset() == port_views(ports@).to_multiset(),
{
    let mut sorted: Vec<PortInfo> = Vec::new();
    let mut i: usize = 0;
    assert(port_views(ports@).take(0) =~= Seq::<PortInfoView>::empty());
    assert(port_views(sorted@) =~= Seq::<PortInfoView>::empty());
    while i < ports.len()
        invariant
            i <= ports.len(),
            port_views(sorted@) == stable_sorted(port_views(ports@).take(i as int), by),
        decreases ports.len() - i,
    {
        let ghost views = port_views(ports@);
        let ghost before = port_views(sorted@);
        proof {
            assert(views.take(i + 1).drop_last() =~= views.take(i as int));
            assert(views.take(i + 1).last() == ports@[i as int]@);
            lemma_stable_sorted_ordered(views.take(i as int), by);
        }
        let at = insertion_index(&sorted, &ports[i], by);
        let copy = ports[i].clone();
        sorted.insert(at, copy);
        assert(port_views(sorted@) =~= before.insert(at as int, copy@));
        i += 1;
    }
    proof {
        assert(port_views(ports@).take(ports.len() as int) == port_views(ports@));
        lemma_stable_sorted_ordered(port_views(ports@), by);
        lemma_stable_sorted_permutes(port_views(ports@), by);
    }
    sorted
}

} // verus!
