//! The clipboard history: which rows stay in its table, and in which order they
//! are shown.

use crate::cell;
use crate::cell::Order;
use crate::clipboard::{ClipBoardContentType, Content};
use crate::entry;
use crate::entry::{Entry, EntryRow, RowError, RowFault};
use vstd::prelude::*;

verus! {

/// How many entries the history keeps.
pub const HISTORY_LIMIT: usize = 300;

/// What a list of rows holds.
pub open spec fn entries_of(rows: Seq<EntryRow>) -> Seq<Entry> {
    rows.map_values(|row: EntryRow| row@)
}

/// The primary keys of a list of rows.
pub open spec fn ids_of(entries: Seq<Entry>) -> Seq<int> {
    entries.map_values(|entry: Entry| entry.id)
}

/// Whether a list of numbers holds the given primary keys.
pub open spec fn are_ids(ids: Seq<i64>, expected: Seq<int>) -> bool {
    ids.map_values(|id: i64| id as int) == expected
}

/// Whether a row comes before another in the history: it was made later, or at
/// the same time with the greater key.
pub open spec fn newer(a: Entry, b: Entry) -> bool {
    cell::before(b.created_at, a.created_at) || (cell::ties(a.created_at, b.created_at) && a.id
        > b.id)
}

/// Whether the rows stand from the newest to the oldest.
pub open spec fn is_sorted(entries: Seq<Entry>) -> bool {
    forall|i: int, j: int|
        #![trigger entries[i], entries[j]]
        0 <= i < j < entries.len() ==> newer(entries[i], entries[j])
}

/// Whether a row has the given key.
pub open spec fn has_entry_id(entries: Seq<Entry>, id: int) -> bool {
    exists|i: int| 0 <= i < entries.len() && #[trigger] entries[i].id == id
}

/// Whether no two rows have one key.
pub open spec fn has_distinct_ids(entries: Seq<Entry>) -> bool {
    forall|i: int, j: int|
        #![trigger entries[i], entries[j]]
        0 <= i < j < entries.len() ==> entries[i].id != entries[j].id
}

/// The rows that do not hold the given content.
pub open spec fn without(entries: Seq<Entry>, content: Content) -> Seq<Entry> {
    entries.filter(|entry: Entry| !entry::holds(entry, content))
}

/// The rows that hold the given content.
pub open spec fn holding(entries: Seq<Entry>, content: Content) -> Seq<Entry> {
    entries.filter(|entry: Entry| entry::holds(entry, content))
}

/// The rows with one more at its place: behind those that are newer.
pub open spec fn with_entry(entries: Seq<Entry>, entry: Entry) -> Seq<Entry> {
    entries.filter(|other: Entry| newer(other, entry)).push(entry) + entries.filter(
        |other: Entry| !newer(other, entry),
    )
}

/// The newest rows, as many as the history keeps.
pub open spec fn newest(entries: Seq<Entry>) -> Seq<Entry> {
    if entries.len() > HISTORY_LIMIT {
        entries.take(HISTORY_LIMIT as int)
    } else {
        entries
    }
}

/// The rows that are too old for the history to keep.
pub open spec fn expired(entries: Seq<Entry>) -> Seq<Entry> {
    if entries.len() > HISTORY_LIMIT {
        entries.skip(HISTORY_LIMIT as int)
    } else {
        Seq::empty()
    }
}

/// The rows after content was put in, and the old ones were dropped.
pub open spec fn after_insert(
    entries: Seq<Entry>,
    content: Content,
    now: int,
    id: int,
) -> Seq<Entry> {
    newest(with_entry(entries, entry::entry_for(content, now, id)))
}

/// The rows that an insertion drops.
pub open spec fn dropped_by_insert(
    entries: Seq<Entry>,
    content: Content,
    now: int,
    id: int,
) -> Seq<Entry> {
    expired(with_entry(entries, entry::entry_for(content, now, id)))
}

/// The rows after content was stored: it stands there once, as what was stored
/// last.
pub open spec fn after_store(
    entries: Seq<Entry>,
    content: Content,
    now: int,
    id: int,
) -> Seq<Entry> {
    after_insert(without(entries, content), content, now, id)
}

/// The rows after one content was replaced by another.
pub open spec fn after_update(
    entries: Seq<Entry>,
    previous: Content,
    content: Content,
    now: int,
    id: int,
) -> Seq<Entry> {
    after_store(without(entries, previous), content, now, id)
}

/// The table `clipboard_entries`, its rows from the newest to the oldest.
#[derive(Debug)]
pub struct ClipboardTable {
    rows: Vec<EntryRow>,
}

impl View for ClipboardTable {
    type V = Seq<Entry>;

    closed spec fn view(&self) -> Seq<Entry> {
        entries_of(self.rows@)
    }
}

impl ClipboardTable {
    /// The rows stand from the newest to the oldest, and no two have one key.
    pub open spec fn wf(&self) -> bool {
        is_sorted(self@) && has_distinct_ids(self@)
    }
}

/// Leaving out no row leaves all.
pub proof fn lemma_filter_all(entries: Seq<Entry>, keep: spec_fn(Entry) -> bool)
    requires
        forall|i: int| 0 <= i < entries.len() ==> keep(#[trigger] entries[i]),
    ensures
        entries.filter(keep) == entries,
    decreases entries.len(),
{
    reveal(Seq::filter);
    if entries.len() > 0 {
        let shorter = entries.drop_last();
        assert forall|i: int| 0 <= i < shorter.len() implies keep(#[trigger] shorter[i]) by {
            assert(shorter[i] == entries[i]);
        }
        lemma_filter_all(shorter, keep);
        assert(keep(entries[entries.len() - 1]));
        assert(shorter.push(entries.last()) == entries);
    }
}

/// Leaving out every row leaves none.
pub proof fn lemma_filter_none(entries: Seq<Entry>, keep: spec_fn(Entry) -> bool)
    requires
        forall|i: int| 0 <= i < entries.len() ==> !keep(#[trigger] entries[i]),
    ensures
        entries.filter(keep) == Seq::<Entry>::empty(),
    decreases entries.len(),
{
    reveal(Seq::filter);
    if entries.len() > 0 {
        let shorter = entries.drop_last();
        assert forall|i: int| 0 <= i < shorter.len() implies !keep(#[trigger] shorter[i]) by {
            assert(shorter[i] == entries[i]);
        }
        lemma_filter_none(shorter, keep);
        assert(!keep(entries[entries.len() - 1]));
    }
}

/// In sorted rows, the place of one more is the one before which all are newer
/// and from which on none is.
pub proof fn lemma_with_entry_at(entries: Seq<Entry>, entry: Entry, place: int)
    requires
        0 <= place <= entries.len(),
        forall|i: int| 0 <= i < place ==> newer(#[trigger] entries[i], entry),
        forall|i: int| place <= i < entries.len() ==> !newer(#[trigger] entries[i], entry),
    ensures
        with_entry(entries, entry) == entries.insert(place, entry),
{
    let before = entries.take(place);
    let after = entries.skip(place);
    let is_newer = |other: Entry| newer(other, entry);
    let is_not_newer = |other: Entry| !newer(other, entry);
    assert(entries == before + after);
    Seq::filter_distributes_over_add(before, after, is_newer);
    Seq::filter_distributes_over_add(before, after, is_not_newer);
    lemma_filter_all(before, is_newer);
    lemma_filter_none(after, is_newer);
    lemma_filter_none(before, is_not_newer);
    lemma_filter_all(after, is_not_newer);
    assert(with_entry(entries, entry) == before.push(entry) + after);
    assert(entries.insert(place, entry) == before.push(entry) + after);
}

/// Of two rows with two keys one is newer, and only one.
pub proof fn lemma_newer_total(a: Entry, b: Entry)
    ensures
        newer(a, b) ==> !newer(b, a),
        a.id != b.id ==> newer(a, b) || newer(b, a),
{
    cell::values_are_ordered(a.created_at, b.created_at);
    cell::values_are_ordered(b.created_at, a.created_at);
}

/// A row that is newer than another is newer than all that are older than that.
pub proof fn lemma_newer_chain(a: Entry, b: Entry, c: Entry)
    requires
        newer(a, b),
        newer(b, c),
    ensures
        newer(a, c),
{
    if cell::before(b.created_at, a.created_at) && cell::before(c.created_at, b.created_at) {
        cell::order_is_a_chain(c.created_at, b.created_at, a.created_at);
    }
}

fn row_is_newer(a: &EntryRow, b: &EntryRow) -> (r: bool)
    ensures
        r == newer(a@, b@),
{
    proof {
        cell::values_are_ordered(a@.created_at, b@.created_at);
    }
    match cell::order_cells(&a.created_at, &b.created_at) {
        Order::Greater => true,
        Order::Equal => a.id > b.id,
        Order::Less => false,
    }
}

/// Puts a row at its place among sorted rows.
fn insert_row(rows: &mut Vec<EntryRow>, row: EntryRow)
    requires
        is_sorted(entries_of(old(rows)@)),
        has_distinct_ids(entries_of(old(rows)@)),
        !has_entry_id(entries_of(old(rows)@), row.id as int),
    ensures
        entries_of(final(rows)@) == with_entry(entries_of(old(rows)@), row@),
        is_sorted(entries_of(final(rows)@)),
        has_distinct_ids(entries_of(final(rows)@)),
        exists|place: int|
            0 <= place <= old(rows)@.len() && final(rows)@ == #[trigger] old(rows)@.insert(
                place,
                row,
            ),
{
    let ghost entries = entries_of(rows@);
    let mut place: usize = 0;
    while place < rows.len() && row_is_newer(&rows[place], &row)
        invariant
            entries == entries_of(rows@),
            place <= rows@.len(),
            forall|i: int| 0 <= i < place ==> newer(#[trigger] entries[i], row@),
        decreases rows@.len() - place,
    {
        assert(entries[place as int] == rows@[place as int]@);
        place = place + 1;
    }
    assert forall|i: int| place <= i < entries.len() implies newer(row@, #[trigger] entries[i]) by {
        assert(entries[place as int] == rows@[place as int]@);
        assert(entries[place as int].id != row.id);
        lemma_newer_total(entries[place as int], row@);
        if i > place {
            lemma_newer_chain(row@, entries[place as int], entries[i]);
        }
    }
    let ghost before = rows@;
    rows.insert(place, row);
    proof {
        assert forall|i: int| place <= i < entries.len() implies !newer(
            #[trigger] entries[i],
            row@,
        ) by {
            lemma_newer_total(row@, entries[i]);
        }
        lemma_with_entry_at(entries, row@, place as int);
        assert(entries_of(rows@) == entries.insert(place as int, row@));
        assert(rows@ == before.insert(place as int, row));
    }
}

/// Leaving rows out leaves rows that were there.
pub proof fn lemma_filter_is_part(entries: Seq<Entry>, keep: spec_fn(Entry) -> bool)
    ensures
        forall|i: int|
            0 <= i < entries.filter(keep).len() ==> entries.contains(
                #[trigger] entries.filter(keep)[i],
            ),
    decreases entries.len(),
{
    reveal(Seq::filter);
    if entries.len() > 0 {
        let shorter = entries.drop_last();
        lemma_filter_is_part(shorter, keep);
        let filtered = entries.filter(keep);
        assert forall|i: int| 0 <= i < filtered.len() implies entries.contains(
            #[trigger] filtered[i],
        ) by {
            if i < shorter.filter(keep).len() {
                assert(shorter.contains(shorter.filter(keep)[i]));
                let j = choose|j: int|
                    0 <= j < shorter.len() && shorter[j] == shorter.filter(keep)[i];
                assert(entries[j] == filtered[i]);
            } else {
                assert(entries[entries.len() - 1] == filtered[i]);
            }
        }
    }
}

/// Leaving rows out keeps the order of the others.
pub proof fn lemma_filter_keeps_order(entries: Seq<Entry>, keep: spec_fn(Entry) -> bool)
    requires
        is_sorted(entries),
        has_distinct_ids(entries),
    ensures
        is_sorted(entries.filter(keep)),
        has_distinct_ids(entries.filter(keep)),
    decreases entries.len(),
{
    reveal(Seq::filter);
    if entries.len() > 0 {
        let shorter = entries.drop_last();
        assert forall|i: int, j: int|
            #![trigger shorter[i], shorter[j]]
            0 <= i < j < shorter.len() implies newer(shorter[i], shorter[j]) && shorter[i].id
            != shorter[j].id by {
            assert(shorter[i] == entries[i] && shorter[j] == entries[j]);
        }
        lemma_filter_keeps_order(shorter, keep);
        lemma_filter_is_part(shorter, keep);
        let before = shorter.filter(keep);
        let filtered = entries.filter(keep);
        let last = entries[entries.len() - 1];
        assert forall|i: int| 0 <= i < before.len() implies newer(#[trigger] before[i], last)
            && before[i].id != last.id by {
            assert(shorter.contains(before[i]));
            let k = choose|k: int| 0 <= k < shorter.len() && shorter[k] == before[i];
            assert(entries[k] == before[i]);
        }
        if keep(last) {
            assert(filtered == before.push(last));
        }
    }
}

impl ClipboardTable {
    /// Whether a row has the given key.
    pub fn has_id(&self, id: i64) -> (r: bool)
        ensures
            r == has_entry_id(self@, id as int),
    {
        let mut i: usize = 0;
        while i < self.rows.len()
            invariant
                i <= self.rows@.len(),
                forall|j: int| 0 <= j < i ==> #[trigger] self@[j].id != id,
            decreases self.rows@.len() - i,
        {
            assert(self@[i as int] == self.rows@[i as int]@);
            if self.rows[i].id == id {
                assert(self@[i as int].id == id);
                return true;
            }
            i = i + 1;
        }
        false
    }

    /// The number of rows.
    pub fn len(&self) -> (n: usize)
        ensures
            n == self@.len(),
    {
        self.rows.len()
    }

    /// The table with the given rows; `None` where two of them have one key.
    pub fn from_rows(rows: Vec<EntryRow>) -> (table: Option<ClipboardTable>)
        ensures
            match table {
                Some(t) => {
                    &&& t.wf()
                    &&& t@.to_multiset() == entries_of(rows@).to_multiset()
                    &&& has_distinct_ids(entries_of(rows@))
                },
                None => !has_distinct_ids(entries_of(rows@)),
            },
    {
        let ghost given = entries_of(rows@);
        let mut pending: Vec<EntryRow> = rows;
        let mut table = ClipboardTable { rows: Vec::new() };
        proof {
            assert(given.take(pending@.len() as int) == given);
            assert(given.skip(pending@.len() as int) == table@);
        }
        loop
            invariant
                pending@.len() <= given.len(),
                entries_of(pending@) == given.take(pending@.len() as int),
                table@.to_multiset() == given.skip(pending@.len() as int).to_multiset(),
                has_distinct_ids(given.skip(pending@.len() as int)),
                table.wf(),
                given == entries_of(rows@),
            decreases pending@.len(),
        {
            let ghost k = pending@.len() as int;
            let ghost waiting = pending@;
            match pending.pop() {
                None => {
                    assert(given.skip(0) == given);
                    return Some(table);
                },
                Some(row) => {
                    broadcast use vstd::seq_lib::group_to_multiset_ensures;

                    let ghost rest = given.skip(k);
                    let ghost longer = given.skip(k - 1);
                    proof {
                        assert(entries_of(waiting)[k - 1] == waiting[k - 1]@);
                        assert(given[k - 1] == row@);
                        assert(longer == seq![row@] + rest);
                        assert(longer == rest.insert(0, row@));
                        assert(entries_of(pending@) == given.take(k - 1));
                        assert forall|e: Entry| table@.contains(e) == rest.contains(e) by {
                            assert(table@.to_multiset().count(e) == rest.to_multiset().count(e));
                        }
                    }
                    if table.has_id(row.id) {
                        proof {
                            let i = choose|i: int|
                                0 <= i < table@.len() && #[trigger] table@[i].id == row.id;
                            assert(table@.contains(table@[i]));
                            assert(rest.contains(table@[i]));
                            let j = choose|j: int| 0 <= j < rest.len() && rest[j] == table@[i];
                            assert(given[k + j] == rest[j]);
                            assert(given[k - 1].id == given[k + j].id);
                        }
                        return None;
                    }
                    assert forall|j: int| 0 <= j < rest.len() implies #[trigger] rest[j].id
                        != row.id by {
                        assert(rest.contains(rest[j]));
                        assert(table@.contains(rest[j]));
                        let i = choose|i: int| 0 <= i < table@.len() && table@[i] == rest[j];
                        assert(table@[i].id != row.id);
                    }
                    let ghost before = table.rows@;
                    insert_row(&mut table.rows, row);
                    proof {
                        let place = choose|place: int|
                            0 <= place <= before.len() && table.rows@ == #[trigger] before.insert(
                                place,
                                row,
                            );
                        assert(entries_of(table.rows@) == entries_of(before).insert(place, row@));
                        vstd::seq_lib::to_multiset_insert(entries_of(before), place, row@);
                        vstd::seq_lib::to_multiset_insert(rest, 0, row@);
                    }
                },
            }
        }
    }
}

proof fn lemma_no_ids(entries: Seq<Entry>)
    requires
        entries.len() == 0,
    ensures
        are_ids(Seq::empty(), ids_of(entries)),
{
    let values = |id: i64| id as int;
    assert(Seq::<i64>::empty().map_values(values) == ids_of(entries));
}

proof fn lemma_ids_push(ids: Seq<i64>, entries: Seq<Entry>, id: i64, entry: Entry)
    requires
        are_ids(ids, ids_of(entries)),
        entry.id == id,
    ensures
        are_ids(ids.push(id), ids_of(entries.push(entry))),
{
    let values = |id: i64| id as int;
    assert(ids.push(id).map_values(values) == ids.map_values(values).push(id as int));
    assert(ids_of(entries.push(entry)) == ids_of(entries).push(entry.id));
}

/// Which rows are to go: those that hold the given content, or those that are
/// broken.
#[derive(Clone, Copy)]
enum Unwanted<'a> {
    Holding(&'a ClipBoardContentType),
    Broken,
}

spec fn is_unwanted(entry: Entry, which: Unwanted) -> bool {
    match which {
        Unwanted::Holding(content) => entry::holds(entry, content@),
        Unwanted::Broken => entry::is_broken(entry),
    }
}

spec fn wanted(entries: Seq<Entry>, which: Unwanted) -> Seq<Entry> {
    entries.filter(|entry: Entry| !is_unwanted(entry, which))
}

spec fn unwanted(entries: Seq<Entry>, which: Unwanted) -> Seq<Entry> {
    entries.filter(|entry: Entry| is_unwanted(entry, which))
}

fn row_is_unwanted(row: &EntryRow, which: Unwanted) -> (r: bool)
    ensures
        r == is_unwanted(row@, which),
{
    match which {
        Unwanted::Holding(content) => entry::row_holds(row, content),
        Unwanted::Broken => entry::row_is_broken(row),
    }
}

/// Deletes the rows that are to go. Gives the keys of those rows.
fn delete_unwanted(table: &mut ClipboardTable, which: Unwanted) -> (deleted: Vec<i64>)
    requires
        old(table).wf(),
    ensures
        final(table).wf(),
        final(table)@ == wanted(old(table)@, which),
        are_ids(deleted@, ids_of(unwanted(old(table)@, which))),
{
    let ghost given = table@;
    let mut deleted: Vec<i64> = Vec::new();
    let mut i: usize = 0;
    let ghost mut seen: int = 0;
    reveal(Seq::filter);
    assert(given.take(0) == Seq::<Entry>::empty());
    assert(given.skip(0) == given);
    assert(table@ == wanted(given.take(0), which) + given.skip(0));
    proof {
        lemma_no_ids(unwanted(given.take(0), which));
    }
    while i < table.rows.len()
        invariant
            0 <= seen <= given.len(),
            i == wanted(given.take(seen), which).len(),
            table@ == wanted(given.take(seen), which) + given.skip(seen),
            are_ids(deleted@, ids_of(unwanted(given.take(seen), which))),
        decreases given.len() - seen,
    {
        reveal(Seq::filter);
        let ghost kept = wanted(given.take(seen), which);
        let ghost gone = unwanted(given.take(seen), which);
        let ghost entry = given[seen];
        proof {
            assert(table@[i as int] == table.rows@[i as int]@);
            assert(table@[i as int] == given.skip(seen)[0]);
            assert(given.take(seen + 1).drop_last() == given.take(seen));
            assert(given.take(seen + 1).last() == entry);
            assert(given.skip(seen) == seq![entry] + given.skip(seen + 1));
        }
        if row_is_unwanted(&table.rows[i], which) {
            let ghost before = table@;
            let ghost ids = deleted@;
            let row: EntryRow = table.rows.remove(i);
            deleted.push(row.id);
            proof {
                lemma_ids_push(ids, gone, row.id, entry);
                assert(table@ == before.remove(i as int));
                assert(table@ == kept + given.skip(seen + 1));
            }
        } else {
            assert(table@ == kept.push(entry) + given.skip(seen + 1));
            i = i + 1;
        }
        proof {
            seen = seen + 1;
        }
    }
    proof {
        assert(given.skip(seen).len() == 0);
        assert(given.take(seen) == given);
        assert(table@ == wanted(given, which));
        lemma_filter_keeps_order(given, |entry: Entry| !is_unwanted(entry, which));
    }
    deleted
}

/// Deletes the rows that hold the given content. Gives the keys of those rows.
pub fn delete_clipboard_content(
    table: &mut ClipboardTable,
    content: &ClipBoardContentType,
) -> (deleted: Vec<i64>)
    requires
        old(table).wf(),
    ensures
        final(table).wf(),
        final(table)@ == without(old(table)@, content@),
        are_ids(deleted@, ids_of(holding(old(table)@, content@))),
{
    let which = Unwanted::Holding(content);
    proof {
        assert((|entry: Entry| !is_unwanted(entry, which)) =~= (|entry: Entry|
            !entry::holds(entry, content@)));
        assert((|entry: Entry| is_unwanted(entry, which)) =~= (|entry: Entry|
            entry::holds(entry, content@)));
    }
    delete_unwanted(table, which)
}

/// Deletes every row. Gives the keys of those rows.
pub fn clear_clipboard(table: &mut ClipboardTable) -> (deleted: Vec<i64>)
    requires
        old(table).wf(),
    ensures
        final(table).wf(),
        final(table)@ == Seq::<Entry>::empty(),
        are_ids(deleted@, ids_of(old(table)@)),
{
    let deleted = ids_from(&table.rows, 0);
    assert(table@.skip(0) == table@);
    table.rows.clear();
    assert(table@ == Seq::<Entry>::empty());
    deleted
}

fn ids_from(rows: &Vec<EntryRow>, start: usize) -> (ids: Vec<i64>)
    requires
        start <= rows@.len(),
    ensures
        are_ids(ids@, ids_of(entries_of(rows@).skip(start as int))),
{
    let ghost entries = entries_of(rows@);
    let mut ids: Vec<i64> = Vec::new();
    let mut i: usize = start;
    proof {
        lemma_no_ids(entries.subrange(start as int, start as int));
    }
    while i < rows.len()
        invariant
            start <= i <= rows@.len(),
            entries == entries_of(rows@),
            are_ids(ids@, ids_of(entries.subrange(start as int, i as int))),
        decreases rows@.len() - i,
    {
        let ghost before = ids@;
        ids.push(rows[i].id);
        proof {
            let part = entries.subrange(start as int, i as int);
            assert(entries[i as int] == rows@[i as int]@);
            lemma_ids_push(before, part, rows@[i as int].id, entries[i as int]);
            assert(part.push(entries[i as int]) == entries.subrange(start as int, i + 1));
        }
        i = i + 1;
    }
    assert(entries.subrange(start as int, i as int) == entries.skip(start as int));
    ids
}

/// Deletes the rows that are too old to keep. Gives the keys of those rows.
pub fn trim_history(table: &mut ClipboardTable) -> (deleted: Vec<i64>)
    requires
        old(table).wf(),
    ensures
        final(table).wf(),
        final(table)@ == newest(old(table)@),
        are_ids(deleted@, ids_of(expired(old(table)@))),
{
    if table.rows.len() > HISTORY_LIMIT {
        let deleted = ids_from(&table.rows, HISTORY_LIMIT);
        table.rows.truncate(HISTORY_LIMIT);
        assert(table@ == newest(old(table)@));
        deleted
    } else {
        let deleted: Vec<i64> = Vec::new();
        proof {
            lemma_no_ids(expired(old(table)@));
        }
        deleted
    }
}

/// Puts in a row for the given content, with the key `id`, and deletes the rows
/// that are too old to keep. Gives the keys of the rows that it deletes.
pub fn insert_clipboard_content(
    table: &mut ClipboardTable,
    content: &ClipBoardContentType,
    now: i64,
    id: i64,
) -> (deleted: Vec<i64>)
    requires
        old(table).wf(),
        !has_entry_id(old(table)@, id as int),
    ensures
        final(table).wf(),
        final(table)@ == after_insert(old(table)@, content@, now as int, id as int),
        are_ids(
            deleted@,
            ids_of(dropped_by_insert(old(table)@, content@, now as int, id as int)),
        ),
{
    let row = entry::clipboard_entry(content, now, id);
    insert_row(&mut table.rows, row);
    trim_history(table)
}

fn append_ids(ids: &mut Vec<i64>, mut more: Vec<i64>)
    ensures
        final(ids)@ == old(ids)@ + more@,
{
    ids.append(&mut more);
}

proof fn lemma_ids_concat(a: Seq<i64>, x: Seq<Entry>, b: Seq<i64>, y: Seq<Entry>)
    requires
        are_ids(a, ids_of(x)),
        are_ids(b, ids_of(y)),
    ensures
        are_ids(a + b, ids_of(x + y)),
{
    let values = |id: i64| id as int;
    assert((a + b).map_values(values) == a.map_values(values) + b.map_values(values));
    assert(ids_of(x + y) == ids_of(x) + ids_of(y));
}

/// Leaving rows out brings in no key.
pub proof fn lemma_without_has_no_new_id(entries: Seq<Entry>, content: Content, id: int)
    requires
        !has_entry_id(entries, id),
    ensures
        !has_entry_id(without(entries, content), id),
{
    let kept = without(entries, content);
    lemma_filter_is_part(entries, |entry: Entry| !entry::holds(entry, content));
    assert forall|i: int| 0 <= i < kept.len() implies #[trigger] kept[i].id != id by {
        assert(entries.contains(kept[i]));
        let j = choose|j: int| 0 <= j < entries.len() && entries[j] == kept[i];
        assert(entries[j].id != id);
    }
}

/// The rows that storing content deletes.
pub open spec fn dropped_by_store(
    entries: Seq<Entry>,
    content: Content,
    now: int,
    id: int,
) -> Seq<Entry> {
    holding(entries, content) + dropped_by_insert(without(entries, content), content, now, id)
}

/// The rows that replacing one content by another deletes.
pub open spec fn dropped_by_update(
    entries: Seq<Entry>,
    previous: Content,
    content: Content,
    now: int,
    id: int,
) -> Seq<Entry> {
    holding(entries, previous) + dropped_by_store(without(entries, previous), content, now, id)
}

/// Stores content: it stands in the history once, under the key `id`. Gives the
/// keys of the rows that it deletes.
pub fn store_clipboard_content(
    table: &mut ClipboardTable,
    content: &ClipBoardContentType,
    now: i64,
    id: i64,
) -> (deleted: Vec<i64>)
    requires
        old(table).wf(),
        !has_entry_id(old(table)@, id as int),
    ensures
        final(table).wf(),
        final(table)@ == after_store(old(table)@, content@, now as int, id as int),
        are_ids(
            deleted@,
            ids_of(dropped_by_store(old(table)@, content@, now as int, id as int)),
        ),
{
    let ghost given = table@;
    let mut deleted = delete_clipboard_content(table, content);
    proof {
        lemma_without_has_no_new_id(given, content@, id as int);
    }
    let ghost first = deleted@;
    let more = insert_clipboard_content(table, content, now, id);
    proof {
        lemma_ids_concat(
            first,
            holding(given, content@),
            more@,
            dropped_by_insert(without(given, content@), content@, now as int, id as int),
        );
    }
    append_ids(&mut deleted, more);
    deleted
}

/// Replaces one content by another, under the key `id`. Gives the keys of the
/// rows that it deletes.
pub fn update_clipboard_content(
    table: &mut ClipboardTable,
    previous: &ClipBoardContentType,
    content: &ClipBoardContentType,
    now: i64,
    id: i64,
) -> (deleted: Vec<i64>)
    requires
        old(table).wf(),
        !has_entry_id(old(table)@, id as int),
    ensures
        final(table).wf(),
        final(table)@ == after_update(old(table)@, previous@, content@, now as int, id as int),
        are_ids(
            deleted@,
            ids_of(dropped_by_update(old(table)@, previous@, content@, now as int, id as int)),
        ),
{
    let ghost given = table@;
    let mut deleted = delete_clipboard_content(table, previous);
    proof {
        lemma_without_has_no_new_id(given, previous@, id as int);
    }
    let ghost first = deleted@;
    let more = store_clipboard_content(table, content, now, id);
    proof {
        lemma_ids_concat(
            first,
            holding(given, previous@),
            more@,
            dropped_by_store(without(given, previous@), content@, now as int, id as int),
        );
    }
    append_ids(&mut deleted, more);
    deleted
}

/// The contents of a list of rows, or what is wrong with the first row that holds
/// none.
pub open spec fn all_decoded(entries: Seq<Entry>) -> Result<Seq<Content>, RowFault>
    decreases entries.len(),
{
    if entries.len() == 0 {
        Ok(Seq::empty())
    } else {
        match all_decoded(entries.drop_last()) {
            Err(fault) => Err(fault),
            Ok(contents) => match entry::decoded(entries.last()) {
                Ok(content) => Ok(contents.push(content)),
                Err(fault) => Err(fault),
            },
        }
    }
}

/// The history as the rows have it, from the newest to the oldest.
pub open spec fn loaded(entries: Seq<Entry>) -> Result<Seq<Content>, RowFault> {
    all_decoded(newest(entries))
}

/// What a list of contents holds.
pub open spec fn contents_of(list: Seq<ClipBoardContentType>) -> Seq<Content> {
    list.map_values(|content: ClipBoardContentType| content@)
}

/// A fault in a row is one in every list of rows that starts with that row and
/// those before it.
pub proof fn lemma_fault_stays(entries: Seq<Entry>, n: int)
    requires
        0 <= n <= entries.len(),
        all_decoded(entries.take(n)) is Err,
    ensures
        all_decoded(entries) == all_decoded(entries.take(n)),
    decreases entries.len(),
{
    if n < entries.len() {
        let shorter = entries.drop_last();
        assert(shorter.take(n) == entries.take(n));
        lemma_fault_stays(shorter, n);
    } else {
        assert(entries.take(n) == entries);
    }
}

/// The history, from the newest entry to the oldest, or what is wrong with the
/// first row that holds no content.
pub fn try_load_clipboard(table: &ClipboardTable) -> (r: Result<
    Vec<ClipBoardContentType>,
    RowError,
>)
    ensures
        match r {
            Ok(list) => loaded(table@) == Ok::<Seq<Content>, RowFault>(contents_of(list@)),
            Err(error) => loaded(table@) == Err::<Seq<Content>, RowFault>(error@),
        },
{
    let ghost shown = newest(table@);
    let mut list: Vec<ClipBoardContentType> = Vec::new();
    let mut i: usize = 0;
    assert(contents_of(list@) == Seq::<Content>::empty());
    while i < table.rows.len() && i < HISTORY_LIMIT
        invariant
            shown == newest(table@),
            i <= shown.len(),
            all_decoded(shown.take(i as int)) == Ok::<Seq<Content>, RowFault>(contents_of(list@)),
        decreases HISTORY_LIMIT - i,
    {
        let ghost next = shown.take(i + 1);
        proof {
            assert(next.drop_last() == shown.take(i as int));
            assert(table@[i as int] == table.rows@[i as int]@);
            assert(next.last() == table.rows@[i as int]@);
        }
        match entry::read_row(&table.rows[i]) {
            Ok(content) => {
                let ghost before = list@;
                list.push(content);
                assert(contents_of(list@) == contents_of(before).push(content@));
            },
            Err(error) => {
                proof {
                    lemma_fault_stays(shown, i + 1);
                }
                return Err(error);
            },
        }
        i = i + 1;
    }
    assert(shown.take(i as int) == shown);
    Ok(list)
}

/// The history, from the newest entry to the oldest; empty where a row of it
/// holds no content.
pub fn load_clipboard(table: &ClipboardTable) -> (list: Vec<ClipBoardContentType>)
    ensures
        contents_of(list@) == (match loaded(table@) {
            Ok(contents) => contents,
            Err(_) => Seq::empty(),
        }),
{
    match try_load_clipboard(table) {
        Ok(list) => list,
        Err(_) => {
            let none: Vec<ClipBoardContentType> = Vec::new();
            assert(contents_of(none@) == Seq::<Content>::empty());
            none
        },
    }
}

/// The rows that are not broken.
pub open spec fn sound(entries: Seq<Entry>) -> Seq<Entry> {
    entries.filter(|entry: Entry| !entry::is_broken(entry))
}

/// The broken rows.
pub open spec fn broken(entries: Seq<Entry>) -> Seq<Entry> {
    entries.filter(|entry: Entry| entry::is_broken(entry))
}

/// The rows that stay when an old table is brought up to date.
pub open spec fn after_purge(entries: Seq<Entry>) -> Seq<Entry> {
    newest(sound(entries))
}

/// The rows that go when an old table is brought up to date.
pub open spec fn dropped_by_purge(entries: Seq<Entry>) -> Seq<Entry> {
    broken(entries) + expired(sound(entries))
}

/// Deletes the broken rows, and then those that are too old to keep. Gives the
/// keys of the rows that it deletes.
pub fn purge_clipboard(table: &mut ClipboardTable) -> (deleted: Vec<i64>)
    requires
        old(table).wf(),
    ensures
        final(table).wf(),
        final(table)@ == after_purge(old(table)@),
        are_ids(deleted@, ids_of(dropped_by_purge(old(table)@))),
{
    let ghost given = table@;
    let which = Unwanted::Broken;
    proof {
        assert((|entry: Entry| !is_unwanted(entry, which)) =~= (|entry: Entry|
            !entry::is_broken(entry)));
        assert((|entry: Entry| is_unwanted(entry, which)) =~= (|entry: Entry|
            entry::is_broken(entry)));
    }
    let mut deleted = delete_unwanted(table, which);
    let ghost first = deleted@;
    let more = trim_history(table);
    proof {
        lemma_ids_concat(first, broken(given), more@, expired(sound(given)));
    }
    append_ids(&mut deleted, more);
    deleted
}

} // verus!
