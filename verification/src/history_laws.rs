//! What the operations on the clipboard history do to its rows.

use crate::cell;
use crate::cell::Datum;
use crate::clipboard::{ClipBoardContentType, Content};
use crate::database;
use crate::database_laws;
use crate::entry;
use crate::entry::{Entry, EntryRow, RowFault};
use crate::entry_laws;
use vstd::prelude::*;

verus! {

/// Of two rows whose times are whole numbers, the one with the greater time is the
/// newer, and of two with one time the one with the greater key.
pub proof fn later_rows_are_newer(a: Entry, b: Entry, s: int, t: int)
    requires
        a.created_at == Datum::Integer(s),
        b.created_at == Datum::Integer(t),
    ensures
        database::newer(a, b) <==> s > t || (s == t && a.id > b.id),
{
    cell::integers_are_ordered(t, s);
    cell::integers_are_ordered(s, t);
}

/// Of two rows whose times have different places in the order of values, the one
/// whose time comes later is the newer; where they have one place, the one with the
/// greater key.
pub proof fn newer_rows_have_later_times(a: Entry, b: Entry)
    ensures
        cell::before(a.created_at, b.created_at) ==> database::newer(b, a) && !database::newer(
            a,
            b,
        ),
        cell::ties(a.created_at, b.created_at) ==> (database::newer(a, b) <==> a.id > b.id),
{
    cell::values_are_ordered(a.created_at, b.created_at);
    cell::values_are_ordered(b.created_at, a.created_at);
}

/// In a table whose times are whole numbers, the times of the rows go down, and the
/// keys of rows with one time.
pub proof fn rows_stand_from_the_latest(entries: Seq<Entry>, i: int, j: int, s: int, t: int)
    requires
        database::is_sorted(entries),
        0 <= i < j < entries.len(),
        entries[i].created_at == Datum::Integer(s),
        entries[j].created_at == Datum::Integer(t),
    ensures
        s > t || (s == t && entries[i].id > entries[j].id),
{
    later_rows_are_newer(entries[i], entries[j], s, t);
}

/// Whether all rows have whole numbers as times that are before the given one, or at
/// it with lesser keys.
pub open spec fn are_all_before(entries: Seq<Entry>, now: int, id: int) -> bool {
    forall|i: int|
        #![trigger entries[i]]
        0 <= i < entries.len() ==> entries[i].created_at is Integer && (
        entries[i].created_at->Integer_0 < now || (entries[i].created_at->Integer_0 == now
            && entries[i].id < id))
}

proof fn lemma_all_before(entries: Seq<Entry>, content: Content, now: int, id: int)
    requires
        are_all_before(entries, now, id),
    ensures
        database_laws::is_newest(entries, entry::entry_for(content, now, id)),
{
    let stored = entry::entry_for(content, now, id);
    assert forall|i: int| 0 <= i < entries.len() implies database::newer(
        stored,
        #[trigger] entries[i],
    ) by {
        later_rows_are_newer(stored, entries[i], now, entries[i].created_at->Integer_0);
    }
}

/// What was stored at a time after all others is shown first, and behind it what was
/// shown before, without it, up to 300 entries in all.
pub proof fn what_was_stored_last_is_shown_first(
    entries: Seq<Entry>,
    content: Content,
    now: int,
    id: int,
)
    requires
        database::all_decoded(entries) is Ok,
        database_laws::is_storable(content),
        are_all_before(entries, now, id),
    ensures
        ({
            let shown = database::loaded(database::after_store(entries, content, now, id));
            let before = database::all_decoded(entries)->Ok_0;
            &&& shown is Ok
            &&& 1 <= shown->Ok_0.len() <= 300
            &&& shown->Ok_0[0] == content
            &&& forall|i: int|
                1 <= i < shown->Ok_0.len() ==> #[trigger] shown->Ok_0[i] != content
                    && before.contains(shown->Ok_0[i])
            &&& before.len() < 300 ==> forall|other: Content|
                before.contains(other) ==> #[trigger] shown->Ok_0.contains(other)
        }),
{
    lemma_all_before(entries, content, now, id);
    database_laws::store_then_load(entries, content, now, id);
    let before = database::all_decoded(entries)->Ok_0;
    let others = database_laws::others(before, content);
    let all = seq![content] + others;
    let shown = database_laws::kept(all);
    lemma_others(before, content);
    assert forall|i: int| 1 <= i < shown.len() implies #[trigger] shown[i] != content
        && before.contains(shown[i]) by {
        assert(shown[i] == others[i - 1]);
        assert(others.contains(others[i - 1]));
    }
    if before.len() < 300 {
        assert(shown == all);
        assert forall|other: Content| before.contains(other) implies #[trigger] shown.contains(
            other,
        ) by {
            if other == content {
                assert(shown[0] == other);
            } else {
                assert(others.contains(other));
                let i = choose|i: int| 0 <= i < others.len() && others[i] == other;
                assert(shown[i + 1] == other);
            }
        }
    }
}

proof fn lemma_others(list: Seq<Content>, content: Content)
    ensures
        database_laws::others(list, content).len() <= list.len(),
        forall|c: Content| #[trigger]
            database_laws::others(list, content).contains(c) <==> list.contains(c) && c != content,
    decreases list.len(),
{
    reveal(Seq::filter);
    let all = database_laws::others(list, content);
    if list.len() > 0 {
        let shorter = list.drop_last();
        lemma_others(shorter, content);
        let before = database_laws::others(shorter, content);
        let last = list.last();
        assert(all == if last != content {
            before.push(last)
        } else {
            before
        });
        assert forall|c: Content| #[trigger] all.contains(c) <==> list.contains(c) && c
            != content by {
            if list.contains(c) {
                let i = choose|i: int| 0 <= i < list.len() && list[i] == c;
                if i < shorter.len() {
                    assert(shorter[i] == c);
                }
            }
            if shorter.contains(c) {
                let i = choose|i: int| 0 <= i < shorter.len() && shorter[i] == c;
                assert(list[i] == c);
            }
            assert(list[list.len() - 1] == last);
            if before.contains(c) {
                let i = choose|i: int| 0 <= i < before.len() && before[i] == c;
                assert(all[i] == c);
            }
            if last != content {
                assert(all[all.len() - 1] == last);
            }
            if all.contains(c) {
                let i = choose|i: int| 0 <= i < all.len() && all[i] == c;
                if i < before.len() {
                    assert(before[i] == c);
                }
            }
        }
    }
}

/// Leaving out rows leaves exactly those that are to stay.
pub proof fn lemma_filter_holds(entries: Seq<Entry>, keep: spec_fn(Entry) -> bool)
    ensures
        forall|e: Entry| #[trigger]
            entries.filter(keep).contains(e) <==> entries.contains(e) && keep(e),
        entries.filter(keep).len() <= entries.len(),
    decreases entries.len(),
{
    reveal(Seq::filter);
    if entries.len() > 0 {
        let shorter = entries.drop_last();
        lemma_filter_holds(shorter, keep);
        let before = shorter.filter(keep);
        let last = entries.last();
        assert forall|e: Entry| #[trigger]
            entries.filter(keep).contains(e) <==> entries.contains(e) && keep(e) by {
            if entries.contains(e) {
                let i = choose|i: int| 0 <= i < entries.len() && entries[i] == e;
                if i < shorter.len() {
                    assert(shorter[i] == e);
                }
            }
            if shorter.contains(e) {
                let i = choose|i: int| 0 <= i < shorter.len() && shorter[i] == e;
                assert(entries[i] == e);
            }
            assert(entries[entries.len() - 1] == last);
            if keep(last) {
                let longer = before.push(last);
                assert(longer[longer.len() - 1] == last);
                if before.contains(e) {
                    let i = choose|i: int| 0 <= i < before.len() && before[i] == e;
                    assert(longer[i] == e);
                }
                if longer.contains(e) {
                    let i = choose|i: int| 0 <= i < longer.len() && longer[i] == e;
                    if i < before.len() {
                        assert(before[i] == e);
                    }
                }
            }
        }
    }
}

proof fn lemma_filter_counts(entries: Seq<Entry>, keep: spec_fn(Entry) -> bool, drop: spec_fn(
    Entry,
) -> bool)
    requires
        forall|e: Entry| #[trigger] keep(e) == !drop(e),
    ensures
        entries.filter(keep).len() + entries.filter(drop).len() == entries.len(),
    decreases entries.len(),
{
    reveal(Seq::filter);
    if entries.len() > 0 {
        lemma_filter_counts(entries.drop_last(), keep, drop);
        assert(keep(entries.last()) == !drop(entries.last()));
    }
}

/// Deleting content deletes the rows that hold it, each of them, and no other row.
pub proof fn deleting_deletes_what_holds(entries: Seq<Entry>, content: Content)
    ensures
        forall|e: Entry| #[trigger]
            database::without(entries, content).contains(e) <==> entries.contains(e)
                && !entry::holds(e, content),
        forall|e: Entry| #[trigger]
            database::holding(entries, content).contains(e) <==> entries.contains(e)
                && entry::holds(e, content),
        database::without(entries, content).len() + database::holding(entries, content).len()
            == entries.len(),
{
    let keep = |e: Entry| !entry::holds(e, content);
    let drop = |e: Entry| entry::holds(e, content);
    lemma_filter_holds(entries, keep);
    lemma_filter_holds(entries, drop);
    lemma_filter_counts(entries, keep, drop);
}

/// The history keeps the first 300 of its rows as they are, and drops the others.
pub proof fn the_first_rows_are_kept(entries: Seq<Entry>)
    ensures
        entries.len() <= 300 ==> database::newest(entries) == entries && database::expired(
            entries,
        ).len() == 0,
        entries.len() > 300 ==> {
            &&& database::newest(entries).len() == 300
            &&& database::expired(entries).len() == entries.len() - 300
            &&& forall|i: int|
                0 <= i < 300 ==> #[trigger] database::newest(entries)[i] == entries[i]
            &&& forall|i: int|
                0 <= i < entries.len() - 300 ==> #[trigger] database::expired(entries)[i]
                    == entries[i + 300]
        },
{
}

/// Putting in a row keeps all others, and the order.
pub proof fn putting_in_adds_one_row(entries: Seq<Entry>, entry: Entry)
    requires
        database::is_sorted(entries),
        !database::has_entry_id(entries, entry.id),
    ensures
        database::with_entry(entries, entry).len() == entries.len() + 1,
        database::is_sorted(database::with_entry(entries, entry)),
        forall|e: Entry| #[trigger]
            database::with_entry(entries, entry).contains(e) <==> e == entry || entries.contains(e),
{
    let newer = |other: Entry| database::newer(other, entry);
    let older = |other: Entry| !database::newer(other, entry);
    let front = entries.filter(newer);
    let back = entries.filter(older);
    let all = database::with_entry(entries, entry);
    lemma_filter_holds(entries, newer);
    lemma_filter_holds(entries, older);
    lemma_filter_counts(entries, newer, older);
    lemma_filter_sorted(entries, newer);
    lemma_filter_sorted(entries, older);
    assert(all == front.push(entry) + back);
    assert forall|e: Entry| #[trigger] all.contains(e) <==> e == entry || entries.contains(e) by {
        assert(all[front.len() as int] == entry);
        if entries.contains(e) {
            if newer(e) {
                assert(front.contains(e));
                let i = choose|i: int| 0 <= i < front.len() && front[i] == e;
                assert(all[i] == e);
            } else {
                assert(back.contains(e));
                let i = choose|i: int| 0 <= i < back.len() && back[i] == e;
                assert(all[front.len() + 1 + i] == e);
            }
        }
        if all.contains(e) {
            let i = choose|i: int| 0 <= i < all.len() && all[i] == e;
            if i < front.len() {
                assert(front.contains(front[i]));
            } else if i > front.len() {
                assert(back.contains(back[i - front.len() - 1]));
            }
        }
    }
    assert forall|i: int, j: int|
        #![trigger all[i], all[j]]
        0 <= i < j < all.len() implies database::newer(all[i], all[j]) by {
        if i < front.len() {
            assert(all[i] == front[i]);
            assert(front.contains(front[i]));
            assert(newer(front[i]));
        }
        if j > front.len() {
            let b = back[j - front.len() - 1];
            assert(all[j] == b);
            assert(back.contains(b));
            assert(!newer(b));
            let k = choose|k: int| 0 <= k < entries.len() && entries[k] == b;
            assert(entries[k].id != entry.id);
            database::lemma_newer_total(b, entry);
            if i < front.len() {
                database::lemma_newer_chain(front[i], entry, b);
            } else if i > front.len() {
                assert(all[i] == back[i - front.len() - 1]);
            }
        } else if j < front.len() {
            assert(all[j] == front[j]);
        }
    }
}

proof fn lemma_filter_sorted(entries: Seq<Entry>, keep: spec_fn(Entry) -> bool)
    requires
        database::is_sorted(entries),
    ensures
        database::is_sorted(entries.filter(keep)),
    decreases entries.len(),
{
    reveal(Seq::filter);
    if entries.len() > 0 {
        let shorter = entries.drop_last();
        assert forall|i: int, j: int|
            #![trigger shorter[i], shorter[j]]
            0 <= i < j < shorter.len() implies database::newer(shorter[i], shorter[j]) by {
            assert(shorter[i] == entries[i] && shorter[j] == entries[j]);
        }
        lemma_filter_sorted(shorter, keep);
        lemma_filter_holds(shorter, keep);
        let before = shorter.filter(keep);
        let last = entries[entries.len() - 1];
        assert forall|i: int| 0 <= i < before.len() implies database::newer(
            #[trigger] before[i],
            last,
        ) by {
            assert(before.contains(before[i]));
            let k = choose|k: int| 0 <= k < shorter.len() && shorter[k] == before[i];
            assert(entries[k] == before[i]);
        }
        if keep(last) {
            assert(entries.filter(keep) == before.push(last));
        }
    }
}

/// Putting in content puts in its row and keeps the others, where they are fewer than
/// 300. Where they are not, the rows that go are older than all that stay.
pub proof fn inserting_keeps_the_newest(entries: Seq<Entry>, content: Content, now: int, id: int)
    requires
        database::is_sorted(entries),
        !database::has_entry_id(entries, id),
    ensures
        ({
            let stored = entry::entry_for(content, now, id);
            let rows = database::after_insert(entries, content, now, id);
            &&& database::is_sorted(rows)
            &&& entries.len() < 300 ==> rows.len() == entries.len() + 1
            &&& entries.len() >= 300 ==> rows.len() == 300
            &&& forall|e: Entry| #[trigger]
                rows.contains(e) ==> e == stored || entries.contains(e)
            &&& entries.len() < 300 ==> rows.contains(stored) && forall|e: Entry|
                entries.contains(e) ==> #[trigger] rows.contains(e)
            &&& forall|gone: Entry, stays: Entry|
                (gone == stored || entries.contains(gone)) && !#[trigger] rows.contains(gone)
                    && #[trigger] rows.contains(stays) ==> database::newer(stays, gone)
        }),
{
    let stored = entry::entry_for(content, now, id);
    let all = database::with_entry(entries, stored);
    let rows = database::newest(all);
    putting_in_adds_one_row(entries, stored);
    the_first_rows_are_kept(all);
    assert forall|e: Entry| #[trigger] rows.contains(e) implies e == stored || entries.contains(
        e,
    ) by {
        let i = choose|i: int| 0 <= i < rows.len() && rows[i] == e;
        assert(all[i] == e);
        assert(all.contains(e));
    }
    if entries.len() < 300 {
        assert(rows == all);
        assert(all.contains(stored));
        assert forall|e: Entry| entries.contains(e) implies #[trigger] rows.contains(e) by {
            assert(all.contains(e));
        }
    }
    assert forall|i: int, j: int|
        #![trigger rows[i], rows[j]]
        0 <= i < j < rows.len() implies database::newer(rows[i], rows[j]) by {
        assert(rows[i] == all[i] && rows[j] == all[j]);
    }
    assert forall|gone: Entry, stays: Entry|
        (gone == stored || entries.contains(gone)) && !#[trigger] rows.contains(gone)
            && #[trigger] rows.contains(stays) implies database::newer(stays, gone) by {
        assert(all.contains(gone));
        let i = choose|i: int| 0 <= i < all.len() && all[i] == gone;
        let j = choose|j: int| 0 <= j < rows.len() && rows[j] == stays;
        assert(all[j] == stays);
        if i < rows.len() {
            assert(rows[i] == gone);
        }
    }
}

/// Storing content deletes the rows that hold it, puts in its row, and keeps all
/// others, where they are fewer than 300. Where they are not, the rows that go for
/// that are older than all that stay.
pub proof fn storing_keeps_the_newest(entries: Seq<Entry>, content: Content, now: int, id: int)
    requires
        database::is_sorted(entries),
        !database::has_entry_id(entries, id),
    ensures
        ({
            let stored = entry::entry_for(content, now, id);
            let rows = database::after_store(entries, content, now, id);
            let others = database::without(entries, content);
            &&& database::is_sorted(rows)
            &&& others.len() < 300 ==> rows.len() == others.len() + 1
            &&& others.len() >= 300 ==> rows.len() == 300
            &&& forall|e: Entry| #[trigger]
                rows.contains(e) ==> e == stored || (entries.contains(e) && !entry::holds(e, content))
            &&& others.len() < 300 ==> rows.contains(stored) && forall|e: Entry|
                entries.contains(e) && !entry::holds(e, content) ==> #[trigger] rows.contains(e)
            &&& forall|gone: Entry, stays: Entry|
                (gone == stored || (entries.contains(gone) && !entry::holds(gone, content)))
                    && !#[trigger] rows.contains(gone) && #[trigger] rows.contains(stays)
                    ==> database::newer(stays, gone)
        }),
{
    let others = database::without(entries, content);
    deleting_deletes_what_holds(entries, content);
    lemma_filter_sorted(entries, |entry: Entry| !entry::holds(entry, content));
    database::lemma_without_has_no_new_id(entries, content, id);
    inserting_keeps_the_newest(others, content, now, id);
    let rows = database::after_store(entries, content, now, id);
    let stored = entry::entry_for(content, now, id);
    assert forall|e: Entry| #[trigger] rows.contains(e) implies e == stored || (entries.contains(e)
        && !entry::holds(e, content)) by {
        assert(e == stored || others.contains(e));
    }
    if others.len() < 300 {
        assert forall|e: Entry|
            entries.contains(e) && !entry::holds(e, content) implies #[trigger] rows.contains(
            e,
        ) by {
            assert(others.contains(e));
        }
    }
    assert forall|gone: Entry, stays: Entry|
        (gone == stored || (entries.contains(gone) && !entry::holds(gone, content)))
            && !#[trigger] rows.contains(gone) && #[trigger] rows.contains(
            stays,
        ) implies database::newer(stays, gone) by {
        assert(gone == stored || others.contains(gone));
    }
}

/// Replacing content is deleting it and then storing the other.
pub proof fn replacing_is_deleting_and_storing(
    entries: Seq<Entry>,
    previous: Content,
    content: Content,
    now: int,
    id: int,
)
    requires
        database::is_sorted(entries),
        !database::has_entry_id(entries, id),
    ensures
        ({
            let stored = entry::entry_for(content, now, id);
            let rows = database::after_update(entries, previous, content, now, id);
            let fits = |e: Entry|
                entries.contains(e) && !entry::holds(e, previous) && !entry::holds(e, content);
            &&& rows == database::after_store(
                database::without(entries, previous),
                content,
                now,
                id,
            )
            &&& database::is_sorted(rows)
            &&& forall|e: Entry| #[trigger] rows.contains(e) ==> e == stored || fits(e)
            &&& entries.len() < 300 ==> rows.contains(stored) && forall|e: Entry|
                fits(e) ==> #[trigger] rows.contains(e)
            &&& forall|gone: Entry, stays: Entry|
                (gone == stored || fits(gone)) && !#[trigger] rows.contains(gone)
                    && #[trigger] rows.contains(stays) ==> database::newer(stays, gone)
        }),
{
    let left = database::without(entries, previous);
    deleting_deletes_what_holds(entries, previous);
    deleting_deletes_what_holds(left, content);
    lemma_filter_sorted(entries, |entry: Entry| !entry::holds(entry, previous));
    database::lemma_without_has_no_new_id(entries, previous, id);
    storing_keeps_the_newest(left, content, now, id);
    let stored = entry::entry_for(content, now, id);
    let rows = database::after_update(entries, previous, content, now, id);
    let fits = |e: Entry|
        entries.contains(e) && !entry::holds(e, previous) && !entry::holds(e, content);
    assert forall|e: Entry| #[trigger] rows.contains(e) implies e == stored || fits(e) by {
        assert(e == stored || left.contains(e));
    }
    if entries.len() < 300 {
        assert forall|e: Entry| fits(e) implies #[trigger] rows.contains(e) by {
            assert(left.contains(e));
        }
    }
    assert forall|gone: Entry, stays: Entry|
        (gone == stored || fits(gone)) && !#[trigger] rows.contains(gone)
            && #[trigger] rows.contains(stays) implies database::newer(stays, gone) by {
        assert(gone == stored || left.contains(gone));
    }
}

proof fn lemma_all_decoded(entries: Seq<Entry>)
    ensures
        match database::all_decoded(entries) {
            Ok(list) => {
                &&& list.len() == entries.len()
                &&& forall|i: int|
                    0 <= i < list.len() ==> entry::decoded(#[trigger] entries[i]) == Ok::<
                        Content,
                        RowFault,
                    >(list[i])
            },
            Err(fault) => exists|i: int|
                {
                    &&& 0 <= i < entries.len()
                    &&& entry::decoded(#[trigger] entries[i]) == Err::<Content, RowFault>(fault)
                    &&& forall|j: int|
                        0 <= j < i ==> entry::decoded(#[trigger] entries[j]) is Ok
                },
        },
    decreases entries.len(),
{
    if entries.len() > 0 {
        let shorter = entries.drop_last();
        lemma_all_decoded(shorter);
        match database::all_decoded(shorter) {
            Ok(before) => {
                assert forall|j: int| 0 <= j < shorter.len() implies entry::decoded(
                    #[trigger] entries[j],
                ) == Ok::<Content, RowFault>(before[j]) by {
                    assert(entries[j] == shorter[j]);
                }
                assert(entries.last() == entries[entries.len() - 1]);
            },
            Err(fault) => {
                let i = choose|i: int|
                    {
                        &&& 0 <= i < shorter.len()
                        &&& entry::decoded(#[trigger] shorter[i]) == Err::<Content, RowFault>(fault)
                        &&& forall|j: int|
                            0 <= j < i ==> entry::decoded(#[trigger] shorter[j]) is Ok
                    };
                assert(entries[i] == shorter[i]);
                assert forall|j: int| 0 <= j < i implies entry::decoded(
                    #[trigger] entries[j],
                ) is Ok by {
                    assert(entries[j] == shorter[j]);
                }
            },
        }
    }
}

/// Loading reads the first 300 rows, one by one and in their order; where one of them
/// cannot be read, it gives what is wrong with the first such row.
pub proof fn loading_reads_the_first_rows(entries: Seq<Entry>)
    ensures
        ({
            let n: int = if entries.len() <= 300 {
                entries.len() as int
            } else {
                300
            };
            match database::loaded(entries) {
                Ok(list) => {
                    &&& list.len() == n
                    &&& forall|i: int|
                        0 <= i < n ==> entry::decoded(#[trigger] entries[i]) == Ok::<
                            Content,
                            RowFault,
                        >(list[i])
                },
                Err(fault) => exists|i: int|
                    {
                        &&& 0 <= i < n
                        &&& entry::decoded(#[trigger] entries[i]) == Err::<Content, RowFault>(fault)
                        &&& forall|j: int|
                            0 <= j < i ==> entry::decoded(#[trigger] entries[j]) is Ok
                    },
            }
        }),
{
    let rows = database::newest(entries);
    the_first_rows_are_kept(entries);
    lemma_all_decoded(rows);
    assert forall|i: int| 0 <= i < rows.len() implies #[trigger] entries[i] == rows[i] by {}
    match database::loaded(entries) {
        Ok(list) => {
            assert forall|i: int| 0 <= i < rows.len() implies entry::decoded(#[trigger] entries[i])
                == Ok::<Content, RowFault>(list[i]) by {
                assert(entries[i] == rows[i]);
            }
        },
        Err(fault) => {
            let i = choose|i: int|
                {
                    &&& 0 <= i < rows.len()
                    &&& entry::decoded(#[trigger] rows[i]) == Err::<Content, RowFault>(fault)
                    &&& forall|j: int| 0 <= j < i ==> entry::decoded(#[trigger] rows[j]) is Ok
                };
            assert(entries[i] == rows[i]);
            assert forall|j: int| 0 <= j < i implies entry::decoded(#[trigger] entries[j]) is Ok by {
                assert(entries[j] == rows[j]);
            }
        },
    }
}

/// Whether no row has as many bytes as the machine can count.
pub open spec fn has_countable_bytes(entries: Seq<Entry>) -> bool {
    forall|i: int|
        #![trigger entries[i]]
        0 <= i < entries.len() ==> (entries[i].blob matches Datum::Blob(bytes) ==> bytes.len()
            < usize::MAX)
}

/// Purging deletes the broken rows, and of the others those behind the first 300.
pub proof fn purging_deletes_broken_and_old_rows(entries: Seq<Entry>)
    ensures
        forall|e: Entry| #[trigger]
            database::sound(entries).contains(e) <==> entries.contains(e) && !entry::is_broken(e),
        forall|e: Entry| #[trigger]
            database::broken(entries).contains(e) <==> entries.contains(e) && entry::is_broken(e),
        database::sound(entries).len() + database::broken(entries).len() == entries.len(),
        database::sound(entries).len() <= 300 ==> database::after_purge(entries)
            == database::sound(entries),
        database::sound(entries).len() > 300 ==> database::after_purge(entries).len() == 300
            && forall|i: int|
            0 <= i < 300 ==> #[trigger] database::after_purge(entries)[i] == database::sound(
                entries,
            )[i],
{
    let keep = |e: Entry| !entry::is_broken(e);
    let drop = |e: Entry| entry::is_broken(e);
    lemma_filter_holds(entries, keep);
    lemma_filter_holds(entries, drop);
    lemma_filter_counts(entries, keep, drop);
}

/// Purging deletes no row that can be read: where a row can be read and there are at
/// most 300, it stays.
pub proof fn purging_keeps_what_can_be_read(entries: Seq<Entry>, row: Entry)
    requires
        entries.contains(row),
        entries.len() <= 300,
        row.blob matches Datum::Blob(bytes) ==> bytes.len() < usize::MAX,
        entry::decoded(row) is Ok,
    ensures
        database::after_purge(entries).contains(row),
{
    purging_deletes_broken_and_old_rows(entries);
    entry_laws::readable_rows_are_not_broken(row);
    assert(database::sound(entries).contains(row));
}

/// Purging a history that can be read changes nothing of what is shown, and deletes
/// no row of at most 300.
pub proof fn purging_keeps_the_history(entries: Seq<Entry>)
    requires
        has_countable_bytes(entries),
        database::all_decoded(entries) is Ok,
    ensures
        database::loaded(database::after_purge(entries)) == database::loaded(entries),
        entries.len() <= 300 ==> database::after_purge(entries) == entries
            && database::dropped_by_purge(entries).len() == 0,
{
    let keep = |e: Entry| !entry::is_broken(e);
    lemma_all_decoded(entries);
    assert forall|i: int| 0 <= i < entries.len() implies keep(#[trigger] entries[i]) by {
        entry_laws::readable_rows_are_not_broken(entries[i]);
    }
    database::lemma_filter_all(entries, keep);
    assert(database::sound(entries) == entries);
    purging_deletes_broken_and_old_rows(entries);
    database_laws::lemma_loaded_of_newest(entries);
}

/// The keys of rows are those that the rows have, in their order.
pub proof fn keys_are_those_of_the_rows(entries: Seq<Entry>, ids: Seq<i64>, id: int)
    ensures
        database::ids_of(entries).len() == entries.len(),
        forall|i: int|
            0 <= i < entries.len() ==> #[trigger] database::ids_of(entries)[i] == entries[i].id,
        database::are_ids(ids, database::ids_of(entries)) <==> ids.len() == entries.len()
            && forall|i: int| 0 <= i < ids.len() ==> #[trigger] ids[i] == entries[i].id,
        database::has_entry_id(entries, id) <==> database::ids_of(entries).contains(id),
{
    let expected = database::ids_of(entries);
    let values = ids.map_values(|id: i64| id as int);
    if ids.len() == entries.len() && forall|i: int|
        0 <= i < ids.len() ==> #[trigger] ids[i] == entries[i].id {
        assert forall|i: int| 0 <= i < ids.len() implies values[i] == expected[i] by {
            assert(ids[i] == entries[i].id);
        }
        assert(values == expected);
    }
    if database::are_ids(ids, expected) {
        assert(values.len() == ids.len());
        assert forall|i: int| 0 <= i < ids.len() implies #[trigger] ids[i] == entries[i].id by {
            assert(values[i] == ids[i]);
            assert(expected[i] == entries[i].id);
        }
    }
    if database::has_entry_id(entries, id) {
        let i = choose|i: int| 0 <= i < entries.len() && #[trigger] entries[i].id == id;
        assert(expected[i] == id);
    }
    if expected.contains(id) {
        let i = choose|i: int| 0 <= i < expected.len() && expected[i] == id;
        assert(entries[i].id == id);
    }
}

proof fn lemma_keys_of_deleted(entries: Seq<Entry>, ids: Seq<int>, rows: Seq<Entry>)
    requires
        database_laws::without_ids(entries, ids) == rows,
    ensures
        forall|e: Entry| #[trigger]
            entries.contains(e) ==> (ids.contains(e.id) <==> !rows.contains(e)),
{
    lemma_filter_holds(entries, |entry: Entry| !ids.contains(entry.id));
}

/// The keys that the operations give are those of the rows that go: a row that was
/// there, or was put in, is not there any more exactly where its key is among them.
pub proof fn keys_are_those_of_the_rows_that_go(
    entries: Seq<Entry>,
    previous: Content,
    content: Content,
    now: int,
    id: int,
    row: Entry,
)
    requires
        database::is_sorted(entries),
        database::has_distinct_ids(entries),
        !database::has_entry_id(entries, id),
    ensures
        entries.contains(row) ==> {
            &&& database::ids_of(database::holding(entries, content)).contains(row.id)
                <==> !database::without(entries, content).contains(row)
            &&& database::ids_of(entries).contains(row.id)
            &&& database::ids_of(database::dropped_by_purge(entries)).contains(row.id)
                <==> !database::after_purge(entries).contains(row)
        },
        entries.contains(row) || row == entry::entry_for(content, now, id) ==> {
            &&& database::ids_of(
                database::dropped_by_store(entries, content, now, id),
            ).contains(row.id) <==> !database::after_store(entries, content, now, id).contains(row)
            &&& database::ids_of(
                database::dropped_by_update(entries, previous, content, now, id),
            ).contains(row.id) <==> !database::after_update(
                entries,
                previous,
                content,
                now,
                id,
            ).contains(row)
        },
{
    let stored = entry::entry_for(content, now, id);
    let all = database::with_entry(entries, stored);
    putting_in_adds_one_row(entries, stored);
    database_laws::delete_gives_the_keys_to_delete(entries, content);
    lemma_keys_of_deleted(
        entries,
        database::ids_of(database::holding(entries, content)),
        database::without(entries, content),
    );
    database_laws::purge_gives_the_keys_to_delete(entries);
    lemma_keys_of_deleted(
        entries,
        database::ids_of(database::dropped_by_purge(entries)),
        database::after_purge(entries),
    );
    database_laws::store_gives_the_keys_to_delete(entries, content, now, id);
    lemma_keys_of_deleted(
        all,
        database::ids_of(database::dropped_by_store(entries, content, now, id)),
        database::after_store(entries, content, now, id),
    );
    database_laws::update_gives_the_keys_to_delete(entries, previous, content, now, id);
    lemma_keys_of_deleted(
        all,
        database::ids_of(database::dropped_by_update(entries, previous, content, now, id)),
        database::after_update(entries, previous, content, now, id),
    );
    if entries.contains(row) {
        let i = choose|i: int| 0 <= i < entries.len() && entries[i] == row;
        assert(database::ids_of(entries)[i] == row.id);
        assert(all.contains(row));
    }
    if row == stored {
        assert(all.contains(row));
    }
}

/// Lists of rows and of contents have the values of their items, in their order.
pub proof fn lists_have_the_values_of_their_items(
    rows: Seq<EntryRow>,
    list: Seq<ClipBoardContentType>,
)
    ensures
        database::entries_of(rows).len() == rows.len(),
        forall|i: int|
            0 <= i < rows.len() ==> #[trigger] database::entries_of(rows)[i] == rows[i]@,
        database::contents_of(list).len() == list.len(),
        forall|i: int|
            0 <= i < list.len() ==> #[trigger] database::contents_of(list)[i] == list[i]@,
{
}

} // verus!
