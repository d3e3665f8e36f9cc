//! What holds of the clipboard history as a whole.

use crate::cell;
use crate::cell::Datum;
use crate::clipboard::Content;
use crate::database;
use crate::database::HISTORY_LIMIT;
use crate::entry;
use crate::entry::{Entry, RowFault};
use vstd::prelude::*;
use vstd::string::*;
use vstd::utf8::*;

verus! {

/// The rows without those that have one of the given keys: what deleting these
/// keys from the table leaves.
pub open spec fn without_ids(entries: Seq<Entry>, ids: Seq<int>) -> Seq<Entry> {
    entries.filter(|entry: Entry| !ids.contains(entry.id))
}

/// The contents that a table can give back: every text, and every image with four
/// bytes for each pixel whose width and height are numbers of 32 bits.
pub open spec fn is_storable(content: Content) -> bool {
    match content {
        Content::Image { width, height, bytes } => {
            &&& 0 <= width <= u32::MAX
            &&& 0 <= height <= u32::MAX
            &&& bytes.len() == entry::image_size(width, height)
        },
        _ => true,
    }
}

/// The contents that there can be: the width and the height of an image are
/// numbers of the machine.
pub open spec fn is_possible(content: Content) -> bool {
    match content {
        Content::Image { width, height, bytes } => {
            &&& 0 <= width <= usize::MAX
            &&& 0 <= height <= usize::MAX
        },
        _ => true,
    }
}

/// A list of contents without the given one.
pub open spec fn others(list: Seq<Content>, content: Content) -> Seq<Content> {
    list.filter(|other: Content| other != content)
}

/// The first contents of a list, as many as the history keeps.
pub open spec fn kept(list: Seq<Content>) -> Seq<Content> {
    if list.len() > HISTORY_LIMIT {
        list.take(HISTORY_LIMIT as int)
    } else {
        list
    }
}

/// Whether a row is newer than all those of the history.
pub open spec fn is_newest(entries: Seq<Entry>, entry: Entry) -> bool {
    forall|i: int| 0 <= i < entries.len() ==> database::newer(entry, #[trigger] entries[i])
}

/// Reading a row undoes making it: the row that stands for content holds exactly
/// that content, where a table can give it back at all. Where it cannot, the row
/// reads as a fault.
pub proof fn stored_content_reads_back(content: Content, now: int, id: int)
    requires
        is_possible(content),
    ensures
        is_storable(content) ==> entry::decoded(entry::entry_for(content, now, id)) == Ok::<
            Content,
            RowFault,
        >(content),
        !is_storable(content) ==> entry::decoded(entry::entry_for(content, now, id)) is Err,
{
    broadcast use {encode_utf8_valid_utf8, encode_utf8_decode_utf8};

    entry::lemma_kinds_differ();
}

/// The row that stands for content is one of those that deleting the content
/// deletes.
pub proof fn stored_content_is_found(content: Content, now: int, id: int)
    ensures
        entry::holds(entry::entry_for(content, now, id), content),
{
}

/// A row that can be read is one of those that deleting content deletes exactly
/// where it reads as that content.
pub proof fn rows_hold_what_they_read_as(entry: Entry, content: Content)
    requires
        is_possible(content),
        entry::decoded(entry) is Ok,
    ensures
        entry::holds(entry, content) == (entry::decoded(entry) == Ok::<Content, RowFault>(content)),
{
    broadcast use {encode_utf8_valid_utf8, encode_utf8_decode_utf8, decode_utf8_encode_utf8};

    if let Content::Image { width, height, bytes } = content {
        if entry.width is Integer && entry.height is Integer {
            cell::integers_are_ordered(entry.width->Integer_0, entry::signed(width));
            cell::integers_are_ordered(entry.height->Integer_0, entry::signed(height));
        }
    }
    entry::lemma_kinds_differ();
}

proof fn lemma_decoded_take(entries: Seq<Entry>, n: int)
    requires
        database::all_decoded(entries) is Ok,
        0 <= n <= entries.len(),
    ensures
        (database::all_decoded(entries)->Ok_0).len() == entries.len(),
        database::all_decoded(entries.take(n)) == Ok::<Seq<Content>, RowFault>(
            (database::all_decoded(entries)->Ok_0).take(n),
        ),
    decreases entries.len(),
{
    let list = database::all_decoded(entries)->Ok_0;
    if entries.len() == 0 {
        assert(entries.take(n) == entries);
        assert(list.take(n) == list);
    } else {
        let shorter = entries.drop_last();
        let before = database::all_decoded(shorter)->Ok_0;
        if n == entries.len() {
            lemma_decoded_take(shorter, shorter.len() as int);
            assert(entries.take(n) == entries);
            assert(list.take(n) == list);
        } else {
            lemma_decoded_take(shorter, n);
            assert(entries.take(n) == shorter.take(n));
            assert(list.take(n) == before.take(n));
        }
    }
}

proof fn lemma_decoded_concat(a: Seq<Entry>, b: Seq<Entry>)
    requires
        database::all_decoded(a) is Ok,
        database::all_decoded(b) is Ok,
    ensures
        database::all_decoded(a + b) == Ok::<Seq<Content>, RowFault>(
            database::all_decoded(a)->Ok_0 + database::all_decoded(b)->Ok_0,
        ),
    decreases b.len(),
{
    let x = database::all_decoded(a)->Ok_0;
    let y = database::all_decoded(b)->Ok_0;
    if b.len() == 0 {
        assert(a + b == a);
        assert(x + y == x);
    } else {
        let shorter = b.drop_last();
        lemma_decoded_concat(a, shorter);
        assert((a + b).drop_last() == a + shorter);
        let before = database::all_decoded(shorter)->Ok_0;
        assert(x + y == (x + before).push(y.last()));
    }
}

proof fn lemma_decoded_without(entries: Seq<Entry>, content: Content)
    requires
        is_possible(content),
        database::all_decoded(entries) is Ok,
    ensures
        database::all_decoded(database::without(entries, content)) == Ok::<Seq<Content>, RowFault>(
            others(database::all_decoded(entries)->Ok_0, content),
        ),
    decreases entries.len(),
{
    reveal(Seq::filter);
    if entries.len() > 0 {
        let shorter = entries.drop_last();
        lemma_decoded_without(shorter, content);
        rows_hold_what_they_read_as(entries.last(), content);
        let list = database::all_decoded(entries)->Ok_0;
        let before = database::all_decoded(shorter)->Ok_0;
        assert(list.drop_last() == before);
        let left = database::without(shorter, content);
        assert(left.push(entries.last()).drop_last() == left);
    }
}

proof fn lemma_decoded_newest(entries: Seq<Entry>)
    requires
        database::all_decoded(entries) is Ok,
    ensures
        database::loaded(entries) == Ok::<Seq<Content>, RowFault>(
            kept(database::all_decoded(entries)->Ok_0),
        ),
{
    lemma_decoded_take(entries, entries.len() as int);
    if entries.len() > HISTORY_LIMIT {
        lemma_decoded_take(entries, HISTORY_LIMIT as int);
    }
}

proof fn lemma_first(entries: Seq<Entry>, first: Entry)
    requires
        is_newest(entries, first),
    ensures
        database::with_entry(entries, first) == seq![first] + entries,
{
    assert forall|i: int| 0 <= i < entries.len() implies !database::newer(
        #[trigger] entries[i],
        first,
    ) by {
        database::lemma_newer_total(first, entries[i]);
    }
    database::lemma_with_entry_at(entries, first, 0);
    assert(entries.insert(0, first) == seq![first] + entries);
}

proof fn lemma_without_is_part(entries: Seq<Entry>, content: Content)
    ensures
        forall|i: int|
            0 <= i < database::without(entries, content).len() ==> entries.contains(
                #[trigger] database::without(entries, content)[i],
            ),
{
    database::lemma_filter_is_part(entries, |entry: Entry| !entry::holds(entry, content));
}

/// What was stored last is what is shown first: after content was stored, the
/// history is that content, and behind it what the history was without it, as
/// far as the history goes.
pub proof fn store_then_load(entries: Seq<Entry>, content: Content, now: int, id: int)
    requires
        database::all_decoded(entries) is Ok,
        is_storable(content),
        is_newest(entries, entry::entry_for(content, now, id)),
    ensures
        database::loaded(database::after_store(entries, content, now, id)) == Ok::<
            Seq<Content>,
            RowFault,
        >(kept(seq![content] + others(database::all_decoded(entries)->Ok_0, content))),
{
    let stored = entry::entry_for(content, now, id);
    let left = database::without(entries, content);
    let rows = seq![stored] + left;
    lemma_without_is_part(entries, content);
    assert forall|i: int| 0 <= i < left.len() implies database::newer(
        stored,
        #[trigger] left[i],
    ) by {
        assert(entries.contains(left[i]));
        let j = choose|j: int| 0 <= j < entries.len() && entries[j] == left[i];
        assert(database::newer(stored, entries[j]));
    }
    lemma_first(left, stored);
    stored_content_reads_back(content, now, id);
    lemma_decoded_without(entries, content);
    let one = seq![stored];
    assert(one.drop_last() == Seq::<Entry>::empty());
    reveal_with_fuel(database::all_decoded, 2);
    assert(Seq::<Content>::empty().push(content) == seq![content]);
    lemma_decoded_concat(one, left);
    lemma_decoded_newest(rows);
    lemma_loaded_of_newest(rows);
}

/// Dropping the rows that are too old does not change the history.
pub proof fn lemma_loaded_of_newest(entries: Seq<Entry>)
    ensures
        database::loaded(database::newest(entries)) == database::loaded(entries),
{
    let rows = database::newest(entries);
    assert(database::newest(rows) == rows);
}

/// Deleted content is gone: after content was deleted, the history is what it was
/// without it.
pub proof fn delete_then_load(entries: Seq<Entry>, content: Content)
    requires
        database::all_decoded(entries) is Ok,
        is_possible(content),
    ensures
        database::loaded(database::without(entries, content)) == Ok::<Seq<Content>, RowFault>(
            kept(others(database::all_decoded(entries)->Ok_0, content)),
        ),
{
    lemma_decoded_without(entries, content);
    lemma_decoded_newest(database::without(entries, content));
}

/// After everything was deleted, the history is empty.
pub proof fn clear_then_load()
    ensures
        database::loaded(Seq::empty()) == Ok::<Seq<Content>, RowFault>(Seq::empty()),
{
}

/// After one content was replaced by another, the new one is shown first, and
/// behind it what the history was without the two.
pub proof fn update_then_load(
    entries: Seq<Entry>,
    previous: Content,
    content: Content,
    now: int,
    id: int,
)
    requires
        database::all_decoded(entries) is Ok,
        is_possible(previous),
        is_storable(content),
        is_newest(entries, entry::entry_for(content, now, id)),
    ensures
        database::loaded(database::after_update(entries, previous, content, now, id)) == Ok::<
            Seq<Content>,
            RowFault,
        >(
            kept(
                seq![content] + others(
                    others(database::all_decoded(entries)->Ok_0, previous),
                    content,
                ),
            ),
        ),
{
    let stored = entry::entry_for(content, now, id);
    let left = database::without(entries, previous);
    lemma_without_is_part(entries, previous);
    assert forall|i: int| 0 <= i < left.len() implies database::newer(
        stored,
        #[trigger] left[i],
    ) by {
        assert(entries.contains(left[i]));
        let j = choose|j: int| 0 <= j < entries.len() && entries[j] == left[i];
        assert(database::newer(stored, entries[j]));
    }
    lemma_decoded_without(entries, previous);
    store_then_load(left, content, now, id);
}

/// However many rows there were, the history keeps its limit when content is
/// stored or replaced.
pub proof fn history_keeps_its_limit(
    entries: Seq<Entry>,
    previous: Content,
    content: Content,
    now: int,
    id: int,
)
    ensures
        database::after_insert(entries, content, now, id).len() <= HISTORY_LIMIT,
        database::after_store(entries, content, now, id).len() <= HISTORY_LIMIT,
        database::after_update(entries, previous, content, now, id).len() <= HISTORY_LIMIT,
        database::after_purge(entries).len() <= HISTORY_LIMIT,
{
}

/// Stored content stands in the history at most once: every row that holds it is
/// the row that was put in last.
pub proof fn stored_content_stands_once(entries: Seq<Entry>, content: Content, now: int, id: int)
    ensures
        ({
            let rows = database::after_store(entries, content, now, id);
            forall|i: int|
                0 <= i < rows.len() && entry::holds(#[trigger] rows[i], content) ==> rows[i]
                    == entry::entry_for(content, now, id)
        }),
{
    let stored = entry::entry_for(content, now, id);
    let left = database::without(entries, content);
    let all = database::with_entry(left, stored);
    let rows = database::after_store(entries, content, now, id);
    let newer = left.filter(|other: Entry| database::newer(other, stored));
    let older = left.filter(|other: Entry| !database::newer(other, stored));
    database::lemma_filter_is_part(left, |other: Entry| database::newer(other, stored));
    database::lemma_filter_is_part(left, |other: Entry| !database::newer(other, stored));
    assert forall|e: Entry| left.contains(e) implies !entry::holds(e, content) by {
        let i = choose|i: int| 0 <= i < left.len() && left[i] == e;
        entries.lemma_filter_pred(|entry: Entry| !entry::holds(entry, content), i);
    }
    assert forall|i: int|
        0 <= i < rows.len() && entry::holds(#[trigger] rows[i], content) implies rows[i]
        == stored by {
        assert(rows[i] == all[i]);
        if i < newer.len() {
            assert(all[i] == newer[i]);
            assert(left.contains(newer[i]));
        } else if i > newer.len() {
            assert(all[i] == older[i - newer.len() - 1]);
            assert(left.contains(older[i - newer.len() - 1]));
        }
    }
}

/// Stored content stays unless as many rows as the history keeps are newer: with
/// fewer of them, the row that was put in is there.
pub proof fn stored_content_stays(entries: Seq<Entry>, content: Content, now: int, id: int)
    requires
        database::without(entries, content).filter(
            |other: Entry| database::newer(other, entry::entry_for(content, now, id)),
        ).len() < HISTORY_LIMIT,
    ensures
        database::after_store(entries, content, now, id).contains(
            entry::entry_for(content, now, id),
        ),
{
    let stored = entry::entry_for(content, now, id);
    let left = database::without(entries, content);
    let place = left.filter(|other: Entry| database::newer(other, stored)).len() as int;
    let rows = database::after_store(entries, content, now, id);
    assert(database::with_entry(left, stored)[place] == stored);
    assert(rows[place] == stored);
}

proof fn lemma_filter_agrees(
    entries: Seq<Entry>,
    p: spec_fn(Entry) -> bool,
    q: spec_fn(Entry) -> bool,
)
    requires
        forall|i: int| 0 <= i < entries.len() ==> p(#[trigger] entries[i]) == q(entries[i]),
    ensures
        entries.filter(p) == entries.filter(q),
    decreases entries.len(),
{
    reveal(Seq::filter);
    if entries.len() > 0 {
        let shorter = entries.drop_last();
        assert forall|i: int| 0 <= i < shorter.len() implies p(#[trigger] shorter[i]) == q(
            shorter[i],
        ) by {
            assert(shorter[i] == entries[i]);
        }
        lemma_filter_agrees(shorter, p, q);
        assert(p(entries[entries.len() - 1]) == q(entries[entries.len() - 1]));
    }
}

proof fn lemma_filter_twice(
    entries: Seq<Entry>,
    p: spec_fn(Entry) -> bool,
    q: spec_fn(Entry) -> bool,
)
    ensures
        entries.filter(p).filter(q) == entries.filter(|e: Entry| p(e) && q(e)),
    decreases entries.len(),
{
    reveal(Seq::filter);
    if entries.len() > 0 {
        let shorter = entries.drop_last();
        lemma_filter_twice(shorter, p, q);
        let last = entries.last();
        if p(last) {
            assert(shorter.filter(p).push(last).drop_last() == shorter.filter(p));
        }
    }
}

proof fn lemma_ids_of_filter(entries: Seq<Entry>, p: spec_fn(Entry) -> bool, i: int)
    requires
        database::has_distinct_ids(entries),
        0 <= i < entries.len(),
    ensures
        database::ids_of(entries.filter(p)).contains(entries[i].id) == p(entries[i]),
{
    let part = entries.filter(p);
    let ids = database::ids_of(part);
    database::lemma_filter_is_part(entries, p);
    if p(entries[i]) {
        entries.lemma_filter_contains(p, i);
        let k = choose|k: int| 0 <= k < part.len() && part[k] == entries[i];
        assert(ids[k] == entries[i].id);
    }
    if ids.contains(entries[i].id) {
        let k = choose|k: int| 0 <= k < ids.len() && ids[k] == entries[i].id;
        assert(entries.contains(part[k]));
        let j = choose|j: int| 0 <= j < entries.len() && entries[j] == part[k];
        assert(entries[j].id == entries[i].id);
        assert(i == j);
        entries.lemma_filter_pred(p, k);
    }
}

/// Deleting the keys of the rows with some property leaves the rows without it.
pub proof fn lemma_delete_by_property(entries: Seq<Entry>, p: spec_fn(Entry) -> bool)
    requires
        database::has_distinct_ids(entries),
    ensures
        without_ids(entries, database::ids_of(entries.filter(p))) == entries.filter(
            |e: Entry| !p(e),
        ),
{
    let ids = database::ids_of(entries.filter(p));
    let by_id = |entry: Entry| !ids.contains(entry.id);
    let by_property = |e: Entry| !p(e);
    assert forall|i: int| 0 <= i < entries.len() implies by_id(#[trigger] entries[i])
        == by_property(entries[i]) by {
        lemma_ids_of_filter(entries, p, i);
    }
    lemma_filter_agrees(entries, by_id, by_property);
}

proof fn lemma_delete_in_two_steps(entries: Seq<Entry>, a: Seq<Entry>, b: Seq<Entry>)
    ensures
        without_ids(entries, database::ids_of(a + b)) == without_ids(
            without_ids(entries, database::ids_of(a)),
            database::ids_of(b),
        ),
{
    let ids_a = database::ids_of(a);
    let ids_b = database::ids_of(b);
    let ids = database::ids_of(a + b);
    let not_a = |entry: Entry| !ids_a.contains(entry.id);
    let not_b = |entry: Entry| !ids_b.contains(entry.id);
    let neither = |entry: Entry| !ids.contains(entry.id);
    let both = |e: Entry| not_a(e) && not_b(e);
    assert(ids == ids_a + ids_b);
    lemma_filter_twice(entries, not_a, not_b);
    assert forall|i: int| 0 <= i < entries.len() implies neither(#[trigger] entries[i]) == both(
        entries[i],
    ) by {
        let id = entries[i].id;
        if ids_a.contains(id) {
            let k = choose|k: int| 0 <= k < ids_a.len() && ids_a[k] == id;
            assert(ids[k] == id);
        }
        if ids_b.contains(id) {
            let k = choose|k: int| 0 <= k < ids_b.len() && ids_b[k] == id;
            assert(ids[ids_a.len() + k] == id);
        }
        if ids.contains(id) {
            let k = choose|k: int| 0 <= k < ids.len() && ids[k] == id;
            if k < ids_a.len() {
                assert(ids_a[k] == id);
            } else {
                assert(ids_b[k - ids_a.len()] == id);
            }
        }
    }
    lemma_filter_agrees(entries, neither, both);
}

proof fn lemma_delete_expired(entries: Seq<Entry>)
    requires
        database::has_distinct_ids(entries),
    ensures
        without_ids(entries, database::ids_of(database::expired(entries))) == database::newest(
            entries,
        ),
{
    let front = database::newest(entries);
    let back = database::expired(entries);
    let ids = database::ids_of(back);
    let stays = |entry: Entry| !ids.contains(entry.id);
    assert(entries == front + back);
    assert forall|i: int| 0 <= i < front.len() implies stays(#[trigger] front[i]) by {
        if ids.contains(front[i].id) {
            let k = choose|k: int| 0 <= k < ids.len() && ids[k] == front[i].id;
            assert(ids[k] == back[k].id);
            assert(entries[i] == front[i]);
            assert(entries[front.len() + k] == back[k]);
        }
    }
    assert forall|i: int| 0 <= i < back.len() implies !stays(#[trigger] back[i]) by {
        assert(ids[i] == back[i].id);
    }
    Seq::filter_distributes_over_add(front, back, stays);
    database::lemma_filter_all(front, stays);
    database::lemma_filter_none(back, stays);
    assert(front + Seq::<Entry>::empty() == front);
}

proof fn lemma_with_entry_wf(entries: Seq<Entry>, entry: Entry)
    requires
        database::is_sorted(entries),
        database::has_distinct_ids(entries),
        !database::has_entry_id(entries, entry.id),
    ensures
        database::has_distinct_ids(database::with_entry(entries, entry)),
{
    let newer = |other: Entry| database::newer(other, entry);
    let older = |other: Entry| !database::newer(other, entry);
    let front = entries.filter(newer);
    let back = entries.filter(older);
    let all = database::with_entry(entries, entry);
    database::lemma_filter_is_part(entries, newer);
    database::lemma_filter_is_part(entries, older);
    database::lemma_filter_keeps_order(entries, newer);
    database::lemma_filter_keeps_order(entries, older);
    assert(all == front.push(entry) + back);
    assert forall|i: int| 0 <= i < all.len() && i != front.len() implies entries.contains(
        #[trigger] all[i],
    ) by {
        if i < front.len() {
            assert(all[i] == front[i]);
        } else if i > front.len() {
            assert(all[i] == back[i - front.len() - 1]);
        }
    }
    assert forall|i: int, j: int|
        #![trigger all[i], all[j]]
        0 <= i < j < all.len() implies all[i].id != all[j].id by {
        if i == front.len() {
            assert(entries.contains(all[j]));
            let k = choose|k: int| 0 <= k < entries.len() && entries[k] == all[j];
            assert(entries[k].id != entry.id);
        } else if j == front.len() {
            assert(entries.contains(all[i]));
            let k = choose|k: int| 0 <= k < entries.len() && entries[k] == all[i];
            assert(entries[k].id != entry.id);
        } else if j < front.len() {
            assert(all[i] == front[i] && all[j] == front[j]);
        } else if i > front.len() {
            assert(all[i] == back[i - front.len() - 1] && all[j] == back[j - front.len() - 1]);
        } else {
            assert(all[i] == front[i] && all[j] == back[j - front.len() - 1]);
            entries.lemma_filter_pred(newer, i);
            entries.lemma_filter_pred(older, j - front.len() - 1);
            let a = choose|a: int| 0 <= a < entries.len() && entries[a] == front[i];
            let b = choose|b: int|
                0 <= b < entries.len() && entries[b] == back[j - front.len() - 1];
            assert(a != b);
        }
    }
}

proof fn lemma_delete_before_insert(entries: Seq<Entry>, entry: Entry, ids: Seq<int>)
    requires
        !ids.contains(entry.id),
    ensures
        without_ids(database::with_entry(entries, entry), ids) == database::with_entry(
            without_ids(entries, ids),
            entry,
        ),
{
    let newer = |other: Entry| database::newer(other, entry);
    let older = |other: Entry| !database::newer(other, entry);
    let stays = |e: Entry| !ids.contains(e.id);
    let front = entries.filter(newer);
    let back = entries.filter(older);
    let one = seq![entry];
    assert(database::with_entry(entries, entry) == front + one + back);
    Seq::filter_distributes_over_add(front + one, back, stays);
    Seq::filter_distributes_over_add(front, one, stays);
    database::lemma_filter_all(one, stays);
    lemma_filter_twice(entries, newer, stays);
    lemma_filter_twice(entries, older, stays);
    lemma_filter_twice(entries, stays, newer);
    lemma_filter_twice(entries, stays, older);
    lemma_filter_agrees(
        entries,
        |e: Entry| newer(e) && stays(e),
        |e: Entry| stays(e) && newer(e),
    );
    lemma_filter_agrees(
        entries,
        |e: Entry| older(e) && stays(e),
        |e: Entry| stays(e) && older(e),
    );
    assert(front.filter(stays) + one + back.filter(stays) == front.filter(stays).push(entry)
        + back.filter(stays));
}

/// Deleting the keys that deleting content gives, from the rows that were there,
/// leaves the rows that are in the table then.
pub proof fn delete_gives_the_keys_to_delete(entries: Seq<Entry>, content: Content)
    requires
        database::has_distinct_ids(entries),
    ensures
        without_ids(entries, database::ids_of(database::holding(entries, content)))
            == database::without(entries, content),
{
    let p = |entry: Entry| entry::holds(entry, content);
    lemma_delete_by_property(entries, p);
    lemma_filter_agrees(
        entries,
        |e: Entry| !p(e),
        |entry: Entry| !entry::holds(entry, content),
    );
}

/// Deleting the keys that clearing gives leaves no row.
pub proof fn clear_gives_the_keys_to_delete(entries: Seq<Entry>)
    ensures
        without_ids(entries, database::ids_of(entries)) == Seq::<Entry>::empty(),
{
    let ids = database::ids_of(entries);
    let stays = |entry: Entry| !ids.contains(entry.id);
    assert forall|i: int| 0 <= i < entries.len() implies !stays(#[trigger] entries[i]) by {
        assert(ids[i] == entries[i].id);
    }
    database::lemma_filter_none(entries, stays);
}

/// Putting in the row for content, and then deleting the keys that storing the
/// content gives, leaves the rows that are in the table then.
pub proof fn store_gives_the_keys_to_delete(
    entries: Seq<Entry>,
    content: Content,
    now: int,
    id: int,
)
    requires
        database::is_sorted(entries),
        database::has_distinct_ids(entries),
        !database::has_entry_id(entries, id),
    ensures
        without_ids(
            database::with_entry(entries, entry::entry_for(content, now, id)),
            database::ids_of(database::dropped_by_store(entries, content, now, id)),
        ) == database::after_store(entries, content, now, id),
{
    let stored = entry::entry_for(content, now, id);
    let all = database::with_entry(entries, stored);
    let same = database::holding(entries, content);
    let left = database::without(entries, content);
    let late = database::dropped_by_insert(left, content, now, id);
    lemma_delete_in_two_steps(all, same, late);
    lemma_holding_has_no_new_id(entries, content, id);
    lemma_delete_before_insert(entries, stored, database::ids_of(same));
    delete_gives_the_keys_to_delete(entries, content);
    database::lemma_filter_keeps_order(entries, |entry: Entry| !entry::holds(entry, content));
    database::lemma_without_has_no_new_id(entries, content, id);
    lemma_with_entry_wf(left, stored);
    lemma_delete_expired(database::with_entry(left, stored));
}

proof fn lemma_holding_has_no_new_id(entries: Seq<Entry>, content: Content, id: int)
    requires
        !database::has_entry_id(entries, id),
    ensures
        !database::ids_of(database::holding(entries, content)).contains(id),
{
    let same = database::holding(entries, content);
    let ids = database::ids_of(same);
    database::lemma_filter_is_part(entries, |entry: Entry| entry::holds(entry, content));
    if ids.contains(id) {
        let k = choose|k: int| 0 <= k < ids.len() && ids[k] == id;
        assert(entries.contains(same[k]));
        let j = choose|j: int| 0 <= j < entries.len() && entries[j] == same[k];
        assert(entries[j].id == id);
    }
}

/// Putting in the row for the new content, and then deleting the keys that
/// replacing gives, leaves the rows that are in the table then.
pub proof fn update_gives_the_keys_to_delete(
    entries: Seq<Entry>,
    previous: Content,
    content: Content,
    now: int,
    id: int,
)
    requires
        database::is_sorted(entries),
        database::has_distinct_ids(entries),
        !database::has_entry_id(entries, id),
    ensures
        without_ids(
            database::with_entry(entries, entry::entry_for(content, now, id)),
            database::ids_of(database::dropped_by_update(entries, previous, content, now, id)),
        ) == database::after_update(entries, previous, content, now, id),
{
    let stored = entry::entry_for(content, now, id);
    let all = database::with_entry(entries, stored);
    let same = database::holding(entries, previous);
    let left = database::without(entries, previous);
    lemma_delete_in_two_steps(
        all,
        same,
        database::dropped_by_store(left, content, now, id),
    );
    lemma_holding_has_no_new_id(entries, previous, id);
    lemma_delete_before_insert(entries, stored, database::ids_of(same));
    delete_gives_the_keys_to_delete(entries, previous);
    database::lemma_filter_keeps_order(entries, |entry: Entry| !entry::holds(entry, previous));
    database::lemma_without_has_no_new_id(entries, previous, id);
    store_gives_the_keys_to_delete(left, content, now, id);
}

/// Deleting the keys that purging gives leaves the rows that are in the table
/// then.
pub proof fn purge_gives_the_keys_to_delete(entries: Seq<Entry>)
    requires
        database::is_sorted(entries),
        database::has_distinct_ids(entries),
    ensures
        without_ids(entries, database::ids_of(database::dropped_by_purge(entries)))
            == database::after_purge(entries),
{
    let p = |entry: Entry| entry::is_broken(entry);
    let left = database::sound(entries);
    lemma_delete_in_two_steps(entries, database::broken(entries), database::expired(left));
    lemma_delete_by_property(entries, p);
    lemma_filter_agrees(entries, |e: Entry| !p(e), |entry: Entry| !entry::is_broken(entry));
    database::lemma_filter_keeps_order(entries, |entry: Entry| !entry::is_broken(entry));
    lemma_delete_expired(left);
}

/// Whether the columns of a row have values of the kinds that they are meant for,
/// or none, and its texts are UTF-8.
pub open spec fn has_proper_kinds(entry: Entry) -> bool {
    &&& entry.content_type matches Datum::Text(bytes) && valid_utf8(bytes)
    &&& entry.text is Null || (entry.text matches Datum::Text(bytes) && valid_utf8(bytes))
    &&& entry.blob is Null || entry.blob is Blob
    &&& entry.width is Null || entry.width is Integer
    &&& entry.height is Null || entry.height is Integer
}

/// A purged table has no broken row, so that each of its rows can be read whose
/// values are of the proper kinds, that is itself of a known kind and, for an
/// image, whose width and height are numbers of 32 bits.
pub proof fn purged_rows_are_sound(entries: Seq<Entry>, i: int)
    requires
        0 <= i < database::after_purge(entries).len(),
    ensures
        ({
            let row = database::after_purge(entries)[i];
            &&& !entry::is_broken(row)
            &&& has_proper_kinds(row) && (cell::is_text(row.content_type, "text"@) || cell::is_text(
                row.content_type,
                "url"@,
            )) ==> entry::decoded(row) is Ok
            &&& has_proper_kinds(row) && cell::is_text(row.content_type, "image"@) ==> {
                &&& row.width is Integer && row.height is Integer
                &&& 0 <= row.width->Integer_0 <= u32::MAX && 0 <= row.height->Integer_0 <= u32::MAX
                    && row.width->Integer_0 * row.height->Integer_0 * 4 <= usize::MAX
                    ==> entry::decoded(row) is Ok
            }
        }),
{
    broadcast use {encode_utf8_valid_utf8, encode_utf8_decode_utf8};

    entry::lemma_kinds_differ();
    let row = database::after_purge(entries)[i];
    assert(row == database::sound(entries)[i]);
    entries.lemma_filter_pred(|entry: Entry| !entry::is_broken(entry), i);
}

/// Purging a purged table changes nothing.
pub proof fn purge_is_done_once(entries: Seq<Entry>)
    ensures
        database::after_purge(database::after_purge(entries)) == database::after_purge(entries),
{
    let rows = database::after_purge(entries);
    assert forall|i: int| 0 <= i < rows.len() implies !entry::is_broken(#[trigger] rows[i]) by {
        purged_rows_are_sound(entries, i);
    }
    database::lemma_filter_all(rows, |entry: Entry| !entry::is_broken(entry));
}

} // verus!
