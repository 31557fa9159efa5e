//! What the batches of the card service do to a store, table by table.
//!
//! These are the facts behind the contracts of the endpoints and behind the
//! laws of the service: what a creation, an update and a deletion change,
//! what they leave alone, and that each keeps the store consistent.

use vstd::prelude::*;
use crate::api::{blank_card, creation_batch, deletion_batch, signup_batch};
use crate::errors::StorageFault;
use crate::models::{blank_slots, CardView, TodoView, UpdateCardView, N_TODOS};
use crate::order::{
    arranged, identity_order, insertion_point, lemma_insertion_point,
    lemma_stable_order_of_ascending, lemma_stable_order_push, lemma_stable_order_sorted, precedes,
    stable_order,
};
use crate::reconcile::{
    all_full_slates, assembled, assembled_card, has_full_slate, of_card, paired_slots, row_ids,
    rows_of_card, slot_differs, slot_rows, slot_update, slot_updates, slot_updates_upto,
    slots_of_rows, update_plan, CardRecordView, TodoRowView,
};
use crate::sequences::{
    lemma_filter_all, lemma_filter_keeps, lemma_filter_map, lemma_filter_member,
    lemma_filter_narrower, lemma_filter_none, lemma_filter_order, lemma_filter_push,
};
use crate::statements::StatementView;
use crate::store::{
    creation_times, fresh_rows, lemma_apply_all_concat, lemma_apply_all_keeps_wf,
    lemma_apply_all_one, lemma_apply_all_two, not_card, not_of_card, owned_by, record_of,
    retitled, rewritten, CardRowView, StoreView,
};

verus! {

/// Rows whose identifiers ascend are in slot order already.
pub proof fn lemma_slot_rows_of_ascending(rows: Seq<TodoRowView>, card_id: Seq<char>)
    requires
        forall|i: int, j: int|
            0 <= i < j < rows.len() ==> (#[trigger] rows[i]).id <= (#[trigger] rows[j]).id,
    ensures
        slot_rows(rows, card_id) == rows_of_card(rows, card_id),
{
    let own = rows_of_card(rows, card_id);
    assert forall|a: int, b: int| 0 <= a < b < own.len() implies row_ids(own)[a] <= row_ids(
        own,
    )[b] by {
        lemma_filter_order(rows, of_card(card_id), a, b);
    }
    lemma_stable_order_of_ascending(row_ids(own));
    assert(arranged(own, identity_order(own.len())) =~= own);
}

/// In a store that keeps its key constraints, the rows of a card in slot
/// order are its rows in insertion order, and no two have the same
/// identifier.
pub proof fn lemma_slot_rows_of_store(s: StoreView, card_id: Seq<char>)
    requires
        s.wf(),
    ensures
        slot_rows(s.todos, card_id) == rows_of_card(s.todos, card_id),
        forall|a: int, b: int|
            0 <= a < b < rows_of_card(s.todos, card_id).len() ==> (#[trigger] rows_of_card(
                s.todos,
                card_id,
            )[a]).id != (#[trigger] rows_of_card(s.todos, card_id)[b]).id,
{
    lemma_slot_rows_of_ascending(s.todos, card_id);
    let own = rows_of_card(s.todos, card_id);
    assert forall|a: int, b: int| 0 <= a < b < own.len() implies (#[trigger] own[a]).id
        != (#[trigger] own[b]).id by {
        lemma_filter_order(s.todos, of_card(card_id), a, b);
    }
}

/// The rows of a card in a table whose rows were rewritten in place: the
/// rewritten rows of the card, as long as rewriting moves no row to another
/// card.
pub proof fn lemma_rows_of_card_follow(
    rows: Seq<TodoRowView>,
    rewritten_rows: Seq<TodoRowView>,
    card_id: Seq<char>,
    f: spec_fn(TodoRowView) -> TodoRowView,
)
    requires
        rewritten_rows.len() == rows.len(),
        forall|j: int| 0 <= j < rows.len() ==> #[trigger] rewritten_rows[j] == f(rows[j]),
        forall|j: int| 0 <= j < rows.len() ==> f(#[trigger] rows[j]).card_id == rows[j].card_id,
    ensures
        rows_of_card(rewritten_rows, card_id) == rows_of_card(rows, card_id).map_values(f),
{
    lemma_filter_map(rows, rewritten_rows, of_card(card_id), f);
}

/// No record of a listing names a card that does not exist.
pub proof fn lemma_records_name_cards(s: StoreView, user_id: Seq<char>, k: int)
    requires
        0 <= k < s.records_of(user_id).len(),
    ensures
        s.has_card(s.records_of(user_id)[k].id),
{
    let own = s.cards_of(user_id);
    let order = stable_order(creation_times(own));
    lemma_stable_order_sorted(creation_times(own));
    lemma_filter_member(s.cards, owned_by(user_id), order[k]);
}

/// In a consistent store no row belongs to a card that does not exist.
pub proof fn lemma_no_rows_without_card(s: StoreView, card_id: Seq<char>)
    requires
        s.consistent(),
        !s.has_card(card_id),
    ensures
        forall|i: int| 0 <= i < s.todos.len() ==> (#[trigger] s.todos[i]).card_id != card_id,
{
    assert forall|i: int| 0 <= i < s.todos.len() implies (#[trigger] s.todos[i]).card_id
        != card_id by {
        assert(s.has_card(s.todos[i].card_id));
    }
}

/// On a consistent store every listing succeeds: each card of the user has
/// its full slate.
pub proof fn lemma_consistent_store_lists(s: StoreView, user_id: Seq<char>)
    requires
        s.consistent(),
    ensures
        all_full_slates(s.records_of(user_id), s.todos),
{
    let own = s.cards_of(user_id);
    let order = stable_order(creation_times(own));
    lemma_stable_order_sorted(creation_times(own));
    let records = s.records_of(user_id);
    assert forall|i: int| 0 <= i < records.len() implies has_full_slate(
        s.todos,
        (#[trigger] records[i]).id,
    ) by {
        let k = order[i];
        assert(0 <= k < own.len());
        lemma_filter_member(s.cards, owned_by(user_id), k);
    }
}

/// Assembling with one more record, over rows that show the same for every
/// old record, is inserting the card of the new record.
pub proof fn lemma_assembled_insert(
    records: Seq<CardRecordView>,
    rows: Seq<TodoRowView>,
    rows_after: Seq<TodoRowView>,
    at: int,
    record: CardRecordView,
)
    requires
        0 <= at <= records.len(),
        forall|k: int|
            0 <= k < records.len() ==> slot_rows(rows_after, (#[trigger] records[k]).id)
                == slot_rows(rows, records[k].id),
    ensures
        assembled(records.insert(at, record), rows_after) == assembled(records, rows).insert(
            at,
            assembled_card(record, rows_after),
        ),
{
    let left = assembled(records.insert(at, record), rows_after);
    let right = assembled(records, rows).insert(at, assembled_card(record, rows_after));
    assert forall|k: int| 0 <= k < left.len() implies left[k] == right[k] by {
        if k < at {
            assert(records.insert(at, record)[k] == records[k]);
        } else if k > at {
            assert(records.insert(at, record)[k] == records[k - 1]);
        }
    }
    assert(left =~= right);
}

/// Registering a user keeps the store consistent.
pub proof fn lemma_signup_keeps_consistent(s: StoreView, user_id: Seq<char>)
    requires
        s.consistent(),
    ensures
        s.execute(signup_batch(user_id)).consistent(),
{
    lemma_apply_all_one(s, StatementView::InsertUser { id: user_id });
    let after = s.execute(signup_batch(user_id));
    assert(after.cards == s.cards && after.todos == s.todos);
    assert forall|i: int| 0 <= i < after.todos.len() implies after.has_card(
        (#[trigger] after.todos[i]).card_id,
    ) by {
        assert(s.has_card(s.todos[i].card_id));
    }
}

/// The row that the creation batch adds to the cards.
pub open spec fn created_card(user_id: Seq<char>, card_id: Seq<char>, now: u64) -> CardRowView {
    CardRowView { id: card_id, user_id, title: Seq::empty(), created_at: now }
}

/// The rows that the creation batch adds to the todos of a store.
pub open spec fn created_rows(s: StoreView, card_id: Seq<char>) -> Seq<TodoRowView> {
    fresh_rows(card_id, Seq::new(N_TODOS as nat, |i: int| Seq::<char>::empty()), s.next_row_id)
}

/// What a successful creation batch does to the tables: one card row and
/// one fresh row per slot are appended, nothing else changes.
pub proof fn lemma_creation_effect(s: StoreView, user_id: Seq<char>, card_id: Seq<char>, now: u64)
    requires
        s.apply_all(creation_batch(card_id, user_id, now)) is Ok,
    ensures
        !s.has_card(card_id),
        s.next_row_id + N_TODOS <= u64::MAX,
        s.execute(creation_batch(card_id, user_id, now)) == (StoreView {
            cards: s.cards.push(created_card(user_id, card_id, now)),
            todos: s.todos + created_rows(s, card_id),
            next_row_id: (s.next_row_id + N_TODOS) as u64,
            ..s
        }),
{
    let batch = creation_batch(card_id, user_id, now);
    lemma_apply_all_two(s, batch[0], batch[1]);
    assert(batch =~= seq![batch[0], batch[1]]);
}

/// A card that was just created belongs to the user it was created for,
/// and has no title yet.
pub proof fn lemma_created_card_is_owned(
    s: StoreView,
    user_id: Seq<char>,
    card_id: Seq<char>,
    now: u64,
)
    requires
        s.apply_all(creation_batch(card_id, user_id, now)) is Ok,
    ensures
        s.execute(creation_batch(card_id, user_id, now)).has_card(card_id),
        s.execute(creation_batch(card_id, user_id, now)).card(card_id) == created_card(
            user_id,
            card_id,
            now,
        ),
        s.execute(creation_batch(card_id, user_id, now)).owns(user_id, card_id),
{
    let after = s.execute(creation_batch(card_id, user_id, now));
    lemma_creation_effect(s, user_id, card_id, now);
    assert(after.cards[s.cards.len() as int].id == card_id);
    let k = choose|k: int| 0 <= k < after.cards.len() && (#[trigger] after.cards[k]).id == card_id;
    if k < s.cards.len() {
        assert(s.cards[k].id == card_id);
    }
}

/// The rows of a freshly created card, in slot order, are its fresh rows,
/// provided no older row claims the card.
pub proof fn lemma_created_rows_in_slot_order(s: StoreView, card_id: Seq<char>)
    requires
        s.wf(),
        s.next_row_id + N_TODOS <= u64::MAX,
        forall|i: int| 0 <= i < s.todos.len() ==> (#[trigger] s.todos[i]).card_id != card_id,
    ensures
        rows_of_card(s.todos + created_rows(s, card_id), card_id) == created_rows(s, card_id),
        slot_rows(s.todos + created_rows(s, card_id), card_id) == created_rows(s, card_id),
{
    let fresh = created_rows(s, card_id);
    let all = s.todos + fresh;
    assert forall|i: int| 0 <= i < s.todos.len() implies !of_card(card_id)(
        #[trigger] s.todos[i],
    ) by {}
    lemma_filter_none(s.todos, of_card(card_id));
    assert forall|i: int| 0 <= i < fresh.len() implies of_card(card_id)(#[trigger] fresh[i]) by {}
    lemma_filter_all(fresh, of_card(card_id));
    Seq::filter_distributes_over_add(s.todos, fresh, of_card(card_id));
    assert(rows_of_card(all, card_id) =~= fresh);
    assert forall|i: int, j: int| 0 <= i < j < all.len() implies (#[trigger] all[i]).id
        <= (#[trigger] all[j]).id by {
        if j < s.todos.len() {
            assert(all[i] == s.todos[i] && all[j] == s.todos[j]);
        } else if i < s.todos.len() {
            assert(all[i] == s.todos[i] && all[j] == fresh[j - s.todos.len()]);
        } else {
            assert(all[i] == fresh[i - s.todos.len()] && all[j] == fresh[j - s.todos.len()]);
        }
    }
    lemma_slot_rows_of_ascending(all, card_id);
}

/// The rows that a creation adds show a full slate of blank slots.
pub proof fn lemma_created_rows_are_blank(s: StoreView, card_id: Seq<char>)
    ensures
        created_rows(s, card_id).len() == N_TODOS,
        slots_of_rows(created_rows(s, card_id)) == blank_slots(),
{
    let fresh = created_rows(s, card_id);
    assert(fresh.len() == N_TODOS);
    assert forall|i: int| 0 <= i < fresh.len() implies slots_of_rows(fresh)[i] == blank_slots()[i] by {
        assert(fresh[i].content == Seq::<char>::empty());
        assert(fresh[i].completed_at is None);
    }
    assert(slots_of_rows(fresh) =~= blank_slots());
}

/// The card that a creation adds shows a full slate of blank slots,
/// provided no older row claims the card.
pub proof fn lemma_created_card_is_blank(
    s: StoreView,
    user_id: Seq<char>,
    card_id: Seq<char>,
    now: u64,
)
    requires
        s.wf(),
        s.next_row_id + N_TODOS <= u64::MAX,
        forall|i: int| 0 <= i < s.todos.len() ==> (#[trigger] s.todos[i]).card_id != card_id,
    ensures
        has_full_slate(s.todos + created_rows(s, card_id), card_id),
        assembled_card(
            record_of(created_card(user_id, card_id, now)),
            s.todos + created_rows(s, card_id),
        ) == blank_card(card_id),
{
    lemma_created_rows_in_slot_order(s, card_id);
    lemma_created_rows_are_blank(s, card_id);
}

/// A card of another identifier has the same rows after a creation.
pub proof fn lemma_creation_keeps_other_rows(s: StoreView, card_id: Seq<char>, other: Seq<char>)
    requires
        other != card_id,
    ensures
        rows_of_card(s.todos + created_rows(s, card_id), other) == rows_of_card(s.todos, other),
        slot_rows(s.todos + created_rows(s, card_id), other) == slot_rows(s.todos, other),
{
    let fresh = created_rows(s, card_id);
    assert forall|j: int| 0 <= j < fresh.len() implies !of_card(other)(#[trigger] fresh[j]) by {}
    lemma_filter_none(fresh, of_card(other));
    Seq::filter_distributes_over_add(s.todos, fresh, of_card(other));
    assert(rows_of_card(s.todos + fresh, other) =~= rows_of_card(s.todos, other));
}

/// The cards that a user's listing shows keep their rows when a card with
/// a new identifier is created.
pub proof fn lemma_listed_cards_keep_rows(s: StoreView, user_id: Seq<char>, card_id: Seq<char>)
    requires
        !s.has_card(card_id),
    ensures
        forall|k: int|
            0 <= k < s.records_of(user_id).len() ==> slot_rows(
                s.todos + created_rows(s, card_id),
                (#[trigger] s.records_of(user_id)[k]).id,
            ) == slot_rows(s.todos, s.records_of(user_id)[k].id),
{
    let records = s.records_of(user_id);
    assert forall|k: int| 0 <= k < records.len() implies slot_rows(
        s.todos + created_rows(s, card_id),
        (#[trigger] records[k]).id,
    ) == slot_rows(s.todos, records[k].id) by {
        lemma_records_name_cards(s, user_id, k);
        lemma_creation_keeps_other_rows(s, card_id, records[k].id);
    }
}

/// Where a card created at `now` joins the listing of its owner: behind the
/// last card that is not younger.
pub open spec fn listing_position(s: StoreView, user_id: Seq<char>, now: u64) -> int {
    let times = creation_times(s.cards_of(user_id));
    insertion_point(times, stable_order(times), now)
}

/// The records of the owner after a creation: the records before, with the
/// record of the new card at its listing position.
pub proof fn lemma_creation_records(s: StoreView, user_id: Seq<char>, card_id: Seq<char>, now: u64)
    requires
        s.apply_all(creation_batch(card_id, user_id, now)) is Ok,
    ensures
        0 <= listing_position(s, user_id, now) <= s.records_of(user_id).len(),
        s.execute(creation_batch(card_id, user_id, now)).records_of(user_id) == s.records_of(
            user_id,
        ).insert(
            listing_position(s, user_id, now),
            record_of(created_card(user_id, card_id, now)),
        ),
{
    let after = s.execute(creation_batch(card_id, user_id, now));
    let card = created_card(user_id, card_id, now);
    lemma_creation_effect(s, user_id, card_id, now);
    let own = s.cards_of(user_id);
    let times = creation_times(own);
    let order = stable_order(times);
    let at = listing_position(s, user_id, now);
    lemma_stable_order_sorted(times);
    assert forall|i: int, j: int| 0 <= i < j < order.len() implies times[#[trigger] order[i]]
        <= times[#[trigger] order[j]] by {
        assert(precedes(times, order[i], order[j]));
    }
    lemma_insertion_point(times, order, now);
    let own_after = after.cards_of(user_id);
    assert(own_after == own.push(card)) by {
        lemma_filter_push(s.cards, owned_by(user_id), card);
    }
    assert(creation_times(own_after) =~= times.push(now));
    lemma_stable_order_push(times, now);
    let order_after = stable_order(creation_times(own_after));
    assert(order_after == order.insert(at, own.len() as int));
    let records = s.records_of(user_id);
    let records_after = after.records_of(user_id);
    assert forall|k: int| 0 <= k < records_after.len() implies records_after[k] == records.insert(
        at,
        record_of(card),
    )[k] by {
        if k < at {
            assert(order_after[k] == order[k]);
        } else if k > at {
            assert(order_after[k] == order[k - 1]);
        }
    }
    assert(records_after =~= records.insert(at, record_of(card)));
}

/// After a creation every row still belongs to a card.
pub proof fn lemma_creation_keeps_rows_owned(
    s: StoreView,
    user_id: Seq<char>,
    card_id: Seq<char>,
    now: u64,
    i: int,
)
    requires
        forall|j: int| 0 <= j < s.todos.len() ==> s.has_card((#[trigger] s.todos[j]).card_id),
        0 <= i < (s.todos + created_rows(s, card_id)).len(),
    ensures
        exists|k: int|
            0 <= k < s.cards.push(created_card(user_id, card_id, now)).len() && (#[trigger] s.cards.push(
                created_card(user_id, card_id, now),
            )[k]).id == (s.todos + created_rows(s, card_id))[i].card_id,
{
    let cards_after = s.cards.push(created_card(user_id, card_id, now));
    let fresh = created_rows(s, card_id);
    if i < s.todos.len() {
        assert(s.has_card(s.todos[i].card_id));
        let k = choose|k: int|
            0 <= k < s.cards.len() && (#[trigger] s.cards[k]).id == s.todos[i].card_id;
        assert(cards_after[k].id == s.todos[i].card_id);
    } else {
        assert((s.todos + fresh)[i] == fresh[i - s.todos.len()]);
        assert(cards_after[s.cards.len() as int].id == card_id);
    }
}

/// Creating a card keeps the store consistent.
pub proof fn lemma_creation_keeps_consistent(
    s: StoreView,
    user_id: Seq<char>,
    card_id: Seq<char>,
    now: u64,
)
    requires
        s.wf(),
        s.consistent(),
    ensures
        s.execute(creation_batch(card_id, user_id, now)).consistent(),
{
    let batch = creation_batch(card_id, user_id, now);
    if s.apply_all(batch) is Ok {
        let after = s.execute(batch);
        let card = created_card(user_id, card_id, now);
        let fresh = created_rows(s, card_id);
        lemma_creation_effect(s, user_id, card_id, now);
        lemma_no_rows_without_card(s, card_id);
        lemma_created_card_is_blank(s, user_id, card_id, now);
        assert forall|i: int| 0 <= i < after.todos.len() implies after.has_card(
            (#[trigger] after.todos[i]).card_id,
        ) by {
            lemma_creation_keeps_rows_owned(s, user_id, card_id, now, i);
        }
        assert forall|i: int| 0 <= i < after.cards.len() implies rows_of_card(
            after.todos,
            (#[trigger] after.cards[i]).id,
        ).len() == N_TODOS by {
            if i < s.cards.len() {
                assert(after.cards[i] == s.cards[i]);
                lemma_creation_keeps_other_rows(s, card_id, s.cards[i].id);
            }
        }
    }
}

/// The completion time that an update records for a submitted slot.
pub open spec fn completion(completed: bool, now: u64) -> Option<u64> {
    if completed {
        Some(now)
    } else {
        None
    }
}

/// A todo row after the updates for the first `n` slots of a plan.
pub open spec fn synced(
    row: TodoRowView,
    rows: Seq<TodoRowView>,
    todos: Seq<TodoView>,
    now: u64,
    n: nat,
) -> TodoRowView
    decreases n,
{
    if n == 0 {
        row
    } else {
        let before = synced(row, rows, todos, now, (n - 1) as nat);
        if slot_differs(rows[n - 1], todos[n - 1]) {
            rewritten(
                before,
                rows[n - 1].id,
                todos[n - 1].content,
                completion(todos[n - 1].completed, now),
            )
        } else {
            before
        }
    }
}

/// Slot updates change neither the identifier nor the card of a row.
pub proof fn lemma_synced_keeps_identity(
    row: TodoRowView,
    rows: Seq<TodoRowView>,
    todos: Seq<TodoView>,
    now: u64,
    n: nat,
)
    ensures
        synced(row, rows, todos, now, n).id == row.id,
        synced(row, rows, todos, now, n).card_id == row.card_id,
    decreases n,
{
    if n > 0 {
        lemma_synced_keeps_identity(row, rows, todos, now, (n - 1) as nat);
    }
}

/// Slot updates leave alone a row that is none of the first `n` slot rows.
pub proof fn lemma_synced_untouched(
    row: TodoRowView,
    rows: Seq<TodoRowView>,
    todos: Seq<TodoView>,
    now: u64,
    n: nat,
)
    requires
        n <= rows.len(),
        forall|j: int| 0 <= j < n ==> (#[trigger] rows[j]).id != row.id,
    ensures
        synced(row, rows, todos, now, n) == row,
    decreases n,
{
    if n > 0 {
        lemma_synced_untouched(row, rows, todos, now, (n - 1) as nat);
        assert(rows[n - 1].id != row.id);
    }
}

/// After the updates for the first `n` slots, each of those slots agrees
/// with what was submitted for it.
pub proof fn lemma_synced_agrees(
    rows: Seq<TodoRowView>,
    todos: Seq<TodoView>,
    now: u64,
    n: nat,
    i: int,
)
    requires
        n <= rows.len(),
        n <= todos.len(),
        0 <= i < n,
        forall|a: int, b: int|
            0 <= a < b < rows.len() ==> (#[trigger] rows[a]).id != (#[trigger] rows[b]).id,
    ensures
        !slot_differs(synced(rows[i], rows, todos, now, n), todos[i]),
    decreases n,
{
    let before = synced(rows[i], rows, todos, now, (n - 1) as nat);
    lemma_synced_keeps_identity(rows[i], rows, todos, now, (n - 1) as nat);
    if i == n - 1 {
        assert forall|j: int| 0 <= j < n - 1 implies (#[trigger] rows[j]).id != rows[i].id by {}
        lemma_synced_untouched(rows[i], rows, todos, now, (n - 1) as nat);
    } else {
        lemma_synced_agrees(rows, todos, now, (n - 1) as nat, i);
        assert(rows[i].id != rows[n - 1].id);
    }
}

/// What the slot updates of a plan do to a store: every todo row is synced,
/// nothing else changes.
pub proof fn lemma_slot_updates_effect(
    s: StoreView,
    rows: Seq<TodoRowView>,
    todos: Seq<TodoView>,
    now: u64,
    n: nat,
)
    ensures
        s.apply_all(slot_updates_upto(rows, todos, now, n)) == Ok::<StoreView, StorageFault>(
            StoreView {
                todos: Seq::new(s.todos.len(), |j: int| synced(s.todos[j], rows, todos, now, n)),
                ..s
            },
        ),
    decreases n,
{
    let target = StoreView {
        todos: Seq::new(s.todos.len(), |j: int| synced(s.todos[j], rows, todos, now, n)),
        ..s
    };
    if n == 0 {
        assert(target.todos =~= s.todos);
    } else {
        let m = (n - 1) as nat;
        lemma_slot_updates_effect(s, rows, todos, now, m);
        let front = slot_updates_upto(rows, todos, now, m);
        let middle = StoreView {
            todos: Seq::new(s.todos.len(), |j: int| synced(s.todos[j], rows, todos, now, m)),
            ..s
        };
        if slot_differs(rows[n - 1], todos[n - 1]) {
            let update = slot_update(rows[n - 1], todos[n - 1], now);
            assert(front.push(update).drop_last() =~= front);
            assert(middle.apply(update)->Ok_0.todos =~= target.todos);
        } else {
            assert(target.todos =~= middle.todos);
        }
    }
}

/// The title part of an update plan.
pub open spec fn title_plan(card_id: Seq<char>, current_title: Seq<char>, title: Seq<char>) -> Seq<
    StatementView,
> {
    if current_title != title {
        seq![StatementView::UpdateCardTitle { card_id, title }]
    } else {
        Seq::empty()
    }
}

/// What the title part of an update plan does to a store: the card has the
/// submitted title afterwards, and nothing else changes.
pub proof fn lemma_title_plan_effect(s: StoreView, card_id: Seq<char>, title: Seq<char>)
    requires
        s.wf(),
        s.has_card(card_id),
    ensures
        s.apply_all(title_plan(card_id, s.card(card_id).title, title)) is Ok,
        ({
            let after = s.apply_all(title_plan(card_id, s.card(card_id).title, title))->Ok_0;
            &&& after.wf()
            &&& after.has_card(card_id)
            &&& after.card(card_id).title == title
            &&& after.todos == s.todos
            &&& after.users == s.users
            &&& after.next_row_id == s.next_row_id
            &&& after.cards.len() == s.cards.len()
            &&& forall|i: int|
                0 <= i < s.cards.len() ==> (#[trigger] after.cards[i]).id == s.cards[i].id
                    && after.cards[i].user_id == s.cards[i].user_id
            &&& forall|i: int|
                0 <= i < s.cards.len() && s.cards[i].id != card_id ==> #[trigger] after.cards[i]
                    == s.cards[i]
        }),
{
    let current = s.card(card_id).title;
    let plan = title_plan(card_id, current, title);
    let k = choose|i: int| 0 <= i < s.cards.len() && (#[trigger] s.cards[i]).id == card_id;
    if current != title {
        lemma_apply_all_one(s, StatementView::UpdateCardTitle { card_id, title });
        let after = s.apply_all(plan)->Ok_0;
        lemma_apply_all_keeps_wf(s, plan);
        assert(after.cards[k].id == card_id);
        let k2 = choose|i: int| 0 <= i < after.cards.len() && (#[trigger] after.cards[i]).id == card_id;
        assert(after.cards[k2].id == s.cards[k2].id);
        assert(k2 == k);
    } else {
        assert(plan =~= Seq::<StatementView>::empty());
    }
}

/// What an update does to a card: the card stays, with the submitted
/// title; its rows stay in their slots; and every slot that the rows and the
/// submitted slate have in common agrees with what was submitted.
pub proof fn lemma_update_effect(s: StoreView, card_id: Seq<char>, req: UpdateCardView, now: u64)
    requires
        s.wf(),
        s.has_card(card_id),
    ensures
        s.apply_all(update_plan(card_id, s.card(card_id).title, s.todos, req, now)) is Ok,
        ({
            let after = s.execute(update_plan(card_id, s.card(card_id).title, s.todos, req, now));
            let rows = slot_rows(s.todos, card_id);
            let rows_after = slot_rows(after.todos, card_id);
            &&& after.wf()
            &&& after.has_card(card_id)
            &&& after.card(card_id).title == req.title
            &&& rows_after.len() == rows.len()
            &&& forall|i: int|
                0 <= i < paired_slots(rows, req.todos) ==> !slot_differs(
                    #[trigger] rows_after[i],
                    req.todos[i],
                )
        }),
{
    let current = s.card(card_id).title;
    let rows = slot_rows(s.todos, card_id);
    let n = paired_slots(rows, req.todos);
    let title_part = title_plan(card_id, current, req.title);
    let slot_part = slot_updates(rows, req.todos, now);
    assert(update_plan(card_id, current, s.todos, req, now) == title_part + slot_part);

    lemma_title_plan_effect(s, card_id, req.title);
    let middle = s.apply_all(title_part)->Ok_0;
    lemma_slot_updates_effect(middle, rows, req.todos, now, n);
    lemma_apply_all_concat(s, title_part, slot_part);
    lemma_apply_all_keeps_wf(s, title_part + slot_part);
    let after = s.execute(title_part + slot_part);
    let f = |row: TodoRowView| synced(row, rows, req.todos, now, n);
    assert(after.cards == middle.cards);
    assert(after.todos == Seq::new(s.todos.len(), |j: int| synced(s.todos[j], rows, req.todos, now, n)));

    // The card is still there, with the submitted title.
    assert(after.has_card(card_id) && after.card(card_id) == middle.card(card_id));

    // The rows are in the same slots as before, each synced.
    assert forall|j: int| 0 <= j < s.todos.len() implies f(#[trigger] s.todos[j]).card_id
        == s.todos[j].card_id by {
        lemma_synced_keeps_identity(s.todos[j], rows, req.todos, now, n);
    }
    lemma_rows_of_card_follow(s.todos, after.todos, card_id, f);
    lemma_slot_rows_of_store(s, card_id);
    lemma_slot_rows_of_store(after, card_id);
    let rows_after = slot_rows(after.todos, card_id);
    assert(rows_after == rows.map_values(f));

    // No slot differs any more.
    assert forall|i: int| 0 <= i < n implies !slot_differs(#[trigger] rows_after[i], req.todos[i]) by {
        lemma_synced_agrees(rows, req.todos, now, n, i);
    }
}

/// What an update leaves alone: users, the numbering of rows, every card
/// but the updated one, and every row of another card. No row changes its
/// identifier or its card.
pub proof fn lemma_update_is_local(s: StoreView, card_id: Seq<char>, req: UpdateCardView, now: u64)
    requires
        s.wf(),
        s.has_card(card_id),
    ensures
        ({
            let after = s.execute(update_plan(card_id, s.card(card_id).title, s.todos, req, now));
            &&& after.users == s.users
            &&& after.next_row_id == s.next_row_id
            &&& after.cards.len() == s.cards.len()
            &&& after.todos.len() == s.todos.len()
            &&& forall|i: int|
                0 <= i < s.cards.len() ==> #[trigger] after.cards[i] == retitled(
                    s.cards[i],
                    card_id,
                    req.title,
                )
            &&& forall|i: int| 0 <= i < s.cards.len() ==> (#[trigger] after.cards[i]).id == s.cards[i].id
            &&& forall|i: int|
                0 <= i < s.cards.len() && s.cards[i].id != card_id ==> #[trigger] after.cards[i]
                    == s.cards[i]
            &&& forall|j: int|
                0 <= j < s.todos.len() ==> (#[trigger] after.todos[j]).id == s.todos[j].id
                    && after.todos[j].card_id == s.todos[j].card_id
            &&& forall|j: int|
                0 <= j < s.todos.len() && s.todos[j].card_id != card_id ==> #[trigger] after.todos[j]
                    == s.todos[j]
        }),
{
    let current = s.card(card_id).title;
    let rows = slot_rows(s.todos, card_id);
    let n = paired_slots(rows, req.todos);
    let title_part = title_plan(card_id, current, req.title);
    let slot_part = slot_updates(rows, req.todos, now);
    assert(update_plan(card_id, current, s.todos, req, now) == title_part + slot_part);
    lemma_title_plan_effect(s, card_id, req.title);
    let middle = s.apply_all(title_part)->Ok_0;
    lemma_slot_updates_effect(middle, rows, req.todos, now, n);
    lemma_apply_all_concat(s, title_part, slot_part);
    let after = s.execute(title_part + slot_part);
    assert(after.cards == middle.cards);
    assert forall|i: int| 0 <= i < s.cards.len() implies #[trigger] after.cards[i] == retitled(
        s.cards[i],
        card_id,
        req.title,
    ) by {
        if current == req.title {
            assert(title_part =~= Seq::<StatementView>::empty());
            if s.cards[i].id == card_id {
                let k = choose|k: int|
                    0 <= k < s.cards.len() && (#[trigger] s.cards[k]).id == card_id;
                if k != i {
                    assert(s.cards[k].id == s.cards[i].id);
                }
            }
        } else {
            lemma_apply_all_one(s, StatementView::UpdateCardTitle { card_id, title: req.title });
        }
    }
    lemma_slot_rows_of_store(s, card_id);
    assert forall|j: int| 0 <= j < s.todos.len() implies (#[trigger] after.todos[j]).id
        == s.todos[j].id && after.todos[j].card_id == s.todos[j].card_id by {
        lemma_synced_keeps_identity(s.todos[j], rows, req.todos, now, n);
    }
    assert forall|j: int|
        0 <= j < s.todos.len() && s.todos[j].card_id != card_id implies #[trigger] after.todos[j]
        == s.todos[j] by {
        assert forall|k: int| 0 <= k < n implies (#[trigger] rows[k]).id != s.todos[j].id by {
            lemma_filter_member(s.todos, of_card(card_id), k);
            let m = choose|m: int| 0 <= m < s.todos.len() && s.todos[m] == rows[k];
            if m < j {
                assert(s.todos[m].id < s.todos[j].id);
            } else if j < m {
                assert(s.todos[j].id < s.todos[m].id);
            }
        }
        lemma_synced_untouched(s.todos[j], rows, req.todos, now, n);
    }
}

/// The card that a listing shows of an updated card in place of the card
/// `old`: the submitted title and slate for the updated card, the card as
/// it was for any other.
pub open spec fn relisted(old: CardView, card_id: Seq<char>, req: UpdateCardView) -> CardView {
    if old.id == card_id {
        CardView { id: card_id, title: req.title, todos: req.todos }
    } else {
        old
    }
}

/// The records of a user after an update: as before, but for the title of
/// the updated card.
pub proof fn lemma_update_records(
    s: StoreView,
    user_id: Seq<char>,
    card_id: Seq<char>,
    req: UpdateCardView,
    now: u64,
)
    requires
        s.wf(),
        s.has_card(card_id),
    ensures
        ({
            let after = s.execute(update_plan(card_id, s.card(card_id).title, s.todos, req, now));
            &&& after.records_of(user_id).len() == s.records_of(user_id).len()
            &&& forall|k: int|
                0 <= k < s.records_of(user_id).len() ==> #[trigger] after.records_of(user_id)[k]
                    == if s.records_of(user_id)[k].id == card_id {
                    CardRecordView { id: card_id, title: req.title }
                } else {
                    s.records_of(user_id)[k]
                }
        }),
{
    let after = s.execute(update_plan(card_id, s.card(card_id).title, s.todos, req, now));
    lemma_update_is_local(s, card_id, req, now);
    let f = |card: CardRowView| retitled(card, card_id, req.title);
    lemma_filter_map(s.cards, after.cards, owned_by(user_id), f);
    let own = s.cards_of(user_id);
    let own_after = after.cards_of(user_id);
    assert(own_after == own.map_values(f));
    assert(creation_times(own_after) =~= creation_times(own));
    lemma_stable_order_sorted(creation_times(own));
}

/// Updating a card keeps the store consistent.
pub proof fn lemma_update_keeps_consistent(
    s: StoreView,
    card_id: Seq<char>,
    req: UpdateCardView,
    now: u64,
)
    requires
        s.wf(),
        s.consistent(),
        s.has_card(card_id),
    ensures
        s.execute(update_plan(card_id, s.card(card_id).title, s.todos, req, now)).consistent(),
{
    let current = s.card(card_id).title;
    let rows = slot_rows(s.todos, card_id);
    let n = paired_slots(rows, req.todos);
    let title_part = title_plan(card_id, current, req.title);
    let slot_part = slot_updates(rows, req.todos, now);
    assert(update_plan(card_id, current, s.todos, req, now) == title_part + slot_part);
    lemma_title_plan_effect(s, card_id, req.title);
    let middle = s.apply_all(title_part)->Ok_0;
    lemma_slot_updates_effect(middle, rows, req.todos, now, n);
    lemma_apply_all_concat(s, title_part, slot_part);
    let after = s.execute(title_part + slot_part);
    let f = |row: TodoRowView| synced(row, rows, req.todos, now, n);
    assert(after.cards == middle.cards);
    assert(after.todos == Seq::new(s.todos.len(), |j: int| synced(s.todos[j], rows, req.todos, now, n)));
    assert forall|j: int| 0 <= j < s.todos.len() implies f(#[trigger] s.todos[j]).card_id
        == s.todos[j].card_id by {
        lemma_synced_keeps_identity(s.todos[j], rows, req.todos, now, n);
    }
    assert forall|i: int| 0 <= i < after.todos.len() implies after.has_card(
        (#[trigger] after.todos[i]).card_id,
    ) by {
        assert(after.todos[i].card_id == s.todos[i].card_id);
        assert(s.has_card(s.todos[i].card_id));
        let k = choose|k: int|
            0 <= k < s.cards.len() && (#[trigger] s.cards[k]).id == s.todos[i].card_id;
        assert(after.cards[k].id == s.todos[i].card_id);
    }
    assert forall|i: int| 0 <= i < after.cards.len() implies rows_of_card(
        after.todos,
        (#[trigger] after.cards[i]).id,
    ).len() == N_TODOS by {
        assert(after.cards[i].id == s.cards[i].id);
        lemma_rows_of_card_follow(s.todos, after.todos, s.cards[i].id, f);
    }
}

/// Deleting a card keeps the store consistent.
pub proof fn lemma_deletion_keeps_consistent(s: StoreView, card_id: Seq<char>)
    requires
        s.consistent(),
    ensures
        s.execute(deletion_batch(card_id)).consistent(),
{
    let batch = deletion_batch(card_id);
    lemma_apply_all_two(s, batch[0], batch[1]);
    assert(batch =~= seq![batch[0], batch[1]]);
    let after = s.execute(batch);
    assert(after.cards == s.cards.filter(not_card(card_id)));
    assert(after.todos == s.todos.filter(not_of_card(card_id)));
    assert forall|i: int| 0 <= i < after.todos.len() implies after.has_card(
        (#[trigger] after.todos[i]).card_id,
    ) by {
        lemma_filter_member(s.todos, not_of_card(card_id), i);
        let j = choose|j: int| 0 <= j < s.todos.len() && s.todos[j] == after.todos[i];
        assert(s.has_card(s.todos[j].card_id));
        let k = choose|k: int|
            0 <= k < s.cards.len() && (#[trigger] s.cards[k]).id == s.todos[j].card_id;
        lemma_filter_keeps(s.cards, not_card(card_id), k);
        let m = choose|m: int| 0 <= m < after.cards.len() && after.cards[m] == s.cards[k];
        assert(after.cards[m].id == after.todos[i].card_id);
    }
    assert forall|i: int| 0 <= i < after.cards.len() implies rows_of_card(
        after.todos,
        (#[trigger] after.cards[i]).id,
    ).len() == N_TODOS by {
        lemma_filter_member(s.cards, not_card(card_id), i);
        let other = after.cards[i].id;
        let k = choose|k: int| 0 <= k < s.cards.len() && s.cards[k] == after.cards[i];
        assert(rows_of_card(s.todos, s.cards[k].id).len() == N_TODOS);
        lemma_filter_narrower(s.todos, not_of_card(card_id), of_card(other));
    }
}

} // verus!
