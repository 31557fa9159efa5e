//! What holds of the card service as a whole: facts that relate several
//! endpoints, stated over the mathematical description of the store.

use vstd::prelude::*;
use crate::api::{blank_card, creation_batch, deletion_batch};
use crate::effects::{
    created_card, created_rows, lemma_assembled_insert, lemma_consistent_store_lists,
    lemma_created_card_is_blank, lemma_creation_effect, lemma_creation_keeps_consistent,
    lemma_creation_keeps_other_rows, lemma_creation_records, lemma_listed_cards_keep_rows,
    lemma_no_rows_without_card, lemma_slot_rows_of_store, lemma_update_effect,
    lemma_update_is_local, lemma_update_records, listing_position, relisted,
};
use crate::models::{N_TODOS, UpdateCardView};
use crate::order::{lemma_stable_order_covers, lemma_stable_order_sorted, stable_order};
use crate::reconcile::{
    all_full_slates, distinct_row_ids, has_full_slate, lemma_ascending_rows_are_determined,
    lemma_slot_rows_ascend, lemma_slot_rows_members, lemma_slot_updates_empty, of_card,
    paired_slots, rows_of_card, slot_differs, slot_rows, slots_of_rows, update_plan, TodoRowView,
};
use crate::sequences::{
    lemma_filter_keeps, lemma_filter_member, lemma_filter_narrower, lemma_filter_none,
    lemma_filter_push, lemma_filter_same,
};
use crate::statements::StatementView;
use crate::store::{
    creation_times, lemma_apply_all_keeps_wf, lemma_apply_all_two, not_card, not_of_card, owned_by,
    record_of, StoreView,
};

verus! {

/// The slot order of a card does not depend on the order in which its rows
/// are fetched: two fetches that hold the same rows, each row once, put
/// them in the same slots.
pub proof fn law_slot_order_ignores_fetch_order(
    first: Seq<TodoRowView>,
    second: Seq<TodoRowView>,
    card_id: Seq<char>,
)
    requires
        distinct_row_ids(first),
        distinct_row_ids(second),
        forall|row: TodoRowView| first.contains(row) <==> second.contains(row),
    ensures
        slot_rows(first, card_id) == slot_rows(second, card_id),
{
    lemma_slot_rows_ascend(first, card_id);
    lemma_slot_rows_ascend(second, card_id);
    assert forall|row: TodoRowView|
        slot_rows(first, card_id).contains(row) <==> slot_rows(second, card_id).contains(row) by {
        lemma_slot_rows_members(first, card_id, row);
        lemma_slot_rows_members(second, card_id, row);
    }
    lemma_ascending_rows_are_determined(slot_rows(first, card_id), slot_rows(second, card_id));
}

/// In a store, the slot order of a card is the order in which its rows were
/// inserted.
pub proof fn law_slot_order_is_insertion_order(s: StoreView, card_id: Seq<char>)
    requires
        s.wf(),
    ensures
        slot_rows(s.todos, card_id) == rows_of_card(s.todos, card_id),
{
    lemma_slot_rows_of_store(s, card_id);
}

/// Creating a card adds exactly the new card, with a full slate of blank
/// slots, to the listing of its owner, behind the cards that are not
/// younger; the cards that were listed before are listed as before.
pub proof fn law_created_card_joins_listing(
    s: StoreView,
    user_id: Seq<char>,
    card_id: Seq<char>,
    now: u64,
)
    requires
        s.wf(),
        s.consistent(),
        s.apply_all(creation_batch(card_id, user_id, now)) is Ok,
    ensures
        0 <= listing_position(s, user_id, now) <= s.list(user_id).len(),
        s.execute(creation_batch(card_id, user_id, now)).list(user_id) == s.list(user_id).insert(
            listing_position(s, user_id, now),
            blank_card(card_id),
        ),
{
    let card = created_card(user_id, card_id, now);
    let fresh = created_rows(s, card_id);
    let at = listing_position(s, user_id, now);
    lemma_creation_effect(s, user_id, card_id, now);
    lemma_creation_records(s, user_id, card_id, now);
    lemma_no_rows_without_card(s, card_id);
    lemma_created_card_is_blank(s, user_id, card_id, now);
    lemma_listed_cards_keep_rows(s, user_id, card_id);
    lemma_assembled_insert(s.records_of(user_id), s.todos, s.todos + fresh, at, record_of(card));
}

/// Creating a card for a user who has none, then listing that user's cards,
/// shows exactly one card: the new one, with a full slate of blank slots.
/// The listing succeeds.
pub proof fn law_first_card_is_listed_blank(
    s: StoreView,
    user_id: Seq<char>,
    card_id: Seq<char>,
    now: u64,
)
    requires
        s.wf(),
        s.consistent(),
        s.cards_of(user_id).len() == 0,
        s.apply_all(creation_batch(card_id, user_id, now)) is Ok,
    ensures
        ({
            let after = s.execute(creation_batch(card_id, user_id, now));
            &&& all_full_slates(after.records_of(user_id), after.todos)
            &&& after.list(user_id) == seq![blank_card(card_id)]
        }),
{
    law_created_card_joins_listing(s, user_id, card_id, now);
    assert(s.list(user_id).insert(0, blank_card(card_id)) =~= seq![blank_card(card_id)]);
    lemma_creation_keeps_consistent(s, user_id, card_id, now);
    lemma_consistent_store_lists(s.execute(creation_batch(card_id, user_id, now)), user_id);
}

/// Creating a card changes the listing of no other user.
pub proof fn law_created_card_is_private(
    s: StoreView,
    user_id: Seq<char>,
    card_id: Seq<char>,
    now: u64,
    other_user: Seq<char>,
)
    requires
        s.apply_all(creation_batch(card_id, user_id, now)) is Ok,
        other_user != user_id,
    ensures
        s.execute(creation_batch(card_id, user_id, now)).list(other_user) == s.list(other_user),
{
    let after = s.execute(creation_batch(card_id, user_id, now));
    let card = created_card(user_id, card_id, now);
    lemma_creation_effect(s, user_id, card_id, now);
    lemma_filter_push(s.cards, owned_by(other_user), card);
    assert(after.cards_of(other_user) == s.cards_of(other_user));
    let own = s.cards_of(other_user);
    let order = stable_order(creation_times(own));
    lemma_stable_order_sorted(creation_times(own));
    let records = s.records_of(other_user);
    assert(after.records_of(other_user) == records);
    assert(after.list(other_user) =~= s.list(other_user)) by {
        assert forall|k: int| 0 <= k < records.len() implies after.list(other_user)[k] == s.list(
            other_user,
        )[k] by {
            let o = order[k];
            lemma_filter_member(s.cards, owned_by(other_user), o);
            assert(records[k].id != card_id);
            lemma_creation_keeps_other_rows(s, card_id, records[k].id);
        }
    }
}

/// Every card of a user is in the user's listing.
pub proof fn law_every_card_is_listed(s: StoreView, user_id: Seq<char>, i: int)
    requires
        0 <= i < s.cards.len(),
        s.cards[i].user_id == user_id,
    ensures
        s.list(user_id).len() == s.cards_of(user_id).len(),
        exists|k: int| 0 <= k < s.list(user_id).len() && s.list(user_id)[k].id == s.cards[i].id,
{
    let own = s.cards_of(user_id);
    let order = stable_order(creation_times(own));
    lemma_stable_order_sorted(creation_times(own));
    lemma_filter_keeps(s.cards, owned_by(user_id), i);
    let j = choose|j: int| 0 <= j < own.len() && own[j] == s.cards[i];
    lemma_stable_order_covers(creation_times(own), j);
    let k = choose|k: int| 0 <= k < order.len() && order[k] == j;
    assert(s.list(user_id)[k].id == s.cards[i].id);
}

/// Submitting the same update twice changes nothing the second time: after
/// a card has been brought in line with a request, the plan for the same
/// request is empty, whatever the time.
pub proof fn law_update_is_idempotent(
    s: StoreView,
    card_id: Seq<char>,
    req: UpdateCardView,
    now: u64,
    later: u64,
)
    requires
        s.wf(),
        s.has_card(card_id),
    ensures
        s.apply_all(update_plan(card_id, s.card(card_id).title, s.todos, req, now)) is Ok,
        ({
            let after = s.execute(update_plan(card_id, s.card(card_id).title, s.todos, req, now));
            &&& after.has_card(card_id)
            &&& update_plan(card_id, after.card(card_id).title, after.todos, req, later)
                == Seq::<StatementView>::empty()
            &&& after.execute(
                update_plan(card_id, after.card(card_id).title, after.todos, req, later),
            ) == after
        }),
{
    lemma_update_effect(s, card_id, req, now);
    let after = s.execute(update_plan(card_id, s.card(card_id).title, s.todos, req, now));
    let rows_after = slot_rows(after.todos, card_id);
    lemma_slot_updates_empty(rows_after, req.todos, later, paired_slots(rows_after, req.todos));
    assert(update_plan(card_id, after.card(card_id).title, after.todos, req, later)
        =~= Seq::<StatementView>::empty());
}

/// After an update, the card shows what was submitted: its title is the
/// submitted title and its slate, slot by slot, the submitted slate.
pub proof fn law_updated_card_shows_request(
    s: StoreView,
    card_id: Seq<char>,
    req: UpdateCardView,
    now: u64,
)
    requires
        s.wf(),
        s.has_card(card_id),
        has_full_slate(s.todos, card_id),
        req.todos.len() == N_TODOS,
    ensures
        ({
            let after = s.execute(update_plan(card_id, s.card(card_id).title, s.todos, req, now));
            &&& after.card(card_id).title == req.title
            &&& has_full_slate(after.todos, card_id)
            &&& slots_of_rows(slot_rows(after.todos, card_id)) == req.todos
        }),
{
    lemma_update_effect(s, card_id, req, now);
    lemma_slot_rows_of_store(s, card_id);
    let after = s.execute(update_plan(card_id, s.card(card_id).title, s.todos, req, now));
    lemma_slot_rows_of_store(after, card_id);
    let rows_after = slot_rows(after.todos, card_id);
    assert forall|i: int| 0 <= i < N_TODOS implies slots_of_rows(rows_after)[i] == req.todos[i] by {
        assert(!slot_differs(rows_after[i], req.todos[i]));
    }
    assert(slots_of_rows(rows_after) =~= req.todos);
}

/// After an update, the listing of a user shows the updated card with the
/// submitted title and slate, and every other card as before, in the same
/// order.
pub proof fn law_updated_card_is_listed(
    s: StoreView,
    user_id: Seq<char>,
    card_id: Seq<char>,
    req: UpdateCardView,
    now: u64,
)
    requires
        s.wf(),
        s.consistent(),
        s.has_card(card_id),
        req.todos.len() == N_TODOS,
    ensures
        ({
            let after = s.execute(update_plan(card_id, s.card(card_id).title, s.todos, req, now));
            &&& after.list(user_id).len() == s.list(user_id).len()
            &&& forall|k: int|
                0 <= k < s.list(user_id).len() ==> #[trigger] after.list(user_id)[k] == relisted(
                    s.list(user_id)[k],
                    card_id,
                    req,
                )
        }),
{
    let after = s.execute(update_plan(card_id, s.card(card_id).title, s.todos, req, now));
    lemma_update_records(s, user_id, card_id, req, now);
    let i = choose|i: int| 0 <= i < s.cards.len() && (#[trigger] s.cards[i]).id == card_id;
    assert(has_full_slate(s.todos, s.cards[i].id));
    law_updated_card_shows_request(s, card_id, req, now);
    let records = s.records_of(user_id);
    assert forall|k: int| 0 <= k < s.list(user_id).len() implies #[trigger] after.list(user_id)[k]
        == relisted(s.list(user_id)[k], card_id, req) by {
        if records[k].id != card_id {
            law_update_leaves_other_cards(s, card_id, req, now, records[k].id);
        }
    }
}

/// An update changes nothing of another card: not its row and not one of
/// its todo rows.
pub proof fn law_update_leaves_other_cards(
    s: StoreView,
    card_id: Seq<char>,
    req: UpdateCardView,
    now: u64,
    other: Seq<char>,
)
    requires
        s.wf(),
        s.has_card(card_id),
        other != card_id,
    ensures
        ({
            let after = s.execute(update_plan(card_id, s.card(card_id).title, s.todos, req, now));
            &&& after.has_card(other) == s.has_card(other)
            &&& s.has_card(other) ==> after.card(other) == s.card(other)
            &&& rows_of_card(after.todos, other) == rows_of_card(s.todos, other)
        }),
{
    let after = s.execute(update_plan(card_id, s.card(card_id).title, s.todos, req, now));
    lemma_update_is_local(s, card_id, req, now);
    lemma_update_effect(s, card_id, req, now);
    if s.has_card(other) {
        let i = choose|i: int| 0 <= i < s.cards.len() && (#[trigger] s.cards[i]).id == other;
        assert(after.cards[i] == s.cards[i]);
        let k = choose|k: int| 0 <= k < after.cards.len() && (#[trigger] after.cards[k]).id == other;
        if k != i {
            assert(after.cards[k].id == after.cards[i].id);
        }
    } else if after.has_card(other) {
        let k = choose|k: int| 0 <= k < after.cards.len() && (#[trigger] after.cards[k]).id == other;
        assert(s.cards[k].id == other);
    }
    assert forall|j: int| 0 <= j < s.todos.len() implies of_card(other)(#[trigger] s.todos[j])
        == of_card(other)(after.todos[j]) by {}
    assert forall|j: int|
        0 <= j < s.todos.len() && of_card(other)(s.todos[j]) implies #[trigger] s.todos[j]
        == after.todos[j] by {}
    lemma_filter_same(s.todos, after.todos, of_card(other));
}

/// After a card is deleted, the card is gone, none of its todo rows is
/// left, and no listing, of any user, shows a card with its identifier.
pub proof fn law_deleted_card_is_gone(s: StoreView, card_id: Seq<char>, user_id: Seq<char>)
    requires
        s.wf(),
    ensures
        s.apply_all(deletion_batch(card_id)) is Ok,
        ({
            let after = s.execute(deletion_batch(card_id));
            &&& !after.has_card(card_id)
            &&& rows_of_card(after.todos, card_id).len() == 0
            &&& forall|i: int|
                0 <= i < after.list(user_id).len() ==> (#[trigger] after.list(user_id)[i]).id
                    != card_id
        }),
{
    let batch = deletion_batch(card_id);
    lemma_apply_all_two(s, batch[0], batch[1]);
    assert(batch =~= seq![batch[0], batch[1]]);
    let after = s.execute(batch);
    assert(after.cards == s.cards.filter(not_card(card_id)));
    assert(after.todos == s.todos.filter(not_of_card(card_id)));
    assert forall|i: int| 0 <= i < after.cards.len() implies (#[trigger] after.cards[i]).id
        != card_id by {
        lemma_filter_member(s.cards, not_card(card_id), i);
    }
    assert forall|i: int| 0 <= i < after.todos.len() implies !of_card(card_id)(
        #[trigger] after.todos[i],
    ) by {
        lemma_filter_member(s.todos, not_of_card(card_id), i);
    }
    lemma_filter_none(after.todos, of_card(card_id));
    let own = after.cards_of(user_id);
    let order = stable_order(creation_times(own));
    lemma_stable_order_sorted(creation_times(own));
    assert forall|i: int| 0 <= i < after.list(user_id).len() implies (#[trigger] after.list(
        user_id,
    )[i]).id != card_id by {
        let k = order[i];
        assert(0 <= k < own.len());
        lemma_filter_member(after.cards, owned_by(user_id), k);
    }
}

/// Deleting a card changes nothing of another card: not its row and not one
/// of its todo rows.
pub proof fn law_deletion_leaves_other_cards(s: StoreView, card_id: Seq<char>, other: Seq<char>)
    requires
        s.wf(),
        other != card_id,
    ensures
        ({
            let after = s.execute(deletion_batch(card_id));
            &&& after.has_card(other) == s.has_card(other)
            &&& s.has_card(other) ==> after.card(other) == s.card(other)
            &&& rows_of_card(after.todos, other) == rows_of_card(s.todos, other)
        }),
{
    let batch = deletion_batch(card_id);
    lemma_apply_all_two(s, batch[0], batch[1]);
    assert(batch =~= seq![batch[0], batch[1]]);
    let after = s.execute(batch);
    lemma_apply_all_keeps_wf(s, batch);
    assert(after.cards == s.cards.filter(not_card(card_id)));
    assert(after.todos == s.todos.filter(not_of_card(card_id)));
    lemma_filter_narrower(s.todos, not_of_card(card_id), of_card(other));
    if s.has_card(other) {
        let i = choose|i: int| 0 <= i < s.cards.len() && (#[trigger] s.cards[i]).id == other;
        lemma_filter_keeps(s.cards, not_card(card_id), i);
        let k = choose|k: int| 0 <= k < after.cards.len() && after.cards[k] == s.cards[i];
        assert(after.cards[k].id == other);
        let k2 = choose|k: int| 0 <= k < after.cards.len() && (#[trigger] after.cards[k]).id == other;
        if k2 != k {
            assert(after.cards[k2].id == after.cards[k].id);
        }
    } else if after.has_card(other) {
        let k = choose|k: int| 0 <= k < after.cards.len() && (#[trigger] after.cards[k]).id == other;
        lemma_filter_member(s.cards, not_card(card_id), k);
    }
}

/// Deleting a card takes no other card out of a listing: every other card
/// that was listed is still listed, and shows what it showed.
pub proof fn law_deletion_keeps_other_cards_listed(
    s: StoreView,
    card_id: Seq<char>,
    user_id: Seq<char>,
    k: int,
)
    requires
        s.wf(),
        0 <= k < s.list(user_id).len(),
        s.list(user_id)[k].id != card_id,
    ensures
        s.execute(deletion_batch(card_id)).list(user_id).contains(s.list(user_id)[k]),
{
    let after = s.execute(deletion_batch(card_id));
    let batch = deletion_batch(card_id);
    lemma_apply_all_two(s, batch[0], batch[1]);
    assert(batch =~= seq![batch[0], batch[1]]);
    assert(after.cards == s.cards.filter(not_card(card_id)));

    // The card behind the listed entry is a card of the user, before and after.
    let own = s.cards_of(user_id);
    let order = stable_order(creation_times(own));
    lemma_stable_order_sorted(creation_times(own));
    let card = own[order[k]];
    lemma_filter_member(s.cards, owned_by(user_id), order[k]);
    let i = choose|i: int| 0 <= i < s.cards.len() && s.cards[i] == card;
    lemma_filter_keeps(s.cards, not_card(card_id), i);
    let m = choose|m: int| 0 <= m < after.cards.len() && after.cards[m] == card;
    lemma_filter_keeps(after.cards, owned_by(user_id), m);
    let own_after = after.cards_of(user_id);
    let j = choose|j: int| 0 <= j < own_after.len() && own_after[j] == card;

    // It has a place in the listing, with the rows it had.
    let order_after = stable_order(creation_times(own_after));
    lemma_stable_order_covers(creation_times(own_after), j);
    let at = choose|at: int| 0 <= at < order_after.len() && order_after[at] == j;
    law_deletion_leaves_other_cards(s, card_id, card.id);
    assert(after.list(user_id)[at] == s.list(user_id)[k]);
}

} // verus!
