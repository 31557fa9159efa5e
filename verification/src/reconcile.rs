//! Reconciliation between the flat todo rows of the store and the fixed
//! slate of slots that a card presents.
//!
//! A todo row carries no slot number. The slot order of a card is the order
//! of its rows by row identifier, which is the order in which the rows were
//! inserted when the card was created. Both directions use that one order:
//! reading assembles a card's slate from its rows, writing compares the
//! submitted slate with the rows slot by slot and emits an update for each
//! slot that differs.

use vstd::prelude::*;
use crate::auth::unix_timestamp;
use crate::errors::{ServerError, StorageFault};
use crate::models::{
    cards_view, slots_view, Card, CardView, Todo, TodoView, UpdateCard, UpdateCardView, N_TODOS,
    blank_slate,
};
use crate::order::{arranged, order_by_key, positions, stable_order};
use crate::sequences::lemma_filter_step;
use crate::statements::{batch_view, Statement, StatementView};

verus! {

/// Mathematical value of a [`CardRecord`].
pub struct CardRecordView {
    pub id: Seq<char>,
    pub title: Seq<char>,
}

/// What the store returns of a card when cards are listed.
#[derive(Debug)]
pub struct CardRecord {
    pub id: String,
    pub title: String,
}

impl View for CardRecord {
    type V = CardRecordView;

    open spec fn view(&self) -> CardRecordView {
        CardRecordView { id: self.id@, title: self.title@ }
    }
}

impl Clone for CardRecord {
    fn clone(&self) -> (r: Self)
        ensures
            r == *self,
    {
        CardRecord { id: self.id.clone(), title: self.title.clone() }
    }
}

/// Mathematical value of a [`TodoRow`].
pub struct TodoRowView {
    pub id: u64,
    pub card_id: Seq<char>,
    pub content: Seq<char>,
    pub completed_at: Option<u64>,
}

/// A todo row as the store holds it.
#[derive(Debug)]
pub struct TodoRow {
    pub id: u64,
    pub card_id: String,
    pub content: String,
    pub completed_at: Option<u64>,
}

impl View for TodoRow {
    type V = TodoRowView;

    open spec fn view(&self) -> TodoRowView {
        TodoRowView {
            id: self.id,
            card_id: self.card_id@,
            content: self.content@,
            completed_at: self.completed_at,
        }
    }
}

impl Clone for TodoRow {
    fn clone(&self) -> (r: Self)
        ensures
            r == *self,
    {
        TodoRow {
            id: self.id,
            card_id: self.card_id.clone(),
            content: self.content.clone(),
            completed_at: self.completed_at,
        }
    }
}

/// Views of a list of card records, element by element.
pub open spec fn records_view(records: Seq<CardRecord>) -> Seq<CardRecordView> {
    Seq::new(records.len(), |i: int| records[i]@)
}

/// Views of a list of todo rows, element by element.
pub open spec fn rows_view(rows: Seq<TodoRow>) -> Seq<TodoRowView> {
    Seq::new(rows.len(), |i: int| rows[i]@)
}

/// The rows that belong to the card `card_id`.
pub open spec fn of_card(card_id: Seq<char>) -> spec_fn(TodoRowView) -> bool {
    |row: TodoRowView| row.card_id == card_id
}

/// The rows of a card, in the order in which they were fetched.
pub open spec fn rows_of_card(rows: Seq<TodoRowView>, card_id: Seq<char>) -> Seq<TodoRowView> {
    rows.filter(of_card(card_id))
}

/// The identifiers of a list of rows.
pub open spec fn row_ids(rows: Seq<TodoRowView>) -> Seq<u64> {
    Seq::new(rows.len(), |i: int| rows[i].id)
}

/// The rows of a card in slot order: ascending by row identifier.
pub open spec fn slot_rows(rows: Seq<TodoRowView>, card_id: Seq<char>) -> Seq<TodoRowView> {
    let own = rows_of_card(rows, card_id);
    arranged(own, stable_order(row_ids(own)))
}

/// What a row shows in its slot: its content, and completed exactly if a
/// completion time is recorded.
pub open spec fn slot_of_row(row: TodoRowView) -> TodoView {
    TodoView { content: row.content, completed: row.completed_at is Some }
}

/// What a list of rows shows, row by row.
pub open spec fn slots_of_rows(rows: Seq<TodoRowView>) -> Seq<TodoView> {
    Seq::new(rows.len(), |i: int| slot_of_row(rows[i]))
}

/// The card has exactly one row per slot.
pub open spec fn has_full_slate(rows: Seq<TodoRowView>, card_id: Seq<char>) -> bool {
    rows_of_card(rows, card_id).len() == N_TODOS
}

/// Every listed card has exactly one row per slot.
pub open spec fn all_full_slates(records: Seq<CardRecordView>, rows: Seq<TodoRowView>) -> bool {
    forall|i: int| 0 <= i < records.len() ==> has_full_slate(rows, (#[trigger] records[i]).id)
}

/// The card that a record and the fetched rows describe.
pub open spec fn assembled_card(record: CardRecordView, rows: Seq<TodoRowView>) -> CardView {
    CardView {
        id: record.id,
        title: record.title,
        todos: slots_of_rows(slot_rows(rows, record.id)),
    }
}

/// The cards that the records and the fetched rows describe, in the order
/// of the records.
pub open spec fn assembled(records: Seq<CardRecordView>, rows: Seq<TodoRowView>) -> Seq<CardView> {
    Seq::new(records.len(), |i: int| assembled_card(records[i], rows))
}

/// The positions in `rows` of the rows of a card, in slot order.
pub fn slot_positions(rows: &Vec<TodoRow>, card_id: &str) -> (picked: Vec<usize>)
    ensures
        picked.len() == rows_of_card(rows_view(rows@), card_id@).len(),
        forall|k: int| 0 <= k < picked.len() ==> #[trigger] picked[k] < rows.len(),
        arranged(rows_view(rows@), positions(picked@)) == slot_rows(rows_view(rows@), card_id@),
{
    let ghost all = rows_view(rows@);
    let wanted = card_id.to_owned();
    let mut own: Vec<usize> = Vec::new();
    let mut ids: Vec<u64> = Vec::new();
    let mut i: usize = 0;
    assert(all.take(0).filter(of_card(card_id@)) =~= Seq::<TodoRowView>::empty()) by {
        reveal(Seq::filter);
    }
    assert(arranged(all, positions(own@)) =~= rows_of_card(all.take(0), card_id@));
    assert(ids@ =~= row_ids(rows_of_card(all.take(0), card_id@)));
    while i < rows.len()
        invariant
            i <= rows.len(),
            all == rows_view(rows@),
            wanted@ == card_id@,
            forall|k: int| 0 <= k < own.len() ==> #[trigger] own[k] < rows.len(),
            arranged(all, positions(own@)) == rows_of_card(all.take(i as int), card_id@),
            ids@ == row_ids(rows_of_card(all.take(i as int), card_id@)),
        decreases rows.len() - i,
    {
        proof {
            lemma_filter_step(all, of_card(card_id@), i as int);
        }
        if rows[i].card_id == wanted {
            let ghost before = arranged(all, positions(own@));
            own.push(i);
            ids.push(rows[i].id);
            assert(arranged(all, positions(own@)) =~= before.push(all[i as int]));
            assert(ids@ =~= row_ids(before.push(all[i as int])));
        }
        i += 1;
    }
    assert(all.take(i as int) =~= all);
    let ghost own_rows = rows_of_card(all, card_id@);
    let order = order_by_key(&ids);
    let mut picked: Vec<usize> = Vec::new();
    let mut j: usize = 0;
    while j < order.len()
        invariant
            j <= order.len(),
            order.len() == own.len(),
            picked.len() == j,
            positions(order@) == stable_order(ids@),
            forall|k: int| 0 <= k < order.len() ==> #[trigger] order[k] < ids.len(),
            own.len() == ids.len(),
            forall|k: int| 0 <= k < own.len() ==> #[trigger] own[k] < rows.len(),
            forall|k: int| 0 <= k < j ==> #[trigger] picked[k] == own[order[k] as int],
        decreases order.len() - j,
    {
        assert(positions(order@)[j as int] == order[j as int]);
        picked.push(own[order[j]]);
        j += 1;
    }
    assert(arranged(all, positions(picked@)) =~= arranged(own_rows, stable_order(row_ids(own_rows))))
        by {
        let target = arranged(own_rows, stable_order(row_ids(own_rows)));
        assert forall|k: int| 0 <= k < picked.len() implies arranged(all, positions(picked@))[k]
            == target[k] by {
            let o = order[k] as int;
            assert(positions(order@)[k] == o);
            assert(arranged(all, positions(own@))[o] == all[own[o] as int]);
        }
    }
    picked
}

/// Builds the slate that the rows at the given positions show.
fn slate_of(rows: &Vec<TodoRow>, picked: &Vec<usize>) -> (slate: [Todo; N_TODOS])
    requires
        picked.len() == N_TODOS,
        forall|k: int| 0 <= k < picked.len() ==> #[trigger] picked[k] < rows.len(),
    ensures
        slots_view(slate@) == slots_of_rows(arranged(rows_view(rows@), positions(picked@))),
{
    let mut slate = blank_slate();
    let mut j: usize = 0;
    while j < N_TODOS
        invariant
            j <= N_TODOS,
            picked.len() == N_TODOS,
            forall|k: int| 0 <= k < picked.len() ==> #[trigger] picked[k] < rows.len(),
            forall|k: int| 0 <= k < j ==> (#[trigger] slate@[k])@ == slot_of_row(rows@[picked@[k] as int]@),
        decreases N_TODOS - j,
    {
        let row = &rows[picked[j]];
        slate[j] = Todo { content: row.content.clone(), completed: row.completed_at.is_some() };
        j += 1;
    }
    assert(slots_view(slate@) =~= slots_of_rows(arranged(rows_view(rows@), positions(picked@))));
    slate
}

/// Assembles the cards of a listing from the card records, in their order,
/// and the todo rows fetched for them, in any order.
///
/// Each card gets the rows that carry its identifier, arranged by row
/// identifier. The listing fails, rather than return a card with a short or
/// long slate, as soon as one card does not have exactly one row per slot.
pub fn assemble_cards(records: &Vec<CardRecord>, rows: &Vec<TodoRow>) -> (res: Result<
    Vec<Card>,
    ServerError,
>)
    ensures
        match res {
            Ok(cards) => {
                &&& all_full_slates(records_view(records@), rows_view(rows@))
                &&& cards_view(cards@) == assembled(records_view(records@), rows_view(rows@))
            },
            Err(e) => {
                &&& !all_full_slates(records_view(records@), rows_view(rows@))
                &&& e == (ServerError::Storage { fault: StorageFault::SlotCountMismatch })
            },
        },
{
    let ghost recs = records_view(records@);
    let ghost all = rows_view(rows@);
    let mut cards: Vec<Card> = Vec::new();
    let mut i: usize = 0;
    while i < records.len()
        invariant
            i <= records.len(),
            recs == records_view(records@),
            all == rows_view(rows@),
            cards.len() == i,
            forall|k: int| 0 <= k < i ==> has_full_slate(all, (#[trigger] recs[k]).id),
            forall|k: int| 0 <= k < i ==> (#[trigger] cards[k])@ == assembled_card(recs[k], all),
        decreases records.len() - i,
    {
        let record = &records[i];
        assert(recs[i as int] == record@);
        let picked = slot_positions(rows, record.id.as_str());
        if picked.len() != N_TODOS {
            return Err(ServerError::Storage { fault: StorageFault::SlotCountMismatch });
        }
        let slate = slate_of(rows, &picked);
        cards.push(Card { id: record.id.clone(), title: record.title.clone(), todos: slate });
        i += 1;
    }
    assert(cards_view(cards@) =~= assembled(recs, all));
    Ok(cards)
}

/// The stored row and the submitted slot disagree, in content or in whether
/// they are completed. The time of completion plays no part.
pub open spec fn slot_differs(row: TodoRowView, todo: TodoView) -> bool {
    row.content != todo.content || (row.completed_at is Some) != todo.completed
}

/// The update that brings a row in line with a submitted slot: the new
/// content, and the time `now` as completion time if the slot is completed,
/// none otherwise.
pub open spec fn slot_update(row: TodoRowView, todo: TodoView, now: u64) -> StatementView {
    StatementView::UpdateTodo {
        row_id: row.id,
        content: todo.content,
        completed_at: if todo.completed {
            Some(now)
        } else {
            None
        },
    }
}

/// The updates for the first `n` slots: one for each slot that differs, in
/// slot order.
pub open spec fn slot_updates_upto(
    rows: Seq<TodoRowView>,
    todos: Seq<TodoView>,
    now: u64,
    n: nat,
) -> Seq<StatementView>
    decreases n,
{
    if n == 0 {
        Seq::empty()
    } else {
        let front = slot_updates_upto(rows, todos, now, (n - 1) as nat);
        if slot_differs(rows[n - 1], todos[n - 1]) {
            front.push(slot_update(rows[n - 1], todos[n - 1], now))
        } else {
            front
        }
    }
}

/// How many slots the stored rows and the submitted slate have in common.
pub open spec fn paired_slots(rows: Seq<TodoRowView>, todos: Seq<TodoView>) -> nat {
    if rows.len() <= todos.len() {
        rows.len()
    } else {
        todos.len()
    }
}

/// The updates that bring rows, given in slot order, in line with a
/// submitted slate: one for each slot that differs, in slot order.
pub open spec fn slot_updates(rows: Seq<TodoRowView>, todos: Seq<TodoView>, now: u64) -> Seq<
    StatementView,
> {
    slot_updates_upto(rows, todos, now, paired_slots(rows, todos))
}

/// The batch that brings a card in line with an update request: the new
/// title if it differs from the current one, then the slot updates.
pub open spec fn update_plan(
    card_id: Seq<char>,
    current_title: Seq<char>,
    rows: Seq<TodoRowView>,
    req: UpdateCardView,
    now: u64,
) -> Seq<StatementView> {
    let title_update = if current_title != req.title {
        seq![StatementView::UpdateCardTitle { card_id, title: req.title }]
    } else {
        Seq::empty()
    };
    title_update + slot_updates(slot_rows(rows, card_id), req.todos, now)
}

/// Compares stored rows, given in slot order, with a submitted slate and
/// returns an update for each slot that differs.
pub fn diff_slots(rows: &Vec<TodoRow>, todos: &[Todo], now: u64) -> (updates: Vec<Statement>)
    ensures
        batch_view(updates@) == slot_updates(rows_view(rows@), slots_view(todos@), now),
{
    let n = if rows.len() <= todos.len() {
        rows.len()
    } else {
        todos.len()
    };
    let mut updates: Vec<Statement> = Vec::new();
    let mut i: usize = 0;
    assert(batch_view(updates@) =~= slot_updates_upto(
        rows_view(rows@),
        slots_view(todos@),
        now,
        0,
    ));
    while i < n
        invariant
            i <= n,
            n == paired_slots(rows_view(rows@), slots_view(todos@)),
            n <= rows.len(),
            n <= todos.len(),
            batch_view(updates@) == slot_updates_upto(
                rows_view(rows@),
                slots_view(todos@),
                now,
                i as nat,
            ),
        decreases n - i,
    {
        let row = &rows[i];
        let todo = &todos[i];
        assert(rows_view(rows@)[i as int] == row@);
        assert(slots_view(todos@)[i as int] == todo@);
        if row.content != todo.content || row.completed_at.is_some() != todo.completed {
            let ghost before = batch_view(updates@);
            updates.push(
                Statement::UpdateTodo {
                    row_id: row.id,
                    content: todo.content.clone(),
                    completed_at: if todo.completed {
                        Some(now)
                    } else {
                        None
                    },
                },
            );
            assert(batch_view(updates@) =~= before.push(slot_update(row@, todo@, now)));
        }
        i += 1;
    }
    updates
}

/// Copies the rows at the given positions, in that order.
fn rows_at(rows: &Vec<TodoRow>, picked: &Vec<usize>) -> (out: Vec<TodoRow>)
    requires
        forall|k: int| 0 <= k < picked.len() ==> #[trigger] picked[k] < rows.len(),
    ensures
        rows_view(out@) == arranged(rows_view(rows@), positions(picked@)),
{
    let mut out: Vec<TodoRow> = Vec::new();
    let mut j: usize = 0;
    while j < picked.len()
        invariant
            j <= picked.len(),
            out.len() == j,
            forall|k: int| 0 <= k < picked.len() ==> #[trigger] picked[k] < rows.len(),
            forall|k: int| 0 <= k < j ==> (#[trigger] out[k])@ == rows@[picked@[k] as int]@,
        decreases picked.len() - j,
    {
        out.push(rows[picked[j]].clone());
        j += 1;
    }
    assert(rows_view(out@) =~= arranged(rows_view(rows@), positions(picked@)));
    out
}

/// Plans the update of a card at time `now`: given its current title and
/// the todo rows fetched for it, in any order, returns the statements that
/// bring the card in line with the request. The batch is empty when nothing
/// differs.
pub fn plan_update_at(
    card_id: &str,
    current_title: &str,
    rows: &Vec<TodoRow>,
    req: &UpdateCard,
    now: u64,
) -> (plan: Vec<Statement>)
    ensures
        batch_view(plan@) == update_plan(
            card_id@,
            current_title@,
            rows_view(rows@),
            req@,
            now,
        ),
{
    let card_id = card_id.to_owned();
    let current_title = current_title.to_owned();
    let mut plan: Vec<Statement> = Vec::new();
    if current_title != req.title {
        plan.push(Statement::UpdateCardTitle { card_id: card_id.clone(), title: req.title.clone() });
    }
    let ghost title_update = batch_view(plan@);
    let picked = slot_positions(rows, card_id.as_str());
    let ordered = rows_at(rows, &picked);
    let mut updates = diff_slots(&ordered, req.todos.as_slice(), now);
    let ghost slot_part = batch_view(updates@);
    plan.append(&mut updates);
    assert(batch_view(plan@) =~= title_update + slot_part);
    assert(title_update =~= if current_title@ != req@.title {
        seq![StatementView::UpdateCardTitle { card_id: card_id@, title: req@.title }]
    } else {
        Seq::empty()
    });
    plan
}

/// Plans the update of a card now: as [`plan_update_at`], with the time
/// read from the clock.
pub fn plan_update(card_id: &str, current_title: &str, rows: &Vec<TodoRow>, req: &UpdateCard) -> (plan:
    Vec<Statement>)
    ensures
        exists|now: u64|
            batch_view(plan@) == update_plan(
                card_id@,
                current_title@,
                rows_view(rows@),
                req@,
                now,
            ),
{
    let now = unix_timestamp();
    plan_update_at(card_id, current_title, rows, req, now)
}

/// No slot differs exactly if the plan for the slots is empty.
pub proof fn lemma_slot_updates_empty(rows: Seq<TodoRowView>, todos: Seq<TodoView>, now: u64, n: nat)
    requires
        n <= rows.len(),
        n <= todos.len(),
    ensures
        slot_updates_upto(rows, todos, now, n).len() == 0 <==> forall|i: int|
            0 <= i < n ==> !slot_differs(#[trigger] rows[i], todos[i]),
        slot_updates_upto(rows, todos, now, n).len() <= n,
    decreases n,
{
    if n > 0 {
        lemma_slot_updates_empty(rows, todos, now, (n - 1) as nat);
        if slot_updates_upto(rows, todos, now, n).len() == 0 {
            assert forall|i: int| 0 <= i < n implies !slot_differs(#[trigger] rows[i], todos[i]) by {
                if i < n - 1 {
                }
            }
        } else if !slot_differs(rows[n - 1], todos[n - 1]) {
            let i = choose|i: int| 0 <= i < n - 1 && slot_differs(#[trigger] rows[i], todos[i]);
            assert(slot_differs(rows[i], todos[i]));
        }
    }
}

/// Every statement of a slot plan rewrites a todo row.
pub proof fn lemma_slot_updates_are_updates(
    rows: Seq<TodoRowView>,
    todos: Seq<TodoView>,
    now: u64,
    n: nat,
)
    ensures
        forall|i: int|
            0 <= i < slot_updates_upto(rows, todos, now, n).len() ==> #[trigger] slot_updates_upto(
                rows,
                todos,
                now,
                n,
            )[i] is UpdateTodo,
    decreases n,
{
    if n > 0 {
        lemma_slot_updates_are_updates(rows, todos, now, (n - 1) as nat);
    }
}

/// Every statement of an update plan replaces a title or rewrites a todo
/// row.
pub proof fn lemma_update_plan_is_updates(
    card_id: Seq<char>,
    current_title: Seq<char>,
    rows: Seq<TodoRowView>,
    req: UpdateCardView,
    now: u64,
)
    ensures
        forall|i: int|
            0 <= i < update_plan(card_id, current_title, rows, req, now).len() ==> {
                let stmt = #[trigger] update_plan(card_id, current_title, rows, req, now)[i];
                stmt is UpdateCardTitle || stmt is UpdateTodo
            },
{
    let slots = slot_rows(rows, card_id);
    lemma_slot_updates_are_updates(slots, req.todos, now, paired_slots(slots, req.todos));
}

/// No two rows have the same identifier.
pub open spec fn distinct_row_ids(rows: Seq<TodoRowView>) -> bool {
    forall|i: int, j: int|
        0 <= i < j < rows.len() ==> (#[trigger] rows[i]).id != (#[trigger] rows[j]).id
}

/// The rows in slot order are exactly the fetched rows of the card.
pub proof fn lemma_slot_rows_members(rows: Seq<TodoRowView>, card_id: Seq<char>, row: TodoRowView)
    ensures
        slot_rows(rows, card_id).contains(row) <==> (rows.contains(row) && row.card_id == card_id),
{
    let own = rows_of_card(rows, card_id);
    let order = stable_order(row_ids(own));
    let slots = slot_rows(rows, card_id);
    crate::order::lemma_stable_order_sorted(row_ids(own));
    if slots.contains(row) {
        let k = choose|k: int| 0 <= k < slots.len() && slots[k] == row;
        crate::sequences::lemma_filter_member(rows, of_card(card_id), order[k]);
    }
    if rows.contains(row) && row.card_id == card_id {
        let i = choose|i: int| 0 <= i < rows.len() && rows[i] == row;
        crate::sequences::lemma_filter_keeps(rows, of_card(card_id), i);
        let j = choose|j: int| 0 <= j < own.len() && own[j] == row;
        crate::order::lemma_stable_order_covers(row_ids(own), j);
        let k = choose|k: int| 0 <= k < order.len() && order[k] == j;
        assert(slots[k] == row);
    }
}

/// Rows with distinct identifiers stand in slot order with strictly
/// ascending identifiers.
pub proof fn lemma_slot_rows_ascend(rows: Seq<TodoRowView>, card_id: Seq<char>)
    requires
        distinct_row_ids(rows),
    ensures
        forall|a: int, b: int|
            0 <= a < b < slot_rows(rows, card_id).len() ==> (#[trigger] slot_rows(
                rows,
                card_id,
            )[a]).id < (#[trigger] slot_rows(rows, card_id)[b]).id,
{
    let own = rows_of_card(rows, card_id);
    let order = stable_order(row_ids(own));
    let slots = slot_rows(rows, card_id);
    crate::order::lemma_stable_order_sorted(row_ids(own));
    assert forall|a: int, b: int| 0 <= a < b < slots.len() implies (#[trigger] slots[a]).id
        < (#[trigger] slots[b]).id by {
        let (x, y) = (order[a], order[b]);
        assert(crate::order::precedes(row_ids(own), x, y));
        if own[x].id == own[y].id {
            crate::sequences::lemma_filter_order(rows, of_card(card_id), x, y);
        }
    }
}

/// Two lists of rows with strictly ascending identifiers that hold the same
/// rows are the same list.
pub proof fn lemma_ascending_rows_are_determined(first: Seq<TodoRowView>, second: Seq<TodoRowView>)
    requires
        forall|a: int, b: int|
            0 <= a < b < first.len() ==> (#[trigger] first[a]).id < (#[trigger] first[b]).id,
        forall|a: int, b: int|
            0 <= a < b < second.len() ==> (#[trigger] second[a]).id < (#[trigger] second[b]).id,
        forall|row: TodoRowView| first.contains(row) <==> second.contains(row),
    ensures
        first == second,
    decreases first.len(),
{
    if first.len() == 0 {
        if second.len() > 0 {
            assert(second.contains(second[0]));
        }
        assert(first =~= second);
    } else {
        let top = first.last();
        assert(first.contains(top)) by {
            assert(first[first.len() - 1] == top);
        }
        let j = choose|j: int| 0 <= j < second.len() && second[j] == top;
        let other_top = second.last();
        assert(second.contains(other_top)) by {
            assert(second[second.len() - 1] == other_top);
        }
        let i = choose|i: int| 0 <= i < first.len() && first[i] == other_top;
        if i < first.len() - 1 {
            assert(first[i].id < first[first.len() - 1].id);
        }
        if j < second.len() - 1 {
            assert(second[j].id < second[second.len() - 1].id);
        }
        assert(j == second.len() - 1);
        let (a, b) = (first.drop_last(), second.drop_last());
        assert forall|row: TodoRowView| a.contains(row) <==> b.contains(row) by {
            if a.contains(row) {
                let k = choose|k: int| 0 <= k < a.len() && a[k] == row;
                assert(first[k] == row && first.contains(row));
                let m = choose|m: int| 0 <= m < second.len() && second[m] == row;
                assert(first[k].id < first[first.len() - 1].id);
                assert(b[m] == row);
            }
            if b.contains(row) {
                let k = choose|k: int| 0 <= k < b.len() && b[k] == row;
                assert(second[k] == row && second.contains(row));
                let m = choose|m: int| 0 <= m < first.len() && first[m] == row;
                assert(second[k].id < second[second.len() - 1].id);
                assert(a[m] == row);
            }
        }
        assert forall|x: int, y: int| 0 <= x < y < a.len() implies (#[trigger] a[x]).id
            < (#[trigger] a[y]).id by {
            assert(a[x] == first[x] && a[y] == first[y]);
        }
        assert forall|x: int, y: int| 0 <= x < y < b.len() implies (#[trigger] b[x]).id
            < (#[trigger] b[y]).id by {
            assert(b[x] == second[x] && b[y] == second[y]);
        }
        lemma_ascending_rows_are_determined(a, b);
        assert(first =~= a.push(top));
        assert(second =~= b.push(top));
    }
}

} // verus!
