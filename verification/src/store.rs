//! The card store: users, cards and todo rows, and what each statement does
//! to them.
//!
//! [`StoreView`] states the meaning of the persisted schema as plain
//! mathematics. [`Store`] keeps the same tables in memory and executes
//! batches of statements atomically; every operation is proved to do what
//! the mathematical description says.

use vstd::prelude::*;
use crate::errors::{ServerError, StorageFault};
use crate::models::{texts_view, CardView};
use crate::order::{arranged, order_by_key, positions, stable_order};
use crate::reconcile::{
    assembled, of_card, rows_of_card, rows_view, CardRecord, CardRecordView, TodoRow, TodoRowView,
};
use crate::sequences::{lemma_filter_member, lemma_filter_order, lemma_filter_step};
use crate::statements::{batch_view, Statement, StatementView};

verus! {

/// Mathematical value of a [`CardRow`].
pub struct CardRowView {
    pub id: Seq<char>,
    pub user_id: Seq<char>,
    pub title: Seq<char>,
    pub created_at: u64,
}

/// A card row as the store holds it.
#[derive(Debug)]
pub struct CardRow {
    pub id: String,
    pub user_id: String,
    pub title: String,
    pub created_at: u64,
}

impl View for CardRow {
    type V = CardRowView;

    open spec fn view(&self) -> CardRowView {
        CardRowView {
            id: self.id@,
            user_id: self.user_id@,
            title: self.title@,
            created_at: self.created_at,
        }
    }
}

impl Clone for CardRow {
    fn clone(&self) -> (r: Self)
        ensures
            r == *self,
    {
        CardRow {
            id: self.id.clone(),
            user_id: self.user_id.clone(),
            title: self.title.clone(),
            created_at: self.created_at,
        }
    }
}

/// Views of a list of card rows, element by element.
pub open spec fn card_rows_view(cards: Seq<CardRow>) -> Seq<CardRowView> {
    Seq::new(cards.len(), |i: int| cards[i]@)
}

/// The cards that belong to `user_id`.
pub open spec fn owned_by(user_id: Seq<char>) -> spec_fn(CardRowView) -> bool {
    |card: CardRowView| card.user_id == user_id
}

/// The cards other than `card_id`.
pub open spec fn not_card(card_id: Seq<char>) -> spec_fn(CardRowView) -> bool {
    |card: CardRowView| card.id != card_id
}

/// The todo rows of cards other than `card_id`.
pub open spec fn not_of_card(card_id: Seq<char>) -> spec_fn(TodoRowView) -> bool {
    |row: TodoRowView| row.card_id != card_id
}

/// The card with a new title if it is the card `card_id`, unchanged
/// otherwise.
pub open spec fn retitled(card: CardRowView, card_id: Seq<char>, title: Seq<char>) -> CardRowView {
    if card.id == card_id {
        CardRowView { title, ..card }
    } else {
        card
    }
}

/// The row with new content and completion time if it is the row `row_id`,
/// unchanged otherwise.
pub open spec fn rewritten(
    row: TodoRowView,
    row_id: u64,
    content: Seq<char>,
    completed_at: Option<u64>,
) -> TodoRowView {
    if row.id == row_id {
        TodoRowView { content, completed_at, ..row }
    } else {
        row
    }
}

/// The rows that a multi-row insert adds: one per content, numbered upwards
/// from `first_id`, none of them completed.
pub open spec fn fresh_rows(card_id: Seq<char>, contents: Seq<Seq<char>>, first_id: u64) -> Seq<
    TodoRowView,
> {
    Seq::new(
        contents.len(),
        |i: int|
            TodoRowView {
                id: (first_id + i) as u64,
                card_id,
                content: contents[i],
                completed_at: None,
            },
    )
}

/// The creation times of a list of cards.
pub open spec fn creation_times(cards: Seq<CardRowView>) -> Seq<u64> {
    Seq::new(cards.len(), |i: int| cards[i].created_at)
}

/// What a listing shows of a card row before its slots are assembled.
pub open spec fn record_of(card: CardRowView) -> CardRecordView {
    CardRecordView { id: card.id, title: card.title }
}

/// What a listing shows of a list of card rows, row by row.
pub open spec fn records_of_cards(cards: Seq<CardRowView>) -> Seq<CardRecordView> {
    Seq::new(cards.len(), |i: int| record_of(cards[i]))
}

/// Mathematical value of a [`Store`]: its three tables, each in insertion
/// order, and the identifier that the next todo row will get.
pub struct StoreView {
    pub users: Seq<Seq<char>>,
    pub cards: Seq<CardRowView>,
    pub todos: Seq<TodoRowView>,
    pub next_row_id: u64,
}

impl StoreView {
    /// The store with no rows at all.
    pub open spec fn empty() -> StoreView {
        StoreView { users: Seq::empty(), cards: Seq::empty(), todos: Seq::empty(), next_row_id: 1 }
    }

    /// The key constraints of the schema: user and card identifiers are
    /// unique, todo rows are numbered in ascending order, below the next
    /// identifier to hand out.
    pub open spec fn wf(self) -> bool {
        &&& forall|i: int, j: int|
            0 <= i < j < self.users.len() ==> #[trigger] self.users[i] != #[trigger] self.users[j]
        &&& forall|i: int, j: int|
            0 <= i < j < self.cards.len() ==> (#[trigger] self.cards[i]).id
                != (#[trigger] self.cards[j]).id
        &&& forall|i: int, j: int|
            0 <= i < j < self.todos.len() ==> (#[trigger] self.todos[i]).id
                < (#[trigger] self.todos[j]).id
        &&& forall|i: int| 0 <= i < self.todos.len() ==> (#[trigger] self.todos[i]).id
            < self.next_row_id
    }

    /// A user with this identifier is registered.
    pub open spec fn has_user(self, user_id: Seq<char>) -> bool {
        exists|i: int| 0 <= i < self.users.len() && #[trigger] self.users[i] == user_id
    }

    /// A card with this identifier exists.
    pub open spec fn has_card(self, card_id: Seq<char>) -> bool {
        exists|i: int| 0 <= i < self.cards.len() && (#[trigger] self.cards[i]).id == card_id
    }

    /// The card with this identifier, if [`has_card`](Self::has_card).
    pub open spec fn card(self, card_id: Seq<char>) -> CardRowView {
        self.cards[choose|i: int|
            0 <= i < self.cards.len() && (#[trigger] self.cards[i]).id == card_id]
    }

    /// The owner of a card, if the card exists.
    pub open spec fn owner_of(self, card_id: Seq<char>) -> Option<Seq<char>> {
        if self.has_card(card_id) {
            Some(self.card(card_id).user_id)
        } else {
            None
        }
    }

    /// The title of a card, if the card exists.
    pub open spec fn title_of(self, card_id: Seq<char>) -> Option<Seq<char>> {
        if self.has_card(card_id) {
            Some(self.card(card_id).title)
        } else {
            None
        }
    }

    /// The user owns the card: the card exists and is theirs.
    pub open spec fn owns(self, user_id: Seq<char>, card_id: Seq<char>) -> bool {
        self.owner_of(card_id) == Some(user_id)
    }

    /// The store after one statement, or the fault that the statement fails
    /// with.
    pub open spec fn apply(self, stmt: StatementView) -> Result<StoreView, StorageFault> {
        match stmt {
            StatementView::InsertUser { id } => if self.has_user(id) {
                Err(StorageFault::DuplicateKey)
            } else {
                Ok(StoreView { users: self.users.push(id), ..self })
            },
            StatementView::InsertCard { id, user_id, title, created_at } => if self.has_card(id) {
                Err(StorageFault::DuplicateKey)
            } else {
                Ok(
                    StoreView {
                        cards: self.cards.push(CardRowView { id, user_id, title, created_at }),
                        ..self
                    },
                )
            },
            StatementView::InsertTodos { card_id, contents } => if self.next_row_id
                + contents.len() > u64::MAX {
                Err(StorageFault::RowIdsExhausted)
            } else {
                Ok(
                    StoreView {
                        todos: self.todos + fresh_rows(card_id, contents, self.next_row_id),
                        next_row_id: (self.next_row_id + contents.len()) as u64,
                        ..self
                    },
                )
            },
            StatementView::UpdateCardTitle { card_id, title } => Ok(
                StoreView {
                    cards: Seq::new(
                        self.cards.len(),
                        |i: int| retitled(self.cards[i], card_id, title),
                    ),
                    ..self
                },
            ),
            StatementView::UpdateTodo { row_id, content, completed_at } => Ok(
                StoreView {
                    todos: Seq::new(
                        self.todos.len(),
                        |i: int| rewritten(self.todos[i], row_id, content, completed_at),
                    ),
                    ..self
                },
            ),
            StatementView::DeleteCard { id } => Ok(
                StoreView { cards: self.cards.filter(not_card(id)), ..self },
            ),
            StatementView::DeleteTodosOfCard { card_id } => Ok(
                StoreView { todos: self.todos.filter(not_of_card(card_id)), ..self },
            ),
        }
    }

    /// The store after a batch, statement by statement in order, or the
    /// fault of the first statement that fails.
    pub open spec fn apply_all(self, batch: Seq<StatementView>) -> Result<StoreView, StorageFault>
        decreases batch.len(),
    {
        if batch.len() == 0 {
            Ok(self)
        } else {
            match self.apply_all(batch.drop_last()) {
                Ok(next) => next.apply(batch.last()),
                Err(fault) => Err(fault),
            }
        }
    }

    /// The store after an atomic batch: the batch applied if every statement
    /// succeeds, the store unchanged if one fails.
    pub open spec fn execute(self, batch: Seq<StatementView>) -> StoreView {
        match self.apply_all(batch) {
            Ok(next) => next,
            Err(_) => self,
        }
    }

    /// The cards of a user, in insertion order.
    pub open spec fn cards_of(self, user_id: Seq<char>) -> Seq<CardRowView> {
        self.cards.filter(owned_by(user_id))
    }

    /// The cards of a user as a listing fetches them: ascending by creation
    /// time, cards created at the same time in insertion order.
    pub open spec fn records_of(self, user_id: Seq<char>) -> Seq<CardRecordView> {
        let own = self.cards_of(user_id);
        records_of_cards(arranged(own, stable_order(creation_times(own))))
    }

    /// The cards that a listing for the user shows.
    pub open spec fn list(self, user_id: Seq<char>) -> Seq<CardView> {
        assembled(self.records_of(user_id), self.todos)
    }

    /// Every todo row belongs to a card, and every card has exactly one todo
    /// row per slot.
    pub open spec fn consistent(self) -> bool {
        &&& forall|i: int|
            0 <= i < self.todos.len() ==> self.has_card((#[trigger] self.todos[i]).card_id)
        &&& forall|i: int|
            0 <= i < self.cards.len() ==> rows_of_card(
                self.todos,
                (#[trigger] self.cards[i]).id,
            ).len() == crate::models::N_TODOS
    }
}

/// A statement that succeeds keeps the key constraints.
pub proof fn lemma_apply_keeps_wf(s: StoreView, stmt: StatementView)
    requires
        s.wf(),
        s.apply(stmt) is Ok,
    ensures
        s.apply(stmt)->Ok_0.wf(),
{
    let next = s.apply(stmt)->Ok_0;
    match stmt {
        StatementView::InsertUser { id } => {},
        StatementView::InsertCard { id, user_id, title, created_at } => {},
        StatementView::InsertTodos { card_id, contents } => {},
        StatementView::UpdateCardTitle { card_id, title } => {},
        StatementView::UpdateTodo { row_id, content, completed_at } => {},
        StatementView::DeleteCard { id } => {
            assert forall|a: int, b: int| 0 <= a < b < next.cards.len() implies (#[trigger] next.cards[a]).id
                != (#[trigger] next.cards[b]).id by {
                lemma_filter_order(s.cards, not_card(id), a, b);
            }
        },
        StatementView::DeleteTodosOfCard { card_id } => {
            assert forall|a: int, b: int| 0 <= a < b < next.todos.len() implies (#[trigger] next.todos[a]).id
                < (#[trigger] next.todos[b]).id by {
                lemma_filter_order(s.todos, not_of_card(card_id), a, b);
            }
            assert forall|a: int| 0 <= a < next.todos.len() implies (#[trigger] next.todos[a]).id
                < next.next_row_id by {
                lemma_filter_member(s.todos, not_of_card(card_id), a);
            }
        },
    }
}

/// A batch that succeeds keeps the key constraints.
pub proof fn lemma_apply_all_keeps_wf(s: StoreView, batch: Seq<StatementView>)
    requires
        s.wf(),
        s.apply_all(batch) is Ok,
    ensures
        s.apply_all(batch)->Ok_0.wf(),
    decreases batch.len(),
{
    if batch.len() > 0 {
        lemma_apply_all_keeps_wf(s, batch.drop_last());
        lemma_apply_keeps_wf(s.apply_all(batch.drop_last())->Ok_0, batch.last());
    }
}

/// Applying two batches one after the other is applying their
/// concatenation.
pub proof fn lemma_apply_all_concat(s: StoreView, a: Seq<StatementView>, b: Seq<StatementView>)
    ensures
        s.apply_all(a + b) == match s.apply_all(a) {
            Ok(next) => next.apply_all(b),
            Err(fault) => Err(fault),
        },
    decreases b.len(),
{
    if b.len() == 0 {
        assert(a + b =~= a);
    } else {
        assert((a + b).drop_last() =~= a + b.drop_last());
        assert((a + b).last() == b.last());
        lemma_apply_all_concat(s, a, b.drop_last());
    }
}

/// A batch of one statement does what the statement does.
pub proof fn lemma_apply_all_one(s: StoreView, stmt: StatementView)
    ensures
        s.apply_all(seq![stmt]) == s.apply(stmt),
{
    let batch = seq![stmt];
    assert(batch.drop_last() =~= Seq::<StatementView>::empty());
    assert(s.apply_all(batch.drop_last()) == Ok::<StoreView, StorageFault>(s));
}

/// A batch of two statements does what the first and then the second
/// statement do.
pub proof fn lemma_apply_all_two(s: StoreView, first: StatementView, second: StatementView)
    ensures
        s.apply_all(seq![first, second]) == match s.apply(first) {
            Ok(next) => next.apply(second),
            Err(fault) => Err(fault),
        },
{
    let batch = seq![first, second];
    assert(batch.drop_last() =~= seq![first]);
    lemma_apply_all_one(s, first);
}

/// Every statement of the batch replaces a title or rewrites a todo row.
pub open spec fn only_updates(batch: Seq<StatementView>) -> bool {
    forall|i: int|
        0 <= i < batch.len() ==> (#[trigger] batch[i] is UpdateCardTitle || batch[i] is UpdateTodo)
}

/// A batch that only updates rows never fails.
pub proof fn lemma_updates_succeed(s: StoreView, batch: Seq<StatementView>)
    requires
        only_updates(batch),
    ensures
        s.apply_all(batch) is Ok,
    decreases batch.len(),
{
    if batch.len() > 0 {
        lemma_updates_succeed(s, batch.drop_last());
        assert(batch.last() == batch[batch.len() - 1]);
    }
}

/// The in-memory card store.
#[derive(Debug)]
pub struct Store {
    users: Vec<String>,
    cards: Vec<CardRow>,
    todos: Vec<TodoRow>,
    next_row_id: u64,
}

impl View for Store {
    type V = StoreView;

    closed spec fn view(&self) -> StoreView {
        StoreView {
            users: texts_view(self.users@),
            cards: card_rows_view(self.cards@),
            todos: rows_view(self.todos@),
            next_row_id: self.next_row_id,
        }
    }
}

impl Clone for Store {
    fn clone(&self) -> (r: Self)
        ensures
            r@ == self@,
    {
        let users = self.users.clone();
        let cards = self.cards.clone();
        let todos = self.todos.clone();
        assert(texts_view(users@) =~= texts_view(self.users@));
        assert(card_rows_view(cards@) =~= card_rows_view(self.cards@));
        assert(rows_view(todos@) =~= rows_view(self.todos@));
        Store { users, cards, todos, next_row_id: self.next_row_id }
    }
}

/// The position of the card `card_id` in the table, if it is there.
fn find_card(cards: &Vec<CardRow>, card_id: &String) -> (found: Option<usize>)
    ensures
        match found {
            Some(i) => i < cards.len() && cards[i as int].id@ == card_id@,
            None => forall|i: int| 0 <= i < cards.len() ==> (#[trigger] cards[i]).id@ != card_id@,
        },
{
    let mut i: usize = 0;
    while i < cards.len()
        invariant
            i <= cards.len(),
            forall|k: int| 0 <= k < i ==> (#[trigger] cards[k]).id@ != card_id@,
        decreases cards.len() - i,
    {
        if cards[i].id == *card_id {
            return Some(i);
        }
        i += 1;
    }
    None
}

/// Whether the user `user_id` is in the table.
fn find_user(users: &Vec<String>, user_id: &String) -> (found: bool)
    ensures
        found == exists|i: int| 0 <= i < users.len() && (#[trigger] users[i])@ == user_id@,
{
    let mut i: usize = 0;
    while i < users.len()
        invariant
            i <= users.len(),
            forall|k: int| 0 <= k < i ==> (#[trigger] users[k])@ != user_id@,
        decreases users.len() - i,
    {
        if users[i] == *user_id {
            return true;
        }
        i += 1;
    }
    false
}

/// Gives the card `card_id` a new title.
fn retitle(cards: &mut Vec<CardRow>, card_id: &String, title: &String)
    ensures
        card_rows_view(final(cards)@) == Seq::new(
            card_rows_view(old(cards)@).len(),
            |i: int| retitled(card_rows_view(old(cards)@)[i], card_id@, title@),
        ),
{
    let ghost before = card_rows_view(cards@);
    let mut i: usize = 0;
    while i < cards.len()
        invariant
            i <= cards.len(),
            cards.len() == before.len(),
            forall|k: int| 0 <= k < i ==> (#[trigger] cards[k])@ == retitled(before[k], card_id@, title@),
            forall|k: int| i <= k < cards.len() ==> (#[trigger] cards[k])@ == before[k],
        decreases cards.len() - i,
    {
        if cards[i].id == *card_id {
            let row = CardRow {
                id: cards[i].id.clone(),
                user_id: cards[i].user_id.clone(),
                title: title.clone(),
                created_at: cards[i].created_at,
            };
            cards.set(i, row);
        }
        i += 1;
    }
    assert(card_rows_view(cards@) =~= Seq::new(
        before.len(),
        |i: int| retitled(before[i], card_id@, title@),
    ));
}

/// Gives the todo row `row_id` new content and a new completion time.
fn rewrite(rows: &mut Vec<TodoRow>, row_id: u64, content: &String, completed_at: Option<u64>)
    ensures
        rows_view(final(rows)@) == Seq::new(
            rows_view(old(rows)@).len(),
            |i: int| rewritten(rows_view(old(rows)@)[i], row_id, content@, completed_at),
        ),
{
    let ghost before = rows_view(rows@);
    let mut i: usize = 0;
    while i < rows.len()
        invariant
            i <= rows.len(),
            rows.len() == before.len(),
            forall|k: int| 0 <= k < i ==> (#[trigger] rows[k])@ == rewritten(
                before[k],
                row_id,
                content@,
                completed_at,
            ),
            forall|k: int| i <= k < rows.len() ==> (#[trigger] rows[k])@ == before[k],
        decreases rows.len() - i,
    {
        if rows[i].id == row_id {
            let row = TodoRow {
                id: row_id,
                card_id: rows[i].card_id.clone(),
                content: content.clone(),
                completed_at,
            };
            rows.set(i, row);
        }
        i += 1;
    }
    assert(rows_view(rows@) =~= Seq::new(
        before.len(),
        |i: int| rewritten(before[i], row_id, content@, completed_at),
    ));
}

/// The cards other than `card_id`, in their order.
fn cards_without(cards: &Vec<CardRow>, card_id: &String) -> (kept: Vec<CardRow>)
    ensures
        card_rows_view(kept@) == card_rows_view(cards@).filter(not_card(card_id@)),
{
    let ghost all = card_rows_view(cards@);
    let mut kept: Vec<CardRow> = Vec::new();
    let mut i: usize = 0;
    assert(card_rows_view(kept@) =~= all.take(0).filter(not_card(card_id@))) by {
        reveal(Seq::filter);
    }
    while i < cards.len()
        invariant
            i <= cards.len(),
            all == card_rows_view(cards@),
            card_rows_view(kept@) == all.take(i as int).filter(not_card(card_id@)),
        decreases cards.len() - i,
    {
        proof {
            lemma_filter_step(all, not_card(card_id@), i as int);
        }
        if cards[i].id != *card_id {
            let ghost before = card_rows_view(kept@);
            kept.push(cards[i].clone());
            assert(card_rows_view(kept@) =~= before.push(all[i as int]));
        }
        i += 1;
    }
    assert(all.take(i as int) =~= all);
    kept
}

/// The todo rows of cards other than `card_id`, in their order.
fn rows_without(rows: &Vec<TodoRow>, card_id: &String) -> (kept: Vec<TodoRow>)
    ensures
        rows_view(kept@) == rows_view(rows@).filter(not_of_card(card_id@)),
{
    let ghost all = rows_view(rows@);
    let mut kept: Vec<TodoRow> = Vec::new();
    let mut i: usize = 0;
    assert(rows_view(kept@) =~= all.take(0).filter(not_of_card(card_id@))) by {
        reveal(Seq::filter);
    }
    while i < rows.len()
        invariant
            i <= rows.len(),
            all == rows_view(rows@),
            rows_view(kept@) == all.take(i as int).filter(not_of_card(card_id@)),
        decreases rows.len() - i,
    {
        proof {
            lemma_filter_step(all, not_of_card(card_id@), i as int);
        }
        if rows[i].card_id != *card_id {
            let ghost before = rows_view(kept@);
            kept.push(rows[i].clone());
            assert(rows_view(kept@) =~= before.push(all[i as int]));
        }
        i += 1;
    }
    assert(all.take(i as int) =~= all);
    kept
}

/// Appends one fresh row per content, numbered upwards from `first_id`.
fn append_fresh_rows(rows: &mut Vec<TodoRow>, card_id: &String, contents: &Vec<String>, first_id: u64)
    requires
        first_id + contents.len() <= u64::MAX,
    ensures
        rows_view(final(rows)@) == rows_view(old(rows)@) + fresh_rows(
            card_id@,
            texts_view(contents@),
            first_id,
        ),
{
    let ghost before = rows_view(rows@);
    let ghost fresh = fresh_rows(card_id@, texts_view(contents@), first_id);
    let mut i: usize = 0;
    let mut id: u64 = first_id;
    assert(rows_view(rows@) =~= before + fresh.take(0));
    while i < contents.len()
        invariant
            i <= contents.len(),
            id == first_id + i,
            first_id + contents.len() <= u64::MAX,
            fresh == fresh_rows(card_id@, texts_view(contents@), first_id),
            rows_view(rows@) == before + fresh.take(i as int),
        decreases contents.len() - i,
    {
        let ghost sofar = rows_view(rows@);
        rows.push(
            TodoRow { id, card_id: card_id.clone(), content: contents[i].clone(), completed_at: None },
        );
        assert(rows_view(rows@) =~= sofar.push(fresh[i as int]));
        assert(before + fresh.take(i + 1) =~= (before + fresh.take(i as int)).push(fresh[i as int]));
        id += 1;
        i += 1;
    }
    assert(fresh.take(i as int) =~= fresh);
}

impl Store {
    /// A store with no rows.
    pub fn new() -> (store: Store)
        ensures
            store@ == StoreView::empty(),
            store@.wf(),
            store@.consistent(),
    {
        let store = Store { users: Vec::new(), cards: Vec::new(), todos: Vec::new(), next_row_id: 1 };
        assert(store@.users =~= Seq::empty());
        assert(store@.cards =~= Seq::empty());
        assert(store@.todos =~= Seq::empty());
        store
    }

    /// A store with no rows whose todo rows will be numbered from
    /// `first_row_id` upwards.
    pub fn starting_at(first_row_id: u64) -> (store: Store)
        ensures
            store@ == (StoreView { next_row_id: first_row_id, ..StoreView::empty() }),
            store@.wf(),
            store@.consistent(),
    {
        let store = Store {
            users: Vec::new(),
            cards: Vec::new(),
            todos: Vec::new(),
            next_row_id: first_row_id,
        };
        assert(store@.users =~= Seq::empty());
        assert(store@.cards =~= Seq::empty());
        assert(store@.todos =~= Seq::empty());
        store
    }

    /// Executes one statement. A statement that fails changes nothing.
    fn apply(&mut self, stmt: &Statement) -> (res: Result<(), StorageFault>)
        requires
            old(self)@.wf(),
        ensures
            final(self)@.wf(),
            match res {
                Ok(()) => old(self)@.apply(stmt@) == Ok::<StoreView, StorageFault>(final(self)@),
                Err(fault) => old(self)@.apply(stmt@) == Err::<StoreView, StorageFault>(fault)
                    && final(self)@ == old(self)@,
            },
    {
        let ghost before = self@;
        match stmt {
            Statement::InsertUser { id } => {
                if find_user(&self.users, id) {
                    assert(before.has_user(id@)) by {
                        let i = choose|i: int| 0 <= i < self.users.len() && (#[trigger] self.users[i])@ == id@;
                        assert(before.users[i] == id@);
                    }
                    return Err(StorageFault::DuplicateKey);
                }
                assert(!before.has_user(id@)) by {
                    if before.has_user(id@) {
                        let i = choose|i: int| 0 <= i < before.users.len() && #[trigger] before.users[i] == id@;
                        assert(self.users[i]@ == id@);
                    }
                }
                self.users.push(id.clone());
                assert(self@.users =~= before.users.push(id@));
            },
            Statement::InsertCard { id, user_id, title, created_at } => {
                match find_card(&self.cards, id) {
                    Some(i) => {
                        assert(before.cards[i as int].id == id@);
                        return Err(StorageFault::DuplicateKey);
                    },
                    None => {},
                }
                assert(!before.has_card(id@)) by {
                    if before.has_card(id@) {
                        let i = choose|i: int| 0 <= i < before.cards.len() && (#[trigger] before.cards[i]).id == id@;
                        assert(self.cards[i].id@ == id@);
                    }
                }
                self.cards.push(
                    CardRow {
                        id: id.clone(),
                        user_id: user_id.clone(),
                        title: title.clone(),
                        created_at: *created_at,
                    },
                );
                assert(self@.cards =~= before.cards.push(
                    CardRowView { id: id@, user_id: user_id@, title: title@, created_at: *created_at },
                ));
            },
            Statement::InsertTodos { card_id, contents } => {
                if contents.len() as u64 > u64::MAX - self.next_row_id {
                    return Err(StorageFault::RowIdsExhausted);
                }
                append_fresh_rows(&mut self.todos, card_id, contents, self.next_row_id);
                self.next_row_id = self.next_row_id + contents.len() as u64;
            },
            Statement::UpdateCardTitle { card_id, title } => {
                retitle(&mut self.cards, card_id, title);
            },
            Statement::UpdateTodo { row_id, content, completed_at } => {
                rewrite(&mut self.todos, *row_id, content, *completed_at);
            },
            Statement::DeleteCard { id } => {
                self.cards = cards_without(&self.cards, id);
            },
            Statement::DeleteTodosOfCard { card_id } => {
                self.todos = rows_without(&self.todos, card_id);
            },
        }
        proof {
            lemma_apply_keeps_wf(before, stmt@);
        }
        Ok(())
    }

    /// Executes a batch atomically: every statement in order, or, if one of
    /// them fails, none at all.
    pub fn execute(&mut self, batch: &Vec<Statement>) -> (res: Result<(), ServerError>)
        requires
            old(self)@.wf(),
        ensures
            final(self)@.wf(),
            final(self)@ == old(self)@.execute(batch_view(batch@)),
            match res {
                Ok(()) => old(self)@.apply_all(batch_view(batch@)) is Ok,
                Err(e) => old(self)@.apply_all(batch_view(batch@)) matches Err(fault) && e == (
                ServerError::Storage { fault }),
            },
    {
        let backup = self.clone();
        let ghost before = self@;
        let ghost stmts = batch_view(batch@);
        let mut i: usize = 0;
        while i < batch.len()
            invariant
                i <= batch.len(),
                before == old(self)@,
                before.wf(),
                self@.wf(),
                backup@ == before,
                stmts == batch_view(batch@),
                before.apply_all(stmts.take(i as int)) == Ok::<StoreView, StorageFault>(self@),
            decreases batch.len() - i,
        {
            assert(stmts.take(i + 1).drop_last() =~= stmts.take(i as int));
            assert(stmts.take(i + 1).last() == batch[i as int]@);
            match self.apply(&batch[i]) {
                Ok(()) => {},
                Err(fault) => {
                    proof {
                        lemma_prefix_failure(before, stmts, i + 1);
                    }
                    *self = backup;
                    return Err(ServerError::Storage { fault });
                },
            }
            i += 1;
        }
        assert(stmts.take(i as int) =~= stmts);
        Ok(())
    }
}

impl Store {
    /// Whether a user with this identifier is registered.
    pub fn has_user(&self, user_id: &str) -> (found: bool)
        ensures
            found == self@.has_user(user_id@),
    {
        let user_id = user_id.to_owned();
        let found = find_user(&self.users, &user_id);
        proof {
            if found {
                let i = choose|i: int| 0 <= i < self.users.len() && (#[trigger] self.users[i])@ == user_id@;
                assert(self@.users[i] == user_id@);
            } else if self@.has_user(user_id@) {
                let i = choose|i: int| 0 <= i < self@.users.len() && #[trigger] self@.users[i] == user_id@;
                assert(self.users[i]@ == user_id@);
            }
        }
        found
    }

    /// The card row with this identifier, if there is one.
    pub fn card(&self, card_id: &str) -> (found: Option<CardRow>)
        requires
            self@.wf(),
        ensures
            found is Some == self@.has_card(card_id@),
            found matches Some(row) ==> row@ == self@.card(card_id@),
    {
        let card_id = card_id.to_owned();
        match find_card(&self.cards, &card_id) {
            Some(i) => {
                assert(self@.cards[i as int].id == card_id@);
                Some(self.cards[i].clone())
            },
            None => {
                assert(!self@.has_card(card_id@)) by {
                    if self@.has_card(card_id@) {
                        let i = choose|i: int| 0 <= i < self@.cards.len() && (#[trigger] self@.cards[i]).id == card_id@;
                        assert(self.cards[i].id@ == card_id@);
                    }
                }
                None
            },
        }
    }

    /// The owner of a card, if the card exists.
    pub fn owner_of(&self, card_id: &str) -> (owner: Option<String>)
        requires
            self@.wf(),
        ensures
            owner is Some == self@.owner_of(card_id@) is Some,
            owner matches Some(user_id) ==> self@.owner_of(card_id@) == Some(user_id@),
    {
        match self.card(card_id) {
            Some(row) => Some(row.user_id),
            None => None,
        }
    }

    /// The title of a card, if the card exists.
    pub fn title_of(&self, card_id: &str) -> (title: Option<String>)
        requires
            self@.wf(),
        ensures
            title is Some == self@.title_of(card_id@) is Some,
            title matches Some(text) ==> self@.title_of(card_id@) == Some(text@),
    {
        match self.card(card_id) {
            Some(row) => Some(row.title),
            None => None,
        }
    }

    /// The cards of a user as a listing fetches them: ascending by creation
    /// time.
    pub fn card_records(&self, user_id: &str) -> (records: Vec<CardRecord>)
        ensures
            crate::reconcile::records_view(records@) == self@.records_of(user_id@),
    {
        let user_id = user_id.to_owned();
        let ghost all = self@.cards;
        let ghost own_rows = all.filter(owned_by(user_id@));
        let mut own: Vec<usize> = Vec::new();
        let mut times: Vec<u64> = Vec::new();
        let mut i: usize = 0;
        assert(all.take(0).filter(owned_by(user_id@)) =~= Seq::<CardRowView>::empty()) by {
            reveal(Seq::filter);
        }
        assert(arranged(all, positions(own@)) =~= all.take(0).filter(owned_by(user_id@)));
        assert(times@ =~= creation_times(all.take(0).filter(owned_by(user_id@))));
        while i < self.cards.len()
            invariant
                i <= self.cards.len(),
                all == self@.cards,
                own.len() == times.len(),
                forall|k: int| 0 <= k < own.len() ==> #[trigger] own[k] < self.cards.len(),
                arranged(all, positions(own@)) == all.take(i as int).filter(owned_by(user_id@)),
                times@ == creation_times(all.take(i as int).filter(owned_by(user_id@))),
            decreases self.cards.len() - i,
        {
            proof {
                lemma_filter_step(all, owned_by(user_id@), i as int);
            }
            if self.cards[i].user_id == user_id {
                let ghost before = arranged(all, positions(own@));
                own.push(i);
                times.push(self.cards[i].created_at);
                assert(arranged(all, positions(own@)) =~= before.push(all[i as int]));
                assert(times@ =~= creation_times(before.push(all[i as int])));
            }
            i += 1;
        }
        assert(all.take(i as int) =~= all);
        let order = order_by_key(&times);
        let mut records: Vec<CardRecord> = Vec::new();
        let mut j: usize = 0;
        while j < order.len()
            invariant
                j <= order.len(),
                order.len() == own.len(),
                records.len() == j,
                all == self@.cards,
                own.len() == times.len(),
                forall|k: int| 0 <= k < order.len() ==> #[trigger] order[k] < times.len(),
                forall|k: int| 0 <= k < own.len() ==> #[trigger] own[k] < self.cards.len(),
                forall|k: int| 0 <= k < j ==> (#[trigger] records[k])@ == record_of(
                    all[own[order[k] as int] as int],
                ),
            decreases order.len() - j,
        {
            let row = &self.cards[own[order[j]]];
            records.push(CardRecord { id: row.id.clone(), title: row.title.clone() });
            j += 1;
        }
        assert(crate::reconcile::records_view(records@) =~= self@.records_of(user_id@)) by {
            let target = self@.records_of(user_id@);
            assert(own_rows == arranged(all, positions(own@)));
            assert(target.len() == records.len());
            assert forall|k: int| 0 <= k < records.len() implies crate::reconcile::records_view(
                records@,
            )[k] == target[k] by {
                let o = order[k] as int;
                assert(positions(order@)[k] == o);
                assert(arranged(all, positions(own@))[o] == all[own[o] as int]);
            }
        }
        records
    }

    /// Every todo row of the store, in insertion order.
    pub fn todo_rows(&self) -> (rows: &Vec<TodoRow>)
        ensures
            rows_view(rows@) == self@.todos,
    {
        &self.todos
    }

    /// The todo rows of one card, in insertion order.
    pub fn todo_rows_of(&self, card_id: &str) -> (rows: Vec<TodoRow>)
        ensures
            rows_view(rows@) == rows_of_card(self@.todos, card_id@),
    {
        let card_id = card_id.to_owned();
        let ghost all = self@.todos;
        let mut rows: Vec<TodoRow> = Vec::new();
        let mut i: usize = 0;
        assert(rows_view(rows@) =~= all.take(0).filter(of_card(card_id@))) by {
            reveal(Seq::filter);
        }
        while i < self.todos.len()
            invariant
                i <= self.todos.len(),
                all == self@.todos,
                rows_view(rows@) == all.take(i as int).filter(of_card(card_id@)),
            decreases self.todos.len() - i,
        {
            proof {
                lemma_filter_step(all, of_card(card_id@), i as int);
            }
            if self.todos[i].card_id == card_id {
                let ghost before = rows_view(rows@);
                rows.push(self.todos[i].clone());
                assert(rows_view(rows@) =~= before.push(all[i as int]));
            }
            i += 1;
        }
        assert(all.take(i as int) =~= all);
        rows
    }

    /// Number of card rows in the store.
    pub fn card_count(&self) -> (n: usize)
        ensures
            n == self@.cards.len(),
    {
        self.cards.len()
    }

    /// Number of todo rows in the store.
    pub fn todo_count(&self) -> (n: usize)
        ensures
            n == self@.todos.len(),
    {
        self.todos.len()
    }
}

/// A batch fails with the fault of its first failing prefix.
proof fn lemma_prefix_failure(s: StoreView, batch: Seq<StatementView>, n: int)
    requires
        0 <= n <= batch.len(),
        s.apply_all(batch.take(n)) is Err,
    ensures
        s.apply_all(batch) == s.apply_all(batch.take(n)),
    decreases batch.len() - n,
{
    if n < batch.len() {
        assert(batch.take(n + 1).drop_last() =~= batch.take(n));
        lemma_prefix_failure(s, batch, n + 1);
    } else {
        assert(batch.take(n) =~= batch);
    }
}

} // verus!
