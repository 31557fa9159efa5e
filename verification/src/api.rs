//! The endpoints of the card service, over the card store.
//!
//! Every endpoint acts for the user named by the verified claims of the
//! request. Identifiers of new rows and the time come from outside: the
//! functions whose names end in `_at` take the time as an argument and are
//! exact about it; their namesakes without the suffix read the clock.

use vstd::prelude::*;
use crate::auth::{authorize, is_not_owner, unix_timestamp, JWTPayload, JWTPayloadView};
use crate::errors::{ServerError, StorageFault};
use crate::effects::{
    lemma_consistent_store_lists, lemma_created_card_is_owned, lemma_creation_keeps_consistent,
    lemma_deletion_keeps_consistent, lemma_signup_keeps_consistent, lemma_update_keeps_consistent,
};
use crate::models::{
    blank_slots, cards_view, Card, CardView, UpdateCard, UpdateCardView, N_TODOS,
};
use crate::reconcile::{
    all_full_slates, assemble_cards, lemma_update_plan_is_updates, plan_update_at, update_plan,
};
use crate::statements::{batch_view, Statement, StatementView};
use crate::store::{
    lemma_apply_all_one, lemma_apply_all_two, lemma_updates_succeed, Store, StoreView,
};

verus! {

/// The batch that registers a user.
pub open spec fn signup_batch(user_id: Seq<char>) -> Seq<StatementView> {
    seq![StatementView::InsertUser { id: user_id }]
}

/// The batch that creates an empty card: the card row, then one row with
/// empty content for each slot.
pub open spec fn creation_batch(card_id: Seq<char>, user_id: Seq<char>, now: u64) -> Seq<
    StatementView,
> {
    seq![
        StatementView::InsertCard {
            id: card_id,
            user_id,
            title: Seq::empty(),
            created_at: now,
        },
        StatementView::InsertTodos {
            card_id,
            contents: Seq::new(N_TODOS as nat, |i: int| Seq::<char>::empty()),
        },
    ]
}

/// The batch that deletes a card together with its todo rows.
pub open spec fn deletion_batch(card_id: Seq<char>) -> Seq<StatementView> {
    seq![
        StatementView::DeleteCard { id: card_id },
        StatementView::DeleteTodosOfCard { card_id },
    ]
}

/// The card that a store returns right after creating it.
pub open spec fn blank_card(card_id: Seq<char>) -> CardView {
    CardView { id: card_id, title: Seq::empty(), todos: blank_slots() }
}

/// Plans the registration of a user.
pub fn plan_signup(user_id: &str) -> (plan: Vec<Statement>)
    ensures
        batch_view(plan@) == signup_batch(user_id@),
{
    let mut plan: Vec<Statement> = Vec::new();
    plan.push(Statement::InsertUser { id: user_id.to_owned() });
    assert(batch_view(plan@) =~= signup_batch(user_id@));
    plan
}

/// Plans the creation of an empty card at time `now`.
pub fn plan_create_at(card_id: &str, user_id: &str, now: u64) -> (plan: Vec<Statement>)
    ensures
        batch_view(plan@) == creation_batch(card_id@, user_id@, now),
{
    let mut contents: Vec<String> = Vec::new();
    let mut i: usize = 0;
    while i < N_TODOS
        invariant
            i <= N_TODOS,
            contents.len() == i,
            forall|k: int| 0 <= k < i ==> (#[trigger] contents[k])@ == Seq::<char>::empty(),
        decreases N_TODOS - i,
    {
        contents.push(String::new());
        i += 1;
    }
    assert(crate::models::texts_view(contents@) =~= Seq::new(
        N_TODOS as nat,
        |i: int| Seq::<char>::empty(),
    ));
    let mut plan: Vec<Statement> = Vec::new();
    plan.push(
        Statement::InsertCard {
            id: card_id.to_owned(),
            user_id: user_id.to_owned(),
            title: String::new(),
            created_at: now,
        },
    );
    plan.push(Statement::InsertTodos { card_id: card_id.to_owned(), contents });
    assert(batch_view(plan@) =~= creation_batch(card_id@, user_id@, now));
    plan
}

/// Plans the creation of an empty card now.
pub fn plan_create(card_id: &str, user_id: &str) -> (plan: Vec<Statement>)
    ensures
        exists|now: u64| batch_view(plan@) == creation_batch(card_id@, user_id@, now),
{
    let now = unix_timestamp();
    plan_create_at(card_id, user_id, now)
}

/// Plans the deletion of a card together with its todo rows.
pub fn plan_delete(card_id: &str) -> (plan: Vec<Statement>)
    ensures
        batch_view(plan@) == deletion_batch(card_id@),
{
    let mut plan: Vec<Statement> = Vec::new();
    plan.push(Statement::DeleteCard { id: card_id.to_owned() });
    plan.push(Statement::DeleteTodosOfCard { card_id: card_id.to_owned() });
    assert(batch_view(plan@) =~= deletion_batch(card_id@));
    plan
}

/// What `signup_at` promises: the user is registered unless the identifier
/// is taken; then the claims name the user and the time of issue.
pub open spec fn signed_up(
    before: StoreView,
    after: StoreView,
    user_id: Seq<char>,
    now: u64,
    res: Result<JWTPayload, ServerError>,
) -> bool {
    &&& after == before.execute(signup_batch(user_id))
    &&& before.consistent() ==> after.consistent()
    &&& match res {
        Ok(claims) => !before.has_user(user_id) && claims@ == (JWTPayloadView {
            user_id,
            iat: now,
        }),
        Err(e) => before.has_user(user_id) && after == before && e == (ServerError::Storage {
            fault: StorageFault::DuplicateKey,
        }),
    }
}

/// Registers the user `user_id` and returns the claims of their bearer
/// token, issued at `now`.
pub fn signup_at(db: &mut Store, user_id: String, now: u64) -> (res: Result<
    JWTPayload,
    ServerError,
>)
    requires
        old(db)@.wf(),
    ensures
        final(db)@.wf(),
        signed_up(old(db)@, final(db)@, user_id@, now, res),
{
    let plan = plan_signup(user_id.as_str());
    proof {
        lemma_apply_all_one(db@, StatementView::InsertUser { id: user_id@ });
        if db@.consistent() {
            lemma_signup_keeps_consistent(db@, user_id@);
        }
    }
    match db.execute(&plan) {
        Ok(()) => Ok(JWTPayload::new(user_id, now)),
        Err(e) => Err(e),
    }
}

/// Registers the user `user_id` and returns the claims of their bearer
/// token, issued now.
pub fn signup(db: &mut Store, user_id: String) -> (res: Result<JWTPayload, ServerError>)
    requires
        old(db)@.wf(),
    ensures
        final(db)@.wf(),
        exists|now: u64| signed_up(old(db)@, final(db)@, user_id@, now, res),
{
    let now = unix_timestamp();
    signup_at(db, user_id, now)
}

/// Checks that `user_id` owns the card `card_id`. A card that does not
/// exist is refused like a card of somebody else.
pub fn assert_user_is_owner_of_card(db: &Store, user_id: &str, card_id: &str) -> (res: Result<
    (),
    ServerError,
>)
    requires
        db@.wf(),
    ensures
        res is Ok <==> db@.owns(user_id@, card_id@),
        res matches Err(e) ==> is_not_owner(e, user_id@, "card"@),
{
    authorize(db.owner_of(card_id), user_id, "card")
}

/// What `create_card_at` promises: the card row and its blank slate are
/// inserted together, unless the identifier is taken or the store has run
/// out of row identifiers; then nothing is inserted.
pub open spec fn card_created(
    before: StoreView,
    after: StoreView,
    user_id: Seq<char>,
    card_id: Seq<char>,
    now: u64,
    res: Result<Card, ServerError>,
) -> bool {
    &&& after == before.execute(creation_batch(card_id, user_id, now))
    &&& before.consistent() ==> after.consistent()
    &&& match res {
        Ok(card) => {
            &&& before.apply_all(creation_batch(card_id, user_id, now)) is Ok
            &&& !before.has_card(card_id)
            &&& before.next_row_id + N_TODOS <= u64::MAX
            &&& after.owns(user_id, card_id)
            &&& card@ == blank_card(card_id)
        },
        Err(e) => {
            &&& after == before
            &&& if before.has_card(card_id) {
                e == (ServerError::Storage { fault: StorageFault::DuplicateKey })
            } else {
                &&& before.next_row_id + N_TODOS > u64::MAX
                &&& e == (ServerError::Storage { fault: StorageFault::RowIdsExhausted })
            }
        },
    }
}

/// Creates an empty card with the fresh identifier `id` for the user of
/// the claims, at time `now`, and returns it.
pub fn create_card_at(db: &mut Store, auth: &JWTPayload, id: String, now: u64) -> (res: Result<
    Card,
    ServerError,
>)
    requires
        old(db)@.wf(),
    ensures
        final(db)@.wf(),
        card_created(old(db)@, final(db)@, auth@.user_id, id@, now, res),
{
    let plan = plan_create_at(id.as_str(), auth.user(), now);
    proof {
        let batch = creation_batch(id@, auth@.user_id, now);
        lemma_apply_all_two(db@, batch[0], batch[1]);
        assert(batch =~= seq![batch[0], batch[1]]);
        if db@.consistent() {
            lemma_creation_keeps_consistent(db@, auth@.user_id, id@, now);
        }
        if db@.apply_all(batch) is Ok {
            lemma_created_card_is_owned(db@, auth@.user_id, id@, now);
        }
    }
    match db.execute(&plan) {
        Ok(()) => Ok(Card::blank(id)),
        Err(e) => Err(e),
    }
}

/// Creates an empty card with the fresh identifier `id` for the user of
/// the claims, now, and returns it.
pub fn create_card(db: &mut Store, auth: &JWTPayload, id: String) -> (res: Result<
    Card,
    ServerError,
>)
    requires
        old(db)@.wf(),
    ensures
        final(db)@.wf(),
        exists|now: u64| card_created(old(db)@, final(db)@, auth@.user_id, id@, now, res),
{
    let now = unix_timestamp();
    create_card_at(db, auth, id, now)
}

/// Lists the cards of the user of the claims, ascending by creation time,
/// each with its full slate. Fails if a card of the user does not have
/// exactly one todo row per slot.
pub fn list_cards(db: &Store, auth: &JWTPayload) -> (res: Result<Vec<Card>, ServerError>)
    requires
        db@.wf(),
    ensures
        db@.consistent() ==> res is Ok,
        match res {
            Ok(cards) => {
                &&& all_full_slates(db@.records_of(auth@.user_id), db@.todos)
                &&& cards_view(cards@) == db@.list(auth@.user_id)
                &&& forall|i: int| 0 <= i < cards.len() ==> (#[trigger] cards[i]).todos@.len() == N_TODOS
            },
            Err(e) => {
                &&& !all_full_slates(db@.records_of(auth@.user_id), db@.todos)
                &&& e == (ServerError::Storage { fault: StorageFault::SlotCountMismatch })
            },
        },
{
    let records = db.card_records(auth.user());
    proof {
        if db@.consistent() {
            lemma_consistent_store_lists(db@, auth@.user_id);
        }
    }
    assemble_cards(&records, db.todo_rows())
}

/// What `update_card_at` promises. A caller who does not own the card is
/// refused and nothing changes. For the owner, the title is replaced if it
/// differs, and each todo row whose slot differs from the submitted slate is
/// rewritten; rows and title that already agree are not touched.
pub open spec fn card_updated(
    before: StoreView,
    after: StoreView,
    user_id: Seq<char>,
    card_id: Seq<char>,
    req: UpdateCardView,
    now: u64,
    res: Result<(), ServerError>,
) -> bool {
    if before.owns(user_id, card_id) {
        &&& res is Ok
        &&& before.apply_all(
            update_plan(card_id, before.card(card_id).title, before.todos, req, now),
        ) == Ok::<StoreView, StorageFault>(after)
        &&& before.consistent() ==> after.consistent()
    } else {
        &&& after == before
        &&& res matches Err(e) && is_not_owner(e, user_id, "card"@)
    }
}

/// Brings the card `id` in line with the request, for the user of the
/// claims, at time `now`.
pub fn update_card_at(id: &str, db: &mut Store, auth: &JWTPayload, req: &UpdateCard, now: u64) -> (res:
    Result<(), ServerError>)
    requires
        old(db)@.wf(),
    ensures
        final(db)@.wf(),
        card_updated(old(db)@, final(db)@, auth@.user_id, id@, req@, now, res),
{
    match assert_user_is_owner_of_card(db, auth.user(), id) {
        Ok(()) => {},
        Err(e) => {
            return Err(e);
        },
    }
    let current_title = db.title_of(id).unwrap();
    let plan = plan_update_at(id, current_title.as_str(), db.todo_rows(), req, now);
    proof {
        if db@.consistent() {
            lemma_update_keeps_consistent(db@, id@, req@, now);
        }
    }
    if plan.len() > 0 {
        proof {
            lemma_update_plan_is_updates(id@, current_title@, db@.todos, req@, now);
            lemma_updates_succeed(db@, batch_view(plan@));
        }
        match db.execute(&plan) {
            Ok(()) => {},
            Err(e) => {
                return Err(e);
            },
        }
    } else {
        assert(batch_view(plan@) =~= Seq::<StatementView>::empty());
    }
    Ok(())
}

/// Brings the card `id` in line with the request, for the user of the
/// claims, now.
pub fn update_card(id: &str, db: &mut Store, auth: &JWTPayload, req: &UpdateCard) -> (res: Result<
    (),
    ServerError,
>)
    requires
        old(db)@.wf(),
    ensures
        final(db)@.wf(),
        exists|now: u64| card_updated(old(db)@, final(db)@, auth@.user_id, id@, req@, now, res),
{
    let now = unix_timestamp();
    update_card_at(id, db, auth, req, now)
}

/// What `delete_card` promises. A caller who does not own the card is
/// refused and nothing changes. For the owner, the card row and all its
/// todo rows are removed together.
pub open spec fn card_deleted(
    before: StoreView,
    after: StoreView,
    user_id: Seq<char>,
    card_id: Seq<char>,
    res: Result<(), ServerError>,
) -> bool {
    if before.owns(user_id, card_id) {
        &&& res is Ok
        &&& before.apply_all(deletion_batch(card_id)) == Ok::<StoreView, StorageFault>(after)
        &&& before.consistent() ==> after.consistent()
    } else {
        &&& after == before
        &&& res matches Err(e) && is_not_owner(e, user_id, "card"@)
    }
}

/// Deletes the card `id` and its todo rows, for the user of the claims.
pub fn delete_card(id: &str, db: &mut Store, auth: &JWTPayload) -> (res: Result<(), ServerError>)
    requires
        old(db)@.wf(),
    ensures
        final(db)@.wf(),
        card_deleted(old(db)@, final(db)@, auth@.user_id, id@, res),
{
    match assert_user_is_owner_of_card(db, auth.user(), id) {
        Ok(()) => {},
        Err(e) => {
            return Err(e);
        },
    }
    let plan = plan_delete(id);
    proof {
        let batch = deletion_batch(id@);
        lemma_apply_all_two(db@, batch[0], batch[1]);
        assert(batch =~= seq![batch[0], batch[1]]);
        if db@.consistent() {
            lemma_deletion_keeps_consistent(db@, id@);
        }
    }
    db.execute(&plan)
}

} // verus!
