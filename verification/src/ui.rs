//! The client's view of its cards: what an edit shows at once, what it
//! sends to the service, and what remains when the service has answered.
//!
//! An edit is applied to the local list optimistically. If the service
//! accepts it, the edit stays; if the call fails, the list goes back to what
//! it was before the edit.

use vstd::prelude::*;
use vstd::string::StringExecFns;
use crate::models::{
    blank_slots, cards_view, Card, CardView, CreateCardRequest, CreateCardRequestView, TodoView,
    UpdateCard, UpdateCardView, N_TODOS,
};

verus! {

/// Key under which the client keeps its bearer token in local storage.
pub const TOKEN_STORAGE_KEY: &'static str = "ohkami-yew-todo-demo-token";

/// Mathematical value of a [`Mutation`].
pub enum MutationView {
    Delete { card: int },
    EditTitle { card: int, title: Seq<char> },
    ToggleTodo { card: int, slot: int },
    EditTodo { card: int, slot: int, content: Seq<char> },
    Create,
}

/// An edit of the local list of cards.
#[derive(Debug)]
pub enum Mutation {
    /// Delete the card at position `card`.
    Delete { card: usize },
    /// Give the card at position `card` a new title.
    EditTitle { card: usize, title: String },
    /// Flip the completion of slot `slot` of the card at position `card`.
    ToggleTodo { card: usize, slot: usize },
    /// Give slot `slot` of the card at position `card` new content.
    EditTodo { card: usize, slot: usize, content: String },
    /// Add a new, empty card.
    Create,
}

impl View for Mutation {
    type V = MutationView;

    open spec fn view(&self) -> MutationView {
        match self {
            Mutation::Delete { card } => MutationView::Delete { card: *card as int },
            Mutation::EditTitle { card, title } => MutationView::EditTitle {
                card: *card as int,
                title: title@,
            },
            Mutation::ToggleTodo { card, slot } => MutationView::ToggleTodo {
                card: *card as int,
                slot: *slot as int,
            },
            Mutation::EditTodo { card, slot, content } => MutationView::EditTodo {
                card: *card as int,
                slot: *slot as int,
                content: content@,
            },
            Mutation::Create => MutationView::Create,
        }
    }
}

impl Clone for Mutation {
    fn clone(&self) -> (r: Self)
        ensures
            r@ == self@,
    {
        match self {
            Mutation::Delete { card } => Mutation::Delete { card: *card },
            Mutation::EditTitle { card, title } => Mutation::EditTitle {
                card: *card,
                title: title.clone(),
            },
            Mutation::ToggleTodo { card, slot } => Mutation::ToggleTodo { card: *card, slot: *slot },
            Mutation::EditTodo { card, slot, content } => Mutation::EditTodo {
                card: *card,
                slot: *slot,
                content: content.clone(),
            },
            Mutation::Create => Mutation::Create,
        }
    }
}

/// Mathematical value of an [`Outcome`].
pub enum OutcomeView {
    Done,
    Created { id: Seq<char> },
    Failed,
}

/// How the call for an edit ended.
#[derive(Debug)]
pub enum Outcome {
    /// The service accepted the edit.
    Done,
    /// The service created the card and gave it this identifier.
    Created { id: String },
    /// The call failed.
    Failed,
}

impl View for Outcome {
    type V = OutcomeView;

    open spec fn view(&self) -> OutcomeView {
        match self {
            Outcome::Done => OutcomeView::Done,
            Outcome::Created { id } => OutcomeView::Created { id: id@ },
            Outcome::Failed => OutcomeView::Failed,
        }
    }
}

/// Mathematical value of an [`ApiCall`].
pub enum ApiCallView {
    DeleteCard { path: Seq<char> },
    PutCard { path: Seq<char>, body: UpdateCardView },
    PostCard { path: Seq<char>, request: CreateCardRequestView },
}

/// The call that an edit makes to the service.
#[derive(Debug)]
pub enum ApiCall {
    /// `DELETE` on the path of a card.
    DeleteCard { path: String },
    /// `PUT` of the whole card on its path.
    PutCard { path: String, body: UpdateCard },
    /// `POST` of an empty card on the path of the cards.
    PostCard { path: String, request: CreateCardRequest },
}

impl View for ApiCall {
    type V = ApiCallView;

    open spec fn view(&self) -> ApiCallView {
        match self {
            ApiCall::DeleteCard { path } => ApiCallView::DeleteCard { path: path@ },
            ApiCall::PutCard { path, body } => ApiCallView::PutCard { path: path@, body: body@ },
            ApiCall::PostCard { path, request } => ApiCallView::PostCard {
                path: path@,
                request: request@,
            },
        }
    }
}

/// The path of the collection of cards.
pub open spec fn cards_path() -> Seq<char> {
    "/api/cards"@
}

/// The path of one card.
pub open spec fn card_path(id: Seq<char>) -> Seq<char> {
    "/api/cards/"@ + id
}

impl MutationView {
    /// The position of the card that the edit names, if it names one.
    pub open spec fn card(self) -> int {
        match self {
            MutationView::Delete { card } => card,
            MutationView::EditTitle { card, .. } => card,
            MutationView::ToggleTodo { card, .. } => card,
            MutationView::EditTodo { card, .. } => card,
            MutationView::Create => 0,
        }
    }

    /// The edit changes a card in place.
    pub open spec fn changes_card(self) -> bool {
        self is EditTitle || self is ToggleTodo || self is EditTodo
    }

    /// The edit names a card of the list and, where it names a slot, a slot
    /// of the slate.
    pub open spec fn applies_to(self, cards: Seq<CardView>) -> bool {
        match self {
            MutationView::Delete { card } => card < cards.len(),
            MutationView::EditTitle { card, .. } => card < cards.len(),
            MutationView::ToggleTodo { card, slot } => card < cards.len() && slot < N_TODOS,
            MutationView::EditTodo { card, slot, .. } => card < cards.len() && slot < N_TODOS,
            MutationView::Create => true,
        }
    }

    /// The card after an edit that changes it in place.
    pub open spec fn changed(self, card: CardView) -> CardView {
        match self {
            MutationView::EditTitle { title, .. } => CardView { title, ..card },
            MutationView::ToggleTodo { slot, .. } => CardView {
                todos: card.todos.update(
                    slot,
                    TodoView { completed: !card.todos[slot].completed, ..card.todos[slot] },
                ),
                ..card
            },
            MutationView::EditTodo { slot, content, .. } => CardView {
                todos: card.todos.update(slot, TodoView { content, ..card.todos[slot] }),
                ..card
            },
            _ => card,
        }
    }
}

/// The body of the request for a new card: no title, every slot empty.
pub open spec fn empty_request() -> CreateCardRequestView {
    CreateCardRequestView {
        title: Seq::empty(),
        todos: Seq::new(N_TODOS as nat, |i: int| Seq::<char>::empty()),
    }
}

/// The card that stands in for a new card until the service has named it.
pub open spec fn placeholder_card() -> CardView {
    CardView { id: Seq::empty(), title: Seq::empty(), todos: blank_slots() }
}

/// What the list shows while the call for an edit is under way: a changed
/// card at once, a new card as a placeholder, a deletion not yet.
pub open spec fn shown_while_pending(cards: Seq<CardView>, m: MutationView) -> Seq<CardView> {
    if !m.applies_to(cards) {
        cards
    } else if m.changes_card() {
        cards.update(m.card(), m.changed(cards[m.card()]))
    } else if m is Create {
        cards.push(placeholder_card())
    } else {
        cards
    }
}

/// What the list shows once the call for an edit has ended: the list as it
/// was before the edit if the call failed, the edit carried out if it
/// succeeded.
pub open spec fn shown_when_settled(
    cards: Seq<CardView>,
    m: MutationView,
    outcome: OutcomeView,
) -> Seq<CardView> {
    if !m.applies_to(cards) || outcome is Failed {
        cards
    } else if m.changes_card() {
        cards.update(m.card(), m.changed(cards[m.card()]))
    } else if m is Delete {
        cards.remove(m.card())
    } else {
        match outcome {
            OutcomeView::Created { id } => cards.push(CardView { id, ..placeholder_card() }),
            _ => cards,
        }
    }
}

/// The call that an edit makes, if the edit applies to the list. A changed
/// card is sent whole, as it is shown while the call is under way.
pub open spec fn call_for(cards: Seq<CardView>, m: MutationView) -> Option<ApiCallView> {
    if !m.applies_to(cards) {
        None
    } else if m.changes_card() {
        let after = m.changed(cards[m.card()]);
        Some(
            ApiCallView::PutCard {
                path: card_path(after.id),
                body: UpdateCardView { title: after.title, todos: after.todos },
            },
        )
    } else if m is Delete {
        Some(ApiCallView::DeleteCard { path: card_path(cards[m.card()].id) })
    } else {
        Some(ApiCallView::PostCard { path: cards_path(), request: empty_request() })
    }
}

/// A failed call leaves the list as it was before the edit.
pub proof fn law_failed_edit_is_undone(cards: Seq<CardView>, m: MutationView)
    ensures
        shown_when_settled(cards, m, OutcomeView::Failed) == cards,
{
}

/// A change of a card that the service accepts stays as it was shown while
/// the call was under way.
pub proof fn law_accepted_change_stays(cards: Seq<CardView>, m: MutationView)
    requires
        m.changes_card(),
    ensures
        shown_when_settled(cards, m, OutcomeView::Done) == shown_while_pending(cards, m),
{
}

impl Mutation {
    /// The position of the card that the edit names, if it names one.
    pub fn card(&self) -> (position: Option<usize>)
        ensures
            match position {
                Some(i) => !(self is Create) && i == self@.card(),
                None => self is Create,
            },
    {
        match self {
            Mutation::Delete { card } => Some(*card),
            Mutation::EditTitle { card, .. } => Some(*card),
            Mutation::ToggleTodo { card, .. } => Some(*card),
            Mutation::EditTodo { card, .. } => Some(*card),
            Mutation::Create => None,
        }
    }

    /// Whether the edit names a card of the list and, where it names a
    /// slot, a slot of the slate.
    pub fn applies_to(&self, cards: &Vec<Card>) -> (ok: bool)
        ensures
            ok == self@.applies_to(cards_view(cards@)),
    {
        match self {
            Mutation::Delete { card } => *card < cards.len(),
            Mutation::EditTitle { card, .. } => *card < cards.len(),
            Mutation::ToggleTodo { card, slot } => *card < cards.len() && *slot < N_TODOS,
            Mutation::EditTodo { card, slot, .. } => *card < cards.len() && *slot < N_TODOS,
            Mutation::Create => true,
        }
    }

    /// The card after an edit that changes it in place; the card itself
    /// after any other edit.
    fn changed(&self, card: &Card) -> (after: Card)
        requires
            self matches Mutation::ToggleTodo { slot, .. } ==> slot < N_TODOS,
            self matches Mutation::EditTodo { slot, .. } ==> slot < N_TODOS,
        ensures
            after@ == self@.changed(card@),
    {
        let mut after = card.clone();
        match self {
            Mutation::EditTitle { title, .. } => {
                after.title = title.clone();
            },
            Mutation::ToggleTodo { slot, .. } => {
                let flipped = !after.todos[*slot].completed;
                after.todos[*slot].completed = flipped;
                assert(after@.todos =~= card@.todos.update(
                    *slot as int,
                    TodoView {
                        completed: !card@.todos[*slot as int].completed,
                        ..card@.todos[*slot as int]
                    },
                ));
            },
            Mutation::EditTodo { slot, content, .. } => {
                after.todos[*slot].content = content.clone();
                assert(after@.todos =~= card@.todos.update(
                    *slot as int,
                    TodoView { content: content@, ..card@.todos[*slot as int] },
                ));
            },
            _ => {},
        }
        after
    }
}

/// Copies a list of cards.
fn copy_cards(cards: &Vec<Card>) -> (copy: Vec<Card>)
    ensures
        cards_view(copy@) == cards_view(cards@),
{
    let copy = cards.clone();
    assert(cards_view(copy@) =~= cards_view(cards@));
    copy
}

/// The path of one card.
pub fn path_of_card(id: &str) -> (path: String)
    ensures
        path@ == card_path(id@),
{
    let mut path = String::from_str("/api/cards/");
    path.append(id);
    path
}

/// The address of a path of the service at `origin`.
pub fn api_url(origin: &str, path: &str) -> (url: String)
    ensures
        url@ == origin@ + path@,
{
    let mut url = String::from_str(origin);
    url.append(path);
    url
}

/// Where the client gets its bearer token from.
#[derive(Debug)]
pub enum TokenSource {
    /// The token kept in local storage.
    Stored { token: String },
    /// A signup, whose token is then kept in local storage.
    Signup,
}

/// Decides where the token comes from, given what local storage holds under
/// the token's key: the stored token if there is one, a signup otherwise.
pub fn token_source(stored: Option<String>) -> (source: TokenSource)
    ensures
        match source {
            TokenSource::Stored { token } => stored == Some(token),
            TokenSource::Signup => stored is None,
        },
{
    match stored {
        Some(token) => TokenSource::Stored { token },
        None => TokenSource::Signup,
    }
}

/// What the list shows while the call for an edit is under way.
pub fn optimistic(cards: &Vec<Card>, m: &Mutation) -> (shown: Vec<Card>)
    ensures
        cards_view(shown@) == shown_while_pending(cards_view(cards@), m@),
{
    let mut shown = copy_cards(cards);
    if !m.applies_to(cards) {
        return shown;
    }
    match m {
        Mutation::Delete { .. } => {},
        Mutation::Create => {
            shown.push(Card::blank(String::new()));
            assert(cards_view(shown@) =~= cards_view(cards@).push(placeholder_card()));
        },
        Mutation::EditTitle { card, .. }
        | Mutation::ToggleTodo { card, .. }
        | Mutation::EditTodo { card, .. } => {
            let after = m.changed(&cards[*card]);
            shown.set(*card, after);
            assert(cards_view(shown@) =~= cards_view(cards@).update(
                *card as int,
                m@.changed(cards_view(cards@)[*card as int]),
            ));
        },
    }
    shown
}

/// What the list shows once the call for an edit has ended.
pub fn settled(cards: &Vec<Card>, m: &Mutation, outcome: &Outcome) -> (shown: Vec<Card>)
    ensures
        cards_view(shown@) == shown_when_settled(cards_view(cards@), m@, outcome@),
{
    let mut shown = copy_cards(cards);
    if !m.applies_to(cards) {
        return shown;
    }
    match outcome {
        Outcome::Failed => {
            return shown;
        },
        _ => {},
    }
    match m {
        Mutation::Delete { card } => {
            shown.remove(*card);
            assert(cards_view(shown@) =~= cards_view(cards@).remove(*card as int));
        },
        Mutation::Create => {
            match outcome {
                Outcome::Created { id } => {
                    shown.push(Card::blank(id.clone()));
                    assert(cards_view(shown@) =~= cards_view(cards@).push(
                        CardView { id: id@, ..placeholder_card() },
                    ));
                },
                _ => {},
            }
        },
        Mutation::EditTitle { card, .. }
        | Mutation::ToggleTodo { card, .. }
        | Mutation::EditTodo { card, .. } => {
            let after = m.changed(&cards[*card]);
            shown.set(*card, after);
            assert(cards_view(shown@) =~= cards_view(cards@).update(
                *card as int,
                m@.changed(cards_view(cards@)[*card as int]),
            ));
        },
    }
    shown
}

/// The call that an edit makes, if the edit applies to the list.
pub fn request(cards: &Vec<Card>, m: &Mutation) -> (call: Option<ApiCall>)
    ensures
        match call {
            Some(c) => call_for(cards_view(cards@), m@) == Some(c@),
            None => call_for(cards_view(cards@), m@) is None,
        },
{
    if !m.applies_to(cards) {
        return None;
    }
    match m {
        Mutation::Delete { card } => Some(
            ApiCall::DeleteCard { path: path_of_card(cards[*card].id.as_str()) },
        ),
        Mutation::Create => Some(
            ApiCall::PostCard {
                path: String::from_str("/api/cards"),
                request: CreateCardRequest::empty(),
            },
        ),
        Mutation::EditTitle { card, .. }
        | Mutation::ToggleTodo { card, .. }
        | Mutation::EditTodo { card, .. } => {
            let after = m.changed(&cards[*card]);
            let path = path_of_card(after.id.as_str());
            Some(ApiCall::PutCard { path, body: UpdateCard { title: after.title, todos: after.todos } })
        },
    }
}

/// Mathematical value of a [`ViewModel`]: the cards on show, and, while a
/// call is under way, the list as it was before the edit together with the
/// edit.
pub struct ViewModelView {
    pub shown: Seq<CardView>,
    pub pending: Option<(Seq<CardView>, MutationView)>,
}

/// The local state of the list of cards: idle, or waiting for the service
/// to answer one edit.
#[derive(Debug)]
pub struct ViewModel {
    shown: Vec<Card>,
    snapshot: Vec<Card>,
    pending: Option<Mutation>,
}

impl View for ViewModel {
    type V = ViewModelView;

    closed spec fn view(&self) -> ViewModelView {
        ViewModelView {
            shown: cards_view(self.shown@),
            pending: match self.pending {
                Some(m) => Some((cards_view(self.snapshot@), m@)),
                None => None,
            },
        }
    }
}

impl ViewModel {
    /// An idle view of the cards fetched from the service.
    pub fn new(cards: Vec<Card>) -> (vm: ViewModel)
        ensures
            vm@ == (ViewModelView { shown: cards_view(cards@), pending: None }),
    {
        ViewModel { shown: cards, snapshot: Vec::new(), pending: None }
    }

    /// The cards on show.
    pub fn cards(&self) -> (cards: &Vec<Card>)
        ensures
            cards_view(cards@) == self@.shown,
    {
        &self.shown
    }

    /// Whether a call is under way.
    pub fn is_pending(&self) -> (pending: bool)
        ensures
            pending == self@.pending is Some,
    {
        self.pending.is_some()
    }

    /// Starts an edit: shows it at once and returns the call to make. An
    /// edit that does not apply to the list, or that comes while another
    /// call is under way, changes nothing and makes no call.
    pub fn begin(&mut self, m: Mutation) -> (call: Option<ApiCall>)
        ensures
            old(self)@.pending is None && m@.applies_to(old(self)@.shown) ==> {
                &&& final(self)@.shown == shown_while_pending(old(self)@.shown, m@)
                &&& final(self)@.pending == Some((old(self)@.shown, m@))
                &&& call matches Some(c) && call_for(old(self)@.shown, m@) == Some(c@)
            },
            !(old(self)@.pending is None && m@.applies_to(old(self)@.shown)) ==> {
                &&& final(self)@ == old(self)@
                &&& call is None
            },
    {
        if self.pending.is_some() || !m.applies_to(&self.shown) {
            return None;
        }
        let call = request(&self.shown, &m);
        let shown = optimistic(&self.shown, &m);
        self.snapshot = copy_cards(&self.shown);
        self.shown = shown;
        self.pending = Some(m);
        call
    }

    /// Takes the outcome of the call under way: keeps the edit if the
    /// service accepted it, goes back to the list before the edit if the
    /// call failed. Without a call under way nothing changes.
    pub fn settle(&mut self, outcome: &Outcome)
        ensures
            final(self)@.pending is None,
            final(self)@.shown == match old(self)@.pending {
                Some((snapshot, m)) => shown_when_settled(snapshot, m, outcome@),
                None => old(self)@.shown,
            },
    {
        let pending = self.pending.take();
        match pending {
            Some(m) => {
                self.shown = settled(&self.snapshot, &m, outcome);
            },
            None => {},
        }
    }
}

} // verus!
