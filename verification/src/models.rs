//! Wire-level data model: cards, todo slots and the request/response bodies
//! exchanged between the client and the card store.

use vstd::prelude::*;

verus! {

/// Identifiers are opaque strings.
pub type ID = String;

/// Number of todo slots that every card carries.
pub const N_TODOS: usize = 10;

/// Mathematical value of a [`Todo`].
pub struct TodoView {
    pub content: Seq<char>,
    pub completed: bool,
}

/// Mathematical value of a [`Card`].
pub struct CardView {
    pub id: Seq<char>,
    pub title: Seq<char>,
    pub todos: Seq<TodoView>,
}

/// The slot every fresh card starts with: no content, not completed.
pub open spec fn blank_todo() -> TodoView {
    TodoView { content: Seq::empty(), completed: false }
}

/// A full slate of blank slots.
pub open spec fn blank_slots() -> Seq<TodoView> {
    Seq::new(N_TODOS as nat, |i: int| blank_todo())
}

/// Views of a sequence of todos, slot by slot.
pub open spec fn slots_view(todos: Seq<Todo>) -> Seq<TodoView> {
    Seq::new(todos.len(), |i: int| todos[i]@)
}

/// Views of a sequence of strings, element by element.
pub open spec fn texts_view(texts: Seq<String>) -> Seq<Seq<char>> {
    Seq::new(texts.len(), |i: int| texts[i]@)
}

/// Views of a sequence of cards, element by element.
pub open spec fn cards_view(cards: Seq<Card>) -> Seq<CardView> {
    Seq::new(cards.len(), |i: int| cards[i]@)
}

/// Contents of one slot of a card.
#[derive(Debug)]
pub struct Todo {
    pub content: String,
    pub completed: bool,
}

impl View for Todo {
    type V = TodoView;

    open spec fn view(&self) -> TodoView {
        TodoView { content: self.content@, completed: self.completed }
    }
}

impl Clone for Todo {
    fn clone(&self) -> (r: Self)
        ensures
            r == *self,
    {
        Todo { content: self.content.clone(), completed: self.completed }
    }
}

impl PartialEq for Todo {
    fn eq(&self, other: &Self) -> (r: bool) {
        self.content == other.content && self.completed == other.completed
    }
}

impl vstd::std_specs::cmp::PartialEqSpecImpl for Todo {
    open spec fn obeys_eq_spec() -> bool {
        true
    }

    open spec fn eq_spec(&self, other: &Self) -> bool {
        self@ == other@
    }
}

impl Todo {
    /// A slot with no content that is not completed.
    pub fn blank() -> (t: Todo)
        ensures
            t@ == blank_todo(),
    {
        Todo { content: String::new(), completed: false }
    }
}

/// A titled container of exactly [`N_TODOS`] ordered todo slots.
#[derive(Debug)]
pub struct Card {
    pub id: ID,
    pub title: String,
    pub todos: [Todo; N_TODOS],
}

impl View for Card {
    type V = CardView;

    open spec fn view(&self) -> CardView {
        CardView { id: self.id@, title: self.title@, todos: slots_view(self.todos@) }
    }
}

impl Clone for Card {
    fn clone(&self) -> (r: Self)
        ensures
            r == *self,
    {
        let todos = self.todos.clone();
        assert(todos =~= self.todos);
        Card { id: self.id.clone(), title: self.title.clone(), todos }
    }
}

/// Slot-by-slot comparison of two slates.
pub fn same_slots(a: &[Todo; N_TODOS], b: &[Todo; N_TODOS]) -> (r: bool)
    ensures
        r == (slots_view(a@) == slots_view(b@)),
{
    let mut i: usize = 0;
    while i < N_TODOS
        invariant
            i <= N_TODOS,
            forall|k: int| 0 <= k < i ==> a@[k]@ == b@[k]@,
        decreases N_TODOS - i,
    {
        if a[i] != b[i] {
            assert(slots_view(a@)[i as int] != slots_view(b@)[i as int]);
            return false;
        }
        i += 1;
    }
    assert(slots_view(a@) =~= slots_view(b@));
    true
}

impl PartialEq for Card {
    fn eq(&self, other: &Self) -> (r: bool) {
        self.id == other.id && self.title == other.title && same_slots(&self.todos, &other.todos)
    }
}

impl vstd::std_specs::cmp::PartialEqSpecImpl for Card {
    open spec fn obeys_eq_spec() -> bool {
        true
    }

    open spec fn eq_spec(&self, other: &Self) -> bool {
        self@ == other@
    }
}

impl Card {
    /// Number of todo slots that every card carries.
    pub const N_TODOS: usize = N_TODOS;

    /// The card a store returns right after creating it: the given id, no
    /// title, and a full slate of blank slots.
    pub fn blank(id: ID) -> (c: Card)
        ensures
            c@ == (CardView { id: id@, title: Seq::empty(), todos: blank_slots() }),
    {
        let c = Card { id, title: String::new(), todos: blank_slate() };
        assert(c@.todos =~= blank_slots());
        c
    }
}

/// A full slate of blank slots.
pub fn blank_slate() -> (a: [Todo; N_TODOS])
    ensures
        slots_view(a@) == blank_slots(),
{
    let a = [
        Todo::blank(),
        Todo::blank(),
        Todo::blank(),
        Todo::blank(),
        Todo::blank(),
        Todo::blank(),
        Todo::blank(),
        Todo::blank(),
        Todo::blank(),
        Todo::blank(),
    ];
    assert(slots_view(a@) =~= blank_slots());
    a
}

/// Body returned by the signup endpoint: the bearer token of the new user.
#[derive(Debug)]
pub struct SignupResponse {
    pub token: String,
}

/// Mathematical value of a [`CreateCardRequest`].
pub struct CreateCardRequestView {
    pub title: Seq<char>,
    pub todos: Seq<Seq<char>>,
}

/// Body of a card-creation request: a title and the text of each slot.
#[derive(Debug)]
pub struct CreateCardRequest {
    pub title: String,
    pub todos: [String; N_TODOS],
}

impl View for CreateCardRequest {
    type V = CreateCardRequestView;

    open spec fn view(&self) -> CreateCardRequestView {
        CreateCardRequestView { title: self.title@, todos: texts_view(self.todos@) }
    }
}

impl Clone for CreateCardRequest {
    fn clone(&self) -> (r: Self)
        ensures
            r == *self,
    {
        let todos = self.todos.clone();
        assert(todos =~= self.todos);
        CreateCardRequest { title: self.title.clone(), todos }
    }
}

impl PartialEq for CreateCardRequest {
    fn eq(&self, other: &Self) -> (r: bool) {
        if self.title != other.title {
            return false;
        }
        let mut i: usize = 0;
        while i < N_TODOS
            invariant
                i <= N_TODOS,
                self.title@ == other.title@,
                forall|k: int| 0 <= k < i ==> self.todos@[k]@ == other.todos@[k]@,
            decreases N_TODOS - i,
        {
            if self.todos[i] != other.todos[i] {
                assert(self@.todos[i as int] != other@.todos[i as int]);
                return false;
            }
            i += 1;
        }
        assert(self@.todos =~= other@.todos);
        true
    }
}

impl vstd::std_specs::cmp::PartialEqSpecImpl for CreateCardRequest {
    open spec fn obeys_eq_spec() -> bool {
        true
    }

    open spec fn eq_spec(&self, other: &Self) -> bool {
        self@ == other@
    }
}

impl CreateCardRequestView {
    /// No title and no text in any slot.
    pub open spec fn is_empty(self) -> bool {
        &&& self.title.len() == 0
        &&& forall|i: int| 0 <= i < self.todos.len() ==> (#[trigger] self.todos[i]).len() == 0
    }
}

impl CreateCardRequest {
    /// The request a client sends for a new card: no title, every slot empty.
    pub fn empty() -> (r: Self)
        ensures
            r@.title == Seq::<char>::empty(),
            r@.todos == Seq::new(N_TODOS as nat, |i: int| Seq::<char>::empty()),
            r@.is_empty(),
    {
        let r = CreateCardRequest {
            title: String::new(),
            todos: [
                String::new(),
                String::new(),
                String::new(),
                String::new(),
                String::new(),
                String::new(),
                String::new(),
                String::new(),
                String::new(),
                String::new(),
            ],
        };
        assert(r@.todos =~= Seq::new(N_TODOS as nat, |i: int| Seq::<char>::empty()));
        r
    }

    /// Whether the title and every slot are empty.
    pub fn is_empty(&self) -> (b: bool)
        ensures
            b == self@.is_empty(),
    {
        if !self.title.as_str().is_empty() {
            return false;
        }
        let mut i: usize = 0;
        while i < N_TODOS
            invariant
                i <= N_TODOS,
                self.title@.len() == 0,
                forall|k: int| 0 <= k < i ==> (#[trigger] self@.todos[k]).len() == 0,
            decreases N_TODOS - i,
        {
            if !self.todos[i].as_str().is_empty() {
                assert(self@.todos[i as int].len() != 0);
                return false;
            }
            i += 1;
        }
        true
    }
}

/// Body returned by the card-creation endpoint.
#[derive(Debug)]
pub struct CreateCardResponse {
    pub id: String,
}

/// Mathematical value of an [`UpdateCard`].
pub struct UpdateCardView {
    pub title: Seq<char>,
    pub todos: Seq<TodoView>,
}

/// Body of a card update: the full new title and the full new slate.
#[derive(Debug)]
pub struct UpdateCard {
    pub title: String,
    pub todos: [Todo; N_TODOS],
}

impl View for UpdateCard {
    type V = UpdateCardView;

    open spec fn view(&self) -> UpdateCardView {
        UpdateCardView { title: self.title@, todos: slots_view(self.todos@) }
    }
}

} // verus!
