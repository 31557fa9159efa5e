//! Row-level statements that the card service submits to its store, and the
//! SQL text and bound parameters of each.

use vstd::prelude::*;
use vstd::string::StringExecFns;
use crate::models::texts_view;

verus! {

/// Mathematical value of a [`Statement`].
pub enum StatementView {
    InsertUser { id: Seq<char> },
    InsertCard { id: Seq<char>, user_id: Seq<char>, title: Seq<char>, created_at: u64 },
    InsertTodos { card_id: Seq<char>, contents: Seq<Seq<char>> },
    UpdateCardTitle { card_id: Seq<char>, title: Seq<char> },
    UpdateTodo { row_id: u64, content: Seq<char>, completed_at: Option<u64> },
    DeleteCard { id: Seq<char> },
    DeleteTodosOfCard { card_id: Seq<char> },
}

/// One statement of a batch.
#[derive(Debug)]
pub enum Statement {
    /// Registers a user.
    InsertUser { id: String },
    /// Adds a card row.
    InsertCard { id: String, user_id: String, title: String, created_at: u64 },
    /// Adds one todo row per element of `contents`, in that order, none of
    /// them completed.
    InsertTodos { card_id: String, contents: Vec<String> },
    /// Replaces the title of a card.
    UpdateCardTitle { card_id: String, title: String },
    /// Replaces content and completion time of the todo row `row_id`.
    UpdateTodo { row_id: u64, content: String, completed_at: Option<u64> },
    /// Removes a card row.
    DeleteCard { id: String },
    /// Removes every todo row of a card.
    DeleteTodosOfCard { card_id: String },
}

impl View for Statement {
    type V = StatementView;

    open spec fn view(&self) -> StatementView {
        match self {
            Statement::InsertUser { id } => StatementView::InsertUser { id: id@ },
            Statement::InsertCard { id, user_id, title, created_at } => StatementView::InsertCard {
                id: id@,
                user_id: user_id@,
                title: title@,
                created_at: *created_at,
            },
            Statement::InsertTodos { card_id, contents } => StatementView::InsertTodos {
                card_id: card_id@,
                contents: texts_view(contents@),
            },
            Statement::UpdateCardTitle { card_id, title } => StatementView::UpdateCardTitle {
                card_id: card_id@,
                title: title@,
            },
            Statement::UpdateTodo { row_id, content, completed_at } => StatementView::UpdateTodo {
                row_id: *row_id,
                content: content@,
                completed_at: *completed_at,
            },
            Statement::DeleteCard { id } => StatementView::DeleteCard { id: id@ },
            Statement::DeleteTodosOfCard { card_id } => StatementView::DeleteTodosOfCard {
                card_id: card_id@,
            },
        }
    }
}

/// Views of a batch of statements, element by element.
pub open spec fn batch_view(batch: Seq<Statement>) -> Seq<StatementView> {
    Seq::new(batch.len(), |i: int| batch[i]@)
}

/// Mathematical value of a [`Param`].
pub enum ParamView {
    Text(Seq<char>),
    Integer(u64),
    Null,
}

/// A value bound to a placeholder of a statement.
#[derive(Debug)]
pub enum Param {
    Text(String),
    Integer(u64),
    Null,
}

impl View for Param {
    type V = ParamView;

    open spec fn view(&self) -> ParamView {
        match self {
            Param::Text(text) => ParamView::Text(text@),
            Param::Integer(n) => ParamView::Integer(*n),
            Param::Null => ParamView::Null,
        }
    }
}

/// Views of a list of parameters, element by element.
pub open spec fn params_view(params: Seq<Param>) -> Seq<ParamView> {
    Seq::new(params.len(), |i: int| params[i]@)
}

/// `n` two-column value groups, separated by commas.
pub open spec fn value_groups(n: nat) -> Seq<char>
    decreases n,
{
    if n == 0 {
        Seq::empty()
    } else if n == 1 {
        "(?,?)"@
    } else {
        value_groups((n - 1) as nat) + ","@ + "(?,?)"@
    }
}

/// A completion time as a bound parameter: the time, or null when absent.
pub open spec fn time_param(at: Option<u64>) -> ParamView {
    match at {
        Some(t) => ParamView::Integer(t),
        None => ParamView::Null,
    }
}

/// The parameters of a multi-row todo insert: the card id and the content,
/// once per row.
pub open spec fn todo_insert_params(card_id: Seq<char>, contents: Seq<Seq<char>>) -> Seq<
    ParamView,
> {
    Seq::new(
        2 * contents.len(),
        |i: int|
            if i % 2 == 0 {
                ParamView::Text(card_id)
            } else {
                ParamView::Text(contents[i / 2])
            },
    )
}

impl StatementView {
    /// SQL text of the statement.
    pub open spec fn sql(self) -> Seq<char> {
        match self {
            StatementView::InsertUser { .. } => "INSERT INTO users (id) VALUES (?)"@,
            StatementView::InsertCard { .. } =>
                "INSERT INTO cards (id, user_id, title, created_at) VALUES (?1, ?2, ?3, ?4)"@,
            StatementView::InsertTodos { contents, .. } =>
                "INSERT INTO todos (card_id, content) VALUES "@ + value_groups(contents.len()),
            StatementView::UpdateCardTitle { .. } => "UPDATE cards SET title = ?1 WHERE id = ?2"@,
            StatementView::UpdateTodo { .. } =>
                "UPDATE todos SET content = ?1, completed_at = ?2 WHERE id = ?3"@,
            StatementView::DeleteCard { .. } => "DELETE FROM cards WHERE id = ?"@,
            StatementView::DeleteTodosOfCard { .. } => "DELETE FROM todos WHERE card_id = ?"@,
        }
    }

    /// Parameters of the statement, in placeholder order.
    pub open spec fn params(self) -> Seq<ParamView> {
        match self {
            StatementView::InsertUser { id } => seq![ParamView::Text(id)],
            StatementView::InsertCard { id, user_id, title, created_at } => seq![
                ParamView::Text(id),
                ParamView::Text(user_id),
                ParamView::Text(title),
                ParamView::Integer(created_at),
            ],
            StatementView::InsertTodos { card_id, contents } => todo_insert_params(
                card_id,
                contents,
            ),
            StatementView::UpdateCardTitle { card_id, title } => seq![
                ParamView::Text(title),
                ParamView::Text(card_id),
            ],
            StatementView::UpdateTodo { row_id, content, completed_at } => seq![
                ParamView::Text(content),
                time_param(completed_at),
                ParamView::Integer(row_id),
            ],
            StatementView::DeleteCard { id } => seq![ParamView::Text(id)],
            StatementView::DeleteTodosOfCard { card_id } => seq![ParamView::Text(card_id)],
        }
    }
}

/// Builds `n` two-column value groups, separated by commas.
pub fn build_value_groups(n: usize) -> (text: String)
    ensures
        text@ == value_groups(n as nat),
{
    let mut text = String::new();
    let mut i: usize = 0;
    while i < n
        invariant
            i <= n,
            text@ == value_groups(i as nat),
        decreases n - i,
    {
        if i > 0 {
            text.append(",");
        }
        text.append("(?,?)");
        proof {
            if i == 0 {
                assert(Seq::<char>::empty() + "(?,?)"@ =~= "(?,?)"@);
            }
        }
        i += 1;
    }
    text
}

impl Statement {
    /// SQL text of the statement.
    pub fn sql(&self) -> (text: String)
        ensures
            text@ == self@.sql(),
    {
        match self {
            Statement::InsertUser { .. } => String::from_str("INSERT INTO users (id) VALUES (?)"),
            Statement::InsertCard { .. } => String::from_str(
                "INSERT INTO cards (id, user_id, title, created_at) VALUES (?1, ?2, ?3, ?4)",
            ),
            Statement::InsertTodos { contents, .. } => {
                let mut text = String::from_str("INSERT INTO todos (card_id, content) VALUES ");
                let groups = build_value_groups(contents.len());
                text.append(groups.as_str());
                text
            },
            Statement::UpdateCardTitle { .. } => String::from_str(
                "UPDATE cards SET title = ?1 WHERE id = ?2",
            ),
            Statement::UpdateTodo { .. } => String::from_str(
                "UPDATE todos SET content = ?1, completed_at = ?2 WHERE id = ?3",
            ),
            Statement::DeleteCard { .. } => String::from_str("DELETE FROM cards WHERE id = ?"),
            Statement::DeleteTodosOfCard { .. } => String::from_str(
                "DELETE FROM todos WHERE card_id = ?",
            ),
        }
    }

    /// Parameters of the statement, in placeholder order.
    pub fn params(&self) -> (params: Vec<Param>)
        ensures
            params_view(params@) == self@.params(),
    {
        let mut params: Vec<Param> = Vec::new();
        match self {
            Statement::InsertUser { id } => {
                params.push(Param::Text(id.clone()));
            },
            Statement::InsertCard { id, user_id, title, created_at } => {
                params.push(Param::Text(id.clone()));
                params.push(Param::Text(user_id.clone()));
                params.push(Param::Text(title.clone()));
                params.push(Param::Integer(*created_at));
            },
            Statement::InsertTodos { card_id, contents } => {
                let mut i: usize = 0;
                while i < contents.len()
                    invariant
                        i <= contents.len(),
                        params.len() == 2 * i,
                        params_view(params@) == todo_insert_params(
                            card_id@,
                            texts_view(contents@).take(i as int),
                        ),
                    decreases contents.len() - i,
                {
                    let ghost before = params_view(params@);
                    params.push(Param::Text(card_id.clone()));
                    params.push(Param::Text(contents[i].clone()));
                    assert(params_view(params@) =~= todo_insert_params(
                        card_id@,
                        texts_view(contents@).take(i + 1),
                    )) by {
                        let after = todo_insert_params(card_id@, texts_view(contents@).take(i + 1));
                        assert forall|k: int| 0 <= k < after.len() implies params_view(params@)[k]
                            == after[k] by {
                            if k < 2 * i {
                                assert(params_view(params@)[k] == before[k]);
                            }
                        }
                    }
                    i += 1;
                }
                assert(texts_view(contents@).take(i as int) =~= texts_view(contents@));
            },
            Statement::UpdateCardTitle { card_id, title } => {
                params.push(Param::Text(title.clone()));
                params.push(Param::Text(card_id.clone()));
            },
            Statement::UpdateTodo { row_id, content, completed_at } => {
                params.push(Param::Text(content.clone()));
                match completed_at {
                    Some(t) => params.push(Param::Integer(*t)),
                    None => params.push(Param::Null),
                }
                params.push(Param::Integer(*row_id));
            },
            Statement::DeleteCard { id } => {
                params.push(Param::Text(id.clone()));
            },
            Statement::DeleteTodosOfCard { card_id } => {
                params.push(Param::Text(card_id.clone()));
            },
        }
        assert(params_view(params@) =~= self@.params());
        params
    }
}

/// Mathematical value of a [`Query`].
pub enum QueryView {
    OwnerOfCard { card_id: Seq<char> },
    TitleOfCard { card_id: Seq<char> },
    CardsOfUser { user_id: Seq<char> },
    TodosOfCard { card_id: Seq<char> },
    TodosOfCards { card_ids: Seq<Seq<char>> },
}

/// A read of the card service.
#[derive(Debug)]
pub enum Query {
    /// The owner of a card: the column `user_id` of at most one row.
    OwnerOfCard { card_id: String },
    /// The title of a card: the column `title` of at most one row.
    TitleOfCard { card_id: String },
    /// Identifier and title of the cards of a user, ascending by creation
    /// time.
    CardsOfUser { user_id: String },
    /// The todo rows of one card, in no particular order.
    TodosOfCard { card_id: String },
    /// The todo rows of the given cards, in no particular order. There must
    /// be at least one card.
    TodosOfCards { card_ids: Vec<String> },
}

impl View for Query {
    type V = QueryView;

    open spec fn view(&self) -> QueryView {
        match self {
            Query::OwnerOfCard { card_id } => QueryView::OwnerOfCard { card_id: card_id@ },
            Query::TitleOfCard { card_id } => QueryView::TitleOfCard { card_id: card_id@ },
            Query::CardsOfUser { user_id } => QueryView::CardsOfUser { user_id: user_id@ },
            Query::TodosOfCard { card_id } => QueryView::TodosOfCard { card_id: card_id@ },
            Query::TodosOfCards { card_ids } => QueryView::TodosOfCards {
                card_ids: texts_view(card_ids@),
            },
        }
    }
}

/// `n` placeholders, separated by commas.
pub open spec fn placeholders(n: nat) -> Seq<char>
    decreases n,
{
    if n == 0 {
        Seq::empty()
    } else if n == 1 {
        "?"@
    } else {
        placeholders((n - 1) as nat) + ","@ + "?"@
    }
}

/// A list of texts as bound parameters, one for one.
pub open spec fn text_params(texts: Seq<Seq<char>>) -> Seq<ParamView> {
    Seq::new(texts.len(), |i: int| ParamView::Text(texts[i]))
}

impl QueryView {
    /// SQL text of the query.
    pub open spec fn sql(self) -> Seq<char> {
        match self {
            QueryView::OwnerOfCard { .. } => "SELECT user_id FROM cards WHERE id = ?"@,
            QueryView::TitleOfCard { .. } => "SELECT title FROM cards WHERE id = ?"@,
            QueryView::CardsOfUser { .. } =>
                "SELECT id, title FROM cards WHERE user_id = ? ORDER BY created_at ASC"@,
            QueryView::TodosOfCard { .. } =>
                "SELECT id, card_id, content, completed_at FROM todos WHERE card_id = ?"@,
            QueryView::TodosOfCards { card_ids } =>
                "SELECT id, card_id, content, completed_at FROM todos WHERE card_id IN ("@
                    + placeholders(card_ids.len()) + ")"@,
        }
    }

    /// Parameters of the query, in placeholder order.
    pub open spec fn params(self) -> Seq<ParamView> {
        match self {
            QueryView::OwnerOfCard { card_id } => seq![ParamView::Text(card_id)],
            QueryView::TitleOfCard { card_id } => seq![ParamView::Text(card_id)],
            QueryView::CardsOfUser { user_id } => seq![ParamView::Text(user_id)],
            QueryView::TodosOfCard { card_id } => seq![ParamView::Text(card_id)],
            QueryView::TodosOfCards { card_ids } => text_params(card_ids),
        }
    }
}

/// Builds `n` placeholders, separated by commas.
pub fn build_placeholders(n: usize) -> (text: String)
    ensures
        text@ == placeholders(n as nat),
{
    let mut text = String::new();
    let mut i: usize = 0;
    while i < n
        invariant
            i <= n,
            text@ == placeholders(i as nat),
        decreases n - i,
    {
        if i > 0 {
            text.append(",");
        }
        text.append("?");
        proof {
            if i == 0 {
                assert(Seq::<char>::empty() + "?"@ =~= "?"@);
            }
        }
        i += 1;
    }
    text
}

impl Query {
    /// SQL text of the query.
    pub fn sql(&self) -> (text: String)
        ensures
            text@ == self@.sql(),
    {
        match self {
            Query::OwnerOfCard { .. } => String::from_str("SELECT user_id FROM cards WHERE id = ?"),
            Query::TitleOfCard { .. } => String::from_str("SELECT title FROM cards WHERE id = ?"),
            Query::CardsOfUser { .. } => String::from_str(
                "SELECT id, title FROM cards WHERE user_id = ? ORDER BY created_at ASC",
            ),
            Query::TodosOfCard { .. } => String::from_str(
                "SELECT id, card_id, content, completed_at FROM todos WHERE card_id = ?",
            ),
            Query::TodosOfCards { card_ids } => {
                let mut text = String::from_str(
                    "SELECT id, card_id, content, completed_at FROM todos WHERE card_id IN (",
                );
                let marks = build_placeholders(card_ids.len());
                text.append(marks.as_str());
                text.append(")");
                text
            },
        }
    }

    /// Parameters of the query, in placeholder order.
    pub fn params(&self) -> (params: Vec<Param>)
        ensures
            params_view(params@) == self@.params(),
    {
        let mut params: Vec<Param> = Vec::new();
        match self {
            Query::OwnerOfCard { card_id } => {
                params.push(Param::Text(card_id.clone()));
            },
            Query::TitleOfCard { card_id } => {
                params.push(Param::Text(card_id.clone()));
            },
            Query::CardsOfUser { user_id } => {
                params.push(Param::Text(user_id.clone()));
            },
            Query::TodosOfCard { card_id } => {
                params.push(Param::Text(card_id.clone()));
            },
            Query::TodosOfCards { card_ids } => {
                let mut i: usize = 0;
                while i < card_ids.len()
                    invariant
                        i <= card_ids.len(),
                        params.len() == i,
                        forall|k: int| 0 <= k < i ==> (#[trigger] params[k])@ == ParamView::Text(
                            card_ids[k]@,
                        ),
                    decreases card_ids.len() - i,
                {
                    params.push(Param::Text(card_ids[i].clone()));
                    i += 1;
                }
            },
        }
        assert(params_view(params@) =~= self@.params());
        params
    }
}

} // verus!
