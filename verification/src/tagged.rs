//! Todos that carry labels: their wire model, the endpoints that create,
//! list, change and complete them, and the statements that these submit.
//!
//! The endpoints decide and plan; they touch no store but the table of
//! labels. What they need of the store, the owner of a todo or the rows of a
//! listing, is handed to them, and the batch they return is for the caller
//! to submit.

use vstd::prelude::*;
use vstd::string::{StrSliceExecFns, StringExecFns};
use crate::auth::{authorize, is_not_owner, unix_timestamp, JWTPayload};
use crate::errors::{ServerError, StorageFault};
use crate::models::texts_view;
use crate::statements::{build_value_groups, params_view, value_groups, Param, ParamView};
use crate::tags::{
    are_tag_names, refuses_tag_names, tags_view, validate_tag_names, Tag, TagTable, TagTableView,
    TagView,
};

verus! {

/// The query for the owner of a todo: its one parameter is the identifier
/// of the todo, its result the column `user_id` of at most one row.
pub const OWNER_OF_TODO_SQL: &'static str = "SELECT user_id FROM todos WHERE id = ?";

/// The query that lists the todos of a user: its one parameter is the user,
/// its rows are [`TodoRecord`]s.
pub const LIST_TODOS_SQL: &'static str =
    "SELECT todos.id, todos.content, todos.completed_at, group_concat(tags.id) AS tag_ids_csv, group_concat(tags.name) AS tag_names_csv FROM todos LEFT OUTER JOIN todo_tags ON todo_tags.todo_id = todos.id LEFT OUTER JOIN tags ON tags.id = todo_tags.tag_id WHERE user_id = ?1 GROUP BY todos.id";

/// Mathematical value of a [`TaggedTodo`].
pub struct TaggedTodoView {
    pub id: Seq<char>,
    pub content: Seq<char>,
    pub completed: bool,
    pub tags: Seq<TagView>,
}

/// A todo with its labels.
#[derive(Debug)]
pub struct TaggedTodo {
    pub id: String,
    pub content: String,
    pub completed: bool,
    pub tags: Vec<Tag>,
}

impl View for TaggedTodo {
    type V = TaggedTodoView;

    open spec fn view(&self) -> TaggedTodoView {
        TaggedTodoView {
            id: self.id@,
            content: self.content@,
            completed: self.completed,
            tags: tags_view(self.tags@),
        }
    }
}

/// Body of a request for a new todo: its content and the names of its
/// labels.
#[derive(Debug)]
pub struct CreateTodo {
    pub content: String,
    pub tags: Vec<String>,
}

/// Body of a request to change a todo: the new content and the names of the
/// new labels, each only if it is to change.
#[derive(Debug)]
pub struct UpdateTodo {
    pub content: Option<String>,
    pub tags: Option<Vec<String>>,
}

/// Mathematical value of a [`TodoStatement`].
pub enum TodoStatementView {
    InsertTodo { id: Seq<char>, user_id: Seq<char>, content: Seq<char> },
    InsertTodoTags { todo_id: Seq<char>, tag_ids: Seq<u32> },
    UpdateContent { id: Seq<char>, content: Seq<char> },
    DeleteTodoTags { todo_id: Seq<char> },
    Complete { id: Seq<char>, completed_at: u64 },
}

/// One statement on the tables of labelled todos.
#[derive(Debug)]
pub enum TodoStatement {
    /// Adds a todo row.
    InsertTodo { id: String, user_id: String, content: String },
    /// Attaches labels to a todo, one row per label.
    InsertTodoTags { todo_id: String, tag_ids: Vec<u32> },
    /// Replaces the content of a todo.
    UpdateContent { id: String, content: String },
    /// Detaches every label from a todo.
    DeleteTodoTags { todo_id: String },
    /// Records the completion time of a todo.
    Complete { id: String, completed_at: u64 },
}

impl View for TodoStatement {
    type V = TodoStatementView;

    open spec fn view(&self) -> TodoStatementView {
        match self {
            TodoStatement::InsertTodo { id, user_id, content } => TodoStatementView::InsertTodo {
                id: id@,
                user_id: user_id@,
                content: content@,
            },
            TodoStatement::InsertTodoTags { todo_id, tag_ids } => TodoStatementView::InsertTodoTags {
                todo_id: todo_id@,
                tag_ids: tag_ids@,
            },
            TodoStatement::UpdateContent { id, content } => TodoStatementView::UpdateContent {
                id: id@,
                content: content@,
            },
            TodoStatement::DeleteTodoTags { todo_id } => TodoStatementView::DeleteTodoTags {
                todo_id: todo_id@,
            },
            TodoStatement::Complete { id, completed_at } => TodoStatementView::Complete {
                id: id@,
                completed_at: *completed_at,
            },
        }
    }
}

/// Views of a batch of statements, element by element.
pub open spec fn todo_batch_view(batch: Seq<TodoStatement>) -> Seq<TodoStatementView> {
    Seq::new(batch.len(), |i: int| batch[i]@)
}

/// The identifiers of a list of labels.
pub open spec fn tag_ids(tags: Seq<TagView>) -> Seq<u32> {
    Seq::new(tags.len(), |i: int| tags[i].id)
}

/// The parameters of a multi-row label attachment: the todo and the label,
/// once per row.
pub open spec fn todo_tag_params(todo_id: Seq<char>, tag_ids: Seq<u32>) -> Seq<ParamView> {
    Seq::new(
        2 * tag_ids.len(),
        |i: int|
            if i % 2 == 0 {
                ParamView::Text(todo_id)
            } else {
                ParamView::Integer(tag_ids[i / 2] as u64)
            },
    )
}

impl TodoStatementView {
    /// SQL text of the statement.
    pub open spec fn sql(self) -> Seq<char> {
        match self {
            TodoStatementView::InsertTodo { .. } =>
                "INSERT INTO todos (id, user_id, content) VALUES (?1, ?2, ?3)"@,
            TodoStatementView::InsertTodoTags { tag_ids, .. } =>
                "INSERT INTO todo_tags (todo_id, tag_id) VALUES "@ + value_groups(tag_ids.len()),
            TodoStatementView::UpdateContent { .. } => "UPDATE todos SET content = ?1 WHERE id = ?2"@,
            TodoStatementView::DeleteTodoTags { .. } => "DELETE FROM todo_tags WHERE todo_id = ?"@,
            TodoStatementView::Complete { .. } =>
                "UPDATE todos SET completed_at = ?1 WHERE id = ?2"@,
        }
    }

    /// Parameters of the statement, in placeholder order.
    pub open spec fn params(self) -> Seq<ParamView> {
        match self {
            TodoStatementView::InsertTodo { id, user_id, content } => seq![
                ParamView::Text(id),
                ParamView::Text(user_id),
                ParamView::Text(content),
            ],
            TodoStatementView::InsertTodoTags { todo_id, tag_ids } => todo_tag_params(
                todo_id,
                tag_ids,
            ),
            TodoStatementView::UpdateContent { id, content } => seq![
                ParamView::Text(content),
                ParamView::Text(id),
            ],
            TodoStatementView::DeleteTodoTags { todo_id } => seq![ParamView::Text(todo_id)],
            TodoStatementView::Complete { id, completed_at } => seq![
                ParamView::Integer(completed_at),
                ParamView::Text(id),
            ],
        }
    }
}

impl TodoStatement {
    /// SQL text of the statement.
    pub fn sql(&self) -> (text: String)
        ensures
            text@ == self@.sql(),
    {
        match self {
            TodoStatement::InsertTodo { .. } => String::from_str(
                "INSERT INTO todos (id, user_id, content) VALUES (?1, ?2, ?3)",
            ),
            TodoStatement::InsertTodoTags { tag_ids, .. } => {
                let mut text = String::from_str("INSERT INTO todo_tags (todo_id, tag_id) VALUES ");
                let groups = build_value_groups(tag_ids.len());
                text.append(groups.as_str());
                text
            },
            TodoStatement::UpdateContent { .. } => String::from_str(
                "UPDATE todos SET content = ?1 WHERE id = ?2",
            ),
            TodoStatement::DeleteTodoTags { .. } => String::from_str(
                "DELETE FROM todo_tags WHERE todo_id = ?",
            ),
            TodoStatement::Complete { .. } => String::from_str(
                "UPDATE todos SET completed_at = ?1 WHERE id = ?2",
            ),
        }
    }

    /// Parameters of the statement, in placeholder order.
    pub fn params(&self) -> (params: Vec<Param>)
        ensures
            params_view(params@) == self@.params(),
    {
        let mut params: Vec<Param> = Vec::new();
        match self {
            TodoStatement::InsertTodo { id, user_id, content } => {
                params.push(Param::Text(id.clone()));
                params.push(Param::Text(user_id.clone()));
                params.push(Param::Text(content.clone()));
            },
            TodoStatement::InsertTodoTags { todo_id, tag_ids } => {
                let mut i: usize = 0;
                while i < tag_ids.len()
                    invariant
                        i <= tag_ids.len(),
                        params.len() == 2 * i,
                        params_view(params@) == todo_tag_params(todo_id@, tag_ids@.take(i as int)),
                    decreases tag_ids.len() - i,
                {
                    let ghost before = params_view(params@);
                    params.push(Param::Text(todo_id.clone()));
                    params.push(Param::Integer(tag_ids[i] as u64));
                    assert(params_view(params@) =~= todo_tag_params(
                        todo_id@,
                        tag_ids@.take(i + 1),
                    )) by {
                        let after = todo_tag_params(todo_id@, tag_ids@.take(i + 1));
                        assert forall|k: int| 0 <= k < after.len() implies params_view(params@)[k]
                            == after[k] by {
                            if k < 2 * i {
                                assert(params_view(params@)[k] == before[k]);
                            }
                        }
                    }
                    i += 1;
                }
                assert(tag_ids@.take(i as int) =~= tag_ids@);
            },
            TodoStatement::UpdateContent { id, content } => {
                params.push(Param::Text(content.clone()));
                params.push(Param::Text(id.clone()));
            },
            TodoStatement::DeleteTodoTags { todo_id } => {
                params.push(Param::Text(todo_id.clone()));
            },
            TodoStatement::Complete { id, completed_at } => {
                params.push(Param::Integer(*completed_at));
                params.push(Param::Text(id.clone()));
            },
        }
        assert(params_view(params@) =~= self@.params());
        params
    }
}

/// The identifiers of a list of labels.
pub fn ids_of_tags(tags: &Vec<Tag>) -> (ids: Vec<u32>)
    ensures
        ids@ == tag_ids(tags_view(tags@)),
{
    let mut ids: Vec<u32> = Vec::new();
    let mut i: usize = 0;
    while i < tags.len()
        invariant
            i <= tags.len(),
            ids.len() == i,
            forall|k: int| 0 <= k < i ==> #[trigger] ids[k] == tags[k].id,
        decreases tags.len() - i,
    {
        ids.push(tags[i].id);
        i += 1;
    }
    assert(ids@ =~= tag_ids(tags_view(tags@)));
    ids
}

/// The statement that attaches labels to a todo, if there are any.
pub open spec fn attachment(todo_id: Seq<char>, tags: Seq<TagView>) -> Seq<TodoStatementView> {
    if tags.len() > 0 {
        seq![TodoStatementView::InsertTodoTags { todo_id, tag_ids: tag_ids(tags) }]
    } else {
        Seq::empty()
    }
}

/// The batch that creates a todo: the todo row, then its labels if it has
/// any.
pub open spec fn todo_creation_batch(
    id: Seq<char>,
    user_id: Seq<char>,
    content: Seq<char>,
    tags: Seq<TagView>,
) -> Seq<TodoStatementView> {
    seq![TodoStatementView::InsertTodo { id, user_id, content }] + attachment(id, tags)
}

/// Plans the creation of a todo with its resolved labels.
pub fn plan_create_todo(id: &str, user_id: &str, content: &str, tags: &Vec<Tag>) -> (plan: Vec<
    TodoStatement,
>)
    ensures
        todo_batch_view(plan@) == todo_creation_batch(
            id@,
            user_id@,
            content@,
            tags_view(tags@),
        ),
{
    let mut plan: Vec<TodoStatement> = Vec::new();
    plan.push(
        TodoStatement::InsertTodo {
            id: id.to_owned(),
            user_id: user_id.to_owned(),
            content: content.to_owned(),
        },
    );
    if tags.len() > 0 {
        plan.push(TodoStatement::InsertTodoTags { todo_id: id.to_owned(), tag_ids: ids_of_tags(tags) });
    }
    assert(todo_batch_view(plan@) =~= todo_creation_batch(
        id@,
        user_id@,
        content@,
        tags_view(tags@),
    ));
    plan
}

/// The todo that was just created: the given labels, not completed.
pub fn created_todo(id: String, content: String, tags: Vec<Tag>) -> (todo: TaggedTodo)
    ensures
        todo@ == (TaggedTodoView {
            id: id@,
            content: content@,
            completed: false,
            tags: tags_view(tags@),
        }),
{
    TaggedTodo { id, content, completed: false, tags }
}

/// The batch that changes a todo: the new content if there is one, and, if
/// the labels change, the removal of the old ones and the attachment of the
/// new ones. Nothing at all if neither changes.
pub open spec fn todo_update_batch(
    id: Seq<char>,
    content: Option<Seq<char>>,
    tags: Option<Seq<TagView>>,
) -> Seq<TodoStatementView> {
    let content_part = match content {
        Some(text) => seq![TodoStatementView::UpdateContent { id, content: text }],
        None => Seq::empty(),
    };
    let tags_part = match tags {
        Some(new_tags) => seq![TodoStatementView::DeleteTodoTags { todo_id: id }] + attachment(
            id,
            new_tags,
        ),
        None => Seq::empty(),
    };
    content_part + tags_part
}

/// The views of optional resolved labels.
pub open spec fn optional_tags_view(tags: Option<Vec<Tag>>) -> Option<Seq<TagView>> {
    match tags {
        Some(list) => Some(tags_view(list@)),
        None => None,
    }
}

/// The view of an optional text.
pub open spec fn optional_text_view(text: Option<String>) -> Option<Seq<char>> {
    match text {
        Some(s) => Some(s@),
        None => None,
    }
}

/// Plans the change of a todo, given the new content and the resolved new
/// labels, each only if it is to change.
pub fn plan_update_todo(id: &str, content: &Option<String>, tags: &Option<Vec<Tag>>) -> (plan: Vec<
    TodoStatement,
>)
    ensures
        todo_batch_view(plan@) == todo_update_batch(
            id@,
            optional_text_view(*content),
            optional_tags_view(*tags),
        ),
        (content is None && tags is None) ==> plan.len() == 0,
{
    let mut plan: Vec<TodoStatement> = Vec::new();
    match content {
        Some(text) => {
            plan.push(TodoStatement::UpdateContent { id: id.to_owned(), content: text.clone() });
        },
        None => {},
    }
    match tags {
        Some(new_tags) => {
            plan.push(TodoStatement::DeleteTodoTags { todo_id: id.to_owned() });
            if new_tags.len() > 0 {
                plan.push(
                    TodoStatement::InsertTodoTags {
                        todo_id: id.to_owned(),
                        tag_ids: ids_of_tags(new_tags),
                    },
                );
            }
        },
        None => {},
    }
    assert(todo_batch_view(plan@) =~= todo_update_batch(
        id@,
        optional_text_view(*content),
        optional_tags_view(*tags),
    ));
    plan
}

/// Plans the completion of a todo at time `now`.
pub fn plan_complete_todo_at(id: &str, now: u64) -> (stmt: TodoStatement)
    ensures
        stmt@ == (TodoStatementView::Complete { id: id@, completed_at: now }),
{
    TodoStatement::Complete { id: id.to_owned(), completed_at: now }
}

/// Checks that `user_id` owns a todo, given the owner that the store
/// reports for it. A todo that does not exist is refused like a todo of
/// somebody else.
pub fn assert_user_is_owner_of_todo(owner: Option<String>, user_id: &str) -> (res: Result<
    (),
    ServerError,
>)
    ensures
        res is Ok <==> (owner matches Some(o) && o@ == user_id@),
        res matches Err(e) ==> is_not_owner(e, user_id@, "todo"@),
{
    authorize(owner, user_id, "todo")
}

/// The fields of a comma-separated list. A list without a comma is one
/// field; the empty list is one empty field.
pub open spec fn split_commas(s: Seq<char>) -> Seq<Seq<char>>
    decreases s.len(),
{
    if s.len() == 0 {
        seq![Seq::empty()]
    } else {
        let front = split_commas(s.drop_last());
        if s.last() == ',' {
            front.push(Seq::empty())
        } else {
            front.update(front.len() - 1, front.last().push(s.last()))
        }
    }
}

/// Splits a comma-separated list into its fields.
pub fn split_on_commas(s: &str) -> (fields: Vec<String>)
    ensures
        texts_view(fields@) == split_commas(s@),
{
    let len = s.unicode_len();
    let mut fields: Vec<String> = Vec::new();
    let mut start: usize = 0;
    let mut i: usize = 0;
    assert(s@.take(0) =~= Seq::<char>::empty());
    assert(texts_view(fields@).push(s@.subrange(0, 0)) =~= split_commas(s@.take(0)));
    while i < len
        invariant
            start <= i <= len,
            len == s@.len(),
            texts_view(fields@).push(s@.subrange(start as int, i as int)) == split_commas(
                s@.take(i as int),
            ),
        decreases len - i,
    {
        let ghost done = texts_view(fields@);
        let ghost field = s@.subrange(start as int, i as int);
        proof {
            assert(s@.take(i + 1).drop_last() =~= s@.take(i as int));
            assert(s@.take(i + 1).last() == s@[i as int]);
        }
        if s.get_char(i) == ',' {
            fields.push(s.substring_char(start, i).to_owned());
            start = i + 1;
            assert(texts_view(fields@) =~= done.push(field));
            assert(s@.subrange(start as int, i + 1) =~= Seq::<char>::empty());
        } else {
            assert(field.push(s@[i as int]) =~= s@.subrange(start as int, i + 1));
            assert(done.push(field).update(done.len() as int, field.push(s@[i as int])) =~= done.push(
                s@.subrange(start as int, i + 1),
            ));
        }
        i += 1;
    }
    let ghost done = texts_view(fields@);
    fields.push(s.substring_char(start, len).to_owned());
    assert(texts_view(fields@) =~= done.push(s@.subrange(start as int, len as int)));
    assert(s@.take(len as int) =~= s@);
    fields
}

/// The decimal digits.
pub open spec fn is_digit(c: char) -> bool {
    '0' <= c && c <= '9'
}

/// The number that a digit stands for.
pub open spec fn digit_value(c: char) -> nat {
    (c as u32 - '0' as u32) as nat
}

/// The number that a sequence of digits stands for.
pub open spec fn decimal_value(s: Seq<char>) -> nat
    decreases s.len(),
{
    if s.len() == 0 {
        0
    } else {
        decimal_value(s.drop_last()) * 10 + digit_value(s.last())
    }
}

/// One or more digits.
pub open spec fn is_decimal(s: Seq<char>) -> bool {
    &&& s.len() >= 1
    &&& forall|i: int| 0 <= i < s.len() ==> is_digit(#[trigger] s[i])
}

/// The label identifier that a text stands for: one or more digits whose
/// number fits the identifier type.
pub open spec fn tag_id_of_text(s: Seq<char>) -> Option<u32> {
    if is_decimal(s) && decimal_value(s) <= u32::MAX {
        Some(decimal_value(s) as u32)
    } else {
        None
    }
}

/// More digits never make a smaller number.
pub proof fn lemma_decimal_value_grows(s: Seq<char>, n: int)
    requires
        0 <= n <= s.len(),
    ensures
        decimal_value(s.take(n)) <= decimal_value(s),
    decreases s.len() - n,
{
    if n < s.len() {
        assert(s.take(n + 1).drop_last() =~= s.take(n));
        lemma_decimal_value_grows(s, n + 1);
    } else {
        assert(s.take(n) =~= s);
    }
}

/// Reads a label identifier.
pub fn parse_tag_id(s: &str) -> (id: Option<u32>)
    ensures
        id == tag_id_of_text(s@),
{
    let len = s.unicode_len();
    if len == 0 {
        return None;
    }
    let mut value: u64 = 0;
    let mut i: usize = 0;
    assert(s@.take(0) =~= Seq::<char>::empty());
    while i < len
        invariant
            i <= len,
            len == s@.len(),
            value == decimal_value(s@.take(i as int)),
            value <= u32::MAX,
            forall|k: int| 0 <= k < i ==> is_digit(#[trigger] s@[k]),
        decreases len - i,
    {
        let c = s.get_char(i);
        if !(c >= '0' && c <= '9') {
            return None;
        }
        proof {
            assert(s@.take(i + 1).drop_last() =~= s@.take(i as int));
            assert(s@.take(i + 1).last() == c);
        }
        let digit = (c as u32 - '0' as u32) as u64;
        value = value * 10 + digit;
        if value > u32::MAX as u64 {
            proof {
                lemma_decimal_value_grows(s@, i + 1);
            }
            return None;
        }
        i += 1;
    }
    assert(s@.take(len as int) =~= s@);
    Some(value as u32)
}

/// Labels paired from a list of identifiers and a list of names, as far as
/// both lists go.
pub open spec fn paired_tags(ids: Seq<u32>, names: Seq<Seq<char>>) -> Seq<TagView> {
    Seq::new(
        if ids.len() <= names.len() {
            ids.len()
        } else {
            names.len()
        },
        |i: int| TagView { id: ids[i], name: names[i] },
    )
}

/// Every field is a label identifier.
pub open spec fn are_tag_ids(fields: Seq<Seq<char>>) -> bool {
    forall|i: int| 0 <= i < fields.len() ==> tag_id_of_text(#[trigger] fields[i]) is Some
}

/// The identifiers that the fields stand for.
pub open spec fn tag_ids_of_fields(fields: Seq<Seq<char>>) -> Seq<u32> {
    Seq::new(fields.len(), |i: int| tag_id_of_text(fields[i])->Some_0)
}

/// The labels of a todo as the listing query reports them: the identifiers
/// and the names of its labels, each as one comma-separated list, or
/// neither for a todo without labels. None if the lists are malformed: names
/// without identifiers are fine, identifiers without names or a field that
/// is no identifier are not.
pub open spec fn tags_of_csv(ids_csv: Option<Seq<char>>, names_csv: Option<Seq<char>>) -> Option<
    Seq<TagView>,
> {
    match ids_csv {
        None => Some(Seq::empty()),
        Some(ids) => match names_csv {
            None => None,
            Some(names) => if are_tag_ids(split_commas(ids)) {
                Some(paired_tags(tag_ids_of_fields(split_commas(ids)), split_commas(names)))
            } else {
                None
            },
        },
    }
}

/// Reads the labels of a todo from the two comma-separated lists of the
/// listing query.
pub fn tags_from_csv(ids_csv: &Option<String>, names_csv: &Option<String>) -> (res: Result<
    Vec<Tag>,
    ServerError,
>)
    ensures
        match res {
            Ok(tags) => tags_of_csv(optional_text_view(*ids_csv), optional_text_view(*names_csv))
                == Some(tags_view(tags@)),
            Err(e) => tags_of_csv(optional_text_view(*ids_csv), optional_text_view(*names_csv))
                is None && e == (ServerError::Storage { fault: StorageFault::Backend }),
        },
{
    let ids = match ids_csv {
        Some(ids) => ids,
        None => {
            let tags: Vec<Tag> = Vec::new();
            assert(tags_view(tags@) =~= Seq::<TagView>::empty());
            return Ok(tags);
        },
    };
    let names = match names_csv {
        Some(names) => names,
        None => {
            return Err(ServerError::Storage { fault: StorageFault::Backend });
        },
    };
    let id_fields = split_on_commas(ids.as_str());
    let name_fields = split_on_commas(names.as_str());
    let ghost id_texts = texts_view(id_fields@);
    let mut parsed: Vec<u32> = Vec::new();
    let mut i: usize = 0;
    while i < id_fields.len()
        invariant
            i <= id_fields.len(),
            parsed.len() == i,
            id_texts == texts_view(id_fields@),
            id_texts == split_commas(ids@),
            optional_text_view(*ids_csv) == Some(ids@),
            names_csv is Some,
            forall|k: int| 0 <= k < i ==> tag_id_of_text(#[trigger] id_texts[k]) == Some(parsed[k]),
        decreases id_fields.len() - i,
    {
        match parse_tag_id(id_fields[i].as_str()) {
            Some(id) => {
                parsed.push(id);
            },
            None => {
                assert(tag_id_of_text(id_texts[i as int]) is None);
                return Err(ServerError::Storage { fault: StorageFault::Backend });
            },
        }
        i += 1;
    }
    assert(parsed@ =~= tag_ids_of_fields(id_texts));
    let n = if parsed.len() <= name_fields.len() {
        parsed.len()
    } else {
        name_fields.len()
    };
    let mut tags: Vec<Tag> = Vec::new();
    let mut j: usize = 0;
    while j < n
        invariant
            j <= n,
            n <= parsed.len(),
            n <= name_fields.len(),
            tags.len() == j,
            forall|k: int| 0 <= k < j ==> (#[trigger] tags[k])@ == (TagView {
                id: parsed[k],
                name: name_fields[k]@,
            }),
        decreases n - j,
    {
        tags.push(Tag { id: parsed[j], name: name_fields[j].clone() });
        j += 1;
    }
    assert(tags_view(tags@) =~= paired_tags(parsed@, texts_view(name_fields@)));
    Ok(tags)
}

/// Mathematical value of a [`TodoRecord`].
pub struct TodoRecordView {
    pub id: Seq<char>,
    pub content: Seq<char>,
    pub completed_at: Option<u64>,
    pub tag_ids_csv: Option<Seq<char>>,
    pub tag_names_csv: Option<Seq<char>>,
}

/// A row of the listing query: a todo with the identifiers and names of its
/// labels gathered into two comma-separated lists.
#[derive(Debug)]
pub struct TodoRecord {
    pub id: String,
    pub content: String,
    pub completed_at: Option<u64>,
    pub tag_ids_csv: Option<String>,
    pub tag_names_csv: Option<String>,
}

impl View for TodoRecord {
    type V = TodoRecordView;

    open spec fn view(&self) -> TodoRecordView {
        TodoRecordView {
            id: self.id@,
            content: self.content@,
            completed_at: self.completed_at,
            tag_ids_csv: optional_text_view(self.tag_ids_csv),
            tag_names_csv: optional_text_view(self.tag_names_csv),
        }
    }
}

/// The todo that a row of the listing query shows, if its label lists are
/// well formed: completed exactly if a completion time is recorded.
pub open spec fn todo_of_record(record: TodoRecordView) -> Option<TaggedTodoView> {
    match tags_of_csv(record.tag_ids_csv, record.tag_names_csv) {
        Some(tags) => Some(
            TaggedTodoView {
                id: record.id,
                content: record.content,
                completed: record.completed_at is Some,
                tags,
            },
        ),
        None => None,
    }
}

/// Views of a list of records, element by element.
pub open spec fn todo_records_view(records: Seq<TodoRecord>) -> Seq<TodoRecordView> {
    Seq::new(records.len(), |i: int| records[i]@)
}

/// Every record has well-formed label lists.
pub open spec fn all_well_formed(records: Seq<TodoRecordView>) -> bool {
    forall|i: int| 0 <= i < records.len() ==> todo_of_record(#[trigger] records[i]) is Some
}

/// Turns the rows of the listing query into todos, in the order of the
/// rows. Fails on the first row whose label lists are malformed.
pub fn list_todos(records: &Vec<TodoRecord>) -> (res: Result<Vec<TaggedTodo>, ServerError>)
    ensures
        match res {
            Ok(todos) => {
                &&& all_well_formed(todo_records_view(records@))
                &&& todos.len() == records.len()
                &&& forall|i: int|
                    0 <= i < todos.len() ==> Some((#[trigger] todos[i])@) == todo_of_record(
                        records[i]@,
                    )
            },
            Err(e) => !all_well_formed(todo_records_view(records@)) && e == (ServerError::Storage {
                fault: StorageFault::Backend,
            }),
        },
{
    let mut todos: Vec<TaggedTodo> = Vec::new();
    let mut i: usize = 0;
    while i < records.len()
        invariant
            i <= records.len(),
            todos.len() == i,
            forall|k: int|
                0 <= k < i ==> Some((#[trigger] todos[k])@) == todo_of_record(records[k]@),
        decreases records.len() - i,
    {
        let record = &records[i];
        match tags_from_csv(&record.tag_ids_csv, &record.tag_names_csv) {
            Ok(tags) => {
                todos.push(
                    TaggedTodo {
                        id: record.id.clone(),
                        content: record.content.clone(),
                        completed: record.completed_at.is_some(),
                        tags,
                    },
                );
            },
            Err(e) => {
                assert(todo_of_record(todo_records_view(records@)[i as int]) is None);
                return Err(e);
            },
        }
        i += 1;
    }
    assert forall|k: int| 0 <= k < records.len() implies todo_of_record(
        #[trigger] todo_records_view(records@)[k],
    ) is Some by {
        assert(Some(todos[k]@) == todo_of_record(records[k]@));
    }
    Ok(todos)
}

/// Mathematical value of a [`CreateTodo`].
pub struct CreateTodoView {
    pub content: Seq<char>,
    pub tags: Seq<Seq<char>>,
}

impl View for CreateTodo {
    type V = CreateTodoView;

    open spec fn view(&self) -> CreateTodoView {
        CreateTodoView { content: self.content@, tags: texts_view(self.tags@) }
    }
}

/// Mathematical value of an [`UpdateTodo`].
pub struct UpdateTodoView {
    pub content: Option<Seq<char>>,
    pub tags: Option<Seq<Seq<char>>>,
}

impl View for UpdateTodo {
    type V = UpdateTodoView;

    open spec fn view(&self) -> UpdateTodoView {
        UpdateTodoView {
            content: optional_text_view(self.content),
            tags: match self.tags {
                Some(names) => Some(texts_view(names@)),
                None => None,
            },
        }
    }
}

/// What `create_todo` promises. Label names are checked before anything
/// else: a request with too many or malformed names is refused and no label
/// is created. Otherwise the names are resolved, creating the labels that
/// are missing, and the result is the new todo, not completed, with its
/// labels in the order of the names, together with the batch that stores
/// it.
pub open spec fn todo_created(
    before: TagTableView,
    after: TagTableView,
    user_id: Seq<char>,
    id: Seq<char>,
    req: CreateTodoView,
    res: Result<(TaggedTodo, Vec<TodoStatement>), ServerError>,
) -> bool {
    if !are_tag_names(req.tags) {
        &&& after == before
        &&& res matches Err(e) && refuses_tag_names(e, req.tags)
    } else {
        &&& after == before.resolve_all(req.tags).0
        &&& match before.resolve_all(req.tags).1 {
            Some(tags) => {
                &&& res matches Ok(created)
                &&& created.0@ == (TaggedTodoView {
                    id,
                    content: req.content,
                    completed: false,
                    tags,
                })
                &&& todo_batch_view(created.1@) == todo_creation_batch(
                    id,
                    user_id,
                    req.content,
                    tags,
                )
            },
            None => res matches Err(e) && e == (ServerError::Storage {
                fault: StorageFault::RowIdsExhausted,
            }),
        }
    }
}

/// Creates a todo with the fresh identifier `id` for the user of the
/// claims: checks the label names, resolves them against the table of
/// labels, and returns the new todo with the batch that stores it.
pub fn create_todo(tags: &mut TagTable, auth: &JWTPayload, id: String, req: CreateTodo) -> (res:
    Result<(TaggedTodo, Vec<TodoStatement>), ServerError>)
    requires
        old(tags)@.wf(),
    ensures
        final(tags)@.wf(),
        todo_created(old(tags)@, final(tags)@, auth@.user_id, id@, req@, res),
{
    match validate_tag_names(&req.tags) {
        Ok(()) => {},
        Err(e) => {
            return Err(e);
        },
    }
    let resolved = match tags.get_or_create_tags_by_names(&req.tags) {
        Ok(resolved) => resolved,
        Err(e) => {
            return Err(e);
        },
    };
    let plan = plan_create_todo(id.as_str(), auth.user(), req.content.as_str(), &resolved);
    Ok((created_todo(id, req.content, resolved), plan))
}

/// The labels that an update attaches, if it changes the labels: the names
/// resolved against the table.
pub open spec fn resolved_update_tags(before: TagTableView, req: UpdateTodoView) -> Option<
    Option<Seq<TagView>>,
> {
    match req.tags {
        Some(names) => match before.resolve_all(names).1 {
            Some(tags) => Some(Some(tags)),
            None => None,
        },
        None => Some(None),
    }
}

/// What `update_todo` promises. A caller who does not own the todo is
/// refused before anything else; then a request with too many or malformed
/// label names. In both cases no label is created. Otherwise new label names
/// are resolved, creating the labels that are missing, and the result is
/// the batch that changes the todo; it is empty if the request changes
/// nothing.
pub open spec fn todo_updated(
    before: TagTableView,
    after: TagTableView,
    owner: Option<Seq<char>>,
    user_id: Seq<char>,
    id: Seq<char>,
    req: UpdateTodoView,
    res: Result<Vec<TodoStatement>, ServerError>,
) -> bool {
    if owner != Some(user_id) {
        &&& after == before
        &&& res matches Err(e) && is_not_owner(e, user_id, "todo"@)
    } else if req.tags matches Some(names) && !are_tag_names(names) {
        &&& after == before
        &&& res matches Err(e) && refuses_tag_names(e, req.tags->Some_0)
    } else {
        &&& after == match req.tags {
            Some(names) => before.resolve_all(names).0,
            None => before,
        }
        &&& match resolved_update_tags(before, req) {
            Some(tags) => res matches Ok(plan) && todo_batch_view(plan@) == todo_update_batch(
                id,
                req.content,
                tags,
            ),
            None => res matches Err(e) && e == (ServerError::Storage {
                fault: StorageFault::RowIdsExhausted,
            }),
        }
    }
}

/// Changes the todo `id` for the user of the claims, given the owner that
/// the store reports for the todo: checks ownership and the label names,
/// resolves the names against the table of labels, and returns the batch
/// that changes the todo.
pub fn update_todo(
    id: &str,
    tags: &mut TagTable,
    owner: Option<String>,
    auth: &JWTPayload,
    req: UpdateTodo,
) -> (res: Result<Vec<TodoStatement>, ServerError>)
    requires
        old(tags)@.wf(),
    ensures
        final(tags)@.wf(),
        todo_updated(
            old(tags)@,
            final(tags)@,
            optional_text_view(owner),
            auth@.user_id,
            id@,
            req@,
            res,
        ),
{
    match assert_user_is_owner_of_todo(owner, auth.user()) {
        Ok(()) => {},
        Err(e) => {
            return Err(e);
        },
    }
    let resolved = match &req.tags {
        Some(names) => {
            match validate_tag_names(names) {
                Ok(()) => {},
                Err(e) => {
                    return Err(e);
                },
            }
            match tags.get_or_create_tags_by_names(names) {
                Ok(resolved) => Some(resolved),
                Err(e) => {
                    return Err(e);
                },
            }
        },
        None => None,
    };
    Ok(plan_update_todo(id, &req.content, &resolved))
}

/// What `complete_todo_at` promises: a caller who does not own the todo is
/// refused; for the owner the result is the statement that records the
/// completion.
pub open spec fn todo_completed(
    owner: Option<Seq<char>>,
    user_id: Seq<char>,
    id: Seq<char>,
    now: u64,
    res: Result<TodoStatement, ServerError>,
) -> bool {
    if owner == Some(user_id) {
        res matches Ok(stmt) && stmt@ == (TodoStatementView::Complete { id, completed_at: now })
    } else {
        res matches Err(e) && is_not_owner(e, user_id, "todo"@)
    }
}

/// Completes the todo `id` at time `now` for the user of the claims, given
/// the owner that the store reports for the todo.
pub fn complete_todo_at(id: &str, owner: Option<String>, auth: &JWTPayload, now: u64) -> (res: Result<
    TodoStatement,
    ServerError,
>)
    ensures
        todo_completed(optional_text_view(owner), auth@.user_id, id@, now, res),
{
    match assert_user_is_owner_of_todo(owner, auth.user()) {
        Ok(()) => Ok(plan_complete_todo_at(id, now)),
        Err(e) => Err(e),
    }
}

/// Completes the todo `id` now for the user of the claims, given the owner
/// that the store reports for the todo.
pub fn complete_todo(id: &str, owner: Option<String>, auth: &JWTPayload) -> (res: Result<
    TodoStatement,
    ServerError,
>)
    ensures
        exists|now: u64| todo_completed(optional_text_view(owner), auth@.user_id, id@, now, res),
{
    let now = unix_timestamp();
    complete_todo_at(id, owner, auth, now)
}

} // verus!
