use ohkami_yew_todo::statements::{
    build_placeholders, build_value_groups, Param, Query, Statement,
};

fn texts(params: &[Param]) -> Vec<String> {
    params
        .iter()
        .map(|p| match p {
            Param::Text(t) => format!("text:{t}"),
            Param::Integer(n) => format!("int:{n}"),
            Param::Null => "null".to_string(),
        })
        .collect()
}

#[test]
fn value_groups_are_joined_by_commas() {
    assert_eq!(build_value_groups(0), "");
    assert_eq!(build_value_groups(1), "(?,?)");
    assert_eq!(build_value_groups(2), "(?,?),(?,?)");
    assert_eq!(build_value_groups(10), vec!["(?,?)"; 10].join(","));
}

#[test]
fn insert_user_statement() {
    let stmt = Statement::InsertUser { id: "u".to_string() };
    assert_eq!(stmt.sql(), "INSERT INTO users (id) VALUES (?)");
    assert_eq!(texts(&stmt.params()), vec!["text:u"]);
}

#[test]
fn insert_card_statement() {
    let stmt = Statement::InsertCard {
        id: "c".to_string(),
        user_id: "u".to_string(),
        title: "t".to_string(),
        created_at: 17,
    };
    assert_eq!(
        stmt.sql(),
        "INSERT INTO cards (id, user_id, title, created_at) VALUES (?1, ?2, ?3, ?4)"
    );
    assert_eq!(texts(&stmt.params()), vec!["text:c", "text:u", "text:t", "int:17"]);
}

#[test]
fn insert_todos_statement_repeats_the_card_id() {
    let stmt = Statement::InsertTodos {
        card_id: "c".to_string(),
        contents: vec!["a".to_string(), "b".to_string(), "".to_string()],
    };
    assert_eq!(
        stmt.sql(),
        "INSERT INTO todos (card_id, content) VALUES (?,?),(?,?),(?,?)"
    );
    assert_eq!(
        texts(&stmt.params()),
        vec!["text:c", "text:a", "text:c", "text:b", "text:c", "text:"]
    );
}

#[test]
fn update_title_statement() {
    let stmt = Statement::UpdateCardTitle { card_id: "c".to_string(), title: "new".to_string() };
    assert_eq!(stmt.sql(), "UPDATE cards SET title = ?1 WHERE id = ?2");
    assert_eq!(texts(&stmt.params()), vec!["text:new", "text:c"]);
}

#[test]
fn update_todo_statement_binds_null_for_not_completed() {
    let open = Statement::UpdateTodo { row_id: 3, content: "x".to_string(), completed_at: None };
    assert_eq!(open.sql(), "UPDATE todos SET content = ?1, completed_at = ?2 WHERE id = ?3");
    assert_eq!(texts(&open.params()), vec!["text:x", "null", "int:3"]);
    let done = Statement::UpdateTodo { row_id: 3, content: "x".to_string(), completed_at: Some(8) };
    assert_eq!(texts(&done.params()), vec!["text:x", "int:8", "int:3"]);
}

#[test]
fn delete_statements() {
    let card = Statement::DeleteCard { id: "c".to_string() };
    assert_eq!(card.sql(), "DELETE FROM cards WHERE id = ?");
    assert_eq!(texts(&card.params()), vec!["text:c"]);
    let todos = Statement::DeleteTodosOfCard { card_id: "c".to_string() };
    assert_eq!(todos.sql(), "DELETE FROM todos WHERE card_id = ?");
    assert_eq!(texts(&todos.params()), vec!["text:c"]);
}

#[test]
fn placeholders_are_joined_by_commas() {
    assert_eq!(build_placeholders(0), "");
    assert_eq!(build_placeholders(1), "?");
    assert_eq!(build_placeholders(3), "?,?,?");
}

#[test]
fn queries_of_one_card() {
    let owner = Query::OwnerOfCard { card_id: "c".to_string() };
    assert_eq!(owner.sql(), "SELECT user_id FROM cards WHERE id = ?");
    assert_eq!(texts(&owner.params()), vec!["text:c"]);
    let title = Query::TitleOfCard { card_id: "c".to_string() };
    assert_eq!(title.sql(), "SELECT title FROM cards WHERE id = ?");
    assert_eq!(texts(&title.params()), vec!["text:c"]);
    let todos = Query::TodosOfCard { card_id: "c".to_string() };
    assert_eq!(
        todos.sql(),
        "SELECT id, card_id, content, completed_at FROM todos WHERE card_id = ?"
    );
    assert_eq!(texts(&todos.params()), vec!["text:c"]);
}

#[test]
fn queries_of_a_listing() {
    let cards = Query::CardsOfUser { user_id: "u".to_string() };
    assert_eq!(
        cards.sql(),
        "SELECT id, title FROM cards WHERE user_id = ? ORDER BY created_at ASC"
    );
    assert_eq!(texts(&cards.params()), vec!["text:u"]);
    let todos = Query::TodosOfCards { card_ids: vec!["a".to_string(), "b".to_string()] };
    assert_eq!(
        todos.sql(),
        "SELECT id, card_id, content, completed_at FROM todos WHERE card_id IN (?,?)"
    );
    assert_eq!(texts(&todos.params()), vec!["text:a", "text:b"]);
}
