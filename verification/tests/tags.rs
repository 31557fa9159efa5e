use ohkami_yew_todo::auth::JWTPayload;
use ohkami_yew_todo::errors::{ServerError, StorageFault};
use ohkami_yew_todo::tagged::{
    assert_user_is_owner_of_todo, complete_todo, complete_todo_at, create_todo, created_todo,
    list_todos, parse_tag_id, plan_complete_todo_at, plan_create_todo, plan_update_todo, split_on_commas, tags_from_csv, update_todo, CreateTodo, TodoRecord,
    TodoStatement, UpdateTodo,
    LIST_TODOS_SQL, OWNER_OF_TODO_SQL,
};
use ohkami_yew_todo::tags::{
    is_valid_tag_char, is_valid_tag_name, validate_tag_names, Tag, TagReply, TagResolver, TagStep,
    TagTable, INSERT_TAG_SQL, LOOKUP_TAG_SQL, MAX_TAGS, MAX_TAG_NAME_LEN,
};

fn names(list: &[&str]) -> Vec<String> {
    list.iter().map(|s| s.to_string()).collect()
}

fn tag(id: u32, name: &str) -> Tag {
    Tag { id, name: name.to_string() }
}

fn validation_message(res: Result<(), ServerError>) -> String {
    match res {
        Err(ServerError::Validation { message }) => message,
        _ => panic!("a validation error was expected"),
    }
}

#[test]
fn tag_characters() {
    for c in "abcxyz0189_-".chars() {
        assert!(is_valid_tag_char(c));
    }
    for c in "AZ .,/:@`{~é".chars() {
        assert!(!is_valid_tag_char(c));
    }
}

#[test]
fn tag_name_lengths() {
    assert_eq!(MAX_TAG_NAME_LEN, 32);
    assert!(!is_valid_tag_name(""));
    assert!(is_valid_tag_name("a"));
    assert!(is_valid_tag_name(&"a".repeat(32)));
    assert!(!is_valid_tag_name(&"a".repeat(33)));
}

#[test]
fn tag_name_charset() {
    assert!(is_valid_tag_name("rust-lang_2024"));
    assert!(!is_valid_tag_name("Rust"));
    assert!(!is_valid_tag_name("two words"));
    assert!(!is_valid_tag_name("a,b"));
    assert!(!is_valid_tag_name("né"));
}

#[test]
fn at_most_five_tags() {
    assert_eq!(MAX_TAGS, 5);
    assert!(validate_tag_names(&names(&[])).is_ok());
    assert!(validate_tag_names(&names(&["a", "b", "c", "d", "e"])).is_ok());
    let res = validate_tag_names(&names(&["a", "b", "c", "d", "e", "f"]));
    assert_eq!(validation_message(res), "a todo takes at most 5 tags");
}

#[test]
fn a_bad_name_is_reported() {
    let res = validate_tag_names(&names(&["fine", "Not Fine"]));
    assert_eq!(
        validation_message(res),
        "a tag name is 1 to 32 characters out of a-z, 0-9, '_' and '-'"
    );
    let res = validate_tag_names(&names(&["A", "b", "c", "d", "e", "f"]));
    assert_eq!(validation_message(res), "a todo takes at most 5 tags");
    assert_eq!(validate_tag_names(&names(&[""])).unwrap_err().status(), 400);
}

#[test]
fn resolver_looks_up_then_inserts_then_looks_up_again() {
    let (mut resolver, step) = TagResolver::start(names(&["old", "new"]));
    assert!(matches!(&step, TagStep::Lookup { name } if name == "old"));
    let step = resolver.next(TagReply::Found { id: 4 });
    assert!(matches!(&step, TagStep::Lookup { name } if name == "new"));
    let step = resolver.next(TagReply::Missing);
    assert!(matches!(&step, TagStep::Insert { name } if name == "new"));
    let step = resolver.next(TagReply::Inserted);
    assert!(matches!(&step, TagStep::Lookup { name } if name == "new"));
    let step = resolver.next(TagReply::Found { id: 9 });
    match step {
        TagStep::Done { tags } => {
            assert!(tags == vec![tag(4, "old"), tag(9, "new")]);
        }
        _ => panic!("the resolution should be done"),
    }
    assert!(matches!(resolver.next(TagReply::Missing), TagStep::Done { .. }));
}

#[test]
fn resolver_fails_when_an_inserted_name_stays_missing() {
    let (mut resolver, _) = TagResolver::start(names(&["ghost"]));
    assert!(matches!(resolver.next(TagReply::Missing), TagStep::Insert { .. }));
    assert!(matches!(resolver.next(TagReply::Inserted), TagStep::Lookup { .. }));
    assert!(matches!(resolver.next(TagReply::Missing), TagStep::Failed));
}

#[test]
fn resolver_of_no_names_is_done_at_once() {
    let (_, step) = TagResolver::start(Vec::new());
    assert!(matches!(step, TagStep::Done { tags } if tags.is_empty()));
}

#[test]
fn table_creates_missing_tags_and_reuses_existing_ones() {
    let mut table = TagTable::new();
    let first = table.get_or_create_tags_by_names(&names(&["a", "b"])).unwrap();
    assert!(first == vec![tag(1, "a"), tag(2, "b")]);
    let second = table.get_or_create_tags_by_names(&names(&["b", "c", "a", "c"])).unwrap();
    assert!(second == vec![tag(2, "b"), tag(3, "c"), tag(1, "a"), tag(3, "c")]);
    assert_eq!(table.len(), 3);
    assert_eq!(table.lookup("c"), Some(3));
    assert_eq!(table.lookup("d"), None);
}

#[test]
fn table_refuses_a_duplicate_name() {
    let mut table = TagTable::new();
    assert!(table.insert("x").is_ok());
    assert_eq!(table.insert("x"), Err(StorageFault::DuplicateKey));
    assert_eq!(table.len(), 1);
}

#[test]
fn comma_lists_split_like_fields() {
    assert_eq!(split_on_commas(""), vec![""]);
    assert_eq!(split_on_commas("a"), vec!["a"]);
    assert_eq!(split_on_commas("a,b"), vec!["a", "b"]);
    assert_eq!(split_on_commas("a,,b,"), vec!["a", "", "b", ""]);
    assert_eq!(split_on_commas(","), vec!["", ""]);
    assert_eq!(split_on_commas("é,ü"), vec!["é", "ü"]);
}

#[test]
fn tag_ids_are_decimal_numbers() {
    assert_eq!(parse_tag_id("0"), Some(0));
    assert_eq!(parse_tag_id("42"), Some(42));
    assert_eq!(parse_tag_id("007"), Some(7));
    assert_eq!(parse_tag_id("4294967295"), Some(u32::MAX));
    assert_eq!(parse_tag_id("4294967296"), None);
    assert_eq!(parse_tag_id("99999999999999999999999"), None);
    assert_eq!(parse_tag_id(""), None);
    assert_eq!(parse_tag_id("-1"), None);
    assert_eq!(parse_tag_id("+1"), None);
    assert_eq!(parse_tag_id("1a"), None);
    assert_eq!(parse_tag_id(" 1"), None);
}

#[test]
fn tags_are_paired_from_the_two_lists() {
    let tags = tags_from_csv(&Some("1,22".to_string()), &Some("a,b".to_string())).unwrap();
    assert!(tags == vec![tag(1, "a"), tag(22, "b")]);
    assert!(tags_from_csv(&None, &None).unwrap().is_empty());
    assert!(tags_from_csv(&None, &Some("a".to_string())).unwrap().is_empty());
    let short = tags_from_csv(&Some("1,2,3".to_string()), &Some("a".to_string())).unwrap();
    assert!(short == vec![tag(1, "a")]);
}

#[test]
fn malformed_tag_lists_are_refused() {
    let bad = ServerError::Storage { fault: StorageFault::Backend }.message();
    assert_eq!(tags_from_csv(&Some("1".to_string()), &None).unwrap_err().message(), bad);
    assert_eq!(
        tags_from_csv(&Some("1,x".to_string()), &Some("a,b".to_string())).unwrap_err().message(),
        bad
    );
    assert!(tags_from_csv(&Some("".to_string()), &Some("".to_string())).is_err());
}

#[test]
fn listing_turns_records_into_todos() {
    let records = vec![
        TodoRecord {
            id: "t1".to_string(),
            content: "write".to_string(),
            completed_at: None,
            tag_ids_csv: Some("1,2".to_string()),
            tag_names_csv: Some("work,home".to_string()),
        },
        TodoRecord {
            id: "t2".to_string(),
            content: "rest".to_string(),
            completed_at: Some(5),
            tag_ids_csv: None,
            tag_names_csv: None,
        },
    ];
    let todos = list_todos(&records).unwrap();
    assert_eq!(todos.len(), 2);
    assert_eq!(todos[0].id, "t1");
    assert_eq!(todos[0].content, "write");
    assert!(!todos[0].completed);
    assert!(todos[0].tags == vec![tag(1, "work"), tag(2, "home")]);
    assert_eq!(todos[1].id, "t2");
    assert!(todos[1].completed);
    assert!(todos[1].tags.is_empty());
}

#[test]
fn listing_fails_on_a_malformed_record() {
    let records = vec![TodoRecord {
        id: "t".to_string(),
        content: String::new(),
        completed_at: None,
        tag_ids_csv: Some("one".to_string()),
        tag_names_csv: Some("a".to_string()),
    }];
    assert!(list_todos(&records).is_err());
}

#[test]
fn creating_a_todo_with_tags_takes_two_statements() {
    let plan = plan_create_todo("t", "u", "text", &vec![tag(3, "a"), tag(8, "b")]);
    assert_eq!(plan.len(), 2);
    match &plan[0] {
        TodoStatement::InsertTodo { id, user_id, content } => {
            assert_eq!((id.as_str(), user_id.as_str(), content.as_str()), ("t", "u", "text"));
        }
        _ => panic!("the todo row comes first"),
    }
    match &plan[1] {
        TodoStatement::InsertTodoTags { todo_id, tag_ids } => {
            assert_eq!(todo_id, "t");
            assert_eq!(tag_ids, &vec![3, 8]);
        }
        _ => panic!("the tags come second"),
    }
    assert_eq!(plan[0].sql(), "INSERT INTO todos (id, user_id, content) VALUES (?1, ?2, ?3)");
    assert_eq!(plan[1].sql(), "INSERT INTO todo_tags (todo_id, tag_id) VALUES (?,?),(?,?)");
    assert_eq!(plan[1].params().len(), 4);
}

#[test]
fn creating_a_todo_without_tags_takes_one_statement() {
    let plan = plan_create_todo("t", "u", "text", &Vec::new());
    assert_eq!(plan.len(), 1);
    let todo = created_todo("t".to_string(), "text".to_string(), vec![tag(1, "a")]);
    assert!(!todo.completed);
    assert_eq!(todo.id, "t");
    assert!(todo.tags == vec![tag(1, "a")]);
}

#[test]
fn updating_nothing_takes_no_statement() {
    assert!(plan_update_todo("t", &None, &None).is_empty());
}

#[test]
fn updating_content_and_tags() {
    let plan = plan_update_todo("t", &Some("new".to_string()), &Some(vec![tag(2, "b")]));
    assert_eq!(plan.len(), 3);
    assert!(matches!(&plan[0], TodoStatement::UpdateContent { id, content } if id == "t" && content == "new"));
    assert!(matches!(&plan[1], TodoStatement::DeleteTodoTags { todo_id } if todo_id == "t"));
    assert!(matches!(&plan[2], TodoStatement::InsertTodoTags { tag_ids, .. } if tag_ids == &vec![2]));
    assert_eq!(plan[0].sql(), "UPDATE todos SET content = ?1 WHERE id = ?2");
    assert_eq!(plan[1].sql(), "DELETE FROM todo_tags WHERE todo_id = ?");

    let cleared = plan_update_todo("t", &None, &Some(Vec::new()));
    assert_eq!(cleared.len(), 1);
    assert!(matches!(&cleared[0], TodoStatement::DeleteTodoTags { .. }));
}

#[test]
fn completing_a_todo_records_the_time() {
    let stmt = plan_complete_todo_at("t", 123);
    assert!(matches!(&stmt, TodoStatement::Complete { id, completed_at: 123 } if id == "t"));
    assert_eq!(stmt.sql(), "UPDATE todos SET completed_at = ?1 WHERE id = ?2");
    assert_eq!(stmt.params().len(), 2);
}

#[test]
fn todo_owner_check() {
    assert!(assert_user_is_owner_of_todo(Some("u".to_string()), "u").is_ok());
    assert!(matches!(
        assert_user_is_owner_of_todo(Some("v".to_string()), "u"),
        Err(ServerError::NotOwner { resource: "todo", .. })
    ));
    assert!(assert_user_is_owner_of_todo(None, "u").is_err());
}

#[test]
fn resolution_fails_when_tag_ids_run_out() {
    let mut table = TagTable::starting_at(u32::MAX - 1);
    let res = table.get_or_create_tags_by_names(&names(&["a", "b", "c"]));
    assert!(matches!(res, Err(ServerError::Storage { fault: StorageFault::RowIdsExhausted })));
    assert_eq!(table.len(), 1);
    assert_eq!(table.lookup("a"), Some(u32::MAX - 1));
    assert_eq!(table.insert("z"), Err(StorageFault::RowIdsExhausted));
    let again = table.get_or_create_tags_by_names(&names(&["a"])).unwrap();
    assert!(again == vec![tag(u32::MAX - 1, "a")]);
}

#[test]
fn tag_statements() {
    assert_eq!(LOOKUP_TAG_SQL, "SELECT id FROM tags WHERE name = ?1");
    assert_eq!(INSERT_TAG_SQL, "INSERT INTO tags (name) VALUES (?1)");
    assert_eq!(OWNER_OF_TODO_SQL, "SELECT user_id FROM todos WHERE id = ?");
    assert!(LIST_TODOS_SQL.starts_with("SELECT todos.id, todos.content, todos.completed_at, "));
    assert!(LIST_TODOS_SQL.ends_with(" WHERE user_id = ?1 GROUP BY todos.id"));
}

fn claims(user: &str) -> JWTPayload {
    JWTPayload::new(user.to_string(), 1)
}

#[test]
fn creating_a_todo_resolves_its_tags() {
    let mut table = TagTable::new();
    table.insert("home").unwrap();
    let req = CreateTodo { content: "paint".to_string(), tags: names(&["work", "home"]) };
    let (todo, plan) = create_todo(&mut table, &claims("u"), "t1".to_string(), req).unwrap();
    assert_eq!(todo.id, "t1");
    assert_eq!(todo.content, "paint");
    assert!(!todo.completed);
    assert!(todo.tags == vec![tag(2, "work"), tag(1, "home")]);
    assert_eq!(plan.len(), 2);
    assert!(matches!(&plan[0], TodoStatement::InsertTodo { id, user_id, content }
        if id == "t1" && user_id == "u" && content == "paint"));
    assert!(matches!(&plan[1], TodoStatement::InsertTodoTags { todo_id, tag_ids }
        if todo_id == "t1" && tag_ids == &vec![2, 1]));
    assert_eq!(table.len(), 2);
}

#[test]
fn creating_a_todo_with_bad_tags_creates_no_tag() {
    let mut table = TagTable::new();
    let req = CreateTodo { content: "x".to_string(), tags: names(&["fine", "NOT FINE"]) };
    let res = create_todo(&mut table, &claims("u"), "t".to_string(), req);
    assert!(matches!(res, Err(ServerError::Validation { .. })));
    assert_eq!(table.len(), 0);
    let req = CreateTodo { content: "x".to_string(), tags: names(&["a", "b", "c", "d", "e", "f"]) };
    assert_eq!(create_todo(&mut table, &claims("u"), "t".to_string(), req).unwrap_err().status(), 400);
    assert_eq!(table.len(), 0);
}

#[test]
fn updating_a_todo_checks_the_owner_first() {
    let mut table = TagTable::new();
    let req = UpdateTodo { content: None, tags: Some(names(&["BAD"])) };
    let res = update_todo("t", &mut table, Some("owner".to_string()), &claims("stranger"), req);
    assert!(matches!(res, Err(ServerError::NotOwner { resource: "todo", .. })));
    let req = UpdateTodo { content: None, tags: Some(names(&["BAD"])) };
    let res = update_todo("t", &mut table, Some("owner".to_string()), &claims("owner"), req);
    assert!(matches!(res, Err(ServerError::Validation { .. })));
    let req = UpdateTodo { content: None, tags: Some(names(&["good"])) };
    let res = update_todo("t", &mut table, None, &claims("owner"), req);
    assert!(matches!(res, Err(ServerError::NotOwner { .. })));
    assert_eq!(table.len(), 0);
}

#[test]
fn updating_a_todo_plans_the_change() {
    let mut table = TagTable::new();
    let req = UpdateTodo { content: Some("new".to_string()), tags: Some(names(&["a", "b"])) };
    let plan = update_todo("t", &mut table, Some("u".to_string()), &claims("u"), req).unwrap();
    assert_eq!(plan.len(), 3);
    assert!(matches!(&plan[2], TodoStatement::InsertTodoTags { tag_ids, .. } if tag_ids == &vec![1, 2]));
    assert_eq!(table.len(), 2);
    let nothing = UpdateTodo { content: None, tags: None };
    let plan = update_todo("t", &mut table, Some("u".to_string()), &claims("u"), nothing).unwrap();
    assert!(plan.is_empty());
}

#[test]
fn completing_a_todo_needs_the_owner() {
    let done = complete_todo_at("t", Some("u".to_string()), &claims("u"), 9).unwrap();
    assert!(matches!(&done, TodoStatement::Complete { id, completed_at: 9 } if id == "t"));
    assert!(complete_todo_at("t", Some("v".to_string()), &claims("u"), 9).is_err());
    assert!(complete_todo_at("t", None, &claims("u"), 9).is_err());
    let now = complete_todo("t", Some("u".to_string()), &claims("u")).unwrap();
    assert!(matches!(&now, TodoStatement::Complete { completed_at, .. } if *completed_at > 0));
    assert!(complete_todo("t", None, &claims("u")).is_err());
}
