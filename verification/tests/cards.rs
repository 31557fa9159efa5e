use ohkami_yew_todo::api::{
    assert_user_is_owner_of_card, create_card, create_card_at, delete_card, list_cards, plan_create,
    plan_create_at, plan_delete, plan_signup, signup, signup_at, update_card, update_card_at,
};
use ohkami_yew_todo::auth::JWTPayload;
use ohkami_yew_todo::errors::{ServerError, StorageFault};
use ohkami_yew_todo::models::{Card, Todo, UpdateCard};
use ohkami_yew_todo::statements::Statement;
use ohkami_yew_todo::store::Store;

fn blank_request() -> UpdateCard {
    let card = Card::blank(String::new());
    UpdateCard { title: card.title, todos: card.todos }
}

fn todo(content: &str, completed: bool) -> Todo {
    Todo { content: content.to_string(), completed }
}

fn claims(user: &str) -> JWTPayload {
    JWTPayload::new(user.to_string(), 1)
}

fn is_not_owner(res: &Result<(), ServerError>, user: &str) -> bool {
    match res {
        Err(ServerError::NotOwner { user_id, resource }) => user_id == user && *resource == "card",
        _ => false,
    }
}

#[test]
fn signup_create_update_list_shows_the_update() {
    let mut db = Store::new();
    let auth = signup_at(&mut db, "u1".to_string(), 100).unwrap();
    assert_eq!(auth.user(), "u1");
    assert_eq!(auth.iat(), 100);
    let card = create_card_at(&mut db, &auth, "c1".to_string(), 101).unwrap();
    assert_eq!(card.id, "c1");

    let mut req = blank_request();
    req.title = "Groceries".to_string();
    req.todos[0] = todo("milk", false);
    update_card_at("c1", &mut db, &auth, &req, 102).unwrap();

    let cards = list_cards(&db, &auth).unwrap();
    assert_eq!(cards.len(), 1);
    assert_eq!(cards[0].id, "c1");
    assert_eq!(cards[0].title, "Groceries");
    assert_eq!(cards[0].todos[0].content, "milk");
    assert!(!cards[0].todos[0].completed);
    for slot in 1..Card::N_TODOS {
        assert_eq!(cards[0].todos[slot], todo("", false));
    }
}

#[test]
fn create_then_delete_leaves_no_card_and_no_rows() {
    let mut db = Store::new();
    let auth = claims("u1");
    create_card_at(&mut db, &auth, "c1".to_string(), 8).unwrap();
    create_card_at(&mut db, &auth, "c2".to_string(), 9).unwrap();
    assert_eq!(db.todo_rows_of("c1").len(), Card::N_TODOS);
    delete_card("c1", &mut db, &auth).unwrap();
    let cards = list_cards(&db, &auth).unwrap();
    assert!(cards.iter().all(|c| c.id != "c1"));
    assert_eq!(cards.len(), 1);
    assert_eq!(cards[0].id, "c2");
    assert_eq!(db.todo_rows_of("c1").len(), 0);
    assert_eq!(db.card_count(), 1);
    assert_eq!(db.todo_count(), Card::N_TODOS);
    assert!(db.card("c1").is_none());
}

#[test]
fn create_then_list_returns_one_blank_card() {
    let mut db = Store::new();
    let auth = claims("someone");
    let created = create_card_at(&mut db, &auth, "card-a".to_string(), 5).unwrap();
    assert!(created == Card::blank("card-a".to_string()));
    let cards = list_cards(&db, &auth).unwrap();
    assert_eq!(cards.len(), 1);
    assert!(cards[0] == created);
    assert_eq!(cards[0].todos.len(), 10);
    assert!(cards[0].todos.iter().all(|t| t.content.is_empty() && !t.completed));
    assert_eq!(db.card_count(), 1);
    assert_eq!(db.todo_count(), 10);
}

#[test]
fn every_listed_card_has_ten_slots() {
    let mut db = Store::new();
    let auth = claims("u");
    for (i, id) in ["a", "b", "c"].iter().enumerate() {
        create_card_at(&mut db, &auth, id.to_string(), i as u64).unwrap();
    }
    let cards = list_cards(&db, &auth).unwrap();
    assert_eq!(cards.len(), 3);
    for card in &cards {
        assert_eq!(card.todos.len(), Card::N_TODOS);
    }
}

#[test]
fn listing_fails_loudly_on_a_card_without_rows() {
    let mut db = Store::new();
    let auth = claims("u");
    db.execute(&vec![Statement::InsertCard {
        id: "bare".to_string(),
        user_id: "u".to_string(),
        title: String::new(),
        created_at: 0,
    }])
    .unwrap();
    match list_cards(&db, &auth) {
        Err(ServerError::Storage { fault }) => assert_eq!(fault, StorageFault::SlotCountMismatch),
        _ => panic!("a card without rows was listed"),
    }
}

#[test]
fn listing_fails_loudly_on_a_card_with_an_extra_row() {
    let mut db = Store::new();
    let auth = claims("u");
    create_card_at(&mut db, &auth, "c".to_string(), 0).unwrap();
    db.execute(&vec![Statement::InsertTodos {
        card_id: "c".to_string(),
        contents: vec!["eleventh".to_string()],
    }])
    .unwrap();
    assert!(matches!(
        list_cards(&db, &auth),
        Err(ServerError::Storage { fault: StorageFault::SlotCountMismatch })
    ));
}

#[test]
fn second_identical_update_changes_no_row() {
    let mut db = Store::new();
    let auth = claims("u1");
    create_card_at(&mut db, &auth, "c1".to_string(), 1).unwrap();
    let mut req = blank_request();
    req.title = "t".to_string();
    req.todos[3] = todo("x", true);
    req.todos[7] = todo("y", false);
    update_card_at("c1", &mut db, &auth, &req, 50).unwrap();
    let rows_after_first = db.todo_rows_of("c1");
    assert_eq!(rows_after_first[3].completed_at, Some(50));

    let title = db.title_of("c1").unwrap();
    let plan = ohkami_yew_todo::reconcile::plan_update_at("c1", &title, db.todo_rows(), &req, 99);
    assert!(plan.is_empty());

    update_card_at("c1", &mut db, &auth, &req, 99).unwrap();
    let rows_after_second = db.todo_rows_of("c1");
    assert_eq!(rows_after_second.len(), rows_after_first.len());
    for (a, b) in rows_after_first.iter().zip(rows_after_second.iter()) {
        assert_eq!(a.id, b.id);
        assert_eq!(a.content, b.content);
        assert_eq!(a.completed_at, b.completed_at);
    }
    assert_eq!(rows_after_second[3].completed_at, Some(50));
}

#[test]
fn update_by_a_stranger_is_refused_and_changes_nothing() {
    let mut db = Store::new();
    let owner = claims("owner");
    let stranger = claims("stranger");
    create_card_at(&mut db, &owner, "c1".to_string(), 1).unwrap();
    let mut req = blank_request();
    req.title = "hijacked".to_string();
    req.todos[0] = todo("gotcha", true);
    let res = update_card_at("c1", &mut db, &stranger, &req, 2);
    assert!(is_not_owner(&res, "stranger"));
    let cards = list_cards(&db, &owner).unwrap();
    assert!(cards[0] == Card::blank("c1".to_string()));
    assert!(list_cards(&db, &stranger).unwrap().is_empty());
}

#[test]
fn delete_by_a_stranger_is_refused_and_changes_nothing() {
    let mut db = Store::new();
    let owner = claims("owner");
    let stranger = claims("stranger");
    create_card_at(&mut db, &owner, "c1".to_string(), 1).unwrap();
    let res = delete_card("c1", &mut db, &stranger);
    assert!(is_not_owner(&res, "stranger"));
    assert_eq!(db.card_count(), 1);
    assert_eq!(db.todo_count(), Card::N_TODOS);
    assert_eq!(list_cards(&db, &owner).unwrap().len(), 1);
}

#[test]
fn a_missing_card_is_refused_like_a_foreign_one() {
    let mut db = Store::new();
    let auth = claims("u");
    let res = delete_card("nowhere", &mut db, &auth);
    assert!(is_not_owner(&res, "u"));
    let res = update_card_at("nowhere", &mut db, &auth, &blank_request(), 1);
    assert!(is_not_owner(&res, "u"));
    let res = assert_user_is_owner_of_card(&db, "u", "nowhere");
    assert!(is_not_owner(&res, "u"));
    assert_eq!(res.unwrap_err().status(), 403);
}

#[test]
fn owner_check_accepts_the_owner() {
    let mut db = Store::new();
    let auth = claims("u");
    create_card_at(&mut db, &auth, "c".to_string(), 1).unwrap();
    assert!(assert_user_is_owner_of_card(&db, "u", "c").is_ok());
    assert_eq!(db.owner_of("c"), Some("u".to_string()));
    assert_eq!(db.owner_of("d"), None);
}

#[test]
fn cards_are_listed_by_creation_time() {
    let mut db = Store::new();
    let auth = claims("u");
    create_card_at(&mut db, &auth, "late".to_string(), 30).unwrap();
    create_card_at(&mut db, &auth, "early".to_string(), 10).unwrap();
    create_card_at(&mut db, &auth, "middle".to_string(), 20).unwrap();
    create_card_at(&mut db, &auth, "middle-too".to_string(), 20).unwrap();
    let cards = list_cards(&db, &auth).unwrap();
    let ids: Vec<&str> = cards.iter().map(|c| c.id.as_str()).collect();
    assert_eq!(ids, vec!["early", "middle", "middle-too", "late"]);
}

#[test]
fn users_see_only_their_own_cards() {
    let mut db = Store::new();
    let a = claims("a");
    let b = claims("b");
    create_card_at(&mut db, &a, "a1".to_string(), 1).unwrap();
    create_card_at(&mut db, &b, "b1".to_string(), 2).unwrap();
    create_card_at(&mut db, &a, "a2".to_string(), 3).unwrap();
    let of_a = list_cards(&db, &a).unwrap();
    let of_b = list_cards(&db, &b).unwrap();
    assert_eq!(of_a.iter().map(|c| c.id.clone()).collect::<Vec<_>>(), vec!["a1", "a2"]);
    assert_eq!(of_b.iter().map(|c| c.id.clone()).collect::<Vec<_>>(), vec!["b1"]);
}

#[test]
fn updates_land_in_their_own_card_and_slot() {
    let mut db = Store::new();
    let auth = claims("u");
    create_card_at(&mut db, &auth, "first".to_string(), 1).unwrap();
    create_card_at(&mut db, &auth, "second".to_string(), 2).unwrap();
    let mut req = blank_request();
    req.todos[9] = todo("last slot", true);
    update_card_at("second", &mut db, &auth, &req, 77).unwrap();
    let cards = list_cards(&db, &auth).unwrap();
    assert!(cards[0] == Card::blank("first".to_string()));
    assert_eq!(cards[1].todos[9], todo("last slot", true));
    for slot in 0..9 {
        assert_eq!(cards[1].todos[slot], todo("", false));
    }
}

#[test]
fn creating_a_card_twice_fails_and_inserts_nothing() {
    let mut db = Store::new();
    let auth = claims("u");
    create_card_at(&mut db, &auth, "c".to_string(), 1).unwrap();
    let res = create_card_at(&mut db, &auth, "c".to_string(), 2);
    assert!(matches!(res, Err(ServerError::Storage { fault: StorageFault::DuplicateKey })));
    assert_eq!(db.card_count(), 1);
    assert_eq!(db.todo_count(), Card::N_TODOS);
}

#[test]
fn signing_up_twice_with_one_id_fails() {
    let mut db = Store::new();
    signup_at(&mut db, "u".to_string(), 1).unwrap();
    assert!(db.has_user("u"));
    assert!(!db.has_user("v"));
    let res = signup_at(&mut db, "u".to_string(), 2);
    match res {
        Err(e) => {
            assert_eq!(e.status(), 500);
            assert_eq!(e.message(), "Error in store: duplicate key");
        }
        Ok(_) => panic!("the same user signed up twice"),
    }
}

#[test]
fn a_failing_batch_is_rolled_back() {
    let mut db = Store::new();
    let batch = vec![
        Statement::InsertUser { id: "new".to_string() },
        Statement::InsertCard {
            id: "c".to_string(),
            user_id: "new".to_string(),
            title: "t".to_string(),
            created_at: 1,
        },
        Statement::InsertCard {
            id: "c".to_string(),
            user_id: "new".to_string(),
            title: "again".to_string(),
            created_at: 2,
        },
    ];
    let res = db.execute(&batch);
    assert!(matches!(res, Err(ServerError::Storage { fault: StorageFault::DuplicateKey })));
    assert!(!db.has_user("new"));
    assert_eq!(db.card_count(), 0);
}

#[test]
fn clock_reading_endpoints_do_what_the_timed_ones_do() {
    let mut db = Store::new();
    let auth = signup(&mut db, "u".to_string()).unwrap();
    assert_eq!(auth.user(), "u");
    assert!(auth.iat() > 0);
    let card = create_card(&mut db, &auth, "c".to_string()).unwrap();
    assert!(card == Card::blank("c".to_string()));
    assert!(db.card("c").unwrap().created_at >= auth.iat());
    let mut req = blank_request();
    req.todos[2] = todo("done", true);
    update_card("c", &mut db, &auth, &req).unwrap();
    let rows = db.todo_rows_of("c");
    assert!(rows[2].completed_at.unwrap() >= auth.iat());
    assert_eq!(list_cards(&db, &auth).unwrap()[0].todos[2], todo("done", true));
}

#[test]
fn plans_hold_the_expected_statements() {
    let signup = plan_signup("u");
    assert_eq!(signup.len(), 1);
    assert!(matches!(&signup[0], Statement::InsertUser { id } if id == "u"));

    let create = plan_create_at("c", "u", 42);
    assert_eq!(create.len(), 2);
    match &create[0] {
        Statement::InsertCard { id, user_id, title, created_at } => {
            assert_eq!(id, "c");
            assert_eq!(user_id, "u");
            assert_eq!(title, "");
            assert_eq!(*created_at, 42);
        }
        _ => panic!("the card row comes first"),
    }
    match &create[1] {
        Statement::InsertTodos { card_id, contents } => {
            assert_eq!(card_id, "c");
            assert_eq!(contents, &vec![String::new(); 10]);
        }
        _ => panic!("the todo rows come second"),
    }

    let delete = plan_delete("c");
    assert_eq!(delete.len(), 2);
    assert!(matches!(&delete[0], Statement::DeleteCard { id } if id == "c"));
    assert!(matches!(&delete[1], Statement::DeleteTodosOfCard { card_id } if card_id == "c"));
}

#[test]
fn creation_fails_when_row_ids_run_out() {
    let mut db = Store::starting_at(u64::MAX - 9);
    let auth = claims("u");
    let res = create_card_at(&mut db, &auth, "c".to_string(), 1);
    assert!(matches!(res, Err(ServerError::Storage { fault: StorageFault::RowIdsExhausted })));
    assert_eq!(db.card_count(), 0);
    assert_eq!(db.todo_count(), 0);
    assert!(list_cards(&db, &auth).unwrap().is_empty());

    let mut db = Store::starting_at(u64::MAX - 10);
    create_card_at(&mut db, &auth, "c".to_string(), 1).unwrap();
    let rows = db.todo_rows_of("c");
    assert_eq!(rows[0].id, u64::MAX - 10);
    assert_eq!(rows[9].id, u64::MAX - 1);
}

#[test]
fn row_ids_count_up_from_one() {
    let mut db = Store::new();
    let auth = claims("u");
    create_card_at(&mut db, &auth, "a".to_string(), 1).unwrap();
    create_card_at(&mut db, &auth, "b".to_string(), 1).unwrap();
    let ids: Vec<u64> = db.todo_rows().iter().map(|r| r.id).collect();
    assert_eq!(ids, (1..=20).collect::<Vec<u64>>());
}

#[test]
fn plans_made_now_have_the_shape_of_timed_plans() {
    let create = plan_create("c", "u");
    assert_eq!(create.len(), 2);
    match &create[0] {
        Statement::InsertCard { id, user_id, title, created_at } => {
            assert_eq!((id.as_str(), user_id.as_str(), title.as_str()), ("c", "u", ""));
            assert!(*created_at > 0);
        }
        _ => panic!("the card row comes first"),
    }
    assert!(matches!(&create[1], Statement::InsertTodos { contents, .. } if contents.len() == 10));

    let claims = ohkami_yew_todo::auth::new_claims_for("u".to_string());
    assert_eq!(claims.user(), "u");
    assert!(claims.iat() > 0);
}
