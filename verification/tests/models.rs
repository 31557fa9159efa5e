use ohkami_yew_todo::auth::{authenticate, authorize, bearer, JWTPayload};
use ohkami_yew_todo::errors::{ServerError, StorageFault};
use ohkami_yew_todo::models::{
    blank_slate, same_slots, Card, CreateCardRequest, Todo, N_TODOS,
};

#[test]
fn empty_request_is_empty() {
    let req = CreateCardRequest::empty();
    assert_eq!(req.title, "");
    assert_eq!(req.todos.len(), 10);
    assert!(req.todos.iter().all(|t| t.is_empty()));
    assert!(req.is_empty());
}

#[test]
fn request_with_a_title_is_not_empty() {
    let mut req = CreateCardRequest::empty();
    req.title = "t".to_string();
    assert!(!req.is_empty());
}

#[test]
fn request_with_text_in_the_last_slot_is_not_empty() {
    let mut req = CreateCardRequest::empty();
    req.todos[9] = "x".to_string();
    assert!(!req.is_empty());
    assert!(req != CreateCardRequest::empty());
    assert!(req.clone() == req);
}

#[test]
fn slot_count_is_ten() {
    assert_eq!(N_TODOS, 10);
    assert_eq!(Card::N_TODOS, 10);
    assert_eq!(blank_slate().len(), 10);
}

#[test]
fn blank_card_has_blank_slots() {
    let card = Card::blank("id".to_string());
    assert_eq!(card.id, "id");
    assert_eq!(card.title, "");
    assert!(card.todos.iter().all(|t| *t == Todo::blank()));
    assert!(Todo::blank() == Todo { content: String::new(), completed: false });
}

#[test]
fn cards_compare_by_value() {
    let a = Card::blank("a".to_string());
    let mut b = a.clone();
    assert!(a == b);
    b.todos[5].completed = true;
    assert!(a != b);
    assert!(!same_slots(&a.todos, &b.todos));
    b.todos[5].completed = false;
    assert!(same_slots(&a.todos, &b.todos));
    b.title = "x".to_string();
    assert!(a != b);
}

#[test]
fn error_statuses() {
    assert_eq!(ServerError::Unauthenticated.status(), 401);
    assert_eq!(
        ServerError::NotOwner { user_id: "u".to_string(), resource: "card" }.status(),
        403
    );
    assert_eq!(ServerError::Storage { fault: StorageFault::Backend }.status(), 500);
    assert_eq!(ServerError::Validation { message: "m".to_string() }.status(), 400);
}

#[test]
fn error_messages() {
    assert_eq!(ServerError::Unauthenticated.message(), "missing or invalid bearer token");
    assert_eq!(
        ServerError::NotOwner { user_id: "u-1".to_string(), resource: "card" }.message(),
        "User(id = u-1) requested operation on card which is NOT of the user"
    );
    assert_eq!(
        ServerError::Storage { fault: StorageFault::SlotCountMismatch }.message(),
        "Error in store: card without exactly one row per slot"
    );
    assert_eq!(
        ServerError::Storage { fault: StorageFault::RowIdsExhausted }.message(),
        "Error in store: row identifiers exhausted"
    );
    assert_eq!(
        ServerError::Storage { fault: StorageFault::Backend }.message(),
        "Error in store: storage engine failure"
    );
    assert_eq!(
        ServerError::Validation { message: "too long".to_string() }.message(),
        "Invalid request: too long"
    );
}

#[test]
fn authenticate_needs_claims() {
    assert!(matches!(authenticate(None), Err(ServerError::Unauthenticated)));
    let claims = JWTPayload::new("u".to_string(), 3);
    assert_eq!(authenticate(Some(claims)).unwrap(), "u");
}

#[test]
fn authorize_accepts_only_the_owner() {
    assert!(authorize(Some("u".to_string()), "u", "card").is_ok());
    match authorize(Some("v".to_string()), "u", "card") {
        Err(ServerError::NotOwner { user_id, resource }) => {
            assert_eq!(user_id, "u");
            assert_eq!(resource, "card");
        }
        _ => panic!("a stranger was let in"),
    }
    assert!(matches!(authorize(None, "u", "todo"), Err(ServerError::NotOwner { resource: "todo", .. })));
    assert!(authorize(Some(String::new()), "u", "card").is_err());
}

#[test]
fn bearer_header_value() {
    assert_eq!(bearer("abc.def.ghi"), "Bearer abc.def.ghi");
    assert_eq!(bearer(""), "Bearer ");
}
