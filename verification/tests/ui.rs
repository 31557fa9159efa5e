use ohkami_yew_todo::components::{
    button_frame_class, button_link_class, check_box_icon, delete_icon, text_input_class,
    text_input_is_disabled, todo_is_checkable, todo_is_editable, upload_icon,
};
use ohkami_yew_todo::models::{Card, Todo};
use ohkami_yew_todo::ui::{
    api_url, optimistic, path_of_card, request, settled, token_source, ApiCall, Mutation, Outcome,
    TokenSource, ViewModel, TOKEN_STORAGE_KEY,
};

fn two_cards() -> Vec<Card> {
    let mut a = Card::blank("a".to_string());
    a.title = "A".to_string();
    a.todos[1] = Todo { content: "one".to_string(), completed: false };
    let b = Card::blank("b".to_string());
    vec![a, b]
}

#[test]
fn toggling_shows_at_once_and_sends_the_whole_card() {
    let cards = two_cards();
    let m = Mutation::ToggleTodo { card: 0, slot: 1 };
    let shown = optimistic(&cards, &m);
    assert!(shown[0].todos[1].completed);
    assert_eq!(shown[0].todos[1].content, "one");
    assert!(shown[1] == cards[1]);
    match request(&cards, &m) {
        Some(ApiCall::PutCard { path, body }) => {
            assert_eq!(path, "/api/cards/a");
            assert_eq!(body.title, "A");
            assert!(body.todos[1].completed);
            assert_eq!(body.todos[1].content, "one");
        }
        _ => panic!("a toggle puts the card"),
    }
}

#[test]
fn editing_a_title_keeps_the_slots() {
    let cards = two_cards();
    let m = Mutation::EditTitle { card: 0, title: "renamed".to_string() };
    let shown = optimistic(&cards, &m);
    assert_eq!(shown[0].title, "renamed");
    assert_eq!(shown[0].todos[1].content, "one");
    match request(&cards, &m) {
        Some(ApiCall::PutCard { path, body }) => {
            assert_eq!(path, "/api/cards/a");
            assert_eq!(body.title, "renamed");
            assert_eq!(body.todos[1].content, "one");
        }
        _ => panic!("a title edit puts the card"),
    }
}

#[test]
fn editing_a_slot_keeps_its_completion() {
    let mut cards = two_cards();
    cards[1].todos[9].completed = true;
    let m = Mutation::EditTodo { card: 1, slot: 9, content: "text".to_string() };
    let shown = settled(&cards, &m, &Outcome::Done);
    assert_eq!(shown[1].todos[9], Todo { content: "text".to_string(), completed: true });
    assert!(shown[0] == cards[0]);
    assert!(shown == optimistic(&cards, &m));
}

#[test]
fn a_failed_call_restores_the_list() {
    let cards = two_cards();
    for m in [
        Mutation::Delete { card: 0 },
        Mutation::EditTitle { card: 1, title: "x".to_string() },
        Mutation::ToggleTodo { card: 0, slot: 0 },
        Mutation::EditTodo { card: 0, slot: 3, content: "y".to_string() },
        Mutation::Create,
    ] {
        assert!(settled(&cards, &m, &Outcome::Failed) == cards);
    }
}

#[test]
fn a_deletion_shows_only_when_confirmed() {
    let cards = two_cards();
    let m = Mutation::Delete { card: 0 };
    assert!(optimistic(&cards, &m) == cards);
    assert!(matches!(request(&cards, &m), Some(ApiCall::DeleteCard { path }) if path == "/api/cards/a"));
    let shown = settled(&cards, &m, &Outcome::Done);
    assert_eq!(shown.len(), 1);
    assert_eq!(shown[0].id, "b");
}

#[test]
fn a_new_card_is_a_placeholder_until_it_has_an_id() {
    let cards = two_cards();
    let shown = optimistic(&cards, &Mutation::Create);
    assert_eq!(shown.len(), 3);
    assert!(shown[2] == Card::blank(String::new()));
    match request(&cards, &Mutation::Create) {
        Some(ApiCall::PostCard { path, request }) => {
            assert_eq!(path, "/api/cards");
            assert!(request.is_empty());
        }
        _ => panic!("a creation posts"),
    }
    let shown = settled(&cards, &Mutation::Create, &Outcome::Created { id: "new".to_string() });
    assert_eq!(shown.len(), 3);
    assert!(shown[2] == Card::blank("new".to_string()));
    assert!(settled(&cards, &Mutation::Create, &Outcome::Done) == cards);
}

#[test]
fn edits_that_miss_the_list_do_nothing() {
    let cards = two_cards();
    for m in [
        Mutation::Delete { card: 2 },
        Mutation::EditTitle { card: 5, title: "x".to_string() },
        Mutation::ToggleTodo { card: 0, slot: 10 },
        Mutation::EditTodo { card: 2, slot: 0, content: "y".to_string() },
    ] {
        assert!(!m.applies_to(&cards));
        assert!(optimistic(&cards, &m) == cards);
        assert!(settled(&cards, &m, &Outcome::Done) == cards);
        assert!(request(&cards, &m).is_none());
    }
    assert!(Mutation::ToggleTodo { card: 1, slot: 9 }.applies_to(&cards));
    assert_eq!(Mutation::Create.card(), None);
    assert_eq!(Mutation::Delete { card: 7 }.card(), Some(7));
}

#[test]
fn view_model_rolls_back_on_failure() {
    let mut vm = ViewModel::new(two_cards());
    assert!(!vm.is_pending());
    let call = vm.begin(Mutation::EditTitle { card: 1, title: "B".to_string() });
    assert!(matches!(call, Some(ApiCall::PutCard { .. })));
    assert!(vm.is_pending());
    assert_eq!(vm.cards()[1].title, "B");
    vm.settle(&Outcome::Failed);
    assert!(!vm.is_pending());
    assert!(*vm.cards() == two_cards());
}

#[test]
fn view_model_keeps_an_accepted_edit() {
    let mut vm = ViewModel::new(two_cards());
    vm.begin(Mutation::ToggleTodo { card: 0, slot: 1 });
    vm.settle(&Outcome::Done);
    assert!(vm.cards()[0].todos[1].completed);
    assert!(!vm.is_pending());
    vm.begin(Mutation::Create);
    assert_eq!(vm.cards().len(), 3);
    vm.settle(&Outcome::Created { id: "c".to_string() });
    assert_eq!(vm.cards()[2].id, "c");
    vm.begin(Mutation::Delete { card: 0 });
    assert_eq!(vm.cards().len(), 3);
    vm.settle(&Outcome::Done);
    assert_eq!(vm.cards().len(), 2);
    assert_eq!(vm.cards()[0].id, "b");
}

#[test]
fn view_model_takes_one_edit_at_a_time() {
    let mut vm = ViewModel::new(two_cards());
    assert!(vm.begin(Mutation::Delete { card: 9 }).is_none());
    assert!(!vm.is_pending());
    assert!(vm.begin(Mutation::Create).is_some());
    assert!(vm.begin(Mutation::Delete { card: 0 }).is_none());
    assert_eq!(vm.cards().len(), 3);
    vm.settle(&Outcome::Failed);
    assert_eq!(vm.cards().len(), 2);
    vm.settle(&Outcome::Done);
    assert_eq!(vm.cards().len(), 2);
}

#[test]
fn client_addresses_and_token() {
    assert_eq!(TOKEN_STORAGE_KEY, "ohkami-yew-todo-demo-token");
    assert_eq!(api_url("http://localhost:8787", "/signup"), "http://localhost:8787/signup");
    assert_eq!(path_of_card("x-1"), "/api/cards/x-1");
    assert!(matches!(token_source(None), TokenSource::Signup));
    assert!(matches!(token_source(Some("t".to_string())), TokenSource::Stored { token } if token == "t"));
}

#[test]
fn slot_controls() {
    let empty = Todo::blank();
    let open = Todo { content: "x".to_string(), completed: false };
    let done = Todo { content: "x".to_string(), completed: true };
    assert!(!todo_is_checkable(true, &empty));
    assert!(todo_is_checkable(true, &open));
    assert!(todo_is_checkable(true, &done));
    assert!(!todo_is_checkable(false, &open));
    assert!(todo_is_editable(&empty));
    assert!(todo_is_editable(&open));
    assert!(!todo_is_editable(&done));
}

#[test]
fn icons_and_styles() {
    assert_eq!(delete_icon(true), "assets/icons/delete.svg");
    assert_eq!(delete_icon(false), "assets/icons/delete_disabled.svg");
    assert_eq!(upload_icon(true), "assets/icons/upload.svg");
    assert_eq!(upload_icon(false), "assets/icons/upload_disabled.svg");
    assert_eq!(check_box_icon(true), "assets/icons/check_box.svg");
    assert_eq!(check_box_icon(false), "assets/icons/check_box_outline_blank.svg");
    assert_eq!(button_frame_class(true), Some("cursor-pointer"));
    assert_eq!(button_frame_class(false), None);
    assert_eq!(button_link_class(true), None);
    assert_eq!(button_link_class(false), Some("pointer-events-none"));
    assert!(text_input_is_disabled(false, false));
    assert!(!text_input_is_disabled(true, false));
    assert!(!text_input_is_disabled(false, true));
    assert!(text_input_class(true, true).starts_with("text-lg "));
    assert_eq!(text_input_class(true, true), text_input_class(true, false));
    assert!(text_input_class(false, true).contains("text-neutral-400"));
    assert!(text_input_class(false, false).contains("text-neutral-800"));
}
