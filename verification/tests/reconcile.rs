use ohkami_yew_todo::errors::{ServerError, StorageFault};
use ohkami_yew_todo::models::{Card, Todo, UpdateCard};
use ohkami_yew_todo::order::order_by_key;
use ohkami_yew_todo::reconcile::{
    assemble_cards, diff_slots, plan_update, plan_update_at, slot_positions, CardRecord, TodoRow,
};
use ohkami_yew_todo::statements::Statement;

fn row(id: u64, card: &str, content: &str, completed_at: Option<u64>) -> TodoRow {
    TodoRow { id, card_id: card.to_string(), content: content.to_string(), completed_at }
}

fn record(id: &str, title: &str) -> CardRecord {
    CardRecord { id: id.to_string(), title: title.to_string() }
}

fn rows_of(card: &str, first_id: u64) -> Vec<TodoRow> {
    (0..10).map(|i| row(first_id + i, card, &format!("{card}{i}"), None)).collect()
}

#[test]
fn diff_emits_one_update_for_the_one_changed_slot() {
    let stored = vec![row(1, "c", "a", None), row(2, "c", "b", Some(5))];
    let submitted = vec![
        Todo { content: "a".to_string(), completed: false },
        Todo { content: "b".to_string(), completed: false },
    ];
    let updates = diff_slots(&stored, &submitted, 9);
    assert_eq!(updates.len(), 1);
    match &updates[0] {
        Statement::UpdateTodo { row_id, content, completed_at } => {
            assert_eq!(*row_id, 2);
            assert_eq!(content, "b");
            assert_eq!(*completed_at, None);
        }
        _ => panic!("a slot update was expected"),
    }
}

#[test]
fn diff_ignores_the_time_of_completion() {
    let stored = vec![row(1, "c", "a", Some(1)), row(2, "c", "b", Some(2))];
    let submitted = vec![
        Todo { content: "a".to_string(), completed: true },
        Todo { content: "b".to_string(), completed: true },
    ];
    assert!(diff_slots(&stored, &submitted, 1000).is_empty());
}

#[test]
fn diff_sets_the_completion_time_to_now() {
    let stored = vec![row(7, "c", "a", None)];
    let submitted = vec![Todo { content: "a".to_string(), completed: true }];
    let updates = diff_slots(&stored, &submitted, 1234);
    assert_eq!(updates.len(), 1);
    assert!(matches!(
        &updates[0],
        Statement::UpdateTodo { row_id: 7, completed_at: Some(1234), .. }
    ));
}

#[test]
fn diff_pairs_only_the_slots_both_sides_have() {
    let stored = vec![row(1, "c", "a", None)];
    let submitted = vec![
        Todo { content: "x".to_string(), completed: false },
        Todo { content: "y".to_string(), completed: false },
    ];
    let updates = diff_slots(&stored, &submitted, 0);
    assert_eq!(updates.len(), 1);
    assert!(diff_slots(&Vec::new(), &submitted, 0).is_empty());
    assert!(diff_slots(&stored, &[], 0).is_empty());
}

#[test]
fn assemble_orders_the_slots_by_row_id() {
    let mut rows = rows_of("c", 100);
    rows.reverse();
    let cards = assemble_cards(&vec![record("c", "title")], &rows).unwrap();
    assert_eq!(cards.len(), 1);
    assert_eq!(cards[0].id, "c");
    assert_eq!(cards[0].title, "title");
    for slot in 0..Card::N_TODOS {
        assert_eq!(cards[0].todos[slot].content, format!("c{slot}"));
        assert!(!cards[0].todos[slot].completed);
    }
}

#[test]
fn assemble_groups_interleaved_rows_by_card() {
    let a = rows_of("a", 1);
    let b = rows_of("b", 11);
    let mut rows = Vec::new();
    for (x, y) in b.into_iter().zip(a.into_iter()) {
        rows.push(x);
        rows.push(y);
    }
    let cards = assemble_cards(&vec![record("a", "A"), record("b", "B")], &rows).unwrap();
    assert_eq!(cards.len(), 2);
    for slot in 0..Card::N_TODOS {
        assert_eq!(cards[0].todos[slot].content, format!("a{slot}"));
        assert_eq!(cards[1].todos[slot].content, format!("b{slot}"));
    }
}

#[test]
fn assemble_reads_completion_from_the_timestamp() {
    let mut rows = rows_of("c", 1);
    rows[4].completed_at = Some(0);
    let cards = assemble_cards(&vec![record("c", "")], &rows).unwrap();
    for slot in 0..Card::N_TODOS {
        assert_eq!(cards[0].todos[slot].completed, slot == 4);
    }
}

#[test]
fn assemble_refuses_a_short_slate() {
    let mut rows = rows_of("c", 1);
    rows.pop();
    let res = assemble_cards(&vec![record("c", "")], &rows);
    assert!(matches!(res, Err(ServerError::Storage { fault: StorageFault::SlotCountMismatch })));
}

#[test]
fn assemble_refuses_a_long_slate() {
    let mut rows = rows_of("c", 1);
    rows.push(row(99, "c", "extra", None));
    let res = assemble_cards(&vec![record("c", "")], &rows);
    assert!(matches!(res, Err(ServerError::Storage { fault: StorageFault::SlotCountMismatch })));
}

#[test]
fn assemble_of_no_cards_is_empty() {
    assert!(assemble_cards(&Vec::new(), &Vec::new()).unwrap().is_empty());
    assert!(assemble_cards(&Vec::new(), &rows_of("c", 1)).unwrap().is_empty());
}

#[test]
fn slot_positions_follow_the_row_ids() {
    let rows = vec![
        row(30, "c", "", None),
        row(5, "other", "", None),
        row(10, "c", "", None),
        row(20, "c", "", None),
    ];
    assert_eq!(slot_positions(&rows, "c"), vec![2, 3, 0]);
    assert_eq!(slot_positions(&rows, "other"), vec![1]);
    assert!(slot_positions(&rows, "none").is_empty());
}

#[test]
fn order_by_key_is_stable() {
    assert_eq!(order_by_key(&vec![3, 1, 2, 1, 3]), vec![1, 3, 2, 0, 4]);
    assert_eq!(order_by_key(&vec![]), Vec::<usize>::new());
    assert_eq!(order_by_key(&vec![7]), vec![0]);
    assert_eq!(order_by_key(&vec![1, 2, 3]), vec![0, 1, 2]);
    assert_eq!(order_by_key(&vec![u64::MAX, 0]), vec![1, 0]);
}

#[test]
fn plan_update_puts_the_title_first() {
    let rows = rows_of("c", 1);
    let blank = Card::blank(String::new());
    let mut req = UpdateCard { title: "new".to_string(), todos: blank.todos };
    req.todos[0] = Todo { content: "c0".to_string(), completed: true };
    for slot in 1..10 {
        req.todos[slot].content = format!("c{slot}");
    }
    let plan = plan_update_at("c", "old", &rows, &req, 60);
    assert_eq!(plan.len(), 2);
    assert!(matches!(&plan[0], Statement::UpdateCardTitle { card_id, title } if card_id == "c" && title == "new"));
    assert!(matches!(
        &plan[1],
        Statement::UpdateTodo { row_id: 1, completed_at: Some(60), content } if content == "c0"
    ));
}

#[test]
fn plan_update_is_empty_when_nothing_differs() {
    let rows = rows_of("c", 1);
    let blank = Card::blank(String::new());
    let mut req = UpdateCard { title: "same".to_string(), todos: blank.todos };
    for slot in 0..10 {
        req.todos[slot].content = format!("c{slot}");
    }
    assert!(plan_update_at("c", "same", &rows, &req, 1).is_empty());
    assert!(plan_update("c", "same", &rows, &req).is_empty());
}

#[test]
fn plan_update_matches_slots_by_row_id_whatever_the_fetch_order() {
    let mut rows = rows_of("c", 1);
    rows.swap(0, 9);
    rows.push(row(500, "someone-else", "x", None));
    let blank = Card::blank(String::new());
    let mut req = UpdateCard { title: String::new(), todos: blank.todos };
    for slot in 0..10 {
        req.todos[slot].content = format!("c{slot}");
    }
    req.todos[9].content = "changed".to_string();
    let plan = plan_update_at("c", "", &rows, &req, 1);
    assert_eq!(plan.len(), 1);
    assert!(matches!(&plan[0], Statement::UpdateTodo { row_id: 10, content, .. } if content == "changed"));
}
