use flashcards::store::{Flashcard, Topic, Topics};

fn card(question: &str, answer: &str) -> Flashcard {
    Flashcard { question: question.to_string(), answer: answer.to_string() }
}

fn sample() -> Topics {
    let mut store = Topics::new();
    assert!(store.create_topic("math"));
    assert!(store.create_topic("history"));
    assert!(store.create_topic("zoology"));
    assert!(store.add_card("math", "2+2?", "4"));
    assert!(store.add_card("math", "3*3?", "9"));
    assert!(store.add_card("history", "1066?", "Hastings"));
    store
}

#[test]
fn new_store_is_empty() {
    let store = Topics::new();
    assert!(store.is_empty());
    assert_eq!(store.len(), 0);
    assert_eq!(store.sorted_topic_names(), Vec::<String>::new());
}

#[test]
fn create_topic_adds_an_empty_topic() {
    let mut store = Topics::new();
    assert!(store.create_topic("math"));
    assert_eq!(store.len(), 1);
    assert_eq!(store.card_count("math"), Some(0));
    assert_eq!(store.card_count("other"), None);
}

#[test]
fn create_topic_trims_the_name() {
    let mut store = Topics::new();
    assert!(store.create_topic("  math \n"));
    assert_eq!(store.sorted_topic_names(), vec!["math"]);
    assert_eq!(store.card_count("math"), Some(0));
    assert_eq!(store.card_count("  math \n"), None);
}

#[test]
fn create_topic_rejects_a_blank_name() {
    let mut store = sample();
    let before = store.entries();
    assert!(!store.create_topic(""));
    assert!(!store.create_topic("   "));
    assert!(!store.create_topic("\t\n"));
    assert_eq!(store.entries(), before);
}

#[test]
fn create_topic_again_discards_the_cards() {
    let mut store = sample();
    assert_eq!(store.card_count("math"), Some(2));
    assert!(store.create_topic("math"));
    assert_eq!(store.card_count("math"), Some(0));
    assert_eq!(store.len(), 3);
    assert_eq!(store.card_count("history"), Some(1));
    assert_eq!(store.card("history", 0), Some(card("1066?", "Hastings")));
}

#[test]
fn sorted_topic_names_are_alphabetical() {
    let store = sample();
    assert_eq!(store.sorted_topic_names(), vec!["history", "math", "zoology"]);
}

#[test]
fn sorted_topic_names_follow_each_change() {
    let mut store = Topics::new();
    store.create_topic("b");
    assert_eq!(store.sorted_topic_names(), vec!["b"]);
    store.create_topic("a");
    assert_eq!(store.sorted_topic_names(), vec!["a", "b"]);
    store.create_topic("c");
    store.create_topic("B");
    assert_eq!(store.sorted_topic_names(), vec!["B", "a", "b", "c"]);
}

#[test]
fn topic_name_by_position() {
    let store = sample();
    assert_eq!(store.topic_name(0), Some("history".to_string()));
    assert_eq!(store.topic_name(2), Some("zoology".to_string()));
    assert_eq!(store.topic_name(3), None);
}

#[test]
fn add_card_appends_in_order() {
    let store = sample();
    assert_eq!(store.card("math", 0), Some(card("2+2?", "4")));
    assert_eq!(store.card("math", 1), Some(card("3*3?", "9")));
    assert_eq!(store.card("math", 2), None);
    assert_eq!(store.card("zoology", 0), None);
    assert_eq!(store.card("nothing", 0), None);
}

#[test]
fn add_card_trims_question_and_answer() {
    let mut store = Topics::new();
    store.create_topic("t");
    assert!(store.add_card("t", "  why?\n", "\tbecause\nof that  "));
    assert_eq!(store.card("t", 0), Some(card("why?", "because\nof that")));
}

#[test]
fn add_card_rejects_blank_question_or_answer() {
    let mut store = sample();
    assert!(!store.add_card("math", "", "4"));
    assert!(!store.add_card("math", "2+2?", "   "));
    assert!(!store.add_card("math", " \n", "\t"));
    assert_eq!(store.card_count("math"), Some(2));
}

#[test]
fn add_card_to_a_missing_topic_does_nothing() {
    let mut store = sample();
    let before = store.entries();
    assert!(!store.add_card("physics", "q", "a"));
    assert!(!store.add_card(" math", "q", "a"));
    assert_eq!(store.entries(), before);
}

#[test]
fn summaries_give_names_and_counts() {
    let store = sample();
    assert_eq!(
        store.summaries(),
        vec![("history".to_string(), 1), ("math".to_string(), 2), ("zoology".to_string(), 0)]
    );
}

#[test]
fn entries_round_trip() {
    let store = sample();
    let exported = store.entries();
    let again = Topics::from_entries(&exported);
    assert_eq!(again.entries(), exported);
    assert_eq!(again.sorted_topic_names(), store.sorted_topic_names());
    assert_eq!(again.card("math", 1), Some(card("3*3?", "9")));
}

#[test]
fn from_entries_sorts_and_keeps_the_later_duplicate() {
    let list = vec![
        Topic { name: "b".to_string(), cards: vec![card("q1", "a1")] },
        Topic { name: "a".to_string(), cards: vec![] },
        Topic { name: "b".to_string(), cards: vec![card("q2", "a2"), card("q3", "a3")] },
    ];
    let store = Topics::from_entries(&list);
    assert_eq!(store.sorted_topic_names(), vec!["a", "b"]);
    assert_eq!(store.card_count("b"), Some(2));
    assert_eq!(store.card("b", 0), Some(card("q2", "a2")));
}

#[test]
fn without_entries_the_store_is_empty() {
    let store = Topics::from_entries_or_empty(None);
    assert!(store.is_empty());
}

#[test]
fn with_entries_the_store_holds_them() {
    let store = Topics::from_entries_or_empty(Some(vec![Topic { name: "math".to_string(), cards: vec![card("2+2?", "4")] }]));
    assert_eq!(store.len(), 1);
    assert_eq!(store.card("math", 0), Some(card("2+2?", "4")));
}

#[test]
fn flashcard_clone_is_equal() {
    let c = card("q", "a");
    assert_eq!(c.clone(), c);
}
