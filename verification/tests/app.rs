use flashcards::app::{App, AppState};
use flashcards::keys::{KeyCode, KeyEvent, KeyKind};
use flashcards::store::{Flashcard, Topics};

fn press(app: &mut App, code: KeyCode) {
    app.handle_key_event(&KeyEvent::press(code));
}

fn type_text(app: &mut App, text: &str) {
    for c in text.chars() {
        press(app, KeyCode::Char(c));
    }
}

fn save_combo() -> KeyEvent {
    KeyEvent::press_with_control(KeyCode::Char('s'))
}

fn three_topics() -> Topics {
    let mut store = Topics::new();
    store.create_topic("beta");
    store.create_topic("alpha");
    store.create_topic("gamma");
    store.add_card("beta", "q1", "a1");
    store.add_card("beta", "q2", "a2");
    store.add_card("beta", "q3", "a3");
    store
}

fn review(topic: &str, card_index: usize, show_answer: bool) -> AppState {
    AppState::FlashcardReview { topic: topic.to_string(), card_index, show_answer }
}

fn adding(topic: &str, question: &str, answer: &str, editing_question: bool) -> AppState {
    AppState::AddCard {
        topic: topic.to_string(),
        question_input: question.to_string(),
        answer_input: answer.to_string(),
        editing_question,
    }
}

#[test]
fn new_app_on_empty_store_selects_nothing() {
    let app = App::new(Topics::new());
    assert_eq!(app.state(), &AppState::TopicSelection);
    assert_eq!(app.selected(), None);
    assert!(!app.should_exit());
}

#[test]
fn new_app_selects_the_first_topic() {
    let app = App::new(three_topics());
    assert_eq!(app.selected(), Some(0));
    assert_eq!(app.state(), &AppState::TopicSelection);
}

#[test]
fn quit_key_sets_the_exit_flag() {
    let mut app = App::new(three_topics());
    press(&mut app, KeyCode::Char('q'));
    assert!(app.should_exit());
    assert_eq!(app.state(), &AppState::TopicSelection);
}

#[test]
fn unknown_keys_change_nothing_on_the_topic_list() {
    let mut app = App::new(three_topics());
    for code in [KeyCode::Char('x'), KeyCode::Tab, KeyCode::Esc, KeyCode::Left, KeyCode::Right, KeyCode::Backspace, KeyCode::Other] {
        press(&mut app, code);
        assert_eq!(app.state(), &AppState::TopicSelection);
        assert_eq!(app.selected(), Some(0));
        assert!(!app.should_exit());
    }
}

#[test]
fn next_topic_wraps_after_as_many_presses_as_topics() {
    for start in 0..3 {
        let mut app = App::new(three_topics());
        for _ in 0..start {
            press(&mut app, KeyCode::Down);
        }
        assert_eq!(app.selected(), Some(start));
        for _ in 0..3 {
            press(&mut app, KeyCode::Char('j'));
            assert!(app.selected().unwrap() < 3);
        }
        assert_eq!(app.selected(), Some(start));
    }
}

#[test]
fn previous_topic_wraps_after_as_many_presses_as_topics() {
    let mut app = App::new(three_topics());
    press(&mut app, KeyCode::Up);
    assert_eq!(app.selected(), Some(2));
    press(&mut app, KeyCode::Char('k'));
    assert_eq!(app.selected(), Some(1));
    press(&mut app, KeyCode::Up);
    assert_eq!(app.selected(), Some(0));
}

#[test]
fn next_topic_moves_one_down() {
    let mut app = App::new(three_topics());
    press(&mut app, KeyCode::Down);
    assert_eq!(app.selected(), Some(1));
    press(&mut app, KeyCode::Down);
    assert_eq!(app.selected(), Some(2));
    press(&mut app, KeyCode::Down);
    assert_eq!(app.selected(), Some(0));
}

#[test]
fn navigation_on_an_empty_store_does_nothing() {
    let mut app = App::new(Topics::new());
    for code in [KeyCode::Down, KeyCode::Up, KeyCode::Char('j'), KeyCode::Char('k'), KeyCode::Enter, KeyCode::Char('a')] {
        press(&mut app, code);
        assert_eq!(app.selected(), None);
        assert_eq!(app.state(), &AppState::TopicSelection);
    }
}

#[test]
fn enter_on_a_topic_without_cards_does_nothing() {
    let mut app = App::new(three_topics());
    press(&mut app, KeyCode::Enter);
    assert_eq!(app.state(), &AppState::TopicSelection);
    assert_eq!(app.current_card(), None);
}

#[test]
fn enter_opens_the_review_at_the_first_card() {
    let mut app = App::new(three_topics());
    press(&mut app, KeyCode::Down);
    press(&mut app, KeyCode::Enter);
    assert_eq!(app.state(), &review("beta", 0, false));
    assert_eq!(
        app.current_card(),
        Some(Flashcard { question: "q1".to_string(), answer: "a1".to_string() })
    );
}

#[test]
fn review_flip_toggles_the_answer() {
    let mut app = App::new(three_topics());
    press(&mut app, KeyCode::Down);
    press(&mut app, KeyCode::Enter);
    press(&mut app, KeyCode::Char(' '));
    assert_eq!(app.state(), &review("beta", 0, true));
    press(&mut app, KeyCode::Enter);
    assert_eq!(app.state(), &review("beta", 0, false));
}

#[test]
fn review_next_wraps_after_as_many_presses_as_cards() {
    let mut app = App::new(three_topics());
    press(&mut app, KeyCode::Down);
    press(&mut app, KeyCode::Enter);
    press(&mut app, KeyCode::Char(' '));
    press(&mut app, KeyCode::Char('n'));
    assert_eq!(app.state(), &review("beta", 1, false));
    press(&mut app, KeyCode::Right);
    assert_eq!(app.state(), &review("beta", 2, false));
    press(&mut app, KeyCode::Right);
    assert_eq!(app.state(), &review("beta", 0, false));
}

#[test]
fn review_previous_from_the_first_card_shows_the_last() {
    let mut app = App::new(three_topics());
    press(&mut app, KeyCode::Down);
    press(&mut app, KeyCode::Enter);
    press(&mut app, KeyCode::Char('p'));
    assert_eq!(app.state(), &review("beta", 2, false));
    press(&mut app, KeyCode::Char(' '));
    press(&mut app, KeyCode::Left);
    assert_eq!(app.state(), &review("beta", 1, false));
}

#[test]
fn review_quit_and_cancel_go_back_and_keep_the_selection() {
    for code in [KeyCode::Char('q'), KeyCode::Esc] {
        let mut app = App::new(three_topics());
        press(&mut app, KeyCode::Down);
        press(&mut app, KeyCode::Enter);
        press(&mut app, code);
        assert_eq!(app.state(), &AppState::TopicSelection);
        assert_eq!(app.selected(), Some(1));
        assert!(!app.should_exit());
    }
}

#[test]
fn review_ignores_other_keys() {
    let mut app = App::new(three_topics());
    press(&mut app, KeyCode::Down);
    press(&mut app, KeyCode::Enter);
    for code in [KeyCode::Char('x'), KeyCode::Tab, KeyCode::Up, KeyCode::Down, KeyCode::Backspace, KeyCode::Other] {
        press(&mut app, code);
        assert_eq!(app.state(), &review("beta", 0, false));
    }
}

#[test]
fn new_topic_key_opens_an_empty_name() {
    let mut app = App::new(Topics::new());
    press(&mut app, KeyCode::Char('n'));
    assert_eq!(app.state(), &AppState::CreateTopic { input: String::new() });
}

#[test]
fn create_topic_typing_and_backspace() {
    let mut app = App::new(Topics::new());
    press(&mut app, KeyCode::Char('n'));
    press(&mut app, KeyCode::Backspace);
    assert_eq!(app.state(), &AppState::CreateTopic { input: String::new() });
    type_text(&mut app, "mathz");
    press(&mut app, KeyCode::Backspace);
    press(&mut app, KeyCode::Tab);
    assert_eq!(app.state(), &AppState::CreateTopic { input: "math".to_string() });
    assert!(app.topics().is_empty());
}

#[test]
fn create_topic_cancel_discards_the_name() {
    let mut app = App::new(three_topics());
    press(&mut app, KeyCode::Down);
    press(&mut app, KeyCode::Char('n'));
    type_text(&mut app, "delta");
    press(&mut app, KeyCode::Esc);
    assert_eq!(app.state(), &AppState::TopicSelection);
    assert_eq!(app.topics().len(), 3);
    assert_eq!(app.selected(), Some(1));
}

#[test]
fn create_topic_confirm_commits_and_selects_the_first() {
    let mut app = App::new(three_topics());
    press(&mut app, KeyCode::Down);
    press(&mut app, KeyCode::Char('n'));
    type_text(&mut app, "  zeta ");
    press(&mut app, KeyCode::Enter);
    assert_eq!(app.state(), &AppState::TopicSelection);
    assert_eq!(app.selected(), Some(0));
    assert_eq!(app.topics().sorted_topic_names(), vec!["alpha", "beta", "gamma", "zeta"]);
    assert_eq!(app.topics().card_count("zeta"), Some(0));
}

#[test]
fn create_topic_confirm_of_a_blank_name_stays() {
    let mut app = App::new(three_topics());
    press(&mut app, KeyCode::Char('n'));
    press(&mut app, KeyCode::Enter);
    assert_eq!(app.state(), &AppState::CreateTopic { input: String::new() });
    type_text(&mut app, "   ");
    press(&mut app, KeyCode::Enter);
    assert_eq!(app.state(), &AppState::CreateTopic { input: "   ".to_string() });
    assert_eq!(app.topics().sorted_topic_names(), vec!["alpha", "beta", "gamma"]);
}

#[test]
fn create_topic_again_through_the_keys_discards_its_cards() {
    let mut app = App::new(three_topics());
    assert_eq!(app.topics().card_count("beta"), Some(3));
    press(&mut app, KeyCode::Char('n'));
    type_text(&mut app, "beta");
    press(&mut app, KeyCode::Enter);
    assert_eq!(app.topics().card_count("beta"), Some(0));
    assert_eq!(app.topics().len(), 3);
}

#[test]
fn add_card_key_opens_the_editor_for_the_selected_topic() {
    let mut app = App::new(three_topics());
    press(&mut app, KeyCode::Down);
    press(&mut app, KeyCode::Down);
    press(&mut app, KeyCode::Char('a'));
    assert_eq!(app.state(), &adding("gamma", "", "", true));
}

#[test]
fn add_card_typing_goes_to_the_edited_text() {
    let mut app = App::new(three_topics());
    press(&mut app, KeyCode::Char('a'));
    type_text(&mut app, "qs");
    press(&mut app, KeyCode::Enter);
    type_text(&mut app, "x");
    press(&mut app, KeyCode::Tab);
    assert_eq!(app.state(), &adding("alpha", "qs\nx", "", false));
    type_text(&mut app, "ans");
    press(&mut app, KeyCode::Enter);
    press(&mut app, KeyCode::Backspace);
    press(&mut app, KeyCode::Backspace);
    assert_eq!(app.state(), &adding("alpha", "qs\nx", "an", false));
    press(&mut app, KeyCode::Tab);
    press(&mut app, KeyCode::Backspace);
    press(&mut app, KeyCode::Backspace);
    assert_eq!(app.state(), &adding("alpha", "qs", "an", true));
    press(&mut app, KeyCode::Up);
    assert_eq!(app.state(), &adding("alpha", "qs", "an", true));
}

#[test]
fn add_card_backspace_on_empty_text_does_nothing() {
    let mut app = App::new(three_topics());
    press(&mut app, KeyCode::Char('a'));
    press(&mut app, KeyCode::Backspace);
    press(&mut app, KeyCode::Tab);
    press(&mut app, KeyCode::Backspace);
    assert_eq!(app.state(), &adding("alpha", "", "", false));
}

#[test]
fn add_card_save_commits_trimmed_texts() {
    let mut app = App::new(three_topics());
    press(&mut app, KeyCode::Down);
    press(&mut app, KeyCode::Char('a'));
    type_text(&mut app, " q4 ");
    press(&mut app, KeyCode::Tab);
    type_text(&mut app, "a4");
    press(&mut app, KeyCode::Enter);
    app.handle_key_event(&save_combo());
    assert_eq!(app.state(), &AppState::TopicSelection);
    assert_eq!(app.selected(), Some(1));
    assert_eq!(app.topics().card_count("beta"), Some(4));
    assert_eq!(
        app.topics().card("beta", 3),
        Some(Flashcard { question: "q4".to_string(), answer: "a4".to_string() })
    );
}

#[test]
fn add_card_save_with_command_modifier() {
    let mut app = App::new(three_topics());
    press(&mut app, KeyCode::Char('a'));
    type_text(&mut app, "q");
    press(&mut app, KeyCode::Tab);
    type_text(&mut app, "a");
    app.handle_key_event(&KeyEvent {
        code: KeyCode::Char('s'),
        control: false,
        command: true,
        kind: KeyKind::Press,
    });
    assert_eq!(app.state(), &AppState::TopicSelection);
    assert_eq!(app.topics().card_count("alpha"), Some(1));
}

#[test]
fn add_card_plain_s_is_typed() {
    let mut app = App::new(three_topics());
    press(&mut app, KeyCode::Char('a'));
    type_text(&mut app, "sss");
    assert_eq!(app.state(), &adding("alpha", "sss", "", true));
}

#[test]
fn add_card_save_with_a_blank_text_stays() {
    let mut app = App::new(three_topics());
    press(&mut app, KeyCode::Down);
    press(&mut app, KeyCode::Char('a'));
    type_text(&mut app, "question");
    app.handle_key_event(&save_combo());
    assert_eq!(app.state(), &adding("beta", "question", "", true));
    press(&mut app, KeyCode::Tab);
    type_text(&mut app, " ");
    press(&mut app, KeyCode::Enter);
    app.handle_key_event(&save_combo());
    assert_eq!(app.state(), &adding("beta", "question", " \n", false));
    assert_eq!(app.topics().card_count("beta"), Some(3));
}

#[test]
fn add_card_cancel_discards_both_texts() {
    let mut app = App::new(three_topics());
    press(&mut app, KeyCode::Char('a'));
    type_text(&mut app, "q");
    press(&mut app, KeyCode::Tab);
    type_text(&mut app, "a");
    press(&mut app, KeyCode::Esc);
    assert_eq!(app.state(), &AppState::TopicSelection);
    assert_eq!(app.topics().card_count("alpha"), Some(0));
}

#[test]
fn repeats_and_releases_are_ignored() {
    let mut app = App::new(three_topics());
    for kind in [KeyKind::Repeat, KeyKind::Release] {
        app.handle_event(&KeyEvent { code: KeyCode::Down, control: false, command: false, kind });
        app.handle_event(&KeyEvent { code: KeyCode::Char('q'), control: false, command: false, kind });
        assert_eq!(app.selected(), Some(0));
        assert!(!app.should_exit());
    }
    app.handle_event(&KeyEvent::press(KeyCode::Down));
    assert_eq!(app.selected(), Some(1));
}

#[test]
fn into_topics_gives_the_store_back() {
    let mut app = App::new(Topics::new());
    press(&mut app, KeyCode::Char('n'));
    type_text(&mut app, "math");
    press(&mut app, KeyCode::Enter);
    let store = app.into_topics();
    assert_eq!(store.sorted_topic_names(), vec!["math"]);
}
