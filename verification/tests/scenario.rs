use flashcards::app::{App, AppState};
use flashcards::keys::{KeyCode, KeyEvent};
use flashcards::persist::{load, save};
use flashcards::store::Flashcard;

fn press(app: &mut App, code: KeyCode) {
    app.handle_key_event(&KeyEvent::press(code));
}

fn type_text(app: &mut App, text: &str) {
    for c in text.chars() {
        press(app, KeyCode::Char(c));
    }
}

#[test]
fn end_to_end_create_add_review_save_reload() {
    let mut app = App::new(load(None));
    assert!(app.topics().is_empty());

    press(&mut app, KeyCode::Char('n'));
    type_text(&mut app, "math");
    press(&mut app, KeyCode::Enter);
    assert_eq!(app.topics().sorted_topic_names(), vec!["math"]);

    press(&mut app, KeyCode::Char('a'));
    type_text(&mut app, "2+2?");
    press(&mut app, KeyCode::Tab);
    type_text(&mut app, "4");
    app.handle_key_event(&KeyEvent::press_with_control(KeyCode::Char('s')));
    assert_eq!(app.topics().card_count("math"), Some(1));

    press(&mut app, KeyCode::Enter);
    assert_eq!(
        app.state(),
        &AppState::FlashcardReview { topic: "math".to_string(), card_index: 0, show_answer: false }
    );
    press(&mut app, KeyCode::Char(' '));
    assert_eq!(
        app.state(),
        &AppState::FlashcardReview { topic: "math".to_string(), card_index: 0, show_answer: true }
    );
    assert_eq!(app.current_card().unwrap().answer, "4");

    press(&mut app, KeyCode::Esc);
    press(&mut app, KeyCode::Char('q'));
    assert!(app.should_exit());

    let text = save(&app.into_topics()).unwrap();
    let reloaded = load(Some(&text));
    assert_eq!(reloaded.len(), 1);
    assert_eq!(reloaded.sorted_topic_names(), vec!["math"]);
    assert_eq!(reloaded.card_count("math"), Some(1));
    assert_eq!(
        reloaded.card("math", 0),
        Some(Flashcard { question: "2+2?".to_string(), answer: "4".to_string() })
    );
}
