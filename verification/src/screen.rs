//! What each screen shows, as plain values for a renderer to lay out.

use crate::app::{App, AppState, AppView, StateView};
use crate::store::{cards_of, has_topic, summaries_of};
use crate::text::{lines, split_lines, texts_view};
use vstd::prelude::*;

verus! {

/// A text field of the card editor.
#[derive(Debug, PartialEq, Eq)]
pub struct Field {
    /// The lines of the text, in order; never none.
    pub lines: Vec<String>,
    /// Whether the field receives the keys; the cursor then stands at the end
    /// of its last line.
    pub active: bool,
}

/// A [`Field`] as plain values.
pub struct FieldView {
    pub lines: Seq<Seq<char>>,
    pub active: bool,
}

impl View for Field {
    type V = FieldView;

    open spec fn view(&self) -> FieldView {
        FieldView { lines: texts_view(self.lines@), active: self.active }
    }
}

/// What is on the screen.
#[derive(Debug, PartialEq, Eq)]
pub enum Screen {
    /// The topic list of a store without topics.
    NoTopics,
    /// The topic list: each topic with the number of its cards, and the
    /// highlighted row.
    TopicList { rows: Vec<(String, usize)>, selected: Option<usize> },
    /// A card under review: its number among the cards of the topic, counted
    /// from one, its question, and its answer where that is shown.
    Card { topic: String, number: usize, count: usize, question: String, answer: Option<String> },
    /// A review that has no card to show.
    NoCard,
    /// The name of a new topic, as typed so far.
    NewTopic { input: String },
    /// The card editor with its two fields.
    NewCard { topic: String, question: Field, answer: Field },
}

/// A [`Screen`] as plain values.
pub enum ScreenView {
    NoTopics,
    TopicList { rows: Seq<(Seq<char>, usize)>, selected: Option<usize> },
    Card {
        topic: Seq<char>,
        number: usize,
        count: usize,
        question: Seq<char>,
        answer: Option<Seq<char>>,
    },
    NoCard,
    NewTopic { input: Seq<char> },
    NewCard { topic: Seq<char>, question: FieldView, answer: FieldView },
}

impl View for Screen {
    type V = ScreenView;

    open spec fn view(&self) -> ScreenView {
        match *self {
            Screen::NoTopics => ScreenView::NoTopics,
            Screen::TopicList { rows, selected } => ScreenView::TopicList {
                rows: rows.deep_view(),
                selected,
            },
            Screen::Card { topic, number, count, question, answer } => ScreenView::Card {
                topic: topic@,
                number,
                count,
                question: question@,
                answer: answer.deep_view(),
            },
            Screen::NoCard => ScreenView::NoCard,
            Screen::NewTopic { input } => ScreenView::NewTopic { input: input@ },
            Screen::NewCard { topic, question, answer } => ScreenView::NewCard {
                topic: topic@,
                question: question@,
                answer: answer@,
            },
        }
    }
}

/// What the application shows in each of its states.
pub open spec fn screen_of(v: AppView) -> ScreenView {
    match v.state {
        StateView::TopicSelection => {
            if v.topics.len() == 0 {
                ScreenView::NoTopics
            } else {
                ScreenView::TopicList { rows: summaries_of(v.topics), selected: v.selected }
            }
        },
        StateView::FlashcardReview { topic, card_index, show_answer } => {
            if has_topic(v.topics, topic) && card_index < cards_of(v.topics, topic).len() {
                let card = cards_of(v.topics, topic)[card_index as int];
                ScreenView::Card {
                    topic,
                    number: (card_index + 1) as usize,
                    count: cards_of(v.topics, topic).len() as usize,
                    question: card.question,
                    answer: if show_answer {
                        Some(card.answer)
                    } else {
                        None
                    },
                }
            } else {
                ScreenView::NoCard
            }
        },
        StateView::CreateTopic { input } => ScreenView::NewTopic { input },
        StateView::AddCard { topic, question_input, answer_input, editing_question } => {
            ScreenView::NewCard {
                topic,
                question: FieldView {
                    lines: split_lines(question_input),
                    active: editing_question,
                },
                answer: FieldView { lines: split_lines(answer_input), active: !editing_question },
            }
        },
    }
}

/// What `app` shows now.
pub fn screen(app: &App) -> (r: Screen)
    ensures
        r@ == screen_of(app@),
{
    match app.state() {
        AppState::TopicSelection => {
            if app.topics().is_empty() {
                Screen::NoTopics
            } else {
                Screen::TopicList { rows: app.topics().summaries(), selected: app.selected() }
            }
        },
        AppState::FlashcardReview { topic, card_index, show_answer } => {
            let count = app.topics().card_count(topic.as_str());
            let card = app.topics().card(topic.as_str(), *card_index);
            match (count, card) {
                (Some(count), Some(card)) => Screen::Card {
                    topic: topic.clone(),
                    number: *card_index + 1,
                    count,
                    question: card.question,
                    answer: if *show_answer {
                        Some(card.answer)
                    } else {
                        None
                    },
                },
                _ => Screen::NoCard,
            }
        },
        AppState::CreateTopic { input } => Screen::NewTopic { input: input.clone() },
        AppState::AddCard { topic, question_input, answer_input, editing_question } => {
            Screen::NewCard {
                topic: topic.clone(),
                question: Field { lines: lines(question_input.as_str()), active: *editing_question },
                answer: Field { lines: lines(answer_input.as_str()), active: !*editing_question },
            }
        },
    }
}

} // verus!
