//! Laws of the state machine, stated over its model and proved once for all
//! stores, screens and keys.

use crate::app::{lemma_index_after, step, valid, AppView, StateView};
use crate::keys::{KeyCode, KeyEvent};
use crate::store::{
    cards_of, has_topic, lemma_slot_from, lemma_topic_at, lemma_with_card, lemma_with_topic,
    CardView,
};
use crate::text::{is_blank, lemma_trimmed, trimmed};
use vstd::prelude::*;

verus! {

/// The application after the same key was pressed `n` times.
pub open spec fn repeated(v: AppView, key: KeyEvent, n: nat) -> AppView
    decreases n,
{
    if n == 0 {
        v
    } else {
        step(repeated(v, key, (n - 1) as nat), key)
    }
}

/// A key that moves the selection down the topic list.
pub open spec fn is_next_topic_key(key: KeyEvent) -> bool {
    key.code == KeyCode::Down || key.code == KeyCode::Char('j')
}

/// A key that moves the selection up the topic list.
pub open spec fn is_previous_topic_key(key: KeyEvent) -> bool {
    key.code == KeyCode::Up || key.code == KeyCode::Char('k')
}

/// A key that shows the next card of a review.
pub open spec fn is_next_card_key(key: KeyEvent) -> bool {
    key.code == KeyCode::Right || key.code == KeyCode::Char('n')
}

/// A key that shows the previous card of a review.
pub open spec fn is_previous_card_key(key: KeyEvent) -> bool {
    key.code == KeyCode::Left || key.code == KeyCode::Char('p')
}

/// Every key leaves the application valid, and no key removes a topic.
pub proof fn law_step_valid(v: AppView, key: KeyEvent)
    requires
        valid(v),
        v.topics.len() <= usize::MAX,
    ensures
        valid(step(v, key)),
        step(v, key).topics.len() >= v.topics.len(),
{
    match v.state {
        StateView::TopicSelection => {
            if let Some(i) = v.selected {
                lemma_index_after(i, v.topics.len());
                lemma_topic_at(v.topics, i as int);
            }
        },
        StateView::FlashcardReview { topic, card_index, show_answer } => {
            let count = cards_of(v.topics, topic).len();
            if count <= usize::MAX {
                lemma_index_after(card_index, count);
            }
        },
        StateView::CreateTopic { input } => {
            lemma_with_topic(v.topics, trimmed(input));
        },
        StateView::AddCard { topic, question_input, answer_input, editing_question } => {
            lemma_slot_from(v.topics, topic, 0);
            let card = CardView { question: trimmed(question_input), answer: trimmed(answer_input) };
            lemma_with_card(v.topics, topic, card);
        },
    }
}

proof fn lemma_next_topic_steps(v: AppView, key: KeyEvent, i: usize, k: nat)
    requires
        valid(v),
        v.state is TopicSelection,
        v.selected == Some(i),
        v.topics.len() <= usize::MAX,
        is_next_topic_key(key),
        k <= v.topics.len(),
    ensures
        repeated(v, key, k) == (AppView {
            selected: Some(
                (if i + k < v.topics.len() {
                    i + k
                } else {
                    i + k - v.topics.len()
                }) as usize,
            ),
            ..v
        }),
    decreases k,
{
    if k > 0 {
        lemma_next_topic_steps(v, key, i, (k - 1) as nat);
        let w = repeated(v, key, (k - 1) as nat);
        lemma_index_after(w.selected->0, v.topics.len());
    }
}

proof fn lemma_previous_topic_steps(v: AppView, key: KeyEvent, i: usize, k: nat)
    requires
        valid(v),
        v.state is TopicSelection,
        v.selected == Some(i),
        v.topics.len() <= usize::MAX,
        is_previous_topic_key(key),
        k <= v.topics.len(),
    ensures
        repeated(v, key, k) == (AppView {
            selected: Some(
                (if k <= i {
                    i - k
                } else {
                    i - k + v.topics.len()
                }) as usize,
            ),
            ..v
        }),
    decreases k,
{
    if k > 0 {
        lemma_previous_topic_steps(v, key, i, (k - 1) as nat);
    }
}

/// On the topic list of a store with topics, pressing "next topic" as many
/// times as there are topics brings the selection back to where it started,
/// and so does pressing "previous topic" that many times; nothing else
/// changes either.
pub proof fn law_selection_cycle(v: AppView, key: KeyEvent)
    requires
        valid(v),
        v.state is TopicSelection,
        0 < v.topics.len() <= usize::MAX,
        is_next_topic_key(key) || is_previous_topic_key(key),
    ensures
        repeated(v, key, v.topics.len()) == v,
{
    let i = v.selected->0;
    if is_next_topic_key(key) {
        lemma_next_topic_steps(v, key, i, v.topics.len());
    } else {
        lemma_previous_topic_steps(v, key, i, v.topics.len());
    }
}

/// Between two presses the selection stays among the topics.
pub proof fn law_selection_in_bounds(v: AppView, key: KeyEvent, n: nat)
    requires
        valid(v),
        v.state is TopicSelection,
        0 < v.topics.len() <= usize::MAX,
        is_next_topic_key(key) || is_previous_topic_key(key),
    ensures
        repeated(v, key, n).topics == v.topics,
        repeated(v, key, n).state is TopicSelection,
        valid(repeated(v, key, n)),
    decreases n,
{
    if n > 0 {
        law_selection_in_bounds(v, key, (n - 1) as nat);
        law_step_valid(repeated(v, key, (n - 1) as nat), key);
    }
}

proof fn lemma_next_card_steps(
    v: AppView,
    key: KeyEvent,
    topic: Seq<char>,
    i: usize,
    show: bool,
    k: nat,
)
    requires
        valid(v),
        v.state == (StateView::FlashcardReview { topic, card_index: i, show_answer: show }),
        cards_of(v.topics, topic).len() <= usize::MAX,
        is_next_card_key(key),
        k <= cards_of(v.topics, topic).len(),
    ensures
        repeated(v, key, k) == (AppView {
            state: StateView::FlashcardReview {
                topic,
                card_index: (if i + k < cards_of(v.topics, topic).len() {
                    i + k
                } else {
                    i + k - cards_of(v.topics, topic).len()
                }) as usize,
                show_answer: k == 0 && show,
            },
            ..v
        }),
    decreases k,
{
    if k > 0 {
        lemma_next_card_steps(v, key, topic, i, show, (k - 1) as nat);
        let w = repeated(v, key, (k - 1) as nat);
        lemma_index_after(w.state->FlashcardReview_card_index, cards_of(v.topics, topic).len());
    }
}

/// In a review of a topic with `k` cards, pressing "next card" `k` times
/// brings back the card that was shown, with its answer hidden; pressing
/// "previous card" on the first card shows the last.
pub proof fn law_review_wraparound(v: AppView, next: KeyEvent, previous: KeyEvent)
    requires
        valid(v),
        v.state is FlashcardReview,
        cards_of(v.topics, v.state->FlashcardReview_topic).len() <= usize::MAX,
        is_next_card_key(next),
        is_previous_card_key(previous),
    ensures
        repeated(v, next, cards_of(v.topics, v.state->FlashcardReview_topic).len()) == (AppView {
            state: StateView::FlashcardReview {
                topic: v.state->FlashcardReview_topic,
                card_index: v.state->FlashcardReview_card_index,
                show_answer: false,
            },
            ..v
        }),
        v.state->FlashcardReview_card_index == 0 ==> step(v, previous) == (AppView {
            state: StateView::FlashcardReview {
                topic: v.state->FlashcardReview_topic,
                card_index: (cards_of(v.topics, v.state->FlashcardReview_topic).len() - 1) as usize,
                show_answer: false,
            },
            ..v
        }),
{
    let topic = v.state->FlashcardReview_topic;
    let i = v.state->FlashcardReview_card_index;
    let show = v.state->FlashcardReview_show_answer;
    lemma_next_card_steps(v, next, topic, i, show, cards_of(v.topics, topic).len());
}

/// Confirming a blank topic name changes nothing: the store keeps its
/// topics and the name stays on the screen.
pub proof fn law_blank_topic_rejected(v: AppView, key: KeyEvent)
    requires
        v.state is CreateTopic,
        is_blank(v.state->CreateTopic_input),
        key.code == KeyCode::Enter,
    ensures
        step(v, key) == v,
{
    lemma_trimmed(v.state->CreateTopic_input);
}

/// Saving a card whose question or answer is blank changes nothing: the
/// store keeps its cards and both texts stay on the screen.
pub proof fn law_blank_card_rejected(v: AppView, key: KeyEvent)
    requires
        v.state is AddCard,
        is_blank(v.state->AddCard_question_input) || is_blank(v.state->AddCard_answer_input),
        key.is_save(),
    ensures
        step(v, key) == v,
{
    lemma_trimmed(v.state->AddCard_question_input);
    lemma_trimmed(v.state->AddCard_answer_input);
}

/// Confirming a name that is not blank creates the topic without a card,
/// whatever cards a topic of that name held before, keeps every other topic
/// as it was, and goes back to the topic list with its first topic selected.
pub proof fn law_topic_created(v: AppView, key: KeyEvent)
    requires
        valid(v),
        v.state is CreateTopic,
        !is_blank(v.state->CreateTopic_input),
        key.code == KeyCode::Enter,
    ensures
        step(v, key).state is TopicSelection,
        step(v, key).selected == Some(0usize),
        has_topic(step(v, key).topics, trimmed(v.state->CreateTopic_input)),
        cards_of(step(v, key).topics, trimmed(v.state->CreateTopic_input)).len() == 0,
        forall|other: Seq<char>|
            other != trimmed(v.state->CreateTopic_input) ==> #[trigger] has_topic(
                step(v, key).topics,
                other,
            ) == has_topic(v.topics, other),
        forall|other: Seq<char>|
            other != trimmed(v.state->CreateTopic_input) && has_topic(v.topics, other)
                ==> #[trigger] cards_of(step(v, key).topics, other) == cards_of(v.topics, other),
{
    let name = trimmed(v.state->CreateTopic_input);
    lemma_trimmed(v.state->CreateTopic_input);
    lemma_with_topic(v.topics, name);
}

/// Saving a card whose question and answer are not blank puts it, trimmed,
/// behind the cards of its topic, and goes back to the topic list.
pub proof fn law_card_saved(v: AppView, key: KeyEvent)
    requires
        valid(v),
        v.state is AddCard,
        !is_blank(v.state->AddCard_question_input),
        !is_blank(v.state->AddCard_answer_input),
        key.is_save(),
    ensures
        step(v, key).state is TopicSelection,
        step(v, key).selected == v.selected,
        has_topic(step(v, key).topics, v.state->AddCard_topic),
        cards_of(step(v, key).topics, v.state->AddCard_topic) == cards_of(
            v.topics,
            v.state->AddCard_topic,
        ).push(
            CardView {
                question: trimmed(v.state->AddCard_question_input),
                answer: trimmed(v.state->AddCard_answer_input),
            },
        ),
{
    let topic = v.state->AddCard_topic;
    let card = CardView {
        question: trimmed(v.state->AddCard_question_input),
        answer: trimmed(v.state->AddCard_answer_input),
    };
    lemma_trimmed(v.state->AddCard_question_input);
    lemma_trimmed(v.state->AddCard_answer_input);
    lemma_with_card(v.topics, topic, card);
}

/// The exit flag is set by the quit key on the topic list and by nothing
/// else, and once set it stays set.
pub proof fn law_exit(v: AppView, key: KeyEvent)
    ensures
        step(v, key).exit == (v.exit || (v.state is TopicSelection && key.code == KeyCode::Char(
            'q',
        ))),
{
}

/// Only a confirmed topic name or a saved card changes the store: every
/// other key leaves it as it is.
pub proof fn law_store_changes_on_commit_only(v: AppView, key: KeyEvent)
    requires
        !(v.state is CreateTopic && key.code == KeyCode::Enter),
        !(v.state is AddCard && key.is_save()),
    ensures
        step(v, key).topics == v.topics,
{
}

} // verus!
