//! The application state machine: which screen is shown, what is being
//! edited, and how each key changes that and the topic store.

use crate::keys::{KeyCode, KeyEvent, KeyKind};
use crate::store::{
    cards_of, has_topic, lemma_slot_from, lemma_topic_at, sorted, with_card, with_topic, CardView, Flashcard,
    TopicView, Topics,
};
use crate::text::trimmed;
use vstd::prelude::*;

verus! {

/// The screen that is shown, with what it is working on.
#[derive(Debug, PartialEq, Eq)]
pub enum AppState {
    /// The alphabetical list of topics.
    TopicSelection,
    /// One card of `topic`, its answer shown or hidden.
    FlashcardReview { topic: String, card_index: usize, show_answer: bool },
    /// The name of a new topic, being typed.
    CreateTopic { input: String },
    /// A new card for `topic`, being typed; `editing_question` tells which of
    /// the two texts receives the keys.
    AddCard { topic: String, question_input: String, answer_input: String, editing_question: bool },
}

/// An [`AppState`] as plain values.
pub enum StateView {
    TopicSelection,
    FlashcardReview { topic: Seq<char>, card_index: usize, show_answer: bool },
    CreateTopic { input: Seq<char> },
    AddCard {
        topic: Seq<char>,
        question_input: Seq<char>,
        answer_input: Seq<char>,
        editing_question: bool,
    },
}

impl View for AppState {
    type V = StateView;

    open spec fn view(&self) -> StateView {
        match *self {
            AppState::TopicSelection => StateView::TopicSelection,
            AppState::FlashcardReview { topic, card_index, show_answer } => {
                StateView::FlashcardReview { topic: topic@, card_index, show_answer }
            },
            AppState::CreateTopic { input } => StateView::CreateTopic { input: input@ },
            AppState::AddCard { topic, question_input, answer_input, editing_question } => {
                StateView::AddCard {
                    topic: topic@,
                    question_input: question_input@,
                    answer_input: answer_input@,
                    editing_question,
                }
            },
        }
    }
}

/// The whole application as plain values: the store, the screen, the
/// selected position in the alphabetical topic list, and the exit flag.
pub struct AppView {
    pub topics: Seq<TopicView>,
    pub state: StateView,
    pub selected: Option<usize>,
    pub exit: bool,
}

/// What holds of the application at all times: the store is sorted; a
/// position is selected exactly when there are topics, and lies among them;
/// a review shows an existing card; a card is being added to an existing
/// topic.
pub open spec fn valid(v: AppView) -> bool {
    &&& sorted(v.topics)
    &&& match v.selected {
        Some(i) => i < v.topics.len(),
        None => v.topics.len() == 0,
    }
    &&& match v.state {
        StateView::FlashcardReview { topic, card_index, .. } => has_topic(v.topics, topic)
            && card_index < cards_of(v.topics, topic).len(),
        StateView::AddCard { topic, .. } => has_topic(v.topics, topic),
        _ => true,
    }
}

/// The application before any key: the topic list, its first topic selected
/// where there is one.
pub open spec fn initial(topics: Seq<TopicView>) -> AppView {
    AppView {
        topics,
        state: StateView::TopicSelection,
        selected: if topics.len() > 0 {
            Some(0usize)
        } else {
            None
        },
        exit: false,
    }
}

/// The position after `i` among `count`, wrapping to the first.
pub open spec fn index_after(i: usize, count: nat) -> usize {
    ((i + 1) % (count as int)) as usize
}

/// The position before `i` among `count`, wrapping to the last.
pub open spec fn index_before(i: usize, count: nat) -> usize {
    if i == 0 {
        (count - 1) as usize
    } else {
        (i - 1) as usize
    }
}

/// The selection moved one topic down; unchanged where there is no topic.
pub open spec fn select_next(v: AppView) -> AppView {
    if v.topics.len() == 0 {
        v
    } else {
        AppView {
            selected: match v.selected {
                Some(i) => Some(index_after(i, v.topics.len())),
                None => Some(0usize),
            },
            ..v
        }
    }
}

/// The selection moved one topic up; unchanged where there is no topic.
pub open spec fn select_previous(v: AppView) -> AppView {
    if v.topics.len() == 0 {
        v
    } else {
        AppView {
            selected: match v.selected {
                Some(i) => Some(index_before(i, v.topics.len())),
                None => Some(0usize),
            },
            ..v
        }
    }
}

/// `text` after a character is typed at its end.
pub open spec fn typed(text: Seq<char>, c: char) -> Seq<char> {
    text.push(c)
}

/// `text` after its last character is erased; an empty text stays empty.
pub open spec fn erased(text: Seq<char>) -> Seq<char> {
    if text.len() > 0 {
        text.drop_last()
    } else {
        text
    }
}

/// What a key does on the topic list.
pub open spec fn selection_step(v: AppView, key: KeyEvent) -> AppView {
    let idle = AppView { state: StateView::TopicSelection, ..v };
    match key.code {
        KeyCode::Char(c) => {
            if c == 'q' {
                AppView { exit: true, ..idle }
            } else if c == 'n' {
                AppView { state: StateView::CreateTopic { input: Seq::empty() }, ..idle }
            } else if c == 'a' {
                open_add_card(idle)
            } else if c == 'j' {
                select_next(idle)
            } else if c == 'k' {
                select_previous(idle)
            } else {
                idle
            }
        },
        KeyCode::Enter => open_review(idle),
        KeyCode::Down => select_next(idle),
        KeyCode::Up => select_previous(idle),
        _ => idle,
    }
}

/// The card editor opened for the selected topic, both texts empty and the
/// question first; unchanged where no topic is selected.
pub open spec fn open_add_card(v: AppView) -> AppView {
    match v.selected {
        Some(i) if i < v.topics.len() => AppView {
            state: StateView::AddCard {
                topic: v.topics[i as int].name,
                question_input: Seq::empty(),
                answer_input: Seq::empty(),
                editing_question: true,
            },
            ..v
        },
        _ => v,
    }
}

/// The review opened on the first card of the selected topic, its answer
/// hidden; unchanged where no topic is selected or the topic has no card.
pub open spec fn open_review(v: AppView) -> AppView {
    match v.selected {
        Some(i) if i < v.topics.len() && v.topics[i as int].cards.len() > 0 => AppView {
            state: StateView::FlashcardReview {
                topic: v.topics[i as int].name,
                card_index: 0,
                show_answer: false,
            },
            ..v
        },
        _ => v,
    }
}

/// What a key does during the review of card `card_index` of `topic`.
pub open spec fn review_step(
    v: AppView,
    topic: Seq<char>,
    card_index: usize,
    show_answer: bool,
    key: KeyEvent,
) -> AppView {
    let same = AppView {
        state: StateView::FlashcardReview { topic, card_index, show_answer },
        ..v
    };
    let leave = AppView { state: StateView::TopicSelection, ..v };
    let flip = AppView {
        state: StateView::FlashcardReview { topic, card_index, show_answer: !show_answer },
        ..v
    };
    let count = cards_of(v.topics, topic).len();
    let movable = has_topic(v.topics, topic) && count > 0;
    let forward = if movable {
        AppView {
            state: StateView::FlashcardReview {
                topic,
                card_index: index_after(card_index, count),
                show_answer: false,
            },
            ..v
        }
    } else {
        same
    };
    let back = if movable {
        AppView {
            state: StateView::FlashcardReview {
                topic,
                card_index: index_before(card_index, count),
                show_answer: false,
            },
            ..v
        }
    } else {
        same
    };
    match key.code {
        KeyCode::Char(c) => {
            if c == 'q' {
                leave
            } else if c == ' ' {
                flip
            } else if c == 'n' {
                forward
            } else if c == 'p' {
                back
            } else {
                same
            }
        },
        KeyCode::Esc => leave,
        KeyCode::Enter => flip,
        KeyCode::Right => forward,
        KeyCode::Left => back,
        _ => same,
    }
}

/// What a key does while the name `input` of a new topic is typed.
pub open spec fn create_topic_step(v: AppView, input: Seq<char>, key: KeyEvent) -> AppView {
    match key.code {
        KeyCode::Esc => AppView { state: StateView::TopicSelection, ..v },
        KeyCode::Enter => {
            if trimmed(input).len() > 0 {
                AppView {
                    topics: with_topic(v.topics, trimmed(input)),
                    state: StateView::TopicSelection,
                    selected: Some(0usize),
                    exit: v.exit,
                }
            } else {
                AppView { state: StateView::CreateTopic { input }, ..v }
            }
        },
        KeyCode::Char(c) => AppView { state: StateView::CreateTopic { input: typed(input, c) }, ..v },
        KeyCode::Backspace => AppView { state: StateView::CreateTopic { input: erased(input) }, ..v },
        _ => AppView { state: StateView::CreateTopic { input }, ..v },
    }
}

/// The card editor with its two texts as given.
pub open spec fn editing(
    v: AppView,
    topic: Seq<char>,
    question: Seq<char>,
    answer: Seq<char>,
    editing_question: bool,
) -> AppView {
    AppView {
        state: StateView::AddCard {
            topic,
            question_input: question,
            answer_input: answer,
            editing_question,
        },
        ..v
    }
}

/// The card editor after `c` is typed into the text that is being edited.
pub open spec fn editing_typed(
    v: AppView,
    topic: Seq<char>,
    question: Seq<char>,
    answer: Seq<char>,
    editing_question: bool,
    c: char,
) -> AppView {
    if editing_question {
        editing(v, topic, typed(question, c), answer, editing_question)
    } else {
        editing(v, topic, question, typed(answer, c), editing_question)
    }
}

/// What a key does while a card for `topic` is typed.
pub open spec fn add_card_step(
    v: AppView,
    topic: Seq<char>,
    question: Seq<char>,
    answer: Seq<char>,
    editing_question: bool,
    key: KeyEvent,
) -> AppView {
    match key.code {
        KeyCode::Esc => AppView { state: StateView::TopicSelection, ..v },
        KeyCode::Tab => editing(v, topic, question, answer, !editing_question),
        KeyCode::Enter => editing_typed(v, topic, question, answer, editing_question, '\n'),
        KeyCode::Char(c) => {
            if key.is_save() {
                if trimmed(question).len() > 0 && trimmed(answer).len() > 0 {
                    AppView {
                        topics: with_card(
                            v.topics,
                            topic,
                            CardView { question: trimmed(question), answer: trimmed(answer) },
                        ),
                        state: StateView::TopicSelection,
                        ..v
                    }
                } else {
                    editing(v, topic, question, answer, editing_question)
                }
            } else {
                editing_typed(v, topic, question, answer, editing_question, c)
            }
        },
        KeyCode::Backspace => {
            if editing_question {
                editing(v, topic, erased(question), answer, editing_question)
            } else {
                editing(v, topic, question, erased(answer), editing_question)
            }
        },
        _ => editing(v, topic, question, answer, editing_question),
    }
}

/// What a pressed key does: each screen has its own keys, and a key that the
/// screen does not know changes nothing.
pub open spec fn step(v: AppView, key: KeyEvent) -> AppView {
    match v.state {
        StateView::TopicSelection => selection_step(v, key),
        StateView::FlashcardReview { topic, card_index, show_answer } => review_step(
            v,
            topic,
            card_index,
            show_answer,
            key,
        ),
        StateView::CreateTopic { input } => create_topic_step(v, input, key),
        StateView::AddCard { topic, question_input, answer_input, editing_question } => {
            add_card_step(v, topic, question_input, answer_input, editing_question, key)
        },
    }
}

/// What a keyboard event does: a press is routed to the screen, a repeat or a
/// release is ignored.
pub open spec fn routed(v: AppView, event: KeyEvent) -> AppView {
    if event.kind == KeyKind::Press {
        step(v, event)
    } else {
        v
    }
}

/// Within `count` positions, the one after `i` is the next one, or the first
/// after the last; the one before `i` undoes that.
pub proof fn lemma_index_after(i: usize, count: nat)
    requires
        i < count <= usize::MAX,
    ensures
        index_after(i, count) == (if i + 1 == count {
            0
        } else {
            i + 1
        }),
        index_after(i, count) < count,
        index_before(i, count) < count,
        index_before(index_after(i, count), count) == i,
        index_after(index_before(i, count), count) == i,
{
    let n = count as int;
    if i + 1 == n {
        vstd::arithmetic::div_mod::lemma_mod_self_0(n);
    } else {
        vstd::arithmetic::div_mod::lemma_small_mod((i + 1) as nat, count);
    }
    if i == 0 {
        vstd::arithmetic::div_mod::lemma_mod_self_0(n);
    } else {
        vstd::arithmetic::div_mod::lemma_small_mod(i as nat, count);
    }
}

/// The application: the topic store and the state of its screens.
#[derive(Debug)]
pub struct App {
    topics: Topics,
    state: AppState,
    selected: Option<usize>,
    exit: bool,
}

impl View for App {
    type V = AppView;

    closed spec fn view(&self) -> AppView {
        AppView {
            topics: self.topics@,
            state: self.state@,
            selected: self.selected,
            exit: self.exit,
        }
    }
}

impl App {
    /// The application's invariant.
    pub open spec fn wf(&self) -> bool {
        valid(self@)
    }

    /// The application on `topics`, showing the topic list with its first
    /// topic selected where there is one.
    pub fn new(topics: Topics) -> (r: App)
        requires
            topics.wf(),
        ensures
            r@ == initial(topics@),
            r.wf(),
    {
        let selected = if topics.is_empty() {
            None
        } else {
            Some(0usize)
        };
        App { topics, state: AppState::TopicSelection, selected, exit: false }
    }

    /// The topic store.
    pub fn topics(&self) -> (r: &Topics)
        ensures
            r@ == self@.topics,
    {
        &self.topics
    }

    /// Gives up the application for its topic store.
    pub fn into_topics(self) -> (r: Topics)
        ensures
            r@ == self@.topics,
    {
        self.topics
    }

    /// The screen that is shown.
    pub fn state(&self) -> (r: &AppState)
        ensures
            r@ == self@.state,
    {
        &self.state
    }

    /// The selected position in the alphabetical topic list.
    pub fn selected(&self) -> (r: Option<usize>)
        ensures
            r == self@.selected,
    {
        self.selected
    }

    /// Whether the quit key was pressed.
    pub fn should_exit(&self) -> (r: bool)
        ensures
            r == self@.exit,
    {
        self.exit
    }

    /// The card under review, if a review is shown.
    pub fn current_card(&self) -> (r: Option<Flashcard>)
        requires
            self.wf(),
        ensures
            match self@.state {
                StateView::FlashcardReview { topic, card_index, .. } => r is Some && r->0@
                    == cards_of(self@.topics, topic)[card_index as int],
                _ => r is None,
            },
    {
        match &self.state {
            AppState::FlashcardReview { topic, card_index, .. } => self.topics.card(
                topic.as_str(),
                *card_index,
            ),
            _ => None,
        }
    }

    /// Routes a keyboard event: a press goes to the screen that is shown,
    /// anything else is ignored.
    pub fn handle_event(&mut self, event: &KeyEvent)
        requires
            old(self).wf(),
        ensures
            final(self)@ == routed(old(self)@, *event),
            final(self).wf(),
    {
        match event.kind {
            KeyKind::Press => self.handle_key_event(event),
            _ => {},
        }
    }

    /// Routes a pressed key to the screen that is shown and replaces the
    /// state by what that screen makes of it.
    pub fn handle_key_event(&mut self, key: &KeyEvent)
        requires
            old(self).wf(),
        ensures
            final(self)@ == step(old(self)@, *key),
            final(self).wf(),
    {
        let mut state = AppState::TopicSelection;
        core::mem::swap(&mut self.state, &mut state);
        match state {
            AppState::TopicSelection => self.handle_topic_selection_keys(key),
            AppState::FlashcardReview { topic, card_index, show_answer } => {
                self.handle_flashcard_keys(key, topic, card_index, show_answer)
            },
            AppState::CreateTopic { input } => self.handle_create_topic_keys(key, input),
            AppState::AddCard { topic, question_input, answer_input, editing_question } => {
                self.handle_add_card_keys(key, topic, question_input, answer_input, editing_question)
            },
        }
    }

    /// The keys of the topic list.
    fn handle_topic_selection_keys(&mut self, key: &KeyEvent)
        requires
            old(self).wf(),
            old(self)@.state is TopicSelection,
        ensures
            final(self)@ == selection_step(old(self)@, *key),
            final(self).wf(),
    {
        match key.code {
            KeyCode::Char(c) => {
                if c == 'q' {
                    self.exit = true;
                } else if c == 'n' {
                    self.state = AppState::CreateTopic { input: String::new() };
                } else if c == 'a' {
                    self.open_add_card();
                } else if c == 'j' {
                    self.select_next_topic();
                } else if c == 'k' {
                    self.select_previous_topic();
                }
            },
            KeyCode::Enter => self.open_review(),
            KeyCode::Down => self.select_next_topic(),
            KeyCode::Up => self.select_previous_topic(),
            _ => {},
        }
    }

    /// Opens the card editor for the selected topic.
    fn open_add_card(&mut self)
        requires
            old(self).wf(),
            old(self)@.state is TopicSelection,
        ensures
            final(self)@ == open_add_card(old(self)@),
            final(self).wf(),
    {
        if let Some(i) = self.selected {
            if let Some(name) = self.topics.topic_name(i) {
                proof {
                    lemma_topic_at(self@.topics, i as int);
                }
                self.state = AppState::AddCard {
                    topic: name,
                    question_input: String::new(),
                    answer_input: String::new(),
                    editing_question: true,
                };
            }
        }
    }

    /// Opens the review of the selected topic, where it has a card.
    fn open_review(&mut self)
        requires
            old(self).wf(),
            old(self)@.state is TopicSelection,
        ensures
            final(self)@ == open_review(old(self)@),
            final(self).wf(),
    {
        if let Some(i) = self.selected {
            if let Some(name) = self.topics.topic_name(i) {
                proof {
                    lemma_topic_at(self@.topics, i as int);
                }
                if let Some(count) = self.topics.card_count(name.as_str()) {
                    if count > 0 {
                        self.state = AppState::FlashcardReview {
                            topic: name,
                            card_index: 0,
                            show_answer: false,
                        };
                    }
                }
            }
        }
    }

    /// The keys of a review.
    fn handle_flashcard_keys(
        &mut self,
        key: &KeyEvent,
        topic: String,
        card_index: usize,
        show_answer: bool,
    )
        requires
            valid(
                AppView {
                    state: StateView::FlashcardReview { topic: topic@, card_index, show_answer },
                    ..old(self)@
                },
            ),
        ensures
            final(self)@ == review_step(old(self)@, topic@, card_index, show_answer, *key),
            final(self).wf(),
    {
        let leave = match key.code {
            KeyCode::Char(c) => c == 'q',
            KeyCode::Esc => true,
            _ => false,
        };
        let flip = match key.code {
            KeyCode::Char(c) => c == ' ',
            KeyCode::Enter => true,
            _ => false,
        };
        let forward = match key.code {
            KeyCode::Char(c) => c == 'n',
            KeyCode::Right => true,
            _ => false,
        };
        let back = match key.code {
            KeyCode::Char(c) => c == 'p',
            KeyCode::Left => true,
            _ => false,
        };
        let mut next_index: usize = card_index;
        let mut next_show: bool = show_answer;
        if flip {
            next_show = !show_answer;
        } else if forward || back {
            match self.topics.card_count(topic.as_str()) {
                Some(count) => {
                    if count > 0 {
                        proof {
                            lemma_index_after(card_index, count as nat);
                        }
                        if forward {
                            next_index = if card_index + 1 == count {
                                0
                            } else {
                                card_index + 1
                            };
                        } else {
                            next_index = if card_index == 0 {
                                count - 1
                            } else {
                                card_index - 1
                            };
                        }
                        next_show = false;
                    }
                },
                None => {},
            }
        }
        if leave {
            self.state = AppState::TopicSelection;
        } else {
            self.state = AppState::FlashcardReview { topic, card_index: next_index, show_answer: next_show };
        }
    }

    /// The keys of the topic name editor.
    fn handle_create_topic_keys(&mut self, key: &KeyEvent, input: String)
        requires
            valid(AppView { state: StateView::CreateTopic { input: input@ }, ..old(self)@ }),
        ensures
            final(self)@ == create_topic_step(old(self)@, input@, *key),
            final(self).wf(),
    {
        let mut text = input;
        match key.code {
            KeyCode::Esc => {
                self.state = AppState::TopicSelection;
            },
            KeyCode::Enter => {
                proof {
                    lemma_slot_from(self@.topics, trimmed(text@), 0);
                }
                if self.topics.create_topic(text.as_str()) {
                    self.state = AppState::TopicSelection;
                    self.update_list_selection();
                } else {
                    self.state = AppState::CreateTopic { input: text };
                }
            },
            KeyCode::Char(c) => {
                text.push(c);
                self.state = AppState::CreateTopic { input: text };
            },
            KeyCode::Backspace => {
                let _ = text.pop();
                self.state = AppState::CreateTopic { input: text };
            },
            _ => {
                self.state = AppState::CreateTopic { input: text };
            },
        }
    }

    /// The keys of the card editor.
    fn handle_add_card_keys(
        &mut self,
        key: &KeyEvent,
        topic: String,
        question: String,
        answer: String,
        editing_question: bool,
    )
        requires
            valid(editing(old(self)@, topic@, question@, answer@, editing_question)),
        ensures
            final(self)@ == add_card_step(
                old(self)@,
                topic@,
                question@,
                answer@,
                editing_question,
                *key,
            ),
            final(self).wf(),
    {
        let mut q = question;
        let mut a = answer;
        let mut on_question = editing_question;
        let mut leave = false;
        match key.code {
            KeyCode::Esc => {
                leave = true;
            },
            KeyCode::Tab => {
                on_question = !editing_question;
            },
            KeyCode::Enter => {
                if editing_question {
                    q.push('\n');
                } else {
                    a.push('\n');
                }
            },
            KeyCode::Char(c) => {
                if c == 's' && (key.control || key.command) {
                    proof {
                        lemma_slot_from(self@.topics, topic@, 0);
                    }
                    leave = self.topics.add_card(topic.as_str(), q.as_str(), a.as_str());
                } else if editing_question {
                    q.push(c);
                } else {
                    a.push(c);
                }
            },
            KeyCode::Backspace => {
                if editing_question {
                    let _ = q.pop();
                } else {
                    let _ = a.pop();
                }
            },
            _ => {},
        }
        if leave {
            self.state = AppState::TopicSelection;
        } else {
            self.state = AppState::AddCard {
                topic,
                question_input: q,
                answer_input: a,
                editing_question: on_question,
            };
        }
    }

    /// Moves the selection one topic down, wrapping to the first.
    fn select_next_topic(&mut self)
        requires
            old(self).wf(),
        ensures
            final(self)@ == select_next(old(self)@),
            final(self).wf(),
    {
        let count = self.topics.len();
        if count == 0 {
            return;
        }
        let i: usize = match self.selected {
            Some(i) => {
                proof {
                    lemma_index_after(i, count as nat);
                }
                if i + 1 == count {
                    0
                } else {
                    i + 1
                }
            },
            None => 0,
        };
        self.selected = Some(i);
    }

    /// Moves the selection one topic up, wrapping to the last.
    fn select_previous_topic(&mut self)
        requires
            old(self).wf(),
        ensures
            final(self)@ == select_previous(old(self)@),
            final(self).wf(),
    {
        let count = self.topics.len();
        if count == 0 {
            return;
        }
        let i: usize = match self.selected {
            Some(i) => {
                if i == 0 {
                    count - 1
                } else {
                    i - 1
                }
            },
            None => 0,
        };
        self.selected = Some(i);
    }

    /// Selects the first topic where there is one.
    fn update_list_selection(&mut self)
        ensures
            final(self)@ == (AppView {
                selected: if old(self)@.topics.len() > 0 {
                    Some(0usize)
                } else {
                    old(self)@.selected
                },
                ..old(self)@
            }),
    {
        if self.topics.len() > 0 {
            self.selected = Some(0);
        }
    }
}

} // verus!
