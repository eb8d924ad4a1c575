//! The topic store: named topics in alphabetical order, each holding its
//! flashcards in the order in which they were added.

use crate::text::{compare_names, lemma_precedes_order, precedes, trim, trimmed, NameOrder};
use vstd::prelude::*;

verus! {

/// A question and its answer.
#[derive(Debug, PartialEq, Eq)]
pub struct Flashcard {
    pub question: String,
    pub answer: String,
}

/// What a [`Flashcard`] holds, as plain text.
pub struct CardView {
    pub question: Seq<char>,
    pub answer: Seq<char>,
}

impl View for Flashcard {
    type V = CardView;

    open spec fn view(&self) -> CardView {
        CardView { question: self.question@, answer: self.answer@ }
    }
}

impl Clone for Flashcard {
    fn clone(&self) -> (r: Flashcard)
        ensures
            r@ == self@,
    {
        Flashcard { question: self.question.clone(), answer: self.answer.clone() }
    }
}

/// A topic as it is stored and exchanged: its name and its cards in review
/// order.
#[derive(Debug, PartialEq, Eq)]
pub struct Topic {
    pub name: String,
    pub cards: Vec<Flashcard>,
}

/// What a [`Topic`] holds, as plain values.
pub struct TopicView {
    pub name: Seq<char>,
    pub cards: Seq<CardView>,
}

/// The cards of a list, each by its view.
pub open spec fn cards_view(cards: Seq<Flashcard>) -> Seq<CardView> {
    cards.map_values(|c: Flashcard| c@)
}

impl View for Topic {
    type V = TopicView;

    open spec fn view(&self) -> TopicView {
        TopicView { name: self.name@, cards: cards_view(self.cards@) }
    }
}

/// Copies a list of cards.
pub fn copy_cards(cards: &Vec<Flashcard>) -> (r: Vec<Flashcard>)
    ensures
        cards_view(r@) == cards_view(cards@),
{
    let mut r: Vec<Flashcard> = Vec::new();
    let mut i: usize = 0;
    while i < cards.len()
        invariant
            i <= cards.len(),
            r@.len() == i,
            forall|k: int| 0 <= k < i ==> r@[k]@ == cards@[k]@,
        decreases cards.len() - i,
    {
        r.push(cards[i].clone());
        i += 1;
    }
    assert(cards_view(r@) =~= cards_view(cards@));
    r
}

impl Clone for Topic {
    fn clone(&self) -> (r: Topic)
        ensures
            r@ == self@,
    {
        Topic { name: self.name.clone(), cards: copy_cards(&self.cards) }
    }
}

/// The topics of a list, each by its view.
pub open spec fn topics_view(topics: Seq<Topic>) -> Seq<TopicView> {
    topics.map_values(|t: Topic| t@)
}

/// The names of the topics of `s`, in the order of `s`.
pub open spec fn names(s: Seq<TopicView>) -> Seq<Seq<char>> {
    s.map_values(|t: TopicView| t.name)
}

/// The topics of `s` in the order of `s`, each as its name and the number of
/// its cards.
pub open spec fn summaries_of(s: Seq<TopicView>) -> Seq<(Seq<char>, usize)> {
    s.map_values(|t: TopicView| (t.name, t.cards.len() as usize))
}

/// The topics stand in strictly ascending alphabetical order, so no name
/// occurs twice.
pub open spec fn sorted(s: Seq<TopicView>) -> bool {
    forall|i: int, j: int| 0 <= i < j < s.len() ==> precedes(#[trigger] s[i].name, #[trigger] s[j].name)
}

/// The first index at or after `i` whose topic's name does not come before
/// `name`, or the length of `s` where there is none.
pub open spec fn slot_from(s: Seq<TopicView>, name: Seq<char>, i: int) -> int
    decreases s.len() - i,
{
    if 0 <= i < s.len() && precedes(s[i].name, name) {
        slot_from(s, name, i + 1)
    } else {
        i
    }
}

/// The place of `name` in `s`: where its topic stands, or where it would be
/// put.
pub open spec fn slot(s: Seq<TopicView>, name: Seq<char>) -> int {
    slot_from(s, name, 0)
}

/// Whether `s` has a topic called `name`.
pub open spec fn has_topic(s: Seq<TopicView>, name: Seq<char>) -> bool {
    slot(s, name) < s.len() && s[slot(s, name)].name == name
}

/// The cards of the topic called `name`; meaningful where `s` has one.
pub open spec fn cards_of(s: Seq<TopicView>, name: Seq<char>) -> Seq<CardView> {
    s[slot(s, name)].cards
}

/// The store as a mapping from each topic's name to its cards.
pub open spec fn as_map(s: Seq<TopicView>) -> Map<Seq<char>, Seq<CardView>> {
    Map::new(|name: Seq<char>| has_topic(s, name), |name: Seq<char>| cards_of(s, name))
}

/// `s` with the topic `t` put at its alphabetical place, instead of any topic
/// of the same name.
pub open spec fn with_entry(s: Seq<TopicView>, t: TopicView) -> Seq<TopicView> {
    let i = slot(s, t.name);
    if has_topic(s, t.name) {
        s.update(i, t)
    } else {
        s.insert(i, t)
    }
}

/// `s` with an empty topic called `name`, instead of any topic of that name.
pub open spec fn with_topic(s: Seq<TopicView>, name: Seq<char>) -> Seq<TopicView> {
    with_entry(s, TopicView { name, cards: Seq::empty() })
}

/// `s` with `card` added at the end of the topic called `name`; `s` itself
/// where it has no such topic.
pub open spec fn with_card(s: Seq<TopicView>, name: Seq<char>, card: CardView) -> Seq<TopicView> {
    if has_topic(s, name) {
        s.update(slot(s, name), TopicView { name, cards: cards_of(s, name).push(card) })
    } else {
        s
    }
}

/// The store that holds the topics of `list`, a later topic replacing an
/// earlier one of the same name.
pub open spec fn collected(list: Seq<TopicView>) -> Seq<TopicView>
    decreases list.len(),
{
    if list.len() == 0 {
        Seq::empty()
    } else {
        with_entry(collected(list.drop_last()), list.last())
    }
}

/// What `slot_from` skips comes before `name`; where it stops does not.
pub proof fn lemma_slot_from(s: Seq<TopicView>, name: Seq<char>, i: int)
    requires
        0 <= i <= s.len(),
    ensures
        i <= slot_from(s, name, i) <= s.len(),
        forall|k: int| i <= k < slot_from(s, name, i) ==> precedes(#[trigger] s[k].name, name),
        slot_from(s, name, i) < s.len() ==> !precedes(s[slot_from(s, name, i)].name, name),
    decreases s.len() - i,
{
    if i < s.len() && precedes(s[i].name, name) {
        lemma_slot_from(s, name, i + 1);
    }
}

/// In a sorted store every topic before the slot of `name` comes before
/// `name`, and every one at or after it is `name` itself or comes after it.
pub proof fn lemma_slot(s: Seq<TopicView>, name: Seq<char>)
    requires
        sorted(s),
    ensures
        0 <= slot(s, name) <= s.len(),
        forall|k: int| 0 <= k < slot(s, name) ==> precedes(#[trigger] s[k].name, name),
        forall|k: int|
            slot(s, name) <= k < s.len() ==> (#[trigger] s[k].name == name && k == slot(s, name))
                || !precedes(s[k].name, name) && precedes(name, s[k].name),
        has_topic(s, name) <==> exists|k: int| 0 <= k < s.len() && #[trigger] s[k].name == name,
{
    let i = slot(s, name);
    lemma_slot_from(s, name, 0);
    assert forall|k: int| i <= k < s.len() implies (#[trigger] s[k].name == name && k == i)
        || !precedes(s[k].name, name) && precedes(name, s[k].name) by {
        lemma_precedes_order(s[i].name, name, s[k].name);
        lemma_precedes_order(name, s[i].name, s[k].name);
        lemma_precedes_order(s[k].name, name, name);
        if k > i {
            assert(precedes(s[i].name, s[k].name));
        }
    }
    if exists|k: int| 0 <= k < s.len() && #[trigger] s[k].name == name {
        let k = choose|k: int| 0 <= k < s.len() && #[trigger] s[k].name == name;
        lemma_precedes_order(name, name, name);
        assert(k >= i);
    }
}

/// Putting a topic into a sorted store leaves it sorted.
pub proof fn lemma_with_entry_sorted(s: Seq<TopicView>, t: TopicView)
    requires
        sorted(s),
    ensures
        sorted(with_entry(s, t)),
{
    lemma_slot(s, t.name);
    let i = slot(s, t.name);
    let r = with_entry(s, t);
    assert forall|p: int, q: int| 0 <= p < q < r.len() implies precedes(
        #[trigger] r[p].name,
        #[trigger] r[q].name,
    ) by {
        if has_topic(s, t.name) {
            assert(r[p].name == s[p].name);
            assert(r[q].name == s[q].name);
        } else {
            if q < i {
                assert(r[p] == s[p] && r[q] == s[q]);
            } else if q == i {
                assert(r[p] == s[p]);
            } else if p < i {
                assert(r[p] == s[p] && r[q] == s[q - 1]);
            } else if p == i {
                assert(r[q] == s[q - 1]);
            } else {
                assert(r[p] == s[p - 1] && r[q] == s[q - 1]);
            }
        }
    }
}

/// In a sorted store the topic at position `i` is the one that its name
/// finds.
pub proof fn lemma_topic_at(s: Seq<TopicView>, i: int)
    requires
        sorted(s),
        0 <= i < s.len(),
    ensures
        has_topic(s, s[i].name),
        cards_of(s, s[i].name) == s[i].cards,
{
    lemma_slot(s, s[i].name);
    lemma_precedes_order(s[i].name, s[i].name, s[i].name);
}

/// A topic that was just created is there and has no card, whatever it held
/// before; every other topic is there as before, with the cards it had.
pub proof fn lemma_with_topic(s: Seq<TopicView>, name: Seq<char>)
    requires
        sorted(s),
    ensures
        sorted(with_topic(s, name)),
        has_topic(with_topic(s, name), name),
        cards_of(with_topic(s, name), name) == Seq::<CardView>::empty(),
        with_topic(s, name).len() == s.len() + (if has_topic(s, name) {
            0int
        } else {
            1int
        }),
        forall|other: Seq<char>|
            other != name ==> #[trigger] has_topic(with_topic(s, name), other) == has_topic(
                s,
                other,
            ),
        forall|other: Seq<char>|
            other != name && has_topic(s, other) ==> #[trigger] cards_of(
                with_topic(s, name),
                other,
            ) == cards_of(s, other),
{
    lemma_entry_put(s, TopicView { name, cards: Seq::empty() });
}

proof fn lemma_entry_put_other(s: Seq<TopicView>, t: TopicView, other: Seq<char>)
    requires
        sorted(s),
        other != t.name,
    ensures
        has_topic(with_entry(s, t), other) == has_topic(s, other),
        has_topic(s, other) ==> cards_of(with_entry(s, t), other) == cards_of(s, other),
{
    let r = with_entry(s, t);
    let i = slot(s, t.name);
    lemma_with_entry_sorted(s, t);
    lemma_slot_from(s, t.name, 0);
    lemma_slot(s, other);
    lemma_slot(r, other);
    if has_topic(s, other) {
        let j = slot(s, other);
        let k = if has_topic(s, t.name) || j < i {
            j
        } else {
            j + 1
        };
        assert(r[k] == s[j]);
        lemma_topic_at(r, k);
        lemma_topic_at(s, j);
    }
    if has_topic(r, other) {
        let k = slot(r, other);
        let j = if has_topic(s, t.name) || k < i {
            k
        } else {
            k - 1
        };
        assert(r[k] == s[j]);
        lemma_topic_at(s, j);
    }
}

/// After a topic is put into a sorted store, its name finds it, and every
/// other name finds what it found before.
pub proof fn lemma_entry_put(s: Seq<TopicView>, t: TopicView)
    requires
        sorted(s),
    ensures
        sorted(with_entry(s, t)),
        has_topic(with_entry(s, t), t.name),
        cards_of(with_entry(s, t), t.name) == t.cards,
        with_entry(s, t).len() == s.len() + (if has_topic(s, t.name) {
            0int
        } else {
            1int
        }),
        forall|other: Seq<char>|
            other != t.name ==> #[trigger] has_topic(with_entry(s, t), other) == has_topic(
                s,
                other,
            ),
        forall|other: Seq<char>|
            other != t.name && has_topic(s, other) ==> #[trigger] cards_of(with_entry(s, t), other)
                == cards_of(s, other),
{
    let r = with_entry(s, t);
    let i = slot(s, t.name);
    lemma_with_entry_sorted(s, t);
    lemma_slot_from(s, t.name, 0);
    assert(r[i] == t);
    lemma_topic_at(r, i);
    assert forall|other: Seq<char>| other != t.name implies #[trigger] has_topic(r, other)
        == has_topic(s, other) by {
        lemma_entry_put_other(s, t, other);
    }
    assert forall|other: Seq<char>| other != t.name && has_topic(s, other) implies #[trigger] cards_of(
        r,
        other,
    ) == cards_of(s, other) by {
        lemma_entry_put_other(s, t, other);
    }
}

/// A card that was just added is the last of its topic, behind the cards
/// that the topic had; the topics are the same, and every other topic has
/// the cards it had.
pub proof fn lemma_with_card(s: Seq<TopicView>, name: Seq<char>, card: CardView)
    requires
        sorted(s),
        has_topic(s, name),
    ensures
        sorted(with_card(s, name, card)),
        names(with_card(s, name, card)) == names(s),
        cards_of(with_card(s, name, card), name) == cards_of(s, name).push(card),
        forall|other: Seq<char>|
            #[trigger] has_topic(with_card(s, name, card), other) == has_topic(s, other),
        forall|other: Seq<char>|
            other != name && has_topic(s, other) ==> #[trigger] cards_of(
                with_card(s, name, card),
                other,
            ) == cards_of(s, other),
{
    let t = TopicView { name, cards: cards_of(s, name).push(card) };
    assert(with_card(s, name, card) == with_entry(s, t));
    lemma_entry_put(s, t);
    lemma_slot_from(s, name, 0);
    assert(names(with_card(s, name, card)) =~= names(s));
}

/// As a mapping, creating a topic maps its name to no cards, over whatever
/// the name was mapped to, and adding a card maps the topic's name to its
/// cards followed by the new one; nothing else changes.
pub proof fn lemma_as_map(s: Seq<TopicView>, name: Seq<char>, card: CardView)
    requires
        sorted(s),
    ensures
        as_map(with_topic(s, name)) == as_map(s).insert(name, Seq::<CardView>::empty()),
        has_topic(s, name) ==> as_map(with_card(s, name, card)) == as_map(s).insert(
            name,
            as_map(s)[name].push(card),
        ),
        !has_topic(s, name) ==> with_card(s, name, card) == s,
{
    lemma_with_topic(s, name);
    assert(as_map(with_topic(s, name)) =~= as_map(s).insert(name, Seq::<CardView>::empty()));
    if has_topic(s, name) {
        lemma_with_card(s, name, card);
        assert(as_map(with_card(s, name, card)) =~= as_map(s).insert(
            name,
            as_map(s)[name].push(card),
        ));
    }
}

proof fn lemma_same_at(s: Seq<TopicView>, t: Seq<TopicView>, i: int)
    requires
        sorted(s),
        sorted(t),
        as_map(s) == as_map(t),
        0 <= i < s.len(),
    ensures
        i < t.len(),
        s[i] == t[i],
    decreases i,
{
    assert forall|k: int| 0 <= k < i implies k < t.len() && s[k] == t[k] by {
        lemma_same_at(s, t, k);
    }
    let name = s[i].name;
    lemma_topic_at(s, i);
    assert(as_map(s).contains_key(name));
    assert(as_map(t).contains_key(name));
    lemma_slot_from(t, name, 0);
    let j = slot(t, name);
    if j < i {
        lemma_names_unique(s, j, i);
    }
    let other = t[i].name;
    lemma_topic_at(t, i);
    assert(as_map(t).contains_key(other));
    assert(as_map(s).contains_key(other));
    lemma_slot_from(s, other, 0);
    let m = slot(s, other);
    if m < i {
        lemma_names_unique(t, m, i);
    }
    lemma_precedes_order(name, other, name);
    if m > i {
        assert(precedes(s[i].name, s[m].name));
    }
    if j > i {
        assert(precedes(t[i].name, t[j].name));
    }
    assert(as_map(s)[name] == as_map(t)[name]);
}

/// A sorted store is determined by its mapping: two sorted stores that map
/// the same names to the same cards are the same list of topics, so a
/// position in the alphabetical list always means the same topic.
pub proof fn lemma_sorted_canonical(s: Seq<TopicView>, t: Seq<TopicView>)
    requires
        sorted(s),
        sorted(t),
        as_map(s) == as_map(t),
    ensures
        s == t,
{
    if s.len() > 0 {
        lemma_same_at(s, t, s.len() - 1);
    }
    if t.len() > 0 {
        lemma_same_at(t, s, t.len() - 1);
    }
    assert forall|i: int| 0 <= i < s.len() implies s[i] == t[i] by {
        lemma_same_at(s, t, i);
    }
    assert(s =~= t);
}

/// In a sorted store no two topics have the same name.
pub proof fn lemma_names_unique(s: Seq<TopicView>, i: int, j: int)
    requires
        sorted(s),
        0 <= i < s.len(),
        0 <= j < s.len(),
        s[i].name == s[j].name,
    ensures
        i == j,
{
    lemma_precedes_order(s[i].name, s[i].name, s[i].name);
}

/// A sorted store is what collecting its own topics gives.
pub proof fn lemma_collected_sorted(s: Seq<TopicView>)
    requires
        sorted(s),
    ensures
        collected(s) == s,
    decreases s.len(),
{
    if s.len() == 0 {
        assert(s =~= Seq::<TopicView>::empty());
    } else {
        let p = s.drop_last();
        lemma_collected_sorted(p);
        lemma_slot_from(p, s.last().name, 0);
        let i = slot(p, s.last().name);
        if i < p.len() {
            assert(precedes(p[i].name, s.last().name)) by {
                assert(p[i] == s[i]);
                assert(s.last() == s[s.len() - 1]);
            }
        }
        assert(p.insert(i, s.last()) =~= s);
    }
}

/// Collecting any list of topics gives a sorted store.
pub proof fn lemma_collected_is_sorted(list: Seq<TopicView>)
    ensures
        sorted(collected(list)),
    decreases list.len(),
{
    if list.len() > 0 {
        lemma_collected_is_sorted(list.drop_last());
        lemma_with_entry_sorted(collected(list.drop_last()), list.last());
    }
}

/// The topic store.
#[derive(Debug)]
pub struct Topics {
    entries: Vec<Topic>,
}

impl View for Topics {
    type V = Seq<TopicView>;

    closed spec fn view(&self) -> Seq<TopicView> {
        topics_view(self.entries@)
    }
}

impl Topics {
    /// The store's invariant: its topics are sorted by name, without
    /// duplicates.
    pub open spec fn wf(&self) -> bool {
        sorted(self@)
    }

    /// An empty store.
    pub fn new() -> (r: Topics)
        ensures
            r@ == Seq::<TopicView>::empty(),
            r.wf(),
    {
        let r = Topics { entries: Vec::new() };
        assert(r@ =~= Seq::<TopicView>::empty());
        r
    }

    /// The number of topics.
    pub fn len(&self) -> (n: usize)
        ensures
            n == self@.len(),
    {
        self.entries.len()
    }

    /// Whether the store has no topic.
    pub fn is_empty(&self) -> (r: bool)
        ensures
            r == (self@.len() == 0),
    {
        self.entries.len() == 0
    }

    /// Finds the slot of `name` and whether a topic of that name stands there.
    fn find(&self, name: &str) -> (r: (usize, bool))
        ensures
            r.0 == slot(self@, name@),
            r.0 <= self@.len(),
            r.1 == has_topic(self@, name@),
    {
        let mut i: usize = 0;
        proof {
            lemma_slot_from(self@, name@, 0);
        }
        while i < self.entries.len()
            invariant
                i <= self.entries.len(),
                self@ == topics_view(self.entries@),
                slot(self@, name@) == slot_from(self@, name@, i as int),
            decreases self.entries.len() - i,
        {
            proof {
                lemma_precedes_order(self@[i as int].name, name@, name@);
            }
            match compare_names(self.entries[i].name.as_str(), name) {
                NameOrder::Before => {
                    i += 1;
                },
                NameOrder::Same => {
                    return (i, true);
                },
                NameOrder::After => {
                    return (i, false);
                },
            }
        }
        (i, false)
    }

    /// Puts `topic` at its alphabetical place, instead of any topic of the
    /// same name.
    fn put(&mut self, topic: Topic)
        requires
            old(self).wf(),
        ensures
            final(self)@ == with_entry(old(self)@, topic@),
            final(self).wf(),
    {
        let found = self.find(topic.name.as_str());
        proof {
            lemma_with_entry_sorted(self@, topic@);
        }
        if found.1 {
            self.entries.set(found.0, topic);
            assert(self@ =~= with_entry(old(self)@, topic@));
        } else {
            self.entries.insert(found.0, topic);
            assert(self@ =~= with_entry(old(self)@, topic@));
        }
    }

    /// Creates an empty topic called `name` without its surrounding
    /// whitespace, discarding any cards already stored under that name.
    /// A blank name is rejected and the store stays as it is. Returns whether
    /// the topic was created.
    pub fn create_topic(&mut self, name: &str) -> (created: bool)
        requires
            old(self).wf(),
        ensures
            final(self).wf(),
            created == (trimmed(name@).len() > 0),
            created ==> final(self)@ == with_topic(old(self)@, trimmed(name@)),
            !created ==> final(self)@ == old(self)@,
    {
        let clean = trim(name);
        if clean.as_str().unicode_len() == 0 {
            return false;
        }
        let topic = Topic { name: clean, cards: Vec::new() };
        assert(topic@.cards =~= Seq::<CardView>::empty());
        self.put(topic);
        true
    }

    /// Adds a card at the end of `topic`, question and answer without their
    /// surrounding whitespace. Where either is then empty, or the store has no
    /// topic of that exact name, the store stays as it is. Returns whether the
    /// card was added.
    pub fn add_card(&mut self, topic: &str, question: &str, answer: &str) -> (added: bool)
        requires
            old(self).wf(),
        ensures
            final(self).wf(),
            added == (trimmed(question@).len() > 0 && trimmed(answer@).len() > 0 && has_topic(
                old(self)@,
                topic@,
            )),
            added ==> final(self)@ == with_card(
                old(self)@,
                topic@,
                CardView { question: trimmed(question@), answer: trimmed(answer@) },
            ),
            !added ==> final(self)@ == old(self)@,
    {
        let q = trim(question);
        let a = trim(answer);
        if q.as_str().unicode_len() == 0 || a.as_str().unicode_len() == 0 {
            return false;
        }
        let found = self.find(topic);
        if !found.1 {
            return false;
        }
        let mut entry = self.entries.remove(found.0);
        let ghost before = entry@;
        entry.cards.push(Flashcard { question: q, answer: a });
        assert(entry@.cards =~= before.cards.push(
            CardView { question: trimmed(question@), answer: trimmed(answer@) },
        ));
        self.entries.insert(found.0, entry);
        assert(self@ =~= with_card(
            old(self)@,
            topic@,
            CardView { question: trimmed(question@), answer: trimmed(answer@) },
        ));
        true
    }

    /// The topic names in alphabetical order, computed afresh from the store.
    pub fn sorted_topic_names(&self) -> (r: Vec<String>)
        requires
            self.wf(),
        ensures
            r@.len() == self@.len(),
            forall|i: int| 0 <= i < r@.len() ==> r@[i]@ == self@[i].name,
            forall|i: int, j: int| 0 <= i < j < r@.len() ==> precedes(r@[i]@, r@[j]@),
    {
        let mut r: Vec<String> = Vec::new();
        let mut i: usize = 0;
        while i < self.entries.len()
            invariant
                i <= self.entries.len(),
                r@.len() == i,
                self@ == topics_view(self.entries@),
                forall|k: int| 0 <= k < i ==> r@[k]@ == self@[k].name,
            decreases self.entries.len() - i,
        {
            r.push(self.entries[i].name.clone());
            i += 1;
        }
        r
    }

    /// The topics in alphabetical order, each as its name and the number of
    /// its cards.
    pub fn summaries(&self) -> (r: Vec<(String, usize)>)
        ensures
            r.deep_view() == summaries_of(self@),
    {
        let mut r: Vec<(String, usize)> = Vec::new();
        let mut i: usize = 0;
        while i < self.entries.len()
            invariant
                i <= self.entries.len(),
                r@.len() == i,
                self@ == topics_view(self.entries@),
                forall|k: int|
                    0 <= k < i ==> (#[trigger] r@[k]).0@ == self@[k].name && r@[k].1
                        == self@[k].cards.len(),
            decreases self.entries.len() - i,
        {
            r.push((self.entries[i].name.clone(), self.entries[i].cards.len()));
            i += 1;
        }
        assert(r.deep_view() =~= summaries_of(self@));
        r
    }

    /// The name of the topic at `index` of the alphabetical list, if there is
    /// one.
    pub fn topic_name(&self, index: usize) -> (r: Option<String>)
        ensures
            r is Some == (index < self@.len()),
            r is Some ==> r->0@ == self@[index as int].name,
    {
        if index < self.entries.len() {
            Some(self.entries[index].name.clone())
        } else {
            None
        }
    }

    /// The number of cards of the topic called `name`, if there is one.
    pub fn card_count(&self, name: &str) -> (r: Option<usize>)
        ensures
            r is Some == has_topic(self@, name@),
            r is Some ==> r->0 == cards_of(self@, name@).len(),
    {
        let found = self.find(name);
        if found.1 {
            Some(self.entries[found.0].cards.len())
        } else {
            None
        }
    }

    /// The card at `index` of the topic called `name`, if there is one.
    pub fn card(&self, name: &str, index: usize) -> (r: Option<Flashcard>)
        ensures
            r is Some == (has_topic(self@, name@) && index < cards_of(self@, name@).len()),
            r is Some ==> r->0@ == cards_of(self@, name@)[index as int],
    {
        let found = self.find(name);
        if found.1 && index < self.entries[found.0].cards.len() {
            Some(self.entries[found.0].cards[index].clone())
        } else {
            None
        }
    }

    /// The store that holds the topics of `list`; where two have the same
    /// name, the later one stays.
    pub fn from_entries(list: &Vec<Topic>) -> (r: Topics)
        ensures
            r@ == collected(topics_view(list@)),
            r.wf(),
    {
        let mut r = Topics::new();
        let mut i: usize = 0;
        while i < list.len()
            invariant
                i <= list.len(),
                r.wf(),
                r@ == collected(topics_view(list@).subrange(0, i as int)),
            decreases list.len() - i,
        {
            assert(topics_view(list@).subrange(0, i + 1).drop_last() =~= topics_view(
                list@,
            ).subrange(0, i as int));
            r.put(list[i].clone());
            i += 1;
        }
        assert(topics_view(list@).subrange(0, i as int) =~= topics_view(list@));
        r
    }

    /// The topics in alphabetical order, each with its cards in review order.
    pub fn entries(&self) -> (r: Vec<Topic>)
        ensures
            topics_view(r@) == self@,
    {
        let mut r: Vec<Topic> = Vec::new();
        let mut i: usize = 0;
        while i < self.entries.len()
            invariant
                i <= self.entries.len(),
                r@.len() == i,
                forall|k: int| 0 <= k < i ==> r@[k]@ == self.entries@[k]@,
            decreases self.entries.len() - i,
        {
            r.push(self.entries[i].clone());
            i += 1;
        }
        assert(topics_view(r@) =~= self@);
        r
    }

    /// The store to start from: the topics that were read, or an empty store
    /// where nothing could be read.
    pub fn from_entries_or_empty(source: Option<Vec<Topic>>) -> (r: Topics)
        ensures
            r.wf(),
            source is None ==> r@ == Seq::<TopicView>::empty(),
            source is Some ==> r@ == collected(topics_view(source->0@)),
    {
        match source {
            Some(list) => Topics::from_entries(&list),
            None => Topics::new(),
        }
    }
}

} // verus!
