//! The persisted form of the store: a JSON document with one field,
//! `topics_map`, that maps each topic name to the list of its cards, each card
//! a record with the fields `question` and `answer`.

use crate::store::{
    cards_view, collected, lemma_collected_sorted, sorted, topics_view, CardView, Flashcard,
    Topic, TopicView, Topics,
};
use serde_json::Value;
use std::collections::BTreeMap;
use vstd::prelude::*;

verus! {

/// A record of a document: its text fields, each with its name.
pub type Record = Vec<(String, String)>;

/// A document: its fields by name, each a list of named lists of records.
pub type Document = Vec<(String, Vec<(String, Vec<Record>)>)>;

/// A [`Record`] as plain values.
pub type RecordView = Seq<(Seq<char>, Seq<char>)>;

/// A [`Document`] as plain values.
pub type DocumentView = Seq<(Seq<char>, Seq<(Seq<char>, Seq<RecordView>)>)>;

/// What `serde_json::from_str` makes of `text` when it is asked for a map
/// from names to maps from names to lists of maps from names to texts: the
/// maps entry by entry, or `None` where `text` is not JSON of that shape.
pub uninterp spec fn parsed(text: Seq<char>) -> Option<
    Seq<(Seq<char>, Seq<(Seq<char>, Seq<Seq<(Seq<char>, Seq<char>)>>)>)>,
>;

/// The text that `serde_json::to_string_pretty` gives for `doc` taken as
/// nested JSON objects and arrays, or `None` where it reports an error.
pub uninterp spec fn printed(
    doc: Seq<(Seq<char>, Seq<(Seq<char>, Seq<Seq<(Seq<char>, Seq<char>)>>)>)>,
) -> Option<Seq<char>>;

/// `serde_json::from_str` into nested `BTreeMap`s, handed on as lists of
/// entries. The result is named by [`parsed`]; nothing is claimed about which
/// texts parse, nor about what they parse to.
#[verifier::external_body]
fn parse_document(text: &str) -> (r: Option<Document>)
    ensures
        r.deep_view() == parsed(text@),
{
    let tree: BTreeMap<String, BTreeMap<String, Vec<BTreeMap<String, String>>>> =
        serde_json::from_str(text).ok()?;
    let lists = |m: BTreeMap<String, Vec<BTreeMap<String, String>>>| -> Vec<(String, Vec<Record>)> {
        m.into_iter().map(|(n, rs)| (n, rs.into_iter().map(|r| r.into_iter().collect()).collect())).collect()
    };
    Some(tree.into_iter().map(|(f, m)| (f, lists(m))).collect())
}

/// `serde_json::to_string_pretty` on `doc` as a `serde_json::Value`: each list
/// of named entries an object with its entries in their order, each list of
/// records an array. The result is named by [`printed`]; nothing is claimed
/// about the text.
#[verifier::external_body]
fn print_document(doc: &Document) -> (r: Option<String>)
    ensures
        r.deep_view() == printed(doc.deep_view()),
{
    let rec = |r: &Record| r.iter().cloned().collect::<Value>();
    let list = |(n, rs): &(String, Vec<Record>)| (n.clone(), rs.iter().map(rec).collect::<Value>());
    let tree: Value =
        doc.iter().map(|(f, m)| (f.clone(), m.iter().map(list).collect::<Value>())).collect();
    serde_json::to_string_pretty(&tree).ok()
}

/// The first index at or after `i` whose entry is called `key`, or the length
/// of `entries` where there is none.
pub open spec fn index_of_key<V>(entries: Seq<(Seq<char>, V)>, key: Seq<char>, i: int) -> int
    decreases entries.len() - i,
{
    if 0 <= i < entries.len() && entries[i].0 != key {
        index_of_key(entries, key, i + 1)
    } else {
        i
    }
}

/// The value of the first entry called `key`, if there is one.
pub open spec fn value_of<V>(entries: Seq<(Seq<char>, V)>, key: Seq<char>) -> Option<V> {
    let i = index_of_key(entries, key, 0);
    if 0 <= i < entries.len() {
        Some(entries[i].1)
    } else {
        None
    }
}

/// The card that a record holds: its `question` and its `answer`; none where
/// either field is missing.
pub open spec fn card_of(record: RecordView) -> Option<CardView> {
    match (value_of(record, "question"@), value_of(record, "answer"@)) {
        (Some(question), Some(answer)) => Some(CardView { question, answer }),
        _ => None,
    }
}

/// The cards that a list of records holds, in its order; none where one of
/// them holds no card.
pub open spec fn cards_from(records: Seq<RecordView>) -> Option<Seq<CardView>> {
    if forall|i: int| 0 <= i < records.len() ==> (#[trigger] card_of(records[i])) is Some {
        Some(records.map_values(|r: RecordView| card_of(r)->0))
    } else {
        None
    }
}

/// The topic that a named list of records holds.
pub open spec fn topic_of(list: (Seq<char>, Seq<RecordView>)) -> Option<TopicView> {
    match cards_from(list.1) {
        Some(cards) => Some(TopicView { name: list.0, cards }),
        None => None,
    }
}

/// The topics that the named lists hold, in their order; none where one of
/// them holds no topic.
pub open spec fn topics_from(lists: Seq<(Seq<char>, Seq<RecordView>)>) -> Option<Seq<TopicView>> {
    if forall|i: int| 0 <= i < lists.len() ==> (#[trigger] topic_of(lists[i])) is Some {
        Some(lists.map_values(|l: (Seq<char>, Seq<RecordView>)| topic_of(l)->0))
    } else {
        None
    }
}

/// The topics that a document holds under `topics_map`; none where it has no
/// such field or the field has another shape.
pub open spec fn decoded(doc: DocumentView) -> Option<Seq<TopicView>> {
    match value_of(doc, "topics_map"@) {
        Some(lists) => topics_from(lists),
        None => None,
    }
}

/// The record that holds `card`.
pub open spec fn record_of(card: CardView) -> RecordView {
    seq![("question"@, card.question), ("answer"@, card.answer)]
}

/// The document that holds the topics of `s`.
pub open spec fn encoded(s: Seq<TopicView>) -> DocumentView {
    seq![
        (
            "topics_map"@,
            s.map_values(
                |t: TopicView| (t.name, t.cards.map_values(|c: CardView| record_of(c))),
            ),
        ),
    ]
}

/// The store that a source gives: the topics of its document, a later topic
/// replacing an earlier one of the same name; the empty store where there is
/// no source, where its text does not parse, and where the document holds no
/// topics.
pub open spec fn loaded(source: Option<Seq<char>>) -> Seq<TopicView> {
    match source {
        Some(text) => match parsed(text) {
            Some(doc) => match decoded(doc) {
                Some(list) => collected(list),
                None => Seq::empty(),
            },
            None => Seq::empty(),
        },
        None => Seq::empty(),
    }
}

/// Decoding the document of some topics gives those topics back.
pub proof fn lemma_decoded_encoded(s: Seq<TopicView>)
    ensures
        decoded(encoded(s)) == Some(s),
{
    reveal_strlit("question");
    reveal_strlit("answer");
    let lists = encoded(s)[0].1;
    assert(value_of(encoded(s), "topics_map"@) == Some(lists));
    assert forall|i: int| 0 <= i < lists.len() implies (#[trigger] topic_of(lists[i])) == Some(
        s[i],
    ) by {
        let records = lists[i].1;
        assert forall|j: int| 0 <= j < records.len() implies (#[trigger] card_of(records[j]))
            == Some(s[i].cards[j]) by {
            lemma_card_of_record(s[i].cards[j]);
        }
        assert(cards_from(records)->0 =~= s[i].cards);
    }
    assert(topics_from(lists)->0 =~= s);
}

/// Saving and loading gives the store back, as far as that rests on this
/// library: where the JSON reader makes of the saved text the document that
/// was printed, the store that is loaded from it is the store that was saved.
pub proof fn lemma_load_of_saved(s: Seq<TopicView>, text: Seq<char>)
    requires
        sorted(s),
    ensures
        printed(encoded(s)) == Some(text) && parsed(text) == Some(encoded(s)) ==> loaded(
            Some(text),
        ) == s,
{
    lemma_decoded_encoded(s);
    lemma_collected_sorted(s);
}

/// The record of a card holds that card.
pub proof fn lemma_card_of_record(card: CardView)
    ensures
        card_of(record_of(card)) == Some(card),
{
    reveal_strlit("question");
    reveal_strlit("answer");
    let r = record_of(card);
    assert("question"@.len() != "answer"@.len());
    assert(r[0].0 == "question"@);
    assert(r[1].0 == "answer"@);
    assert(index_of_key(r, "question"@, 0) == 0);
    assert(index_of_key(r, "answer"@, 1) == 1);
    assert(index_of_key(r, "answer"@, 0) == 1);
}

/// The value of the first field of `record` called `key`, if there is one.
fn text_field(record: &Record, key: &str) -> (r: Option<String>)
    ensures
        r.deep_view() == value_of(record.deep_view(), key@),
{
    let wanted = key.to_owned();
    let mut i: usize = 0;
    while i < record.len()
        invariant
            i <= record.len(),
            wanted@ == key@,
            index_of_key(record.deep_view(), key@, 0) == index_of_key(
                record.deep_view(),
                key@,
                i as int,
            ),
        decreases record.len() - i,
    {
        assert(record.deep_view()[i as int] == (record@[i as int].0@, record@[i as int].1@));
        if record[i].0 == wanted {
            return Some(record[i].1.clone());
        }
        i += 1;
    }
    None
}

/// The card that `record` holds, if it has a question and an answer.
pub fn decode_card(record: &Record) -> (r: Option<Flashcard>)
    ensures
        r is Some == card_of(record.deep_view()) is Some,
        r is Some ==> r->0@ == card_of(record.deep_view())->0,
{
    match text_field(record, "question") {
        Some(question) => match text_field(record, "answer") {
            Some(answer) => Some(Flashcard { question, answer }),
            None => None,
        },
        None => None,
    }
}

/// The cards that `records` hold, if each of them holds one.
pub fn decode_cards(records: &Vec<Record>) -> (r: Option<Vec<Flashcard>>)
    ensures
        r is Some == cards_from(records.deep_view()) is Some,
        r is Some ==> cards_view(r->0@) == cards_from(records.deep_view())->0,
{
    let mut cards: Vec<Flashcard> = Vec::new();
    let mut i: usize = 0;
    while i < records.len()
        invariant
            i <= records.len(),
            cards@.len() == i,
            forall|k: int|
                0 <= k < i ==> (#[trigger] card_of(records.deep_view()[k])) == Some(cards@[k]@),
        decreases records.len() - i,
    {
        assert(records.deep_view()[i as int] == records@[i as int].deep_view());
        match decode_card(&records[i]) {
            Some(card) => {
                cards.push(card);
            },
            None => {
                return None;
            },
        }
        i += 1;
    }
    assert(cards_view(cards@) =~= cards_from(records.deep_view())->0);
    Some(cards)
}

/// The topics that `lists` hold, if each of them holds one.
pub fn decode_topics(lists: &Vec<(String, Vec<Record>)>) -> (r: Option<Vec<Topic>>)
    ensures
        r is Some == topics_from(lists.deep_view()) is Some,
        r is Some ==> topics_view(r->0@) == topics_from(lists.deep_view())->0,
{
    let mut topics: Vec<Topic> = Vec::new();
    let mut i: usize = 0;
    while i < lists.len()
        invariant
            i <= lists.len(),
            topics@.len() == i,
            forall|k: int|
                0 <= k < i ==> (#[trigger] topic_of(lists.deep_view()[k])) == Some(topics@[k]@),
        decreases lists.len() - i,
    {
        assert(lists.deep_view()[i as int] == (
            lists@[i as int].0@,
            lists@[i as int].1.deep_view(),
        ));
        match decode_cards(&lists[i].1) {
            Some(cards) => {
                topics.push(Topic { name: lists[i].0.clone(), cards });
            },
            None => {
                assert(topic_of(lists.deep_view()[i as int]) is None);
                return None;
            },
        }
        i += 1;
    }
    assert(topics_view(topics@) =~= topics_from(lists.deep_view())->0);
    Some(topics)
}

/// The topics that `doc` holds under `topics_map`, if it has that field and
/// every record under it holds a card.
pub fn decode(doc: &Document) -> (r: Option<Vec<Topic>>)
    ensures
        r is Some == decoded(doc.deep_view()) is Some,
        r is Some ==> topics_view(r->0@) == decoded(doc.deep_view())->0,
{
    let wanted = "topics_map".to_owned();
    let mut i: usize = 0;
    while i < doc.len()
        invariant
            i <= doc.len(),
            wanted@ == "topics_map"@,
            index_of_key(doc.deep_view(), "topics_map"@, 0) == index_of_key(
                doc.deep_view(),
                "topics_map"@,
                i as int,
            ),
        decreases doc.len() - i,
    {
        assert(doc.deep_view()[i as int] == (doc@[i as int].0@, doc@[i as int].1.deep_view()));
        if doc[i].0 == wanted {
            return decode_topics(&doc[i].1);
        }
        i += 1;
    }
    None
}

/// The record that holds `card`.
pub fn encode_card(card: &Flashcard) -> (r: Record)
    ensures
        r.deep_view() == record_of(card@),
{
    let mut r: Record = Vec::new();
    r.push(("question".to_owned(), card.question.clone()));
    r.push(("answer".to_owned(), card.answer.clone()));
    assert(r.deep_view() =~= record_of(card@));
    r
}

/// The document that holds the topics of `store`.
pub fn encode(store: &Topics) -> (r: Document)
    ensures
        r.deep_view() == encoded(store@),
{
    let topics = store.entries();
    let mut lists: Vec<(String, Vec<Record>)> = Vec::new();
    let mut i: usize = 0;
    while i < topics.len()
        invariant
            i <= topics.len(),
            lists@.len() == i,
            forall|k: int|
                0 <= k < i ==> (#[trigger] lists.deep_view()[k]) == (
                    topics@[k]@.name,
                    topics@[k]@.cards.map_values(|c: CardView| record_of(c)),
                ),
        decreases topics.len() - i,
    {
        let cards = &topics[i].cards;
        let mut records: Vec<Record> = Vec::new();
        let mut j: usize = 0;
        while j < cards.len()
            invariant
                j <= cards.len(),
                records@.len() == j,
                forall|k: int|
                    0 <= k < j ==> (#[trigger] records.deep_view()[k]) == record_of(cards@[k]@),
            decreases cards.len() - j,
        {
            let ghost before = records.deep_view();
            records.push(encode_card(&cards[j]));
            assert(records.deep_view() =~= before.push(record_of(cards@[j as int]@)));
            j += 1;
        }
        assert(records.deep_view() =~= topics@[i as int]@.cards.map_values(
            |c: CardView| record_of(c),
        ));
        let ghost before = lists.deep_view();
        lists.push((topics[i].name.clone(), records));
        assert(lists.deep_view() =~= before.push(
            (
                topics@[i as int]@.name,
                topics@[i as int]@.cards.map_values(|c: CardView| record_of(c)),
            ),
        ));
        i += 1;
    }
    let mut doc: Document = Vec::new();
    doc.push(("topics_map".to_owned(), lists));
    assert(doc.deep_view() =~= encoded(store@)) by {
        assert(doc.deep_view()[0].1 =~= encoded(store@)[0].1);
    }
    doc
}

/// The topics that `text` holds, if it parses as a document that holds
/// topics.
pub fn parse(text: &str) -> (r: Option<Vec<Topic>>)
    ensures
        r is Some == (parsed(text@) is Some && decoded(parsed(text@)->0) is Some),
        r is Some ==> topics_view(r->0@) == decoded(parsed(text@)->0)->0,
{
    match parse_document(text) {
        Some(doc) => decode(&doc),
        None => None,
    }
}

/// The store to start from: the topics that the source's text holds, or the
/// empty store where there is no source or its text holds no topics. Never
/// fails.
pub fn load(source: Option<&str>) -> (r: Topics)
    ensures
        r.wf(),
        r@ == loaded(
            match source {
                Some(text) => Some(text@),
                None => None,
            },
        ),
{
    match source {
        Some(text) => Topics::from_entries_or_empty(parse(text)),
        None => Topics::new(),
    }
}

/// The pretty-printed text of the store's document, or `None` where it could
/// not be printed.
pub fn save(store: &Topics) -> (r: Option<String>)
    ensures
        r.deep_view() == printed(encoded(store@)),
{
    print_document(&encode(store))
}

} // verus!
