use rustledge::bucket::{Bucket, Value};
use rustledge::collector::{CollectResult, Collector};
use rustledge::trello_client::{
    cards_path, comments_path, wants_comments, Board, BoardReading, Card, CardAction, CardBadges,
    CardReading, CardsWithComments, CommentData, TrelloClient, BOARDS_PATH, TRELLO_HOST,
};
use rustledge::trello_collector::{
    TrelloCollector, CARDS, COMMENTS, COMMENTS_HEADER, COMMENT_SEPARATOR, DESCRIPTION, TITLE,
};

fn card(id: &str, name: &str, description: &str, url: &str, comments: i32) -> Card {
    Card {
        id: id.to_string(),
        name: name.to_string(),
        description: description.to_string(),
        short_url: url.to_string(),
        badges: CardBadges { comments },
    }
}

fn action(text: &str) -> CardAction {
    CardAction { data: CommentData { text: text.to_string() } }
}

fn board(id: &str, cards: Vec<CardReading>) -> BoardReading {
    BoardReading { board: Board { id: id.to_string(), name: format!("board {}", id) }, cards }
}

fn boards() -> Vec<BoardReading> {
    vec![
        board(
            "b1",
            vec![
                CardReading {
                    card: card("c1", "First", "first card", "https://trello.com/c/1", 2),
                    actions: vec![action("one"), action("two")],
                },
                CardReading {
                    card: card("c2", "Second", "", "https://trello.com/c/2", 0),
                    actions: vec![action("not counted")],
                },
            ],
        ),
        board("b2", vec![]),
        board(
            "b3",
            vec![CardReading {
                card: card("c3", "Third", "third card", "https://trello.com/c/3", 1),
                actions: vec![],
            }],
        ),
    ]
}

#[test]
fn the_request_address_ends_with_the_credentials() {
    let client = TrelloClient::new("KEY", "TOKEN");
    assert_eq!(
        client.request_url("/members/me/boards/?"),
        "https://api.trello.com/1/members/me/boards/?key=KEY&token=TOKEN"
    );
    assert_eq!(client.request_url(""), "https://api.trello.com/1key=KEY&token=TOKEN");
    assert_eq!(TRELLO_HOST, "https://api.trello.com/1");
}

#[test]
fn the_paths_name_the_board_and_the_card() {
    assert_eq!(BOARDS_PATH, "/members/me/boards/?");
    assert_eq!(cards_path("abc"), "/boards/abc/cards/?");
    assert_eq!(comments_path("xyz"), "/cards/xyz/actions?filter=commentCard&");
    let client = TrelloClient::new("k", "t");
    assert_eq!(
        client.request_url(&comments_path("xyz")),
        "https://api.trello.com/1/cards/xyz/actions?filter=commentCard&key=k&token=t"
    );
}

#[test]
fn comments_are_wanted_only_where_the_card_counts_some() {
    assert!(wants_comments(&card("c", "n", "d", "u", 1)));
    assert!(wants_comments(&card("c", "n", "d", "u", 7)));
    assert!(!wants_comments(&card("c", "n", "d", "u", 0)));
    assert!(!wants_comments(&card("c", "n", "d", "u", -1)));
}

#[test]
fn every_card_of_every_board_is_listed() {
    let client = TrelloClient::new("k", "t");
    let cards = client.get_all_cards_with_comments(&boards());
    assert_eq!(cards.len(), 3);
    assert_eq!(cards[0].title, "First");
    assert_eq!(cards[0].description, "first card");
    assert_eq!(cards[0].short_url, "https://trello.com/c/1");
    assert_eq!(cards[0].comments, vec!["one".to_string(), "two".to_string()]);
    assert_eq!(cards[1].title, "Second");
    assert_eq!(cards[1].comments, Vec::<String>::new());
    assert_eq!(cards[2].title, "Third");
    assert_eq!(cards[2].short_url, "https://trello.com/c/3");
    assert_eq!(cards[2].comments, Vec::<String>::new());
    assert_eq!(client.get_all_cards_with_comments(&vec![]).len(), 0);
}

#[test]
fn a_card_bucket_holds_title_description_and_comments() {
    let card = CardsWithComments {
        title: "T".to_string(),
        description: "D".to_string(),
        short_url: "u".to_string(),
        comments: vec!["a".to_string(), "b".to_string(), "c".to_string()],
    };
    let bucket = TrelloCollector::card_bucket(&card);
    let mut expected = Bucket::new();
    expected.set("TITLE", Value::String("T".to_string()));
    expected.set("DESCRIPTION", Value::String("D".to_string()));
    expected.set("COMMENTS", Value::String("a\n-----\nb\n-----\nc".to_string()));
    assert_eq!(bucket, expected);
    assert_eq!(TITLE, "TITLE");
    assert_eq!(DESCRIPTION, "DESCRIPTION");
    assert_eq!(COMMENTS, "COMMENTS");
    assert_eq!(CARDS, "CARDS");
    assert_eq!(COMMENT_SEPARATOR, "\n-----\n");
    assert_eq!(COMMENTS_HEADER, "\nComments:\n\n");
}

#[test]
fn collect_puts_each_card_under_its_short_address() {
    let collector = TrelloCollector::new("t", "k");
    let bucket = match collector.collect(&Some(boards())) {
        Ok(CollectResult::New(bucket)) => bucket,
        other => panic!("unexpected outcome: {:?}", other),
    };
    assert_eq!(bucket.len(), 1);
    let cards = bucket.get_bucket("CARDS").unwrap();
    assert_eq!(cards.len(), 3);
    let first = cards.get_bucket("https://trello.com/c/1").unwrap();
    assert_eq!(first.get_string("TITLE").unwrap(), "First");
    assert_eq!(first.get_string("DESCRIPTION").unwrap(), "first card");
    assert_eq!(first.get_string("COMMENTS").unwrap(), "one\n-----\ntwo");
    let second = cards.get_bucket("https://trello.com/c/2").unwrap();
    assert_eq!(second.get_string("COMMENTS").unwrap(), "");
}

#[test]
fn collect_uses_the_key_and_the_token_in_their_places() {
    let collector = TrelloCollector::new("the-token", "the-key");
    assert_eq!(
        collector.trello_client().request_url("/x?"),
        "https://api.trello.com/1/x?key=the-key&token=the-token"
    );
}

#[test]
fn a_service_that_could_not_be_asked_is_an_error() {
    let collector = TrelloCollector::new("t", "k");
    assert!(collector.collect(&None).is_err());
}

#[test]
fn flattening_gives_one_record_per_card() {
    let collector = TrelloCollector::new("t", "k");
    let bucket = match collector.collect(&Some(boards())) {
        Ok(CollectResult::New(bucket)) => bucket,
        other => panic!("unexpected outcome: {:?}", other),
    };
    let records = collector.convert_to_flat_data(&bucket);
    assert_eq!(records.len(), 3);
    assert_eq!(records[0].title, "First");
    assert_eq!(records[0].body, "first card\nComments:\n\none\n-----\ntwo");
    assert_eq!(records[0].ref_link, "https://trello.com/c/1");
    assert_eq!(records[1].title, "Second");
    assert_eq!(records[1].body, "\nComments:\n\n");
    assert_eq!(records[1].ref_link, "https://trello.com/c/2");
    assert_eq!(records[2].body, "third card\nComments:\n\n");
}

#[test]
fn cards_with_the_same_address_count_once() {
    let twice = vec![board(
        "b",
        vec![
            CardReading { card: card("c1", "Old", "d", "same", 0), actions: vec![] },
            CardReading { card: card("c2", "Other", "d", "else", 0), actions: vec![] },
            CardReading { card: card("c3", "New", "d", "same", 0), actions: vec![] },
        ],
    )];
    let collector = TrelloCollector::new("t", "k");
    let bucket = match collector.collect(&Some(twice)) {
        Ok(CollectResult::New(bucket)) => bucket,
        other => panic!("unexpected outcome: {:?}", other),
    };
    let records = collector.convert_to_flat_data(&bucket);
    assert_eq!(records.len(), 2);
    assert_eq!(records[0].title, "New");
    assert_eq!(records[0].ref_link, "same");
    assert_eq!(records[1].title, "Other");
}

#[test]
fn flattening_skips_what_is_no_card() {
    let mut good = Bucket::new();
    good.set("TITLE", Value::String("T".to_string()));
    good.set("DESCRIPTION", Value::String("D".to_string()));
    good.set("COMMENTS", Value::String("C".to_string()));
    let mut odd = Bucket::new();
    odd.set("TITLE", Value::Bool(true));
    odd.set("DESCRIPTION", Value::String("D".to_string()));
    odd.set("COMMENTS", Value::String("C".to_string()));
    let mut cards = Bucket::new();
    cards.set("text", Value::String("no bucket".to_string()));
    cards.set("odd", Value::Bucket(odd));
    cards.set("good", Value::Bucket(good));
    let mut bucket = Bucket::new();
    bucket.set("CARDS", Value::Bucket(cards));
    let records = TrelloCollector::new("t", "k").convert_to_flat_data(&bucket);
    assert_eq!(records.len(), 1);
    assert_eq!(records[0].title, "T");
    assert_eq!(records[0].body, "D\nComments:\n\nC");
    assert_eq!(records[0].ref_link, "good");
}

#[test]
fn get_all_cards_with_comments_works_with_not_errors() {
    let client = TrelloClient::new("key", "token");

    let result = client.get_all_cards_with_comments(&boards());
    println!("{:?}", result);
}

#[test]
fn a_bucket_without_cards_has_no_records() {
    let collector = TrelloCollector::new("t", "k");
    assert_eq!(collector.convert_to_flat_data(&Bucket::new()).len(), 0);
    let mut cards_as_text = Bucket::new();
    cards_as_text.set("CARDS", Value::String("no bucket".to_string()));
    assert_eq!(collector.convert_to_flat_data(&cards_as_text).len(), 0);
}

#[test]
fn a_card_that_lacks_a_part_has_no_record() {
    let mut whole = Bucket::new();
    whole.set("TITLE", Value::String("T".to_string()));
    whole.set("DESCRIPTION", Value::String("D".to_string()));
    whole.set("COMMENTS", Value::String("".to_string()));
    let mut no_comments = Bucket::new();
    no_comments.set("TITLE", Value::String("T".to_string()));
    no_comments.set("DESCRIPTION", Value::String("D".to_string()));
    let mut cards = Bucket::new();
    cards.set("lacking", Value::Bucket(no_comments));
    cards.set("empty", Value::Bucket(Bucket::new()));
    cards.set("whole", Value::Bucket(whole));
    let mut bucket = Bucket::new();
    bucket.set("CARDS", Value::Bucket(cards));
    let records = TrelloCollector::new("t", "k").convert_to_flat_data(&bucket);
    assert_eq!(records.len(), 1);
    assert_eq!(records[0].ref_link, "whole");
    assert_eq!(records[0].body, "D\nComments:\n\n");
}
