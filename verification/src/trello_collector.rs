//! The collector for the cards of the Trello boards.

use crate::bucket::{listing_with, lookup, map_of, Bucket, BucketView, Value, ValueView};
use crate::collector::{CollectError, CollectResult, Collector, FlatData, FlatDataView};
use crate::text::{followed_by, join, joined};
use crate::trello_client::{
    all_cards, BoardReading, CardsWithComments, CardsWithCommentsView, TrelloClient, TRELLO_HOST,
};
use vstd::prelude::*;
use vstd::string::*;

verus! {

pub const CARDS: &'static str = "CARDS";

pub const TITLE: &'static str = "TITLE";

pub const DESCRIPTION: &'static str = "DESCRIPTION";

pub const COMMENTS: &'static str = "COMMENTS";

/// The line that stands between two comments.
pub const COMMENT_SEPARATOR: &'static str = "\n-----\n";

/// What stands between a card's description and its comments in a record.
pub const COMMENTS_HEADER: &'static str = "\nComments:\n\n";

/// Collects the cards of the boards that the credentials give access to.
#[derive(Debug)]
pub struct TrelloCollector {
    trello_client: TrelloClient,
}

/// The entries of the bucket of one card.
pub open spec fn card_listing(card: CardsWithCommentsView) -> Seq<(Seq<char>, ValueView)> {
    seq![
        (TITLE@, ValueView::String(card.title)),
        (DESCRIPTION@, ValueView::String(card.description)),
        (COMMENTS@, ValueView::String(joined(card.comments, COMMENT_SEPARATOR@))),
    ]
}

/// The entries of the bucket of cards: each card's bucket under the card's
/// short address.
pub open spec fn cards_listing(cards: Seq<CardsWithCommentsView>) -> Seq<(Seq<char>, ValueView)>
    decreases cards.len(),
{
    if cards.len() == 0 {
        Seq::empty()
    } else {
        listing_with(
            cards_listing(cards.drop_last()),
            cards.last().short_url,
            ValueView::Bucket(map_of(card_listing(cards.last()))),
        )
    }
}

/// The entries of the bucket that collecting gives.
pub open spec fn board_listing(cards: Seq<CardsWithCommentsView>) -> Seq<(Seq<char>, ValueView)> {
    seq![(CARDS@, ValueView::Bucket(map_of(cards_listing(cards))))]
}

/// The record of the card stored under `url`: none where the title, the
/// description or the comments are not text.
pub open spec fn card_record(url: Seq<char>, details: BucketView) -> Option<FlatDataView> {
    match (lookup(details, TITLE@), lookup(details, DESCRIPTION@), lookup(details, COMMENTS@)) {
        (
            Some(ValueView::String(title)),
            Some(ValueView::String(description)),
            Some(ValueView::String(comments)),
        ) => Some(
            FlatDataView {
                title,
                body: description + COMMENTS_HEADER@ + comments,
                ref_link: url,
            },
        ),
        _ => None,
    }
}

/// The records of the listed cards, in order.
pub open spec fn card_records(cards: Seq<(Seq<char>, ValueView)>) -> Seq<FlatDataView>
    decreases cards.len(),
{
    if cards.len() == 0 {
        Seq::empty()
    } else {
        let before = card_records(cards.drop_last());
        match cards.last().1 {
            ValueView::Bucket(details) => match card_record(cards.last().0, details) {
                Some(record) => before.push(record),
                None => before,
            },
            _ => before,
        }
    }
}

/// The records that a bucket of boards flattens into: those of its cards,
/// where it holds the cards as a bucket, and none otherwise.
pub open spec fn board_records(bucket: &Bucket) -> Seq<FlatDataView> {
    match bucket.stored(CARDS@) {
        Some(Value::Bucket(cards)) => card_records(cards.listing()),
        _ => Seq::empty(),
    }
}

/// Whether `bucket` is what collecting gives for the cards.
pub open spec fn collected_from(bucket: &Bucket, cards: Seq<CardsWithCommentsView>) -> bool {
    &&& bucket.consistent()
    &&& bucket.listing() == board_listing(cards)
    &&& bucket@ == map_of(board_listing(cards))
    &&& bucket.stored(CARDS@) matches Some(Value::Bucket(listed))
    &&& listed.consistent()
    &&& listed.listing() == cards_listing(cards)
}

/// The records of the boards that were read: those of their cards.
pub open spec fn records_of_boards(boards: Seq<BoardReading>) -> Seq<FlatDataView> {
    card_records(cards_listing(all_cards(boards)))
}

/// The records of a reading: none where the service could not be asked.
pub open spec fn records_of_reading(reading: Option<Vec<BoardReading>>) -> Seq<FlatDataView> {
    match reading {
        Some(boards) => records_of_boards(boards@),
        None => Seq::empty(),
    }
}

/// The three keys of a card's bucket differ from each other: no two have
/// the same length.
pub proof fn lemma_card_keys_differ()
    ensures
        TITLE@.len() == 5,
        DESCRIPTION@.len() == 11,
        COMMENTS@.len() == 8,
{
    reveal_strlit("TITLE");
    reveal_strlit("DESCRIPTION");
    reveal_strlit("COMMENTS");
}

impl TrelloCollector {
    /// A collector with the given credentials.
    pub fn new(token: &str, key: &str) -> (collector: TrelloCollector)
        ensures
            collector.client().host() == TRELLO_HOST@,
            collector.client().key() == key@,
            collector.client().token() == token@,
    {
        let trello_client = TrelloClient::new(key, token);
        TrelloCollector { trello_client }
    }

    /// The client that the collector asks the service with.
    pub closed spec fn client(&self) -> TrelloClient {
        self.trello_client
    }

    /// The client that the collector asks the service with.
    pub fn trello_client(&self) -> (client: &TrelloClient)
        ensures
            *client == self.client(),
    {
        &self.trello_client
    }

    /// The bucket of one card: its title, its description, and its
    /// comments joined by the separator line.
    pub fn card_bucket(card: &CardsWithComments) -> (bucket: Bucket)
        ensures
            bucket.consistent(),
            bucket.listing() == card_listing(card.deep_view()),
    {
        proof {
            lemma_card_keys_differ();
        }
        let mut bucket = Bucket::new();
        bucket.set(TITLE, Value::String(card.title.clone()));
        bucket.set(DESCRIPTION, Value::String(card.description.clone()));
        bucket.set(COMMENTS, Value::String(join(&card.comments, COMMENT_SEPARATOR)));
        bucket
    }
}

impl Collector for TrelloCollector {
    /// The boards with their cards as they were fetched, or `None` where
    /// the service could not be asked.
    type Source = Option<Vec<BoardReading>>;

    open spec fn flat_data(&self, bucket: &Bucket) -> Seq<FlatDataView> {
        board_records(bucket)
    }

    /// One record for each card, in the bucket's order: the card's title,
    /// as body its description, the comments header and its comments, and
    /// as link the card's short address.
    fn convert_to_flat_data(&self, bucket: &Bucket) -> (records: Vec<FlatData>) {
        let mut records: Vec<FlatData> = Vec::new();
        let cards = match bucket.get(CARDS) {
            Some(Value::Bucket(cards)) => cards,
            _ => {
                return records;
            },
        };
        let count = cards.len();
        let mut i: usize = 0;
        while i < count
            invariant
                i <= count,
                count == cards.entries().len(),
                records.deep_view() == card_records(cards.listing().take(i as int)),
            decreases count - i,
        {
            proof {
                let upto = cards.listing().take(i + 1);
                assert(upto.drop_last() =~= cards.listing().take(i as int));
            }
            let url = cards.key_at(i);
            match cards.value_at(i) {
                Value::Bucket(details) => {
                    match (details.get(TITLE), details.get(DESCRIPTION), details.get(COMMENTS)) {
                        (
                            Some(Value::String(title)),
                            Some(Value::String(description)),
                            Some(Value::String(comments)),
                        ) => {
                            let mut body = followed_by(description.as_str(), COMMENTS_HEADER);
                            body.append(comments.as_str());
                            let ghost before = records.deep_view();
                            let record = FlatData {
                                title: title.clone(),
                                body,
                                ref_link: url.to_owned(),
                            };
                            records.push(record);
                            assert(records.deep_view() =~= before.push(
                                card_record(url@, details@)->0,
                            ));
                        },
                        _ => {},
                    }
                },
                _ => {},
            }
            i += 1;
        }
        assert(cards.listing().take(count as int) =~= cards.listing());
        records
    }

    /// The bucket of the cards that were fetched, as new data: each card's
    /// bucket under its short address, all of them under one key. Where
    /// the service could not be asked, `CollectError::General`.
    fn collect(&self, source: &Option<Vec<BoardReading>>) -> (outcome: Result<
        CollectResult,
        CollectError,
    >)
        ensures
            match source {
                Some(boards) => outcome matches Ok(CollectResult::New(bucket)) && collected_from(
                    &bucket,
                    all_cards(boards@),
                ),
                None => outcome is Err,
            },
    {
        let boards = match source {
            Some(boards) => boards,
            None => {
                return Err(CollectError::General);
            },
        };
        let result = self.trello_client.get_all_cards_with_comments(boards);
        let mut cards_bucket = Bucket::new();
        let mut i: usize = 0;
        while i < result.len()
            invariant
                i <= result.len(),
                cards_bucket.consistent(),
                cards_bucket.listing() == cards_listing(result.deep_view().take(i as int)),
            decreases result.len() - i,
        {
            proof {
                let upto = result.deep_view().take(i + 1);
                assert(upto.drop_last() =~= result.deep_view().take(i as int));
            }
            let item = &result[i];
            let card_bucket = Self::card_bucket(item);
            cards_bucket.set(item.short_url.as_str(), Value::Bucket(card_bucket));
            i += 1;
        }
        assert(result.deep_view().take(result.len() as int) =~= result.deep_view());
        let mut bucket = Bucket::new();
        bucket.set(CARDS, Value::Bucket(cards_bucket));
        Ok(CollectResult::New(bucket))
    }
}

} // verus!
