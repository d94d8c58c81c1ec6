//! What is asked of the Trello service and what is made of its answers.

use crate::text::followed_by;
use vstd::prelude::*;
use vstd::string::*;

verus! {

/// The service's address.
pub const TRELLO_HOST: &'static str = "https://api.trello.com/1";

/// The path that lists the boards of the caller.
pub const BOARDS_PATH: &'static str = "/members/me/boards/?";

/// The credentials for the Trello service and its address.
#[derive(Debug)]
pub struct TrelloClient {
    key: String,
    token: String,
    host: String,
}

/// A card with the texts of its comments.
#[derive(Debug)]
pub struct CardsWithComments {
    pub title: String,
    pub description: String,
    pub short_url: String,
    pub comments: Vec<String>,
}

/// What a [`CardsWithComments`] holds, as a mathematical value.
pub struct CardsWithCommentsView {
    pub title: Seq<char>,
    pub description: Seq<char>,
    pub short_url: Seq<char>,
    pub comments: Seq<Seq<char>>,
}

impl DeepView for CardsWithComments {
    type V = CardsWithCommentsView;

    open spec fn deep_view(&self) -> CardsWithCommentsView {
        CardsWithCommentsView {
            title: self.title@,
            description: self.description@,
            short_url: self.short_url@,
            comments: self.comments.deep_view(),
        }
    }
}

/// The counters that the service shows on a card.
#[derive(Debug)]
pub struct CardBadges {
    pub comments: i32,
}

/// A card as the service gives it.
#[derive(Debug)]
pub struct Card {
    pub id: String,
    pub name: String,
    pub description: String,
    pub short_url: String,
    pub badges: CardBadges,
}

/// The text of a comment.
#[derive(Debug)]
pub struct CommentData {
    pub text: String,
}

/// A comment on a card, as the service gives it.
#[derive(Debug)]
pub struct CardAction {
    pub data: CommentData,
}

/// A board as the service gives it.
#[derive(Debug)]
pub struct Board {
    pub id: String,
    pub name: String,
}

/// A card with the comment actions that were fetched for it.
#[derive(Debug)]
pub struct CardReading {
    pub card: Card,
    pub actions: Vec<CardAction>,
}

/// A board with its cards.
#[derive(Debug)]
pub struct BoardReading {
    pub board: Board,
    pub cards: Vec<CardReading>,
}

/// The texts of the actions, in order.
pub open spec fn action_texts(actions: Seq<CardAction>) -> Seq<Seq<char>> {
    Seq::new(actions.len(), |i: int| actions[i].data.text@)
}

/// The card with its comments: the texts of its comment actions where the
/// card counts at least one comment, and none otherwise.
pub open spec fn card_with_comments(reading: CardReading) -> CardsWithCommentsView {
    CardsWithCommentsView {
        title: reading.card.name@,
        description: reading.card.description@,
        short_url: reading.card.short_url@,
        comments: if reading.card.badges.comments > 0 {
            action_texts(reading.actions@)
        } else {
            Seq::empty()
        },
    }
}

/// The cards of one board, in order.
pub open spec fn board_cards(cards: Seq<CardReading>) -> Seq<CardsWithCommentsView> {
    Seq::new(cards.len(), |i: int| card_with_comments(cards[i]))
}

/// The cards of the boards, board after board.
pub open spec fn all_cards(boards: Seq<BoardReading>) -> Seq<CardsWithCommentsView>
    decreases boards.len(),
{
    if boards.len() == 0 {
        Seq::empty()
    } else {
        all_cards(boards.drop_last()) + board_cards(boards.last().cards@)
    }
}

/// The path that lists the cards of a board.
pub open spec fn cards_path_of(board_id: Seq<char>) -> Seq<char> {
    "/boards/"@ + board_id + "/cards/?"@
}

/// The path that lists the comment actions of a card.
pub open spec fn comments_path_of(card_id: Seq<char>) -> Seq<char> {
    "/cards/"@ + card_id + "/actions?filter=commentCard&"@
}

/// The path that lists the cards of a board.
pub fn cards_path(board_id: &str) -> (path: String)
    ensures
        path@ == cards_path_of(board_id@),
{
    let mut path = followed_by("/boards/", board_id);
    path.append("/cards/?");
    path
}

/// The path that lists the comment actions of a card.
pub fn comments_path(card_id: &str) -> (path: String)
    ensures
        path@ == comments_path_of(card_id@),
{
    let mut path = followed_by("/cards/", card_id);
    path.append("/actions?filter=commentCard&");
    path
}

/// Whether the comments of the card are to be fetched: only where the card
/// counts at least one.
pub fn wants_comments(card: &Card) -> (wanted: bool)
    ensures
        wanted == (card.badges.comments > 0),
{
    card.badges.comments > 0
}

impl TrelloClient {
    /// A client for the service with the given credentials.
    pub fn new(key: &str, token: &str) -> (client: TrelloClient)
        ensures
            client.host() == TRELLO_HOST@,
            client.key() == key@,
            client.token() == token@,
    {
        TrelloClient { host: TRELLO_HOST.to_owned(), key: key.to_owned(), token: token.to_owned() }
    }

    pub closed spec fn host(&self) -> Seq<char> {
        self.host@
    }

    pub closed spec fn key(&self) -> Seq<char> {
        self.key@
    }

    pub closed spec fn token(&self) -> Seq<char> {
        self.token@
    }

    /// The address to ask for `path`: the host, the path, and the
    /// credentials as the last two parameters.
    pub open spec fn url_of(&self, path: Seq<char>) -> Seq<char> {
        self.host() + path + "key="@ + self.key() + "&token="@ + self.token()
    }

    /// The address to ask for `path`.
    pub fn request_url(&self, path: &str) -> (url: String)
        ensures
            url@ == self.url_of(path@),
    {
        let mut url = followed_by(self.host.as_str(), path);
        url.append("key=");
        url.append(self.key.as_str());
        url.append("&token=");
        url.append(self.token.as_str());
        url
    }

    /// The card with its comments.
    fn card_of(reading: &CardReading) -> (card: CardsWithComments)
        ensures
            card.deep_view() == card_with_comments(*reading),
    {
        let mut comments: Vec<String> = Vec::new();
        if wants_comments(&reading.card) {
            let mut i: usize = 0;
            while i < reading.actions.len()
                invariant
                    i <= reading.actions.len(),
                    comments.len() == i,
                    forall|j: int| 0 <= j < i ==> comments@[j]@ == reading.actions@[j].data.text@,
                decreases reading.actions.len() - i,
            {
                comments.push(reading.actions[i].data.text.clone());
                i += 1;
            }
            assert(comments.deep_view() =~= action_texts(reading.actions@));
        } else {
            assert(comments.deep_view() =~= Seq::<Seq<char>>::empty());
        }
        CardsWithComments {
            title: reading.card.name.clone(),
            short_url: reading.card.short_url.clone(),
            description: reading.card.description.clone(),
            comments,
        }
    }

    /// Every card of every board, board after board, each with the texts
    /// of its comments in the order in which the service gave them.
    pub fn get_all_cards_with_comments(&self, boards: &Vec<BoardReading>) -> (cards: Vec<
        CardsWithComments,
    >)
        ensures
            cards.deep_view() == all_cards(boards@),
    {
        let mut result: Vec<CardsWithComments> = Vec::new();
        let mut b: usize = 0;
        while b < boards.len()
            invariant
                b <= boards.len(),
                result.deep_view() == all_cards(boards@.take(b as int)),
            decreases boards.len() - b,
        {
            proof {
                let upto = boards@.take(b + 1);
                assert(upto.drop_last() =~= boards@.take(b as int));
            }
            let board = &boards[b];
            let ghost before = result.deep_view();
            let mut c: usize = 0;
            while c < board.cards.len()
                invariant
                    c <= board.cards.len(),
                    result.deep_view() == before + board_cards(board.cards@).take(c as int),
                decreases board.cards.len() - c,
            {
                let ghost sofar = result.deep_view();
                let card = Self::card_of(&board.cards[c]);
                result.push(card);
                assert(result.deep_view() =~= sofar.push(card_with_comments(board.cards@[c as int])));
                c += 1;
            }
            assert(board_cards(board.cards@).take(board.cards.len() as int) =~= board_cards(
                board.cards@,
            ));
            b += 1;
        }
        assert(boards@.take(boards.len() as int) =~= boards@);
        result
    }
}

} // verus!
