//! Catalogue entries: the records of a `boardgame` document.

use crate::parsers::engine::{Parser, ParserView, Shape, after_events, fresh, record_of};
use crate::record::{Record, RecordView, blank, text_view};
use crate::result::Error;
use crate::xml::{Event, EventView, document_events, events};
use vstd::prelude::*;

pub use crate::record::Link;

verus! {

/// A game, as a `boardgame` element describes it.
///
/// The two averages, `weight` and `rating`, are kept as the document writes
/// them, as decimal text; the text is empty where the document gives no
/// average.
#[derive(Debug, PartialEq, Eq)]
pub struct BoardGame {
    pub id: i64,
    pub primary_name: String,
    pub description: String,
    pub year_published: i32,
    pub thumbnail_url: Option<String>,
    pub image_url: Option<String>,
    pub minage: i32,
    pub owners: i32,
    pub players: std::ops::Range<i32>,
    pub playtime: std::ops::Range<i32>,
    pub weight: String,
    pub rating: String,
    pub usersrated: i32,
    pub trading: i32,
    pub wanting: i32,
    pub wishing: i32,
    pub numcomments: i32,
    pub numweights: i32,
    pub links: Vec<Link>,
}

impl View for BoardGame {
    type V = RecordView;

    /// A catalogue entry is a record without a kind.
    open spec fn view(&self) -> RecordView {
        RecordView {
            id: self.id,
            kind: Seq::empty(),
            primary_name: self.primary_name@,
            description: self.description@,
            year_published: self.year_published,
            thumbnail_url: text_view(self.thumbnail_url),
            image_url: text_view(self.image_url),
            minage: self.minage,
            owners: self.owners,
            players: self.players,
            playtime: self.playtime,
            weight: self.weight@,
            rating: self.rating@,
            usersrated: self.usersrated,
            trading: self.trading,
            wanting: self.wanting,
            wishing: self.wishing,
            numcomments: self.numcomments,
            numweights: self.numweights,
            links: self.links.deep_view(),
        }
    }
}

impl BoardGame {
    /// An entry of which nothing is known: every number zero, every text
    /// empty, no picture, no link.
    pub fn new() -> (game: BoardGame)
        ensures
            game@ == blank(),
    {
        BoardGame::from_record(Record::new())
    }

    /// The catalogue entry that a record describes: the record without its
    /// kind.
    pub fn from_record(record: Record) -> (game: BoardGame)
        ensures
            game@ == (RecordView { kind: Seq::empty(), ..record@ }),
    {
        BoardGame {
            id: record.id,
            primary_name: record.primary_name,
            description: record.description,
            year_published: record.year_published,
            thumbnail_url: record.thumbnail_url,
            image_url: record.image_url,
            minage: record.minage,
            owners: record.owners,
            players: record.players,
            playtime: record.playtime,
            weight: record.weight,
            rating: record.rating,
            usersrated: record.usersrated,
            trading: record.trading,
            wanting: record.wanting,
            wishing: record.wishing,
            numcomments: record.numcomments,
            numweights: record.numweights,
            links: record.links,
        }
    }
}

/// No event of a catalogue entry touches the kind of the record.
pub proof fn lemma_catalog_keeps_kind(state: ParserView, events: Seq<EventView>)
    ensures
        after_events(Shape::Catalog, state, events).record.kind == state.record.kind,
    decreases events.len(),
{
    if events.len() > 0 {
        lemma_catalog_keeps_kind(state, events.drop_last());
    }
}

/// What `parse` owes for a document: the entry that its events describe,
/// and [`Error::InvalidXML`] where the bytes are no document.
pub open spec fn boardgame_of(bytes: Seq<u8>) -> Result<RecordView, Error> {
    match document_events(bytes) {
        Some(events) => Ok(record_of(Shape::Catalog, events)),
        None => Err(Error::InvalidXML),
    }
}

/// What a result of `parse` holds.
pub open spec fn boardgame_view(parsed: Result<BoardGame, Error>) -> Result<RecordView, Error> {
    match parsed {
        Ok(game) => Ok(game@),
        Err(error) => Err(error),
    }
}

/// A reader of catalogue entries, at the start of a document.
pub struct BoardGameParser {
    parser: Parser,
}

impl View for BoardGameParser {
    type V = ParserView;

    closed spec fn view(&self) -> ParserView {
        self.parser@
    }
}

impl BoardGameParser {
    #[verifier::type_invariant]
    spec fn well_formed(self) -> bool {
        self.parser.shape() == Shape::Catalog && self.parser@ == fresh()
    }

    /// A reader at the start of a document: no element open, nothing known.
    pub fn new() -> (parser: BoardGameParser)
        ensures
            parser@ == fresh(),
    {
        BoardGameParser { parser: Parser::new(Shape::Catalog) }
    }

    /// Reads a run of events into a catalogue entry.
    pub fn read(self, events: &Vec<Event>) -> (game: BoardGame)
        ensures
            game@ == record_of(Shape::Catalog, events.deep_view()),
            game.players.start <= game.players.end,
            game.playtime.start <= game.playtime.end,
    {
        proof {
            use_type_invariant(&self);
            lemma_catalog_keeps_kind(fresh(), events.deep_view());
        }
        BoardGame::from_record(self.parser.read(events))
    }

    /// Reads a document into a catalogue entry. Fails where the bytes are no
    /// XML document, and only there.
    pub fn parse(self, bytes: &[u8]) -> (parsed: Result<BoardGame, Error>)
        ensures
            boardgame_view(parsed) == boardgame_of(bytes@),
            parsed matches Ok(game) ==> game.players.start <= game.players.end
                && game.playtime.start <= game.playtime.end,
    {
        match events(bytes) {
            Ok(events) => Ok(self.read(&events)),
            Err(error) => Err(error),
        }
    }
}

/// Parsing is a function of the bytes alone: whatever `parse` gives for a
/// document, it gives every time, field for field, and where it fails it
/// fails every time in the same way.
pub proof fn lemma_parse_is_repeatable(
    bytes: Seq<u8>,
    first: Result<BoardGame, Error>,
    second: Result<BoardGame, Error>,
)
    requires
        boardgame_view(first) == boardgame_of(bytes),
        boardgame_view(second) == boardgame_of(bytes),
    ensures
        boardgame_view(first) == boardgame_view(second),
        first.is_ok() == second.is_ok(),
        first.is_ok() == document_events(bytes).is_some(),
        first matches Ok(one) ==> second matches Ok(other) && one@ == other@,
        first matches Err(one) ==> second matches Err(other) && one == other
            && one == Error::InvalidXML,
{
}

} // verus!
