//! Things: the records of the older kind of document.

use crate::parsers::engine::{Parser, ParserView, Shape, fresh, record_of};
use crate::record::{Record, RecordView, blank, text_view};
use crate::result::Error;
use crate::xml::{Event, document_events, events};
use vstd::prelude::*;

pub use crate::record::Link;

verus! {

/// A game, as an `item` element describes it.
///
/// The two averages, `weight` and `rating`, are kept as the document writes
/// them, as decimal text; the text is empty where the document gives no
/// average.
#[derive(Debug, PartialEq, Eq)]
pub struct Thing {
    pub id: i64,
    pub thing_type: String,
    pub primary_name: String,
    pub description: String,
    pub year_published: i32,
    pub thumbnail_url: Option<String>,
    pub image_url: Option<String>,
    pub minage: i32,
    pub owners: i32,
    pub players: std::ops::Range<i32>,
    pub playtime: std::ops::Range<i32>,
    pub weight: String,
    pub rating: String,
    pub usersrated: i32,
    pub trading: i32,
    pub wanting: i32,
    pub wishing: i32,
    pub numcomments: i32,
    pub numweights: i32,
    pub links: Vec<Link>,
}

impl View for Thing {
    type V = RecordView;

    open spec fn view(&self) -> RecordView {
        RecordView {
            id: self.id,
            kind: self.thing_type@,
            primary_name: self.primary_name@,
            description: self.description@,
            year_published: self.year_published,
            thumbnail_url: text_view(self.thumbnail_url),
            image_url: text_view(self.image_url),
            minage: self.minage,
            owners: self.owners,
            players: self.players,
            playtime: self.playtime,
            weight: self.weight@,
            rating: self.rating@,
            usersrated: self.usersrated,
            trading: self.trading,
            wanting: self.wanting,
            wishing: self.wishing,
            numcomments: self.numcomments,
            numweights: self.numweights,
            links: self.links.deep_view(),
        }
    }
}

impl Thing {
    /// A thing of which nothing is known: every number zero, every text
    /// empty, no picture, no link.
    pub fn new() -> (thing: Thing)
        ensures
            thing@ == blank(),
    {
        Thing::from_record(Record::new())
    }

    /// The thing that a record describes.
    pub fn from_record(record: Record) -> (thing: Thing)
        ensures
            thing@ == record@,
    {
        Thing {
            id: record.id,
            thing_type: record.kind,
            primary_name: record.primary_name,
            description: record.description,
            year_published: record.year_published,
            thumbnail_url: record.thumbnail_url,
            image_url: record.image_url,
            minage: record.minage,
            owners: record.owners,
            players: record.players,
            playtime: record.playtime,
            weight: record.weight,
            rating: record.rating,
            usersrated: record.usersrated,
            trading: record.trading,
            wanting: record.wanting,
            wishing: record.wishing,
            numcomments: record.numcomments,
            numweights: record.numweights,
            links: record.links,
        }
    }
}

/// What `parse` owes for a document: the thing that its events describe,
/// and [`Error::InvalidXML`] where the bytes are no document.
pub open spec fn thing_of(bytes: Seq<u8>) -> Result<RecordView, Error> {
    match document_events(bytes) {
        Some(events) => Ok(record_of(Shape::Legacy, events)),
        None => Err(Error::InvalidXML),
    }
}

/// What a result of `parse` holds.
pub open spec fn thing_view(parsed: Result<Thing, Error>) -> Result<RecordView, Error> {
    match parsed {
        Ok(thing) => Ok(thing@),
        Err(error) => Err(error),
    }
}

/// A reader of the older kind of document, at the start of a document.
pub struct ThingParser {
    parser: Parser,
}

impl View for ThingParser {
    type V = ParserView;

    closed spec fn view(&self) -> ParserView {
        self.parser@
    }
}

impl ThingParser {
    #[verifier::type_invariant]
    spec fn well_formed(self) -> bool {
        self.parser.shape() == Shape::Legacy && self.parser@ == fresh()
    }

    /// A reader at the start of a document: no element open, nothing known.
    pub fn new() -> (parser: ThingParser)
        ensures
            parser@ == fresh(),
    {
        ThingParser { parser: Parser::new(Shape::Legacy) }
    }

    /// Reads a run of events into a thing.
    pub fn read(self, events: &Vec<Event>) -> (thing: Thing)
        ensures
            thing@ == record_of(Shape::Legacy, events.deep_view()),
            thing.players.start <= thing.players.end,
            thing.playtime.start <= thing.playtime.end,
    {
        proof {
            use_type_invariant(&self);
        }
        Thing::from_record(self.parser.read(events))
    }

    /// Reads a document into a thing. Fails where the bytes are no XML
    /// document, and only there.
    pub fn parse(self, bytes: &[u8]) -> (parsed: Result<Thing, Error>)
        ensures
            thing_view(parsed) == thing_of(bytes@),
            parsed matches Ok(thing) ==> thing.players.start <= thing.players.end
                && thing.playtime.start <= thing.playtime.end,
    {
        match events(bytes) {
            Ok(events) => Ok(self.read(&events)),
            Err(error) => Err(error),
        }
    }
}

/// Parsing is a function of the bytes alone: whatever `parse` gives for a
/// document, it gives every time, field for field, and where it fails it
/// fails every time in the same way.
pub proof fn lemma_parse_is_repeatable(
    bytes: Seq<u8>,
    first: Result<Thing, Error>,
    second: Result<Thing, Error>,
)
    requires
        thing_view(first) == thing_of(bytes),
        thing_view(second) == thing_of(bytes),
    ensures
        thing_view(first) == thing_view(second),
        first.is_ok() == second.is_ok(),
        first.is_ok() == document_events(bytes).is_some(),
        first matches Ok(one) ==> second matches Ok(other) && one@ == other@,
        first matches Err(one) ==> second matches Err(other) && one == other
            && one == Error::InvalidXML,
{
}

} // verus!
