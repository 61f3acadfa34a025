//! The record of one game, as both kinds of document describe it.

use vstd::prelude::*;

verus! {

/// A reference from a game to something else in the catalogue: a category, a
/// mechanic, a designer, an expansion.
#[derive(Debug, PartialEq, Eq)]
pub struct Link {
    pub id: i64,
    pub link_type: String,
    pub value: String,
}

/// What a [`Link`] holds.
pub struct LinkView {
    pub id: i64,
    pub link_type: Seq<char>,
    pub value: Seq<char>,
}

impl View for Link {
    type V = LinkView;

    open spec fn view(&self) -> LinkView {
        LinkView { id: self.id, link_type: self.link_type@, value: self.value@ }
    }
}

impl DeepView for Link {
    type V = LinkView;

    open spec fn deep_view(&self) -> LinkView {
        self@
    }
}

/// Everything that a document can say about one game.
///
/// The two averages are kept as the document writes them, as decimal text;
/// the text is empty where the document gives no average. The kind is what
/// an `item` element calls its type, and stays empty in a catalogue entry.
#[derive(Debug, PartialEq, Eq)]
pub struct Record {
    pub id: i64,
    pub kind: String,
    pub primary_name: String,
    pub description: String,
    pub year_published: i32,
    pub thumbnail_url: Option<String>,
    pub image_url: Option<String>,
    pub minage: i32,
    pub owners: i32,
    pub players: std::ops::Range<i32>,
    pub playtime: std::ops::Range<i32>,
    pub weight: String,
    pub rating: String,
    pub usersrated: i32,
    pub trading: i32,
    pub wanting: i32,
    pub wishing: i32,
    pub numcomments: i32,
    pub numweights: i32,
    pub links: Vec<Link>,
}

/// What a [`Record`] holds.
pub struct RecordView {
    pub id: i64,
    pub kind: Seq<char>,
    pub primary_name: Seq<char>,
    pub description: Seq<char>,
    pub year_published: i32,
    pub thumbnail_url: Option<Seq<char>>,
    pub image_url: Option<Seq<char>>,
    pub minage: i32,
    pub owners: i32,
    pub players: std::ops::Range<i32>,
    pub playtime: std::ops::Range<i32>,
    pub weight: Seq<char>,
    pub rating: Seq<char>,
    pub usersrated: i32,
    pub trading: i32,
    pub wanting: i32,
    pub wishing: i32,
    pub numcomments: i32,
    pub numweights: i32,
    pub links: Seq<LinkView>,
}

/// What an optional text holds.
pub open spec fn text_view(text: Option<String>) -> Option<Seq<char>> {
    match text {
        Some(text) => Some(text@),
        None => None,
    }
}

impl View for Record {
    type V = RecordView;

    open spec fn view(&self) -> RecordView {
        RecordView {
            id: self.id,
            kind: self.kind@,
            primary_name: self.primary_name@,
            description: self.description@,
            year_published: self.year_published,
            thumbnail_url: text_view(self.thumbnail_url),
            image_url: text_view(self.image_url),
            minage: self.minage,
            owners: self.owners,
            players: self.players,
            playtime: self.playtime,
            weight: self.weight@,
            rating: self.rating@,
            usersrated: self.usersrated,
            trading: self.trading,
            wanting: self.wanting,
            wishing: self.wishing,
            numcomments: self.numcomments,
            numweights: self.numweights,
            links: self.links.deep_view(),
        }
    }
}

/// The record of a document that says nothing: every number zero, every
/// text empty, no picture, no link.
pub open spec fn blank() -> RecordView {
    RecordView {
        id: 0,
        kind: Seq::empty(),
        primary_name: Seq::empty(),
        description: Seq::empty(),
        year_published: 0,
        thumbnail_url: None,
        image_url: None,
        minage: 0,
        owners: 0,
        players: 0..0,
        playtime: 0..0,
        weight: Seq::empty(),
        rating: Seq::empty(),
        usersrated: 0,
        trading: 0,
        wanting: 0,
        wishing: 0,
        numcomments: 0,
        numweights: 0,
        links: Seq::empty(),
    }
}

impl Record {
    /// A record that says nothing yet.
    pub fn new() -> (record: Record)
        ensures
            record@ == blank(),
    {
        let record = Record {
            id: 0,
            kind: String::new(),
            primary_name: String::new(),
            description: String::new(),
            year_published: 0,
            thumbnail_url: None,
            image_url: None,
            minage: 0,
            owners: 0,
            players: 0..0,
            playtime: 0..0,
            weight: String::new(),
            rating: String::new(),
            usersrated: 0,
            trading: 0,
            wanting: 0,
            wishing: 0,
            numcomments: 0,
            numweights: 0,
            links: Vec::new(),
        };
        assert(record.links.deep_view() =~= Seq::empty());
        record
    }
}

} // verus!
