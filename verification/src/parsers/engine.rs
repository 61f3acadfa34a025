//! The reader that both kinds of game document share.
//!
//! A document is read in one pass over its events. The reader keeps the
//! names of the elements that are open, innermost last, and a record that
//! it fills as it goes. Which field an element fills depends on its name,
//! for some names on the element around it, and in a few places on the kind
//! of document.

use crate::record::{Link, LinkView, Record, RecordView, blank};
use crate::xml::{
    Attribute, AttributeView, Event, EventView, attr_value, num_or_zero, number_or_zero,
    same_text, string_for_attr,
};
use vstd::prelude::*;

verus! {

/// The two kinds of game document.
#[derive(Debug, Clone, Copy, PartialEq, Eq, Structural)]
pub enum Shape {
    /// A catalogue entry: a `boardgame` element, which writes most values as
    /// text inside elements.
    Catalog,
    /// The older form: an `item` element, which writes its values in `value`
    /// attributes.
    Legacy,
}

/// A field of the record that a document fills from a text.
#[derive(Debug, Clone, Copy, PartialEq, Eq, Structural)]
pub enum Field {
    YearPublished,
    MinPlayers,
    MaxPlayers,
    MinPlaytime,
    MaxPlaytime,
    MinAge,
    UsersRated,
    Owners,
    Trading,
    Wanting,
    Wishing,
    NumComments,
    NumWeights,
    Rating,
    Weight,
    Description,
    Image,
    Thumbnail,
    PrimaryName,
}

/// The record with one field taken from `text`. A field that holds a number
/// takes the number that the text starts with, and zero where it starts with
/// none; a field that holds text takes the text as it is.
pub open spec fn with_field(record: RecordView, field: Field, text: Seq<char>) -> RecordView {
    let number = number_or_zero::<i32>(text);
    match field {
        Field::YearPublished => RecordView { year_published: number, ..record },
        Field::MinPlayers => RecordView { players: number..record.players.end, ..record },
        Field::MaxPlayers => RecordView { players: record.players.start..number, ..record },
        Field::MinPlaytime => RecordView { playtime: number..record.playtime.end, ..record },
        Field::MaxPlaytime => RecordView { playtime: record.playtime.start..number, ..record },
        Field::MinAge => RecordView { minage: number, ..record },
        Field::UsersRated => RecordView { usersrated: number, ..record },
        Field::Owners => RecordView { owners: number, ..record },
        Field::Trading => RecordView { trading: number, ..record },
        Field::Wanting => RecordView { wanting: number, ..record },
        Field::Wishing => RecordView { wishing: number, ..record },
        Field::NumComments => RecordView { numcomments: number, ..record },
        Field::NumWeights => RecordView { numweights: number, ..record },
        Field::Rating => RecordView { rating: text, ..record },
        Field::Weight => RecordView { weight: text, ..record },
        Field::Description => RecordView { description: text, ..record },
        Field::Image => RecordView { image_url: Some(text), ..record },
        Field::Thumbnail => RecordView { thumbnail_url: Some(text), ..record },
        Field::PrimaryName => RecordView { primary_name: text, ..record },
    }
}

impl Record {
    /// Takes one field from `text`.
    pub fn set(&mut self, field: Field, text: String)
        ensures
            final(self)@ == with_field(old(self)@, field, text@),
    {
        match field {
            Field::YearPublished => self.year_published = num_or_zero(text),
            Field::MinPlayers => self.players.start = num_or_zero(text),
            Field::MaxPlayers => self.players.end = num_or_zero(text),
            Field::MinPlaytime => self.playtime.start = num_or_zero(text),
            Field::MaxPlaytime => self.playtime.end = num_or_zero(text),
            Field::MinAge => self.minage = num_or_zero(text),
            Field::UsersRated => self.usersrated = num_or_zero(text),
            Field::Owners => self.owners = num_or_zero(text),
            Field::Trading => self.trading = num_or_zero(text),
            Field::Wanting => self.wanting = num_or_zero(text),
            Field::Wishing => self.wishing = num_or_zero(text),
            Field::NumComments => self.numcomments = num_or_zero(text),
            Field::NumWeights => self.numweights = num_or_zero(text),
            Field::Rating => self.rating = text,
            Field::Weight => self.weight = text,
            Field::Description => self.description = text,
            Field::Image => self.image_url = Some(text),
            Field::Thumbnail => self.thumbnail_url = Some(text),
            Field::PrimaryName => self.primary_name = text,
        }
    }
}

/// The field that an element fills from its `value` attribute, for the
/// names that count only directly inside a `ratings` element.
pub open spec fn rated_field(name: Seq<char>) -> Option<Field> {
    if name == "usersrated"@ {
        Some(Field::UsersRated)
    } else if name == "average"@ {
        Some(Field::Rating)
    } else if name == "averageweight"@ {
        Some(Field::Weight)
    } else if name == "owned"@ {
        Some(Field::Owners)
    } else if name == "trading"@ {
        Some(Field::Trading)
    } else if name == "wanting"@ {
        Some(Field::Wanting)
    } else if name == "wishing"@ {
        Some(Field::Wishing)
    } else if name == "numcomments"@ {
        Some(Field::NumComments)
    } else if name == "numweights"@ {
        Some(Field::NumWeights)
    } else {
        None
    }
}

/// The field that an element fills from its `value` attribute wherever it
/// stands.
pub open spec fn plain_field(name: Seq<char>) -> Option<Field> {
    if name == "yearpublished"@ {
        Some(Field::YearPublished)
    } else if name == "minplayers"@ {
        Some(Field::MinPlayers)
    } else if name == "maxplayers"@ {
        Some(Field::MaxPlayers)
    } else if name == "minplaytime"@ {
        Some(Field::MinPlaytime)
    } else if name == "maxplaytime"@ {
        Some(Field::MaxPlaytime)
    } else if name == "minage"@ {
        Some(Field::MinAge)
    } else {
        None
    }
}

/// The field that the text inside an element fills, by the name on top of
/// the stack. Both kinds of document write the description and the two
/// pictures as text. A catalogue entry also writes its numbers so, the
/// minimum age under the name `age`, and its primary name under the name
/// that stands in for a `name` element marked as primary.
pub open spec fn text_field(shape: Shape, name: Seq<char>) -> Option<Field> {
    if name == "description"@ {
        Some(Field::Description)
    } else if name == "image"@ {
        Some(Field::Image)
    } else if name == "thumbnail"@ {
        Some(Field::Thumbnail)
    } else if shape == Shape::Legacy {
        None
    } else if name == "yearpublished"@ {
        Some(Field::YearPublished)
    } else if name == "minplayers"@ {
        Some(Field::MinPlayers)
    } else if name == "maxplayers"@ {
        Some(Field::MaxPlayers)
    } else if name == "minplaytime"@ {
        Some(Field::MinPlaytime)
    } else if name == "maxplaytime"@ {
        Some(Field::MaxPlaytime)
    } else if name == "age"@ {
        Some(Field::MinAge)
    } else if name == "primary_name"@ {
        Some(Field::PrimaryName)
    } else {
        None
    }
}

/// Looks `name` up among the names that count only inside `ratings`.
pub fn rated_field_for(name: &str) -> (field: Option<Field>)
    ensures
        field == rated_field(name@),
{
    if same_text(name, "usersrated") {
        Some(Field::UsersRated)
    } else if same_text(name, "average") {
        Some(Field::Rating)
    } else if same_text(name, "averageweight") {
        Some(Field::Weight)
    } else if same_text(name, "owned") {
        Some(Field::Owners)
    } else if same_text(name, "trading") {
        Some(Field::Trading)
    } else if same_text(name, "wanting") {
        Some(Field::Wanting)
    } else if same_text(name, "wishing") {
        Some(Field::Wishing)
    } else if same_text(name, "numcomments") {
        Some(Field::NumComments)
    } else if same_text(name, "numweights") {
        Some(Field::NumWeights)
    } else {
        None
    }
}

/// Looks `name` up among the names that count wherever they stand.
pub fn plain_field_for(name: &str) -> (field: Option<Field>)
    ensures
        field == plain_field(name@),
{
    if same_text(name, "yearpublished") {
        Some(Field::YearPublished)
    } else if same_text(name, "minplayers") {
        Some(Field::MinPlayers)
    } else if same_text(name, "maxplayers") {
        Some(Field::MaxPlayers)
    } else if same_text(name, "minplaytime") {
        Some(Field::MinPlaytime)
    } else if same_text(name, "maxplaytime") {
        Some(Field::MaxPlaytime)
    } else if same_text(name, "minage") {
        Some(Field::MinAge)
    } else {
        None
    }
}

/// Looks up the field that the text inside the element `name` fills.
pub fn text_field_for(shape: Shape, name: &str) -> (field: Option<Field>)
    ensures
        field == text_field(shape, name@),
{
    if same_text(name, "description") {
        Some(Field::Description)
    } else if same_text(name, "image") {
        Some(Field::Image)
    } else if same_text(name, "thumbnail") {
        Some(Field::Thumbnail)
    } else if shape == Shape::Legacy {
        None
    } else if same_text(name, "yearpublished") {
        Some(Field::YearPublished)
    } else if same_text(name, "minplayers") {
        Some(Field::MinPlayers)
    } else if same_text(name, "maxplayers") {
        Some(Field::MaxPlayers)
    } else if same_text(name, "minplaytime") {
        Some(Field::MinPlaytime)
    } else if same_text(name, "maxplaytime") {
        Some(Field::MaxPlaytime)
    } else if same_text(name, "age") {
        Some(Field::MinAge)
    } else if same_text(name, "primary_name") {
        Some(Field::PrimaryName)
    } else {
        None
    }
}

/// What a reader holds in the middle of a document: the names of the
/// elements that are open, innermost last, and the record as far as it is
/// filled.
pub struct ParserView {
    pub stack: Seq<Seq<char>>,
    pub record: RecordView,
}

/// The reader before the first event: no element open, nothing known.
pub open spec fn fresh() -> ParserView {
    ParserView { stack: Seq::empty(), record: blank() }
}

/// Whether the innermost open element stands directly inside an element
/// called `name`.
pub open spec fn parent_is(stack: Seq<Seq<char>>, name: Seq<char>) -> bool {
    stack.len() >= 2 && stack[stack.len() - 2] == name
}

/// The name of the element whose attributes identify the game.
pub open spec fn root_name(shape: Shape) -> Seq<char> {
    match shape {
        Shape::Catalog => "boardgame"@,
        Shape::Legacy => "item"@,
    }
}

/// The name of the attribute that holds the game's id.
pub open spec fn id_name(shape: Shape) -> Seq<char> {
    match shape {
        Shape::Catalog => "objectid"@,
        Shape::Legacy => "id"@,
    }
}

/// The record after the element that identifies the game. The id is read
/// from the attribute that holds it; an older document also gives the kind
/// of thing, in the attribute `type`. A missing attribute changes nothing.
pub open spec fn identified(
    shape: Shape,
    record: RecordView,
    attributes: Seq<AttributeView>,
) -> RecordView {
    let id = match attr_value(attributes, id_name(shape)) {
        Some(text) => number_or_zero::<i64>(text),
        None => record.id,
    };
    let kind = match attr_value(attributes, "type"@) {
        Some(text) if shape == Shape::Legacy => text,
        _ => record.kind,
    };
    RecordView { id, kind, ..record }
}

/// The record after a `name` element: where the element is of type
/// `primary` and has a `value`, that value is the primary name.
pub open spec fn named(record: RecordView, attributes: Seq<AttributeView>) -> RecordView {
    match attr_value(attributes, "value"@) {
        Some(value) if attr_value(attributes, "type"@) == Some("primary"@) => RecordView {
            primary_name: value,
            ..record
        },
        _ => record,
    }
}

/// Whether a `name` element says that the text inside it is the primary
/// name. Only a catalogue entry does so.
pub open spec fn marks_primary(shape: Shape, attributes: Seq<AttributeView>) -> bool {
    shape == Shape::Catalog && attr_value(attributes, "primary"@) == Some("true"@)
}

/// The stack with the name of the innermost open element replaced.
pub open spec fn renamed(stack: Seq<Seq<char>>, name: Seq<char>) -> Seq<Seq<char>> {
    if stack.len() > 0 {
        stack.drop_last().push(name)
    } else {
        stack.push(name)
    }
}

/// The link that a `link` element describes. A missing attribute leaves
/// zero or an empty text.
pub open spec fn link_of(attributes: Seq<AttributeView>) -> LinkView {
    LinkView {
        id: match attr_value(attributes, "id"@) {
            Some(text) => number_or_zero::<i64>(text),
            None => 0,
        },
        link_type: match attr_value(attributes, "type"@) {
            Some(text) => text,
            None => Seq::empty(),
        },
        value: match attr_value(attributes, "value"@) {
            Some(text) => text,
            None => Seq::empty(),
        },
    }
}

/// The record with `field` taken from the attribute `value`, where the
/// element has one.
pub open spec fn valued(record: RecordView, field: Field, attributes: Seq<AttributeView>) -> RecordView {
    match attr_value(attributes, "value"@) {
        Some(text) => with_field(record, field, text),
        None => record,
    }
}

/// The reader after the start of an element called `name`, whose name is
/// already on the stack.
///
/// A name that counts only inside `ratings` fills its field where the
/// element stands directly inside a `ratings` element, and is passed over
/// anywhere else.
pub open spec fn started(
    shape: Shape,
    state: ParserView,
    name: Seq<char>,
    attributes: Seq<AttributeView>,
) -> ParserView {
    match rated_field(name) {
        Some(field) => if parent_is(state.stack, "ratings"@) {
            ParserView { record: valued(state.record, field, attributes), ..state }
        } else {
            state
        },
        None => if name == root_name(shape) {
            ParserView { record: identified(shape, state.record, attributes), ..state }
        } else if name == "name"@ {
            ParserView {
                stack: if marks_primary(shape, attributes) {
                    renamed(state.stack, "primary_name"@)
                } else {
                    state.stack
                },
                record: named(state.record, attributes),
            }
        } else if name == "link"@ {
            ParserView {
                record: RecordView {
                    links: state.record.links.push(link_of(attributes)),
                    ..state.record
                },
                ..state
            }
        } else {
            match plain_field(name) {
                Some(field) => ParserView {
                    record: valued(state.record, field, attributes),
                    ..state
                },
                None => state,
            }
        },
    }
}

/// The reader after a piece of text. The innermost open element decides
/// which field the text fills; text outside every element fills none.
pub open spec fn texted(shape: Shape, state: ParserView, text: Seq<char>) -> ParserView {
    if state.stack.len() == 0 {
        state
    } else {
        match text_field(shape, state.stack.last()) {
            Some(field) => ParserView { record: with_field(state.record, field, text), ..state },
            None => state,
        }
    }
}

/// The stack after an element has closed.
pub open spec fn closed(stack: Seq<Seq<char>>) -> Seq<Seq<char>> {
    if stack.len() > 0 {
        stack.drop_last()
    } else {
        stack
    }
}

/// The reader after one event.
pub open spec fn after_event(shape: Shape, state: ParserView, event: EventView) -> ParserView {
    match event {
        EventView::StartElement { name, attributes } => started(
            shape,
            ParserView { stack: state.stack.push(name), ..state },
            name,
            attributes,
        ),
        EventView::EndElement => ParserView { stack: closed(state.stack), ..state },
        EventView::Characters(text) => texted(shape, state, text),
        EventView::Other => state,
    }
}

/// The reader after a run of events, taken in order.
pub open spec fn after_events(shape: Shape, state: ParserView, events: Seq<EventView>) -> ParserView
    decreases events.len(),
{
    if events.len() == 0 {
        state
    } else {
        after_event(shape, after_events(shape, state, events.drop_last()), events.last())
    }
}

/// A range whose end is raised to its start where it lay below it.
pub open spec fn ordered(range: std::ops::Range<i32>) -> std::ops::Range<i32> {
    if range.end < range.start {
        range.start..range.start
    } else {
        range
    }
}

/// The record as it is handed out: both ranges in order.
pub open spec fn scrubbed(record: RecordView) -> RecordView {
    RecordView { players: ordered(record.players), playtime: ordered(record.playtime), ..record }
}

/// The record that a run of events describes, read from the start.
pub open spec fn record_of(shape: Shape, events: Seq<EventView>) -> RecordView {
    scrubbed(after_events(shape, fresh(), events).record)
}

/// A reader in the middle of a document.
pub struct Parser {
    shape: Shape,
    stack: Vec<String>,
    record: Record,
}

impl View for Parser {
    type V = ParserView;

    closed spec fn view(&self) -> ParserView {
        ParserView { stack: self.stack.deep_view(), record: self.record@ }
    }
}

/// The names of a stack after one more name is put on top.
proof fn lemma_pushed(before: Vec<String>, after: Vec<String>, name: String)
    requires
        after@ == before@.push(name),
    ensures
        after.deep_view() == before.deep_view().push(name@),
{
    assert(after.deep_view() =~= before.deep_view().push(name@));
}

/// The names of a stack after the top name is taken off.
proof fn lemma_popped(before: Vec<String>, after: Vec<String>)
    requires
        before@.len() > 0,
        after@ == before@.drop_last(),
    ensures
        after.deep_view() == before.deep_view().drop_last(),
{
    assert(after.deep_view() =~= before.deep_view().drop_last());
}

impl Parser {
    /// The kind of document that this reader reads.
    pub closed spec fn shape(&self) -> Shape {
        self.shape
    }

    /// A reader at the start of a document.
    pub fn new(shape: Shape) -> (parser: Parser)
        ensures
            parser.shape() == shape,
            parser@ == fresh(),
    {
        let parser = Parser { shape, stack: Vec::new(), record: Record::new() };
        assert(parser.stack.deep_view() =~= Seq::empty());
        parser
    }

    /// Whether the innermost open element stands directly inside an element
    /// called `name`.
    pub fn parent_is(&self, name: &str) -> (inside: bool)
        ensures
            inside == parent_is(self@.stack, name@),
    {
        let depth = self.stack.len();
        depth >= 2 && same_text(self.stack[depth - 2].as_str(), name)
    }

    /// Reads one event.
    pub fn on_event(&mut self, event: &Event)
        ensures
            final(self).shape() == old(self).shape(),
            final(self)@ == after_event(old(self).shape(), old(self)@, event@),
    {
        match event {
            Event::StartElement { name, attributes } => {
                let ghost before = self.stack;
                self.stack.push(name.clone());
                proof {
                    lemma_pushed(before, self.stack, *name);
                }
                self.on_start_element(name.as_str(), attributes);
            },
            Event::EndElement => {
                let ghost before = self.stack;
                self.stack.pop();
                proof {
                    if before@.len() > 0 {
                        lemma_popped(before, self.stack);
                    }
                }
            },
            Event::Characters(text) => {
                self.on_characters(text.as_str());
            },
            Event::Other => {},
        }
    }

    /// Reads the start of an element whose name is already on the stack.
    pub fn on_start_element(&mut self, name: &str, attributes: &Vec<Attribute>)
        ensures
            final(self).shape() == old(self).shape(),
            final(self)@ == started(old(self).shape(), old(self)@, name@, attributes.deep_view()),
    {
        match rated_field_for(name) {
            Some(field) => {
                if self.parent_is("ratings") {
                    self.take_value(field, attributes);
                }
            },
            None => {
                if same_text(name, self.root_name()) {
                    self.identify(attributes);
                } else if same_text(name, "name") {
                    self.take_name(attributes);
                } else if same_text(name, "link") {
                    self.take_link(attributes);
                } else {
                    match plain_field_for(name) {
                        Some(field) => self.take_value(field, attributes),
                        None => {},
                    }
                }
            },
        }
    }

    /// Reads a piece of text.
    pub fn on_characters(&mut self, chars: &str)
        ensures
            final(self).shape() == old(self).shape(),
            final(self)@ == texted(old(self).shape(), old(self)@, chars@),
    {
        let depth = self.stack.len();
        if depth > 0 {
            match text_field_for(self.shape, self.stack[depth - 1].as_str()) {
                Some(field) => self.record.set(field, chars.to_owned()),
                None => {},
            }
        }
    }

    /// Puts both ranges in order: an end below its start is raised to it.
    pub fn scrub(&mut self)
        ensures
            final(self).shape() == old(self).shape(),
            final(self)@ == (ParserView { record: scrubbed(old(self)@.record), ..old(self)@ }),
            final(self)@.record.players.start <= final(self)@.record.players.end,
            final(self)@.record.playtime.start <= final(self)@.record.playtime.end,
    {
        if self.record.players.end < self.record.players.start {
            self.record.players.end = self.record.players.start;
        }
        if self.record.playtime.end < self.record.playtime.start {
            self.record.playtime.end = self.record.playtime.start;
        }
    }

    /// Reads a run of events in order, puts the ranges in order, and hands
    /// the record out.
    pub fn read(self, events: &Vec<Event>) -> (record: Record)
        ensures
            record@ == scrubbed(after_events(self.shape(), self@, events.deep_view()).record),
            record@.players.start <= record@.players.end,
            record@.playtime.start <= record@.playtime.end,
    {
        let mut parser = self;
        let mut i: usize = 0;
        proof {
            assert(events.deep_view().take(0) =~= Seq::empty());
        }
        while i < events.len()
            invariant
                i <= events.len(),
                parser.shape() == self.shape(),
                parser@ == after_events(self.shape(), self@, events.deep_view().take(i as int)),
            decreases events.len() - i,
        {
            proof {
                let next = events.deep_view().take(i as int + 1);
                assert(next.drop_last() =~= events.deep_view().take(i as int));
                assert(next.last() == events[i as int]@);
            }
            parser.on_event(&events[i]);
            i += 1;
        }
        proof {
            assert(events.deep_view().take(i as int) =~= events.deep_view());
        }
        parser.scrub();
        parser.record
    }

    fn root_name(&self) -> (name: &'static str)
        ensures
            name@ == root_name(self.shape()),
    {
        match self.shape {
            Shape::Catalog => "boardgame",
            Shape::Legacy => "item",
        }
    }

    fn id_name(&self) -> (name: &'static str)
        ensures
            name@ == id_name(self.shape()),
    {
        match self.shape {
            Shape::Catalog => "objectid",
            Shape::Legacy => "id",
        }
    }

    fn take_value(&mut self, field: Field, attributes: &Vec<Attribute>)
        ensures
            final(self).shape() == old(self).shape(),
            final(self)@ == (ParserView {
                record: valued(old(self)@.record, field, attributes.deep_view()),
                ..old(self)@
            }),
    {
        match string_for_attr(attributes, "value") {
            Some(text) => self.record.set(field, text),
            None => {},
        }
    }

    fn identify(&mut self, attributes: &Vec<Attribute>)
        ensures
            final(self).shape() == old(self).shape(),
            final(self)@ == (ParserView {
                record: identified(old(self).shape(), old(self)@.record, attributes.deep_view()),
                ..old(self)@
            }),
    {
        match string_for_attr(attributes, self.id_name()) {
            Some(text) => self.record.id = num_or_zero(text),
            None => {},
        }
        if self.shape == Shape::Legacy {
            match string_for_attr(attributes, "type") {
                Some(text) => self.record.kind = text,
                None => {},
            }
        }
    }

    fn take_name(&mut self, attributes: &Vec<Attribute>)
        ensures
            final(self).shape() == old(self).shape(),
            final(self)@ == (ParserView {
                stack: if marks_primary(old(self).shape(), attributes.deep_view()) {
                    renamed(old(self)@.stack, "primary_name"@)
                } else {
                    old(self)@.stack
                },
                record: named(old(self)@.record, attributes.deep_view()),
            }),
    {
        if has_text(&string_for_attr(attributes, "type"), "primary") {
            match string_for_attr(attributes, "value") {
                Some(value) => self.record.primary_name = value,
                None => {},
            }
        }
        if self.shape == Shape::Catalog && has_text(&string_for_attr(attributes, "primary"), "true") {
            let ghost before = self.stack;
            self.stack.pop();
            let ghost between = self.stack;
            let top = "primary_name".to_owned();
            self.stack.push(top);
            proof {
                if before@.len() > 0 {
                    lemma_popped(before, between);
                }
                lemma_pushed(between, self.stack, top);
            }
        }
    }

    fn take_link(&mut self, attributes: &Vec<Attribute>)
        ensures
            final(self).shape() == old(self).shape(),
            final(self)@ == (ParserView {
                record: RecordView {
                    links: old(self)@.record.links.push(link_of(attributes.deep_view())),
                    ..old(self)@.record
                },
                ..old(self)@
            }),
    {
        let mut link = Link { id: 0, link_type: String::new(), value: String::new() };
        match string_for_attr(attributes, "id") {
            Some(text) => link.id = num_or_zero(text),
            None => {},
        }
        match string_for_attr(attributes, "type") {
            Some(text) => link.link_type = text,
            None => {},
        }
        match string_for_attr(attributes, "value") {
            Some(text) => link.value = text,
            None => {},
        }
        let ghost before = self.record.links;
        self.record.links.push(link);
        assert(self.record.links.deep_view() =~= before.deep_view().push(link@));
    }
}

/// Whether `found` holds exactly the text `wanted`.
fn has_text(found: &Option<String>, wanted: &str) -> (same: bool)
    ensures
        same == (crate::record::text_view(*found) == Some(wanted@)),
{
    match found {
        Some(text) => same_text(text.as_str(), wanted),
        None => false,
    }
}

/// The number that a record holds in `field`; `None` for a field that
/// holds text.
pub open spec fn number_of(record: RecordView, field: Field) -> Option<i32> {
    match field {
        Field::YearPublished => Some(record.year_published),
        Field::MinPlayers => Some(record.players.start),
        Field::MaxPlayers => Some(record.players.end),
        Field::MinPlaytime => Some(record.playtime.start),
        Field::MaxPlaytime => Some(record.playtime.end),
        Field::MinAge => Some(record.minage),
        Field::UsersRated => Some(record.usersrated),
        Field::Owners => Some(record.owners),
        Field::Trading => Some(record.trading),
        Field::Wanting => Some(record.wanting),
        Field::Wishing => Some(record.wishing),
        Field::NumComments => Some(record.numcomments),
        Field::NumWeights => Some(record.numweights),
        _ => None,
    }
}

/// Every record that is handed out has both ranges in order, whatever the
/// document said: the greatest number of players is not below the least,
/// and the longest playing time not below the shortest.
pub proof fn lemma_ranges_in_order(shape: Shape, state: ParserView, events: Seq<EventView>)
    ensures
        ({
            let record = scrubbed(after_events(shape, state, events).record);
            &&& record.players.start <= record.players.end
            &&& record.playtime.start <= record.playtime.end
        }),
        record_of(shape, events).players.start <= record_of(shape, events).players.end,
        record_of(shape, events).playtime.start <= record_of(shape, events).playtime.end,
{
}

/// Putting the ranges in order changes nothing else, and a record whose
/// ranges are in order stays as it is.
pub proof fn lemma_scrubbed_once(record: RecordView)
    ensures
        scrubbed(scrubbed(record)) == scrubbed(record),
        scrubbed(record) == (RecordView {
            players: scrubbed(record).players,
            playtime: scrubbed(record).playtime,
            ..record
        }),
        scrubbed(record).players.start == record.players.start,
        scrubbed(record).playtime.start == record.playtime.start,
        record.players.start <= record.players.end ==> scrubbed(record).players == record.players,
        record.playtime.start <= record.playtime.end ==> scrubbed(record).playtime
            == record.playtime,
{
}

/// An element whose name counts only inside `ratings` fills its field where
/// it opens directly inside a `ratings` element, and there only: anywhere
/// else the record stays as it was, whatever attributes the element has.
pub proof fn lemma_rated_only_inside_ratings(
    shape: Shape,
    state: ParserView,
    name: Seq<char>,
    attributes: Seq<AttributeView>,
)
    requires
        rated_field(name).is_some(),
    ensures
        ({
            let after = after_event(shape, state, EventView::StartElement { name, attributes });
            let inside = state.stack.len() > 0 && state.stack.last() == "ratings"@;
            &&& after.stack == state.stack.push(name)
            &&& !inside ==> after.record == state.record
            &&& inside ==> after.record == valued(
                state.record,
                rated_field(name).unwrap(),
                attributes,
            )
        }),
{
}

/// A text that is no number does not stop the reader: the field that
/// should hold the number becomes zero, and every other number stays as it
/// was. It makes no difference whether the text stood inside an element or
/// in its `value` attribute.
pub proof fn lemma_malformed_number_gives_zero(
    record: RecordView,
    field: Field,
    text: Seq<char>,
    attributes: Seq<AttributeView>,
)
    requires
        number_of(record, field).is_some(),
        crate::xml::number_in::<i32>(text).is_none(),
    ensures
        number_of(with_field(record, field, text), field) == Some(0i32),
        forall|other: Field|
            other != field ==> #[trigger] number_of(with_field(record, field, text), other)
                == number_of(record, other),
        attr_value(attributes, "value"@) == Some(text) ==> number_of(
            valued(record, field, attributes),
            field,
        ) == Some(0i32),
{
}

/// An id that is no number is zero: the id of the game, and the id of a
/// link.
pub proof fn lemma_malformed_id_gives_zero(
    shape: Shape,
    record: RecordView,
    text: Seq<char>,
    attributes: Seq<AttributeView>,
)
    requires
        crate::xml::number_in::<i64>(text).is_none(),
    ensures
        attr_value(attributes, id_name(shape)) == Some(text) ==> identified(
            shape,
            record,
            attributes,
        ).id == 0,
        attr_value(attributes, "id"@) == Some(text) ==> link_of(attributes).id == 0,
{
}

/// The stack is as deep as the elements are nested: the start of an element
/// makes it one deeper, the end of one makes it one shallower, and nothing
/// else changes it. Where the start of a `name` element puts another name
/// in its place, only the top of the stack differs: every element around it
/// keeps its name.
pub proof fn lemma_stack_follows_nesting(shape: Shape, state: ParserView, event: EventView)
    ensures
        ({
            let after = after_event(shape, state, event);
            match event {
                EventView::StartElement { name, attributes } => {
                    &&& after.stack.len() == state.stack.len() + 1
                    &&& after.stack.drop_last() == state.stack
                    &&& after.stack.last() == if name == "name"@ && marks_primary(
                        shape,
                        attributes,
                    ) {
                        "primary_name"@
                    } else {
                        name
                    }
                },
                EventView::EndElement => {
                    &&& state.stack.len() > 0 ==> after.stack == state.stack.drop_last()
                    &&& state.stack.len() == 0 ==> after.stack == state.stack
                    &&& after.record == state.record
                },
                EventView::Characters(_) => after.stack == state.stack,
                EventView::Other => after == state,
            }
        }),
{
    lemma_names_differ();
    match event {
        EventView::StartElement { name, attributes } => {
            let pushed = state.stack.push(name);
            assert(pushed.drop_last() =~= state.stack);
            assert(renamed(pushed, "primary_name"@).drop_last() =~= state.stack);
        },
        _ => {},
    }
}

/// Every name of the reader's tables stands for itself: no two names are
/// the same text, so no entry hides another, and the order in which the
/// tables are searched makes no difference.
pub proof fn lemma_names_differ()
    ensures
        rated_field("usersrated"@) == Some(Field::UsersRated),
        rated_field("average"@) == Some(Field::Rating),
        rated_field("averageweight"@) == Some(Field::Weight),
        rated_field("owned"@) == Some(Field::Owners),
        rated_field("trading"@) == Some(Field::Trading),
        rated_field("wanting"@) == Some(Field::Wanting),
        rated_field("wishing"@) == Some(Field::Wishing),
        rated_field("numcomments"@) == Some(Field::NumComments),
        rated_field("numweights"@) == Some(Field::NumWeights),
        rated_field("boardgame"@).is_none(),
        rated_field("item"@).is_none(),
        rated_field("name"@).is_none(),
        rated_field("link"@).is_none(),
        rated_field("yearpublished"@).is_none(),
        rated_field("minplayers"@).is_none(),
        rated_field("maxplayers"@).is_none(),
        rated_field("minplaytime"@).is_none(),
        rated_field("maxplaytime"@).is_none(),
        rated_field("minage"@).is_none(),
        plain_field("yearpublished"@) == Some(Field::YearPublished),
        plain_field("minplayers"@) == Some(Field::MinPlayers),
        plain_field("maxplayers"@) == Some(Field::MaxPlayers),
        plain_field("minplaytime"@) == Some(Field::MinPlaytime),
        plain_field("maxplaytime"@) == Some(Field::MaxPlaytime),
        plain_field("minage"@) == Some(Field::MinAge),
        plain_field("boardgame"@).is_none(),
        plain_field("item"@).is_none(),
        plain_field("name"@).is_none(),
        plain_field("link"@).is_none(),
        "boardgame"@ != "name"@ && "boardgame"@ != "link"@,
        "item"@ != "name"@ && "item"@ != "link"@,
        "name"@ != "link"@,
        forall|shape: Shape| #[trigger] text_field(shape, "description"@) == Some(Field::Description),
        forall|shape: Shape| #[trigger] text_field(shape, "image"@) == Some(Field::Image),
        forall|shape: Shape| #[trigger] text_field(shape, "thumbnail"@) == Some(Field::Thumbnail),
        text_field(Shape::Catalog, "yearpublished"@) == Some(Field::YearPublished),
        text_field(Shape::Legacy, "yearpublished"@).is_none(),
        text_field(Shape::Catalog, "minplayers"@) == Some(Field::MinPlayers),
        text_field(Shape::Legacy, "minplayers"@).is_none(),
        text_field(Shape::Catalog, "maxplayers"@) == Some(Field::MaxPlayers),
        text_field(Shape::Legacy, "maxplayers"@).is_none(),
        text_field(Shape::Catalog, "minplaytime"@) == Some(Field::MinPlaytime),
        text_field(Shape::Legacy, "minplaytime"@).is_none(),
        text_field(Shape::Catalog, "maxplaytime"@) == Some(Field::MaxPlaytime),
        text_field(Shape::Legacy, "maxplaytime"@).is_none(),
        text_field(Shape::Catalog, "age"@) == Some(Field::MinAge),
        text_field(Shape::Legacy, "age"@).is_none(),
        text_field(Shape::Catalog, "primary_name"@) == Some(Field::PrimaryName),
        text_field(Shape::Legacy, "primary_name"@).is_none(),
{
    reveal_strlit("age");
    reveal_strlit("average");
    reveal_strlit("averageweight");
    reveal_strlit("boardgame");
    reveal_strlit("description");
    reveal_strlit("image");
    reveal_strlit("item");
    reveal_strlit("link");
    reveal_strlit("maxplayers");
    reveal_strlit("maxplaytime");
    reveal_strlit("minage");
    reveal_strlit("minplayers");
    reveal_strlit("minplaytime");
    reveal_strlit("name");
    reveal_strlit("numcomments");
    reveal_strlit("numweights");
    reveal_strlit("owned");
    reveal_strlit("primary_name");
    reveal_strlit("thumbnail");
    reveal_strlit("trading");
    reveal_strlit("usersrated");
    reveal_strlit("wanting");
    reveal_strlit("wishing");
    reveal_strlit("yearpublished");
    assert("age"@.len() == 3);
    assert("average"@.len() == 7);
    assert("averageweight"@.len() == 13);
    assert("boardgame"@.len() == 9);
    assert("description"@.len() == 11);
    assert("image"@.len() == 5);
    assert("item"@.len() == 4);
    assert("link"@.len() == 4);
    assert("maxplayers"@.len() == 10);
    assert("maxplaytime"@.len() == 11);
    assert("minage"@.len() == 6);
    assert("minplayers"@.len() == 10);
    assert("minplaytime"@.len() == 11);
    assert("name"@.len() == 4);
    assert("numcomments"@.len() == 11);
    assert("numweights"@.len() == 10);
    assert("owned"@.len() == 5);
    assert("primary_name"@.len() == 12);
    assert("thumbnail"@.len() == 9);
    assert("trading"@.len() == 7);
    assert("usersrated"@.len() == 10);
    assert("wanting"@.len() == 7);
    assert("wishing"@.len() == 7);
    assert("yearpublished"@.len() == 13);
    assert("average"@[0] != "trading"@[0]);
    assert("average"@[0] != "wanting"@[0]);
    assert("average"@[0] != "wishing"@[0]);
    assert("averageweight"@[0] != "yearpublished"@[0]);
    assert("boardgame"@[0] != "thumbnail"@[0]);
    assert("description"@[0] != "maxplaytime"@[0]);
    assert("description"@[0] != "minplaytime"@[0]);
    assert("description"@[0] != "numcomments"@[0]);
    assert("image"@[0] != "owned"@[0]);
    assert("item"@[0] != "link"@[0]);
    assert("item"@[0] != "name"@[0]);
    assert("link"@[0] != "name"@[0]);
    assert("maxplayers"@[1] != "minplayers"@[1]);
    assert("maxplayers"@[0] != "numweights"@[0]);
    assert("maxplayers"@[0] != "usersrated"@[0]);
    assert("maxplaytime"@[1] != "minplaytime"@[1]);
    assert("maxplaytime"@[0] != "numcomments"@[0]);
    assert("minplayers"@[0] != "numweights"@[0]);
    assert("minplayers"@[0] != "usersrated"@[0]);
    assert("minplaytime"@[0] != "numcomments"@[0]);
    assert("numweights"@[0] != "usersrated"@[0]);
    assert("trading"@[0] != "wanting"@[0]);
    assert("trading"@[0] != "wishing"@[0]);
    assert("wanting"@[1] != "wishing"@[1]);
}

/// A document is read in one pass: reading a run of events and then another
/// comes to the same as reading the two as one.
pub proof fn lemma_one_pass(
    shape: Shape,
    state: ParserView,
    first: Seq<EventView>,
    second: Seq<EventView>,
)
    ensures
        after_events(shape, state, first + second) == after_events(
            shape,
            after_events(shape, state, first),
            second,
        ),
    decreases second.len(),
{
    if second.len() == 0 {
        assert(first + second =~= first);
    } else {
        lemma_one_pass(shape, state, first, second.drop_last());
        assert((first + second).drop_last() =~= first + second.drop_last());
        assert((first + second).last() == second.last());
    }
}

} // verus!
