//! Collections: what a user has said about the games of the catalogue.

use crate::result::Error;
use crate::xml::{
    Attribute, AttributeView, Event, EventView, attr_value, document_events, events,
    lemma_attr_value_is_first, lemma_attr_value_of_no_attribute, num_for_attr, num_or_zero,
    number_in, number_or_zero, same_text,
};
use vstd::hash_map::StringHashMap;
use vstd::prelude::*;

verus! {

/// Which part of a user's collection to ask for.
#[derive(Debug, Clone, Copy, PartialEq, Eq, Structural)]
pub enum CollectionType {
    BoardGames,
    BoardGameExpansions,
}

/// One game of a collection: its id, and what the user says of it, as a
/// count under the name of each status.
pub struct CollectionItem {
    pub id: i64,
    pub statuses: StringHashMap<i64>,
}

/// What a [`CollectionItem`] holds.
pub struct CollectionItemView {
    pub id: i64,
    pub statuses: Map<Seq<char>, i64>,
}

impl View for CollectionItem {
    type V = CollectionItemView;

    open spec fn view(&self) -> CollectionItemView {
        CollectionItemView { id: self.id, statuses: self.statuses@ }
    }
}

impl DeepView for CollectionItem {
    type V = CollectionItemView;

    open spec fn deep_view(&self) -> CollectionItemView {
        self@
    }
}

/// Whether an item counts as owned: its status `own` is there and above
/// zero.
pub open spec fn owned(item: CollectionItemView) -> bool {
    item.statuses.contains_key("own"@) && item.statuses["own"@] > 0
}

impl CollectionItem {
    /// An item of which nothing is said yet.
    pub fn new(id: i64) -> (item: CollectionItem)
        ensures
            item@ == (CollectionItemView { id, statuses: Map::empty() }),
    {
        CollectionItem { id, statuses: StringHashMap::new() }
    }

    /// Whether the user owns the game.
    pub fn is_owned(&self) -> (is_owned: bool)
        ensures
            is_owned == owned(self@),
    {
        match self.statuses.get("own") {
            Some(own) => *own > 0,
            None => false,
        }
    }
}

/// The items of a collection, in the order of the document.
pub struct Collection {
    pub items: Vec<CollectionItem>,
}

impl View for Collection {
    type V = Seq<CollectionItemView>;

    open spec fn view(&self) -> Seq<CollectionItemView> {
        self.items.deep_view()
    }
}

/// The statuses of an item after a `status` element: every name that the
/// element gives stands for the count that its value writes, zero where
/// the value is no number, and every other name keeps what it had. Where
/// the element gives a name more than once, the first value counts.
pub open spec fn merged(statuses: Map<Seq<char>, i64>, attributes: Seq<AttributeView>) -> Map<
    Seq<char>,
    i64,
> {
    Map::new(
        |name: Seq<char>| statuses.contains_key(name) || attr_value(attributes, name).is_some(),
        |name: Seq<char>|
            match attr_value(attributes, name) {
                Some(text) => number_or_zero::<i64>(text),
                None => statuses[name],
            },
    )
}

/// The items after the start of an element.
///
/// An `item` element whose `objectid` is a number starts a new item with
/// that id; one without an `objectid`, or with one that is no number,
/// starts none. A `status` element says something of the item that was
/// started last; before the first item it says nothing.
pub open spec fn collected(
    items: Seq<CollectionItemView>,
    name: Seq<char>,
    attributes: Seq<AttributeView>,
) -> Seq<CollectionItemView> {
    if name == "item"@ {
        match attr_value(attributes, "objectid"@) {
            Some(text) => match number_in::<i64>(text) {
                Some(id) => items.push(CollectionItemView { id, statuses: Map::empty() }),
                None => items,
            },
            None => items,
        }
    } else if name == "status"@ && items.len() > 0 {
        items.update(
            items.len() - 1,
            CollectionItemView {
                statuses: merged(items.last().statuses, attributes),
                ..items.last()
            },
        )
    } else {
        items
    }
}

/// What a reader of a collection holds in the middle of a document: the
/// names of the elements that are open, innermost last, and the items so
/// far.
pub struct CollectionParserView {
    pub stack: Seq<Seq<char>>,
    pub items: Seq<CollectionItemView>,
}

/// The reader before the first event.
pub open spec fn empty_reader() -> CollectionParserView {
    CollectionParserView { stack: Seq::empty(), items: Seq::empty() }
}

/// The reader after one event.
pub open spec fn after_event(state: CollectionParserView, event: EventView) -> CollectionParserView {
    match event {
        EventView::StartElement { name, attributes } => CollectionParserView {
            stack: state.stack.push(name),
            items: collected(state.items, name, attributes),
        },
        EventView::EndElement => CollectionParserView {
            stack: if state.stack.len() > 0 {
                state.stack.drop_last()
            } else {
                state.stack
            },
            ..state
        },
        _ => state,
    }
}

/// The reader after a run of events, taken in order.
pub open spec fn after_events(
    state: CollectionParserView,
    events: Seq<EventView>,
) -> CollectionParserView
    decreases events.len(),
{
    if events.len() == 0 {
        state
    } else {
        after_event(after_events(state, events.drop_last()), events.last())
    }
}

/// The items that a run of events describes, read from the start.
pub open spec fn collection_of(events: Seq<EventView>) -> Seq<CollectionItemView> {
    after_events(empty_reader(), events).items
}

/// What `parse` owes for a document: the items that its events describe,
/// and [`Error::InvalidXML`] where the bytes are no document.
pub open spec fn parsed_collection(bytes: Seq<u8>) -> Result<Seq<CollectionItemView>, Error> {
    match document_events(bytes) {
        Some(events) => Ok(collection_of(events)),
        None => Err(Error::InvalidXML),
    }
}

/// What a result of `parse` holds.
pub open spec fn collection_view(parsed: Result<Collection, Error>) -> Result<
    Seq<CollectionItemView>,
    Error,
> {
    match parsed {
        Ok(collection) => Ok(collection@),
        Err(error) => Err(error),
    }
}

impl Collection {
    /// A collection without items.
    pub fn new() -> (collection: Collection)
        ensures
            collection@ == Seq::<CollectionItemView>::empty(),
    {
        let collection = Collection { items: Vec::new() };
        assert(collection.items.deep_view() =~= Seq::empty());
        collection
    }

    /// Reads a document into a collection. Fails where the bytes are no XML
    /// document, and only there.
    pub fn parse(bytes: &[u8]) -> (parsed: Result<Collection, Error>)
        ensures
            collection_view(parsed) == parsed_collection(bytes@),
    {
        CollectionParser::new().parse(bytes)
    }
}

/// A reader of collections.
pub struct CollectionParser {
    collection: Collection,
    stack: Vec<String>,
}

impl View for CollectionParser {
    type V = CollectionParserView;

    closed spec fn view(&self) -> CollectionParserView {
        CollectionParserView { stack: self.stack.deep_view(), items: self.collection@ }
    }
}

impl CollectionParser {
    /// A reader at the start of a document.
    pub fn new() -> (parser: CollectionParser)
        ensures
            parser@ == empty_reader(),
    {
        let parser = CollectionParser { collection: Collection::new(), stack: Vec::new() };
        assert(parser.stack.deep_view() =~= Seq::empty());
        parser
    }

    /// Reads a document into a collection, going on from what this reader
    /// holds. Fails where the bytes are no XML document, and only there.
    pub fn parse(self, bytes: &[u8]) -> (parsed: Result<Collection, Error>)
        ensures
            collection_view(parsed) == match document_events(bytes@) {
                Some(events) => Ok(after_events(self@, events).items),
                None => Err(Error::InvalidXML),
            },
    {
        match events(bytes) {
            Ok(events) => Ok(self.read(&events)),
            Err(error) => Err(error),
        }
    }

    /// Reads a run of events in order and hands the collection out.
    pub fn read(self, events: &Vec<Event>) -> (collection: Collection)
        ensures
            collection@ == after_events(self@, events.deep_view()).items,
    {
        let mut parser = self;
        let mut i: usize = 0;
        proof {
            assert(events.deep_view().take(0) =~= Seq::empty());
        }
        while i < events.len()
            invariant
                i <= events.len(),
                parser@ == after_events(self@, events.deep_view().take(i as int)),
            decreases events.len() - i,
        {
            proof {
                let next = events.deep_view().take(i as int + 1);
                assert(next.drop_last() =~= events.deep_view().take(i as int));
                assert(next.last() == events[i as int]@);
            }
            parser.on_event(&events[i]);
            i += 1;
        }
        proof {
            assert(events.deep_view().take(i as int) =~= events.deep_view());
        }
        parser.collection
    }

    /// Reads one event.
    pub fn on_event(&mut self, event: &Event)
        ensures
            final(self)@ == after_event(old(self)@, event@),
    {
        match event {
            Event::StartElement { name, attributes } => {
                let ghost before = self.stack;
                self.stack.push(name.clone());
                assert(self.stack.deep_view() =~= before.deep_view().push(name@));
                self.on_start_element(name.as_str(), attributes);
            },
            Event::EndElement => {
                let ghost before = self.stack;
                self.stack.pop();
                assert(before@.len() > 0 ==> self.stack.deep_view()
                    =~= before.deep_view().drop_last());
            },
            _ => {},
        }
    }

    /// Reads the start of an element.
    pub fn on_start_element(&mut self, name: &str, attributes: &Vec<Attribute>)
        ensures
            final(self)@ == (CollectionParserView {
                items: collected(old(self)@.items, name@, attributes.deep_view()),
                ..old(self)@
            }),
    {
        if same_text(name, "item") {
            match num_for_attr::<i64>(attributes, "objectid") {
                Some(id) => {
                    let ghost before = self.collection.items;
                    let item = CollectionItem::new(id);
                    self.collection.items.push(item);
                    assert(self.collection.items.deep_view() =~= before.deep_view().push(item@));
                },
                None => {},
            }
        } else if same_text(name, "status") {
            let ghost before = self.collection.items;
            match self.collection.items.pop() {
                Some(last) => {
                    let last = merge(last, attributes);
                    self.collection.items.push(last);
                    assert(self.collection.items.deep_view() =~= before.deep_view().update(
                        before.len() - 1,
                        last@,
                    ));
                },
                None => {},
            }
        }
    }
}

/// Takes the attributes of a `status` element as counts of `item`. They
/// are taken from the last to the first, so that of several attributes of
/// one name the first is the one that stays.
fn merge(item: CollectionItem, attributes: &Vec<Attribute>) -> (after: CollectionItem)
    ensures
        after@ == (CollectionItemView {
            statuses: merged(item@.statuses, attributes.deep_view()),
            ..item@
        }),
{
    let mut after = item;
    let mut i: usize = attributes.len();
    proof {
        assert(attributes.deep_view().skip(i as int) =~= Seq::empty());
        assert(after.statuses@ =~= merged(item@.statuses, Seq::empty()));
    }
    while i > 0
        invariant
            i <= attributes.len(),
            after.id == item.id,
            after.statuses@ == merged(item@.statuses, attributes.deep_view().skip(i as int)),
        decreases i,
    {
        i -= 1;
        let count: i64 = num_or_zero(attributes[i].value.clone());
        after.statuses.insert(attributes[i].name.clone(), count);
        proof {
            let rest = attributes.deep_view().skip(i as int);
            assert(rest[0] == attributes[i as int]@);
            assert(rest.skip(1) =~= attributes.deep_view().skip(i as int + 1));
            assert(after.statuses@ =~= merged(item@.statuses, rest));
        }
    }
    proof {
        assert(attributes.deep_view().skip(0) =~= attributes.deep_view());
    }
    after
}

/// Parsing is a function of the bytes alone: whatever `Collection::parse`
/// gives for a document, it gives every time, item for item, and where it
/// fails it fails every time in the same way.
pub proof fn lemma_parse_is_repeatable(
    bytes: Seq<u8>,
    first: Result<Collection, Error>,
    second: Result<Collection, Error>,
)
    requires
        collection_view(first) == parsed_collection(bytes),
        collection_view(second) == parsed_collection(bytes),
    ensures
        collection_view(first) == collection_view(second),
        first.is_ok() == second.is_ok(),
        first.is_ok() == document_events(bytes).is_some(),
        first matches Ok(one) ==> second matches Ok(other) && one@ == other@,
        first matches Err(one) ==> second matches Err(other) && one == other
            && one == Error::InvalidXML,
{
}

/// Of several attributes of one name in a `status` element the first
/// counts: a name stands for the count of the first attribute that has it,
/// whatever the attributes behind it say.
pub proof fn lemma_first_status_counts(
    statuses: Map<Seq<char>, i64>,
    attributes: Seq<AttributeView>,
    i: int,
)
    requires
        0 <= i < attributes.len(),
        forall|j: int| 0 <= j < i ==> (#[trigger] attributes[j]).name != attributes[i].name,
    ensures
        merged(statuses, attributes).contains_key(attributes[i].name),
        merged(statuses, attributes)[attributes[i].name] == number_or_zero::<i64>(
            attributes[i].value,
        ),
{
    lemma_attr_value_is_first(attributes, attributes[i].name, i);
}

/// A `status` element leaves alone what it does not speak of: a name that
/// none of its attributes has keeps its count, and is not there afterwards
/// if it was not there before.
pub proof fn lemma_other_statuses_stay(
    statuses: Map<Seq<char>, i64>,
    attributes: Seq<AttributeView>,
    name: Seq<char>,
)
    requires
        forall|j: int| 0 <= j < attributes.len() ==> (#[trigger] attributes[j]).name != name,
    ensures
        merged(statuses, attributes).contains_key(name) == statuses.contains_key(name),
        statuses.contains_key(name) ==> merged(statuses, attributes)[name] == statuses[name],
{
    lemma_attr_value_of_no_attribute(attributes, name);
}

/// A user owns a game exactly when the `own` that was said of it last is
/// above zero: after a `status` element with an attribute `own`, the first
/// of them decides; after one without, nothing has changed.
pub proof fn lemma_owned_after_merge(item: CollectionItemView, attributes: Seq<AttributeView>)
    ensures
        owned(CollectionItemView { statuses: merged(item.statuses, attributes), ..item })
            == match attr_value(attributes, "own"@) {
            Some(text) => number_or_zero::<i64>(text) > 0,
            None => owned(item),
        },
{
}

/// The id of the item that an event starts: that of an `item` element whose
/// `objectid` is a number. Every other event starts none.
pub open spec fn started_id(event: EventView) -> Option<i64> {
    match event {
        EventView::StartElement { name, attributes } => if name == "item"@ {
            match attr_value(attributes, "objectid"@) {
                Some(text) => number_in::<i64>(text),
                None => None,
            }
        } else {
            None
        },
        _ => None,
    }
}

/// The ids of the items that a run of events starts, in the order of the
/// events, each as often as it is started.
pub open spec fn started_ids(events: Seq<EventView>) -> Seq<i64>
    decreases events.len(),
{
    if events.len() == 0 {
        Seq::empty()
    } else {
        match started_id(events.last()) {
            Some(id) => started_ids(events.drop_last()).push(id),
            None => started_ids(events.drop_last()),
        }
    }
}

/// The ids of a run of items.
pub open spec fn ids_of(items: Seq<CollectionItemView>) -> Seq<i64> {
    items.map_values(|item: CollectionItemView| item.id)
}

/// Reading on adds one item for each `item` element whose `objectid` is a
/// number, in the order of the events, behind the items that were there,
/// and changes the id of none.
pub proof fn lemma_items_follow_events(state: CollectionParserView, events: Seq<EventView>)
    ensures
        ids_of(after_events(state, events).items) == ids_of(state.items) + started_ids(events),
    decreases events.len(),
{
    if events.len() == 0 {
        assert(ids_of(state.items) + started_ids(events) =~= ids_of(state.items));
    } else {
        let before = after_events(state, events.drop_last());
        let after = after_event(before, events.last());
        lemma_items_follow_events(state, events.drop_last());
        match started_id(events.last()) {
            Some(id) => {
                assert(ids_of(after.items) =~= ids_of(before.items).push(id));
                assert(ids_of(state.items) + started_ids(events) =~= (ids_of(state.items)
                    + started_ids(events.drop_last())).push(id));
            },
            None => {
                assert(ids_of(after.items) =~= ids_of(before.items));
            },
        }
    }
}

/// A collection holds one item for each `item` element whose `objectid` is
/// a number, in the order of the document: none is left out, none comes
/// twice that was started once, and an id that the document gives again is
/// there again. An `item` element without such an `objectid` starts
/// nothing, and no other element does.
pub proof fn lemma_items_follow_document(events: Seq<EventView>)
    ensures
        ids_of(collection_of(events)) == started_ids(events),
        collection_of(events).len() == started_ids(events).len(),
{
    lemma_items_follow_events(empty_reader(), events);
    assert(ids_of(empty_reader().items) + started_ids(events) =~= started_ids(events));
}

/// A document is read in one pass: reading a run of events and then another
/// comes to the same as reading the two as one.
pub proof fn lemma_one_pass(
    state: CollectionParserView,
    first: Seq<EventView>,
    second: Seq<EventView>,
)
    ensures
        after_events(state, first + second) == after_events(after_events(state, first), second),
    decreases second.len(),
{
    if second.len() == 0 {
        assert(first + second =~= first);
    } else {
        lemma_one_pass(state, first, second.drop_last());
        assert((first + second).drop_last() =~= first + second.drop_last());
        assert((first + second).last() == second.last());
    }
}

/// Items come in the order of the document and stay: an event adds at most
/// one item at the end, and never takes one away or changes an id.
pub proof fn lemma_items_only_grow(state: CollectionParserView, event: EventView)
    ensures
        ({
            let after = after_event(state, event);
            &&& state.items.len() <= after.items.len() <= state.items.len() + 1
            &&& forall|i: int|
                0 <= i < state.items.len() ==> (#[trigger] after.items[i]).id == state.items[i].id
        }),
{
}

} // verus!
