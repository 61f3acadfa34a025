//! XML as the parsers see it: a document is a sequence of events, an element
//! carries attributes, and numbers are written as text.

use crate::decimal::Number;
use crate::result::Error;
use ::xml::reader::{EventReader, XmlEvent};
use vstd::prelude::*;
use vstd::utf8::encode_utf8;

verus! {

/// One attribute of an element: its local name and its value.
#[derive(Debug, PartialEq, Eq)]
pub struct Attribute {
    pub name: String,
    pub value: String,
}

/// What an [`Attribute`] holds.
pub struct AttributeView {
    pub name: Seq<char>,
    pub value: Seq<char>,
}

impl View for Attribute {
    type V = AttributeView;

    open spec fn view(&self) -> AttributeView {
        AttributeView { name: self.name@, value: self.value@ }
    }
}

impl DeepView for Attribute {
    type V = AttributeView;

    open spec fn deep_view(&self) -> AttributeView {
        self@
    }
}

/// What a reader meets on its way through a document. Of an element only
/// its local name and its attributes are kept; declarations, comments,
/// unparsed sections and white space between elements all count as
/// [`Event::Other`].
#[derive(Debug, PartialEq, Eq)]
pub enum Event {
    /// An element opens. An element without content opens and closes at
    /// once.
    StartElement { name: String, attributes: Vec<Attribute> },
    /// The element that was opened last closes.
    EndElement,
    /// Text between tags, with its entities resolved.
    Characters(String),
    /// Anything else.
    Other,
}

/// What an [`Event`] holds.
pub enum EventView {
    StartElement { name: Seq<char>, attributes: Seq<AttributeView> },
    EndElement,
    Characters(Seq<char>),
    Other,
}

impl View for Event {
    type V = EventView;

    open spec fn view(&self) -> EventView {
        match self {
            Event::StartElement { name, attributes } => EventView::StartElement {
                name: name@,
                attributes: attributes.deep_view(),
            },
            Event::EndElement => EventView::EndElement,
            Event::Characters(text) => EventView::Characters(text@),
            Event::Other => EventView::Other,
        }
    }
}

impl DeepView for Event {
    type V = EventView;

    open spec fn deep_view(&self) -> EventView {
        self@
    }
}

/// The events of the document that `bytes` hold, in the order of the
/// document, up to and including the end of the document. `None` where the
/// bytes are no XML document.
pub uninterp spec fn document_events(bytes: Seq<u8>) -> Option<Seq<EventView>>;

/// `xml::reader::EventReader::new` and the iterator over its events, with
/// the default configuration: reads the whole document. The result holds
/// every event that the reader gives, and nothing where the reader meets an
/// error.
#[verifier::external_body]
fn read_events(bytes: &[u8]) -> (read: Option<Vec<Event>>)
    ensures
        match read {
            Some(events) => document_events(bytes@) == Some(events.deep_view()),
            None => document_events(bytes@).is_none(),
        },
{
    let events = EventReader::new(bytes).into_iter().map(|read| read.map(|event| match event {
        XmlEvent::StartElement { name, attributes, .. } => Event::StartElement {
            name: name.local_name,
            attributes: attributes
                .into_iter()
                .map(|attribute| Attribute { name: attribute.name.local_name, value: attribute.value })
                .collect(),
        },
        XmlEvent::EndElement { .. } => Event::EndElement,
        XmlEvent::Characters(text) => Event::Characters(text),
        _ => Event::Other,
    }));
    events.collect::<Result<Vec<Event>, ::xml::reader::Error>>().ok()
}

/// Reads a document into its events.
pub fn events(bytes: &[u8]) -> (read: Result<Vec<Event>, Error>)
    ensures
        match read {
            Ok(events) => document_events(bytes@) == Some(events.deep_view()),
            Err(error) => error == Error::InvalidXML && document_events(bytes@).is_none(),
        },
{
    match read_events(bytes) {
        Some(events) => Ok(events),
        None => Err(Error::InvalidXML),
    }
}

/// The value of the first attribute called `name`, if there is one.
pub open spec fn attr_value(attributes: Seq<AttributeView>, name: Seq<char>) -> Option<Seq<char>>
    decreases attributes.len(),
{
    if attributes.len() == 0 {
        None
    } else if attributes[0].name == name {
        Some(attributes[0].value)
    } else {
        attr_value(attributes.skip(1), name)
    }
}

/// `<str as PartialEq>::eq`: two strings are equal exactly when they hold
/// the same characters.
#[verifier::external_body]
pub(crate) fn same_text(a: &str, b: &str) -> (same: bool)
    ensures
        same == (a@ == b@),
{
    a == b
}

/// Looks an attribute up by its local name. Where several attributes share
/// the name, the first one counts.
pub fn string_for_attr(attributes: &Vec<Attribute>, name: &str) -> (found: Option<String>)
    ensures
        match found {
            Some(value) => attr_value(attributes.deep_view(), name@) == Some(value@),
            None => attr_value(attributes.deep_view(), name@).is_none(),
        },
{
    let mut i: usize = 0;
    proof {
        assert(attributes.deep_view().skip(0) =~= attributes.deep_view());
    }
    while i < attributes.len()
        invariant
            i <= attributes.len(),
            attr_value(attributes.deep_view(), name@) == attr_value(
                attributes.deep_view().skip(i as int),
                name@,
            ),
        decreases attributes.len() - i,
    {
        proof {
            assert(attributes.deep_view().skip(i as int).skip(1) =~= attributes.deep_view().skip(
                i as int + 1,
            ));
        }
        if same_text(attributes[i].name.as_str(), name) {
            return Some(attributes[i].value.clone());
        }
        i += 1;
    }
    None
}

/// The number that a text starts with, where the type `I` can hold it.
pub open spec fn number_in<I: Number>(text: Seq<char>) -> Option<I> {
    I::parsed(encode_utf8(text))
}

/// The number that a field takes from a text: the one that the text starts
/// with, and zero where it starts with none.
pub open spec fn number_or_zero<I: Number>(text: Seq<char>) -> I {
    match number_in::<I>(text) {
        Some(number) => number,
        None => I::fallback(),
    }
}

/// Reads the attribute `name` as a number. `None` where the element has no
/// such attribute, and where its value starts with no number that `I` can
/// hold.
pub fn num_for_attr<I: Number>(attributes: &Vec<Attribute>, name: &str) -> (number: Option<I>)
    ensures
        number == match attr_value(attributes.deep_view(), name@) {
            Some(value) => number_in::<I>(value),
            None => None,
        },
{
    match string_for_attr(attributes, name) {
        Some(string) => I::parse(string.as_str().as_bytes()),
        None => None,
    }
}

/// Reads `chars` as a number. `None` where it starts with no number that
/// `I` can hold.
pub fn num_for_chars<I: Number>(chars: String) -> (number: Option<I>)
    ensures
        number == number_in::<I>(chars@),
{
    I::parse(chars.as_str().as_bytes())
}

/// Reads `chars` as a number, and as zero where it starts with none.
pub fn num_or_zero<I: Number>(chars: String) -> (number: I)
    ensures
        number == number_or_zero::<I>(chars@),
{
    match num_for_chars(chars) {
        Some(number) => number,
        None => I::zero(),
    }
}

/// The value that a name finds is that of the first attribute of that
/// name: the attributes in front of it are passed over, and those behind it
/// make no difference.
pub proof fn lemma_attr_value_is_first(attributes: Seq<AttributeView>, name: Seq<char>, i: int)
    requires
        0 <= i < attributes.len(),
        attributes[i].name == name,
        forall|j: int| 0 <= j < i ==> (#[trigger] attributes[j]).name != name,
    ensures
        attr_value(attributes, name) == Some(attributes[i].value),
    decreases i,
{
    if i > 0 {
        let rest = attributes.skip(1);
        assert(attributes[0].name != name);
        assert(rest[i - 1] == attributes[i]);
        assert forall|j: int| 0 <= j < i - 1 implies (#[trigger] rest[j]).name != name by {
            assert(rest[j] == attributes[j + 1]);
        }
        lemma_attr_value_is_first(rest, name, i - 1);
    }
}

/// A name that no attribute has finds nothing.
pub proof fn lemma_attr_value_of_no_attribute(attributes: Seq<AttributeView>, name: Seq<char>)
    requires
        forall|j: int| 0 <= j < attributes.len() ==> (#[trigger] attributes[j]).name != name,
    ensures
        attr_value(attributes, name).is_none(),
    decreases attributes.len(),
{
    if attributes.len() > 0 {
        let rest = attributes.skip(1);
        assert(attributes[0].name != name);
        assert forall|j: int| 0 <= j < rest.len() implies (#[trigger] rest[j]).name != name by {
            assert(rest[j] == attributes[j + 1]);
        }
        lemma_attr_value_of_no_attribute(rest, name);
    }
}

} // verus!
