use boardgamegeek::collection::{CollectionItem, CollectionParser};
use boardgamegeek::xml::{Attribute, Event};
use boardgamegeek::{Collection, Error};

fn element(name: &str, attributes: &[(&str, &str)]) -> Event {
    Event::StartElement {
        name: name.to_string(),
        attributes: attributes
            .iter()
            .map(|(name, value)| Attribute { name: name.to_string(), value: value.to_string() })
            .collect(),
    }
}

const COLLECTION: &str = r#"<?xml version="1.0" encoding="utf-8" standalone="yes"?>
<items totalitems="2" termsofuse="https://boardgamegeek.com/xmlapi/termsofuse" pubdate="Tue, 07 Jul 2020 23:16:17 +0000">
  <item objecttype="thing" objectid="31481" subtype="boardgame" collid="1">
    <name sortindex="1">Galaxy Trucker</name>
    <status own="1" prevowned="0" fortrade="0" want="0" wanttoplay="0" wanttobuy="0" wishlist="0" preordered="0" lastmodified="2020-07-07 23:16:17" />
  </item>
  <item objecttype="thing" objectid="822" subtype="boardgame" collid="2">
    <name sortindex="1">Carcassonne</name>
    <status own="0" prevowned="1" fortrade="0" want="0" wanttoplay="0" wanttobuy="0" wishlist="0" preordered="0" lastmodified="2019-01-02 03:04:05" />
  </item>
</items>"#;

#[test]
fn get_collection_test_get_galaxy_trucker() {
    let collection = Collection::parse(COLLECTION.as_bytes()).unwrap();
    let mut matches = 0;
    for item in collection.items {
        if item.id == 31481 {
            matches += 1;
        }
    }
    assert_eq!(matches, 1);
}

#[test]
fn collection_items_come_in_document_order() {
    let collection = Collection::parse(COLLECTION.as_bytes()).unwrap();
    assert_eq!(collection.items.len(), 2);
    assert_eq!(collection.items[0].id, 31481);
    assert_eq!(collection.items[1].id, 822);
    assert!(collection.items[0].is_owned());
    assert!(!collection.items[1].is_owned());
}

#[test]
fn collection_keeps_every_status() {
    let collection = Collection::parse(COLLECTION.as_bytes()).unwrap();
    let first = &collection.items[0].statuses;
    assert_eq!(first.len(), 9);
    assert_eq!(first.get("own"), Some(&1));
    assert_eq!(first.get("prevowned"), Some(&0));
    assert_eq!(first.get("lastmodified"), Some(&2020));
    assert_eq!(first.get("unknown"), None);
    let second = &collection.items[1].statuses;
    assert_eq!(second.get("own"), Some(&0));
    assert_eq!(second.get("prevowned"), Some(&1));
}

#[test]
fn collection_status_before_the_first_item_says_nothing() {
    let events = vec![
        element("items", &[]),
        element("status", &[("own", "1")]),
        Event::EndElement,
        element("item", &[("objectid", "5")]),
        Event::EndElement,
        Event::EndElement,
    ];
    let collection = CollectionParser::new().read(&events);
    assert_eq!(collection.items.len(), 1);
    assert_eq!(collection.items[0].id, 5);
    assert_eq!(collection.items[0].statuses.len(), 0);
    assert!(!collection.items[0].is_owned());
}

#[test]
fn collection_item_needs_an_objectid() {
    let events = vec![
        element("item", &[("id", "5")]),
        Event::EndElement,
        element("item", &[("objectid", "six")]),
        element("status", &[("own", "1")]),
        Event::EndElement,
        Event::EndElement,
        element("item", &[("objectid", "")]),
        Event::EndElement,
        element("item", &[("objectid", "99999999999999999999")]),
        Event::EndElement,
    ];
    let collection = CollectionParser::new().read(&events);
    assert_eq!(collection.items.len(), 0);
}

#[test]
fn collection_item_without_a_number_leaves_the_others_alone() {
    let events = vec![
        element("item", &[("objectid", "7")]),
        element("status", &[("own", "2")]),
        Event::EndElement,
        Event::EndElement,
        element("item", &[("objectid", "six")]),
        element("status", &[("own", "0"), ("want", "3")]),
        Event::EndElement,
        Event::EndElement,
        element("item", &[("objectid", "8x"), ("objectid", "9")]),
        Event::EndElement,
    ];
    let collection = CollectionParser::new().read(&events);
    assert_eq!(collection.items.len(), 2);
    assert_eq!(collection.items[0].id, 7);
    assert_eq!(collection.items[0].statuses.get("own"), Some(&0));
    assert_eq!(collection.items[0].statuses.get("want"), Some(&3));
    assert_eq!(collection.items[1].id, 8);
    assert_eq!(collection.items[1].statuses.len(), 0);
}

#[test]
fn collection_first_attribute_of_a_name_counts() {
    let events = vec![
        element("item", &[("objectid", "6")]),
        element("status", &[("own", "2"), ("want", "1"), ("own", "yes"), ("own", "5")]),
        Event::EndElement,
        element("status", &[("want", "3")]),
        Event::EndElement,
        Event::EndElement,
    ];
    let collection = CollectionParser::new().read(&events);
    assert_eq!(collection.items.len(), 1);
    assert_eq!(collection.items[0].id, 6);
    assert_eq!(collection.items[0].statuses.len(), 2);
    assert_eq!(collection.items[0].statuses.get("own"), Some(&2));
    assert_eq!(collection.items[0].statuses.get("want"), Some(&3));
    assert!(collection.items[0].is_owned());
}

#[test]
fn collection_status_that_is_no_number_counts_as_zero() {
    let events = vec![
        element("item", &[("objectid", "6")]),
        element("status", &[("own", "3")]),
        Event::EndElement,
        element("status", &[("own", "yes"), ("own", "4")]),
        Event::EndElement,
        Event::EndElement,
    ];
    let collection = CollectionParser::new().read(&events);
    assert_eq!(collection.items[0].statuses.get("own"), Some(&0));
    assert!(!collection.items[0].is_owned());
}

#[test]
fn collection_parse_skips_an_item_whose_objectid_is_no_number() {
    let document = r#"<items>
  <item objectid="abc"><status own="1"/></item>
  <item objectid="822"><status own="1" p:own="0" xmlns:p="urn:previous"/></item>
  <item><name>Carcassonne</name></item>
</items>"#;
    let collection = Collection::parse(document.as_bytes()).unwrap();
    assert_eq!(collection.items.len(), 1);
    assert_eq!(collection.items[0].id, 822);
    assert_eq!(collection.items[0].statuses.get("own"), Some(&1));
    assert!(collection.items[0].is_owned());
}

#[test]
fn collection_item_is_owned_above_zero_only() {
    let mut item = CollectionItem::new(1);
    assert!(!item.is_owned());
    item.statuses.insert("own".to_string(), 0);
    assert!(!item.is_owned());
    item.statuses.insert("own".to_string(), -1);
    assert!(!item.is_owned());
    item.statuses.insert("own".to_string(), 3);
    assert!(item.is_owned());
}

#[test]
fn collection_parse_rejects_what_is_no_document() {
    assert!(matches!(Collection::parse(b"<items><item></items>"), Err(Error::InvalidXML)));
    assert!(matches!(CollectionParser::new().parse(b""), Err(Error::InvalidXML)));
}

#[test]
fn collection_parse_is_repeatable() {
    let first = Collection::parse(COLLECTION.as_bytes()).unwrap();
    let second = Collection::parse(COLLECTION.as_bytes()).unwrap();
    assert_eq!(first.items.len(), second.items.len());
    for (a, b) in first.items.iter().zip(second.items.iter()) {
        assert_eq!(a.id, b.id);
        assert_eq!(a.statuses.get("own"), b.statuses.get("own"));
        assert_eq!(a.statuses.len(), b.statuses.len());
    }
}
