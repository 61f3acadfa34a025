use boardgamegeek::thing::ThingParser;
use boardgamegeek::xml::{Attribute, Event};
use boardgamegeek::{Error, Link};

fn start(name: &str, attributes: &[(&str, &str)]) -> Event {
    Event::StartElement {
        name: name.to_string(),
        attributes: attributes
            .iter()
            .map(|(name, value)| Attribute { name: name.to_string(), value: value.to_string() })
            .collect(),
    }
}

const GALAXY_TRUCKER: &str = r#"<?xml version="1.0" encoding="utf-8"?>
<items termsofuse="https://boardgamegeek.com/xmlapi/termsofuse">
  <item type="boardgame" id="31481">
    <thumbnail>https://example.org/thumb.jpg</thumbnail>
    <image>https://example.org/image.jpg</image>
    <name type="primary" sortindex="1" value="Galaxy Trucker" />
    <name type="alternate" sortindex="1" value="Galaxis Fuvarozok" />
    <description>Build a ship &amp; fly it.</description>
    <yearpublished value="2007" />
    <minplayers value="2" />
    <maxplayers value="4" />
    <minplaytime value="60" />
    <maxplaytime value="60" />
    <minage value="10" />
    <link type="boardgamecategory" id="1020" value="Exploration" />
    <link type="boardgamemechanic" id="2002" value="Tile Placement" />
    <statistics page="1">
      <ratings>
        <usersrated value="2500" />
        <average value="7.37" />
        <owned value="41000" />
        <trading value="700" />
        <wanting value="600" />
        <wishing value="4000" />
        <numcomments value="6000" />
        <numweights value="2200" />
        <averageweight value="2.33" />
      </ratings>
    </statistics>
  </item>
</items>"#;

#[test]
fn get_thing_test_get_galaxy_trucker() {
    let thing = ThingParser::new().parse(GALAXY_TRUCKER.as_bytes()).unwrap();
    assert_eq!(thing.id, 31481);
    assert_eq!(thing.primary_name, "Galaxy Trucker");
}

#[test]
fn get_galaxy_trucker_legacy() {
    let thing = ThingParser::new().parse(GALAXY_TRUCKER.as_bytes()).unwrap();
    assert_eq!(thing.id, 31481);
    assert_eq!(thing.primary_name, "Galaxy Trucker");
    assert_eq!(thing.thing_type, "boardgame");
    assert_eq!(thing.description, "Build a ship & fly it.");
    assert_eq!(thing.year_published, 2007);
    assert_eq!(thing.thumbnail_url, Some("https://example.org/thumb.jpg".to_string()));
    assert_eq!(thing.image_url, Some("https://example.org/image.jpg".to_string()));
    assert_eq!(thing.minage, 10);
    assert_eq!(thing.owners, 41000);
    assert_eq!(thing.players, 2..4);
    assert_eq!(thing.playtime, 60..60);
    assert_eq!(thing.weight, "2.33");
    assert_eq!(thing.rating, "7.37");
    assert_eq!(thing.usersrated, 2500);
    assert_eq!(thing.trading, 700);
    assert_eq!(thing.wanting, 600);
    assert_eq!(thing.wishing, 4000);
    assert_eq!(thing.numcomments, 6000);
    assert_eq!(thing.numweights, 2200);
    assert_eq!(
        thing.links,
        vec![
            Link { id: 1020, link_type: "boardgamecategory".to_string(), value: "Exploration".to_string() },
            Link { id: 2002, link_type: "boardgamemechanic".to_string(), value: "Tile Placement".to_string() },
        ]
    );
}

#[test]
fn get_missing_legacy() {
    let document = r#"<?xml version="1.0" encoding="utf-8"?><items termsofuse="https://boardgamegeek.com/xmlapi/termsofuse"></items>"#;
    let thing = ThingParser::new().parse(document.as_bytes()).unwrap();
    assert_eq!(thing.id, 0);
    assert_eq!(thing.primary_name, "");
    assert_eq!(thing.thumbnail_url, None);
    assert_eq!(thing.players, 0..0);
    assert!(thing.links.is_empty());
}

#[test]
fn end_to_end_item_document() {
    let document = r#"<item id="31481" type="boardgame"><name type="primary" value="Galaxy Trucker"/><ratings><usersrated value="2500"/></ratings></item>"#;
    let thing = ThingParser::new().parse(document.as_bytes()).unwrap();
    assert_eq!(thing.id, 31481);
    assert_eq!(thing.primary_name, "Galaxy Trucker");
    assert_eq!(thing.usersrated, 2500);
}

#[test]
fn thing_parse_rejects_what_is_no_document() {
    assert_eq!(ThingParser::new().parse(b"<item><name></item>"), Err(Error::InvalidXML));
    assert_eq!(ThingParser::new().parse(b"not xml"), Err(Error::InvalidXML));
}

#[test]
fn thing_parse_is_repeatable() {
    let first = ThingParser::new().parse(GALAXY_TRUCKER.as_bytes());
    let second = ThingParser::new().parse(GALAXY_TRUCKER.as_bytes());
    assert_eq!(first, second);
}

#[test]
fn thing_ranges_are_put_in_order() {
    let document = r#"<item id="1"><minplayers value="5"/><maxplayers value="2"/><minplaytime value="90"/><maxplaytime value="30"/></item>"#;
    let thing = ThingParser::new().parse(document.as_bytes()).unwrap();
    assert_eq!(thing.players, 5..5);
    assert_eq!(thing.playtime, 90..90);
}

#[test]
fn thing_rating_tags_count_only_inside_ratings() {
    let document = r#"<item id="1"><usersrated value="7"/><owned value="8"/><average value="9.5"/><ratings><trading value="3"/><deep><wanting value="4"/></deep></ratings></item>"#;
    let thing = ThingParser::new().parse(document.as_bytes()).unwrap();
    assert_eq!(thing.usersrated, 0);
    assert_eq!(thing.owners, 0);
    assert_eq!(thing.rating, "");
    assert_eq!(thing.trading, 3);
    assert_eq!(thing.wanting, 0);
}

#[test]
fn thing_rating_tag_outside_ratings_keeps_the_earlier_value() {
    let events = vec![
        start("item", &[("id", "1")]),
        start("ratings", &[]),
        start("usersrated", &[("value", "2500")]),
        Event::EndElement,
        Event::EndElement,
        start("usersrated", &[("value", "1")]),
        Event::EndElement,
        Event::EndElement,
    ];
    let thing = ThingParser::new().read(&events);
    assert_eq!(thing.usersrated, 2500);
}

#[test]
fn thing_rating_tag_at_the_root_is_passed_over() {
    let events = vec![start("usersrated", &[("value", "1")]), Event::EndElement];
    let thing = ThingParser::new().read(&events);
    assert_eq!(thing.usersrated, 0);
}

#[test]
fn thing_malformed_number_gives_zero() {
    let document = r#"<item id="x7"><yearpublished value="abc"/><minage value=""/><link id="oops" type="t"/></item>"#;
    let thing = ThingParser::new().parse(document.as_bytes()).unwrap();
    assert_eq!(thing.id, 0);
    assert_eq!(thing.year_published, 0);
    assert_eq!(thing.minage, 0);
    assert_eq!(thing.links, vec![Link { id: 0, link_type: "t".to_string(), value: String::new() }]);
}

#[test]
fn thing_malformed_number_replaces_an_earlier_value() {
    let events = vec![
        start("item", &[]),
        start("yearpublished", &[("value", "2007")]),
        Event::EndElement,
        start("yearpublished", &[("value", "abc")]),
        Event::EndElement,
        start("minage", &[("value", "12")]),
        Event::EndElement,
        start("minage", &[]),
        Event::EndElement,
        Event::EndElement,
    ];
    let thing = ThingParser::new().read(&events);
    assert_eq!(thing.year_published, 0);
    assert_eq!(thing.minage, 12);
}

#[test]
fn thing_ignores_what_only_a_catalogue_entry_writes() {
    let document = r#"<item objectid="5"><name primary="true">Inner</name><yearpublished>1999</yearpublished><age>8</age></item>"#;
    let thing = ThingParser::new().parse(document.as_bytes()).unwrap();
    assert_eq!(thing.id, 0);
    assert_eq!(thing.primary_name, "");
    assert_eq!(thing.year_published, 0);
    assert_eq!(thing.minage, 0);
}

#[test]
fn thing_text_outside_every_element_is_passed_over() {
    let events = vec![Event::Characters("stray".to_string()), Event::EndElement, Event::Other];
    let thing = ThingParser::new().read(&events);
    assert_eq!(thing.description, "");
    assert_eq!(thing.id, 0);
}
