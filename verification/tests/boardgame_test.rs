use boardgamegeek::parsers::boardgame::BoardGameParser;
use boardgamegeek::xml::{Attribute, Event};
use boardgamegeek::{Error, Link};

fn open(name: &str, attributes: &[(&str, &str)]) -> Event {
    Event::StartElement {
        name: name.to_string(),
        attributes: attributes
            .iter()
            .map(|(name, value)| Attribute { name: name.to_string(), value: value.to_string() })
            .collect(),
    }
}

const ENTRY: &str = r#"<?xml version="1.0" encoding="utf-8"?>
<boardgames termsofuse="https://boardgamegeek.com/xmlapi/termsofuse">
  <boardgame objectid="31481">
    <yearpublished>2007</yearpublished>
    <minplayers>2</minplayers>
    <maxplayers>4</maxplayers>
    <playingtime>60</playingtime>
    <minplaytime>60</minplaytime>
    <maxplaytime>90</maxplaytime>
    <age>10</age>
    <name sortindex="1">Galaxis Fuvarozok</name>
    <name primary="true" sortindex="1">Galaxy Trucker</name>
    <description>Build a ship.</description>
    <thumbnail>https://example.org/thumb.jpg</thumbnail>
    <image>https://example.org/image.jpg</image>
    <link id="1020" type="boardgamecategory" value="Exploration"/>
  </boardgame>
</boardgames>"#;

#[test]
fn client_test_get_galaxy_trucker() {
    let game = BoardGameParser::new().parse(ENTRY.as_bytes()).unwrap();
    assert_eq!(game.id, 31481);
    assert_eq!(game.primary_name, "Galaxy Trucker");
}

#[test]
fn boardgame_fields_written_as_text() {
    let game = BoardGameParser::new().parse(ENTRY.as_bytes()).unwrap();
    assert_eq!(game.year_published, 2007);
    assert_eq!(game.players, 2..4);
    assert_eq!(game.playtime, 60..90);
    assert_eq!(game.minage, 10);
    assert_eq!(game.description, "Build a ship.");
    assert_eq!(game.thumbnail_url, Some("https://example.org/thumb.jpg".to_string()));
    assert_eq!(game.image_url, Some("https://example.org/image.jpg".to_string()));
    assert_eq!(
        game.links,
        vec![Link { id: 1020, link_type: "boardgamecategory".to_string(), value: "Exploration".to_string() }]
    );
    assert_eq!(game.weight, "");
    assert_eq!(game.rating, "");
}

#[test]
fn boardgame_fields_written_as_attributes() {
    let document = r#"<boardgame objectid="9"><name type="primary" value="By Value"/><yearpublished value="2001"/><statistics><ratings><usersrated value="12"/><average value="6.5"/><averageweight value="1.25"/></ratings></statistics></boardgame>"#;
    let game = BoardGameParser::new().parse(document.as_bytes()).unwrap();
    assert_eq!(game.id, 9);
    assert_eq!(game.primary_name, "By Value");
    assert_eq!(game.year_published, 2001);
    assert_eq!(game.usersrated, 12);
    assert_eq!(game.rating, "6.5");
    assert_eq!(game.weight, "1.25");
}

#[test]
fn boardgame_primary_marker_stands_in_for_the_name_only() {
    let events = vec![
        open("boardgame", &[("objectid", "3")]),
        open("ratings", &[]),
        open("name", &[("primary", "true")]),
        open("usersrated", &[("value", "5")]),
        Event::EndElement,
        Event::Characters("Marked".to_string()),
        Event::EndElement,
        open("usersrated", &[("value", "8")]),
        Event::EndElement,
        Event::Characters("after".to_string()),
        Event::EndElement,
        Event::EndElement,
    ];
    let game = BoardGameParser::new().read(&events);
    assert_eq!(game.primary_name, "Marked");
    assert_eq!(game.usersrated, 8);
}

#[test]
fn boardgame_malformed_text_gives_zero() {
    let document = r#"<boardgame objectid="7"><yearpublished>2007</yearpublished><yearpublished>soon</yearpublished><age>ten</age><minplayers>3 or more</minplayers></boardgame>"#;
    let game = BoardGameParser::new().parse(document.as_bytes()).unwrap();
    assert_eq!(game.id, 7);
    assert_eq!(game.year_published, 0);
    assert_eq!(game.minage, 0);
    assert_eq!(game.players, 3..3);
}

#[test]
fn boardgame_ignores_the_item_element() {
    let document = r#"<item id="31481" type="boardgame"><minage value="4"/></item>"#;
    let game = BoardGameParser::new().parse(document.as_bytes()).unwrap();
    assert_eq!(game.id, 0);
    assert_eq!(game.minage, 4);
}

#[test]
fn boardgame_parse_rejects_what_is_no_document() {
    assert_eq!(BoardGameParser::new().parse(b"<boardgame>"), Err(Error::InvalidXML));
}

#[test]
fn boardgame_parse_is_repeatable() {
    let first = BoardGameParser::new().parse(ENTRY.as_bytes());
    let second = BoardGameParser::new().parse(ENTRY.as_bytes());
    assert_eq!(first, second);
}

#[test]
fn boardgame_ranges_are_put_in_order() {
    let document = r#"<boardgame objectid="1"><minplayers>6</minplayers><maxplayers>1</maxplayers><minplaytime>45</minplaytime><maxplaytime>-5</maxplaytime></boardgame>"#;
    let game = BoardGameParser::new().parse(document.as_bytes()).unwrap();
    assert_eq!(game.players, 6..6);
    assert_eq!(game.playtime, 45..45);
}
