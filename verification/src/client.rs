//! Where to ask, and what to make of the answer.
//!
//! Each question to the catalogue has its address. The functions here write
//! the addresses; sending the request is up to the caller.

use crate::collection::CollectionType;
use crate::result::Error;
use crate::scraping::{find_id_in_url, game_path, ids_in};
use vstd::prelude::*;
use vstd::string::StringExecFns;

verus! {

/// The character that writes the digit `digit`.
pub open spec fn digit_char(digit: int) -> char
    recommends
        0 <= digit <= 9,
{
    (48 + digit) as u8 as char
}

/// A natural number as text, in decimal and without leading zeros.
pub open spec fn natural_text(number: nat) -> Seq<char>
    decreases number,
{
    if number < 10 {
        seq![digit_char(number as int)]
    } else {
        natural_text(number / 10).push(digit_char(number as int % 10))
    }
}

/// A whole number as text: in decimal, with `-` in front where it is below
/// zero.
pub open spec fn decimal_text(number: int) -> Seq<char> {
    if number < 0 {
        seq!['-'] + natural_text((-number) as nat)
    } else {
        natural_text(number as nat)
    }
}

/// `i32::to_string`: the number in decimal, with `-` in front where it is
/// below zero.
#[verifier::external_body]
fn page_text(page: i32) -> (text: String)
    ensures
        text@ == decimal_text(page as int),
{
    page.to_string()
}

/// The address of the catalogue entry of a game.
pub fn boardgame_url(id: &str) -> (url: String)
    ensures
        url@ == "https://api.geekdo.com/xmlapi/boardgame/"@ + id@,
{
    String::from_str("https://api.geekdo.com/xmlapi/boardgame/").concat(id)
}

/// The address of a game in the older form, with its statistics.
pub fn thing_url(id: &str) -> (url: String)
    ensures
        url@ == "https://www.boardgamegeek.com/xmlapi2/thing?id="@ + id@ + "&stats=true"@,
{
    String::from_str("https://www.boardgamegeek.com/xmlapi2/thing?id=").concat(id).concat(
        "&stats=true",
    )
}

/// What an address says to choose a part of a collection.
pub open spec fn subtype_query(subtype: CollectionType) -> Seq<char> {
    match subtype {
        CollectionType::BoardGames => "excludesubtype=boardgameexpansion"@,
        CollectionType::BoardGameExpansions => "subtype=boardgameexpansion"@,
    }
}

/// The address of a part of a user's collection.
pub fn collection_url(username: &str, subtype: CollectionType) -> (url: String)
    ensures
        url@ == "https://www.boardgamegeek.com/xmlapi2/collection?username="@ + username@ + "&"@
            + subtype_query(subtype),
{
    let query = match subtype {
        CollectionType::BoardGames => "excludesubtype=boardgameexpansion",
        CollectionType::BoardGameExpansions => "subtype=boardgameexpansion",
    };
    String::from_str("https://www.boardgamegeek.com/xmlapi2/collection?username=").concat(
        username,
    ).concat("&").concat(query)
}

/// The address that redirects to a game chosen at random.
pub fn random_boardgame_url() -> (url: &'static str)
    ensures
        url@ == "https://www.boardgamegeek.com/boardgame/random"@,
{
    "https://www.boardgamegeek.com/boardgame/random"
}

/// The address of a page of the ranking of games.
pub fn top_games_url(page: i32) -> (url: String)
    ensures
        url@ == "https://boardgamegeek.com/browse/boardgame/page/"@ + decimal_text(page as int),
{
    let number = page_text(page);
    String::from_str("https://boardgamegeek.com/browse/boardgame/page/").concat(number.as_str())
}

/// The address of a page of the ranking of expansions.
pub fn top_expansions_url(page: i32) -> (url: String)
    ensures
        url@ == "https://boardgamegeek.com/browse/boardgameexpansion/page/"@ + decimal_text(
            page as int,
        ),
{
    let number = page_text(page);
    String::from_str("https://boardgamegeek.com/browse/boardgameexpansion/page/").concat(
        number.as_str(),
    )
}

/// The id of the game that the redirection to a random game leads to. A
/// redirection that says no target, or one whose target is no game, is a
/// bad response.
pub fn random_boardgame_id(location: Option<String>) -> (id: Result<String, Error>)
    ensures
        match id {
            Ok(id) => location matches Some(url) && ids_in(game_path(), url@).len() > 0 && id@
                == ids_in(game_path(), url@)[0],
            Err(error) => error == Error::BadResponse && (location matches Some(url) ==> ids_in(
                game_path(),
                url@,
            ).len() == 0),
        },
{
    match location {
        Some(url) => match find_id_in_url(&url) {
            Some(id) => Ok(id),
            None => Err(Error::BadResponse),
        },
        None => Err(Error::BadResponse),
    }
}

} // verus!
