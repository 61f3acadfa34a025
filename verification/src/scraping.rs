//! Ids of games, picked out of addresses and pages.
//!
//! Not everything that the catalogue knows comes as XML. A random game is
//! named by the address that a redirection leads to, and the ranking is a
//! page of links. In both the id of a game is the run of digits in the path
//! of a link.

use itertools::Itertools;
use vstd::prelude::*;

verus! {

/// What a pattern finds in a text: for each match, from left to right, the
/// text of its first group, or nothing where that group took no part in the
/// match. `None` where the pattern is no regular expression.
pub uninterp spec fn first_groups(pattern: Seq<char>, text: Seq<char>) -> Option<
    Seq<Option<Seq<char>>>,
>;

/// `regex::Regex::new`, `Regex::captures_iter`, `Captures::get` and
/// `Match::as_str`: compiles the pattern and collects, for each match in
/// the text, what the first group holds.
#[verifier::external_body]
fn captures(pattern: &str, text: &str) -> (found: Option<Vec<Option<String>>>)
    ensures
        match found {
            Some(groups) => first_groups(pattern@, text@) == Some(groups.deep_view()),
            None => first_groups(pattern@, text@).is_none(),
        },
{
    regex::Regex::new(pattern).ok().map(
        |regex| regex.captures_iter(text).map(|found| found.get(1).map(|group| group.as_str().to_owned())).collect(),
    )
}

/// Whether `a` comes before `b`, or is `b`, in the order of texts: the
/// first character in which the two differ decides, and a text comes after
/// each of its beginnings.
pub open spec fn text_le(a: Seq<char>, b: Seq<char>) -> bool
    decreases a.len(),
{
    if a.len() == 0 {
        true
    } else if b.len() == 0 {
        false
    } else if a[0] != b[0] {
        (a[0] as u32) < (b[0] as u32)
    } else {
        text_le(a.skip(1), b.skip(1))
    }
}

/// Whether the texts stand in order, equal ones side by side.
pub open spec fn ascending(texts: Seq<Seq<char>>) -> bool {
    forall|i: int, j: int| 0 <= i < j < texts.len() ==> text_le(texts[i], texts[j])
}

/// Whether the texts stand in order and no text stands twice.
pub open spec fn strictly_ascending(texts: Seq<Seq<char>>) -> bool {
    forall|i: int, j: int|
        0 <= i < j < texts.len() ==> text_le(texts[i], texts[j]) && texts[i] != texts[j]
}

/// The texts without their repetitions: of equal texts the first stays.
pub open spec fn firsts(texts: Seq<Seq<char>>) -> Seq<Seq<char>>
    decreases texts.len(),
{
    if texts.len() == 0 {
        texts
    } else if firsts(texts.drop_last()).contains(texts.last()) {
        firsts(texts.drop_last())
    } else {
        firsts(texts.drop_last()).push(texts.last())
    }
}

/// `Itertools::sorted`: the same texts, put in order as `String` orders
/// them, which is by their bytes and so by their characters.
#[verifier::external_body]
fn sorted(texts: Vec<String>) -> (ordered: Vec<String>)
    ensures
        ordered.deep_view().to_multiset() == texts.deep_view().to_multiset(),
        ascending(ordered.deep_view()),
{
    texts.into_iter().sorted().collect()
}

/// `Itertools::unique`: the texts in their order, each one only where it
/// stands first.
#[verifier::external_body]
fn unique(texts: Vec<String>) -> (kept: Vec<String>)
    ensures
        kept.deep_view() == firsts(texts.deep_view()),
{
    texts.into_iter().unique().collect()
}

/// The pattern of a link to a game inside an address.
pub open spec fn game_path() -> Seq<char> {
    "/boardgame/(\\d+)/"@
}

/// The pattern of a link to a game on a page.
pub open spec fn game_link() -> Seq<char> {
    "href=\"/boardgame/(\\d+)/"@
}

/// The pattern of a link to an expansion on a page.
pub open spec fn expansion_link() -> Seq<char> {
    "href=\"/boardgameexpansion/(\\d+)/"@
}

/// The text of a group: empty where the group took no part.
pub open spec fn group_text(group: Option<Seq<char>>) -> Seq<char> {
    match group {
        Some(text) => text,
        None => Seq::empty(),
    }
}

/// The ids that a pattern finds in a text, in the order of the text, as
/// often as they stand there. None where the pattern finds nothing.
pub open spec fn ids_in(pattern: Seq<char>, text: Seq<char>) -> Seq<Seq<char>> {
    match first_groups(pattern, text) {
        Some(groups) => groups.map_values(|group: Option<Seq<char>>| group_text(group)),
        None => Seq::empty(),
    }
}

/// Whether `listed` lists exactly the ids `found`, each once, in order.
pub open spec fn lists(listed: Seq<Seq<char>>, found: Seq<Seq<char>>) -> bool {
    &&& strictly_ascending(listed)
    &&& forall|id: Seq<char>| listed.contains(id) <==> found.contains(id)
}

/// Finds the ids that a pattern matches in a text.
fn find_ids(pattern: &str, text: &str) -> (ids: Vec<String>)
    ensures
        ids.deep_view() == ids_in(pattern@, text@),
{
    let mut ids: Vec<String> = Vec::new();
    match captures(pattern, text) {
        Some(groups) => {
            let mut i: usize = 0;
            while i < groups.len()
                invariant
                    i <= groups.len(),
                    first_groups(pattern@, text@) == Some(groups.deep_view()),
                    ids.deep_view() == ids_in(pattern@, text@).take(i as int),
                decreases groups.len() - i,
            {
                let id = match &groups[i] {
                    Some(text) => text.clone(),
                    None => String::new(),
                };
                let ghost before = ids;
                ids.push(id);
                assert(groups.deep_view()[i as int] == groups[i as int].deep_view());
                assert(ids.deep_view() =~= before.deep_view().push(id@));
                assert(ids.deep_view() =~= ids_in(pattern@, text@).take(i as int + 1));
                i += 1;
            }
            assert(ids.deep_view() =~= ids_in(pattern@, text@));
        },
        None => {
            assert(ids.deep_view() =~= ids_in(pattern@, text@));
        },
    }
    ids
}

/// What a sequence contains after one more item.
proof fn lemma_pushed_contains(texts: Seq<Seq<char>>, last: Seq<char>, text: Seq<char>)
    ensures
        texts.push(last).contains(text) <==> texts.contains(text) || text == last,
{
    let longer = texts.push(last);
    if texts.contains(text) {
        let i = choose|i: int| 0 <= i < texts.len() && texts[i] == text;
        assert(longer[i] == text);
    }
    if text == last {
        assert(longer[texts.len() as int] == text);
    }
    if longer.contains(text) {
        let i = choose|i: int| 0 <= i < longer.len() && longer[i] == text;
        if i < texts.len() {
            assert(texts[i] == text);
        }
    }
}

/// Every text of `firsts` is one of the texts, and the other way round.
pub proof fn lemma_firsts_keeps_every_text(texts: Seq<Seq<char>>)
    ensures
        forall|text: Seq<char>| firsts(texts).contains(text) <==> texts.contains(text),
    decreases texts.len(),
{
    if texts.len() > 0 {
        let before = texts.drop_last();
        let last = texts.last();
        lemma_firsts_keeps_every_text(before);
        assert(texts =~= before.push(last));
        assert forall|text: Seq<char>| firsts(texts).contains(text) <==> texts.contains(
            text,
        ) by {
            assert(firsts(before).contains(text) <==> before.contains(text));
            assert(firsts(before).contains(last) <==> before.contains(last));
            lemma_pushed_contains(before, last, text);
            lemma_pushed_contains(firsts(before), last, text);
        }
    }
}

/// Texts that stand in order stand in order still without their
/// repetitions, and then no text stands twice.
pub proof fn lemma_firsts_of_ascending(texts: Seq<Seq<char>>)
    requires
        ascending(texts),
    ensures
        strictly_ascending(firsts(texts)),
    decreases texts.len(),
{
    if texts.len() > 0 {
        let before = texts.drop_last();
        assert(ascending(before)) by {
            assert forall|i: int, j: int| 0 <= i < j < before.len() implies text_le(
                before[i],
                before[j],
            ) by {
                assert(before[i] == texts[i] && before[j] == texts[j]);
            }
        }
        lemma_firsts_of_ascending(before);
        lemma_firsts_keeps_every_text(before);
        if !firsts(before).contains(texts.last()) {
            let kept = firsts(texts);
            assert forall|i: int, j: int| 0 <= i < j < kept.len() implies text_le(
                kept[i],
                kept[j],
            ) && kept[i] != kept[j] by {
                if j < firsts(before).len() {
                    assert(kept[i] == firsts(before)[i] && kept[j] == firsts(before)[j]);
                } else {
                    assert(kept[i] == firsts(before)[i]);
                    assert(firsts(before).contains(kept[i]));
                    assert(before.contains(kept[i]));
                    let k = choose|k: int| 0 <= k < before.len() && before[k] == kept[i];
                    assert(texts[k] == kept[i]);
                    assert(text_le(texts[k], texts[texts.len() - 1]));
                }
            }
        }
    }
}

/// Puts ids in order and drops the repetitions.
pub fn list_ids(found: Vec<String>) -> (listed: Vec<String>)
    ensures
        lists(listed.deep_view(), found.deep_view()),
{
    let ordered = sorted(found);
    let listed = unique(ordered);
    proof {
        lemma_firsts_of_ascending(ordered.deep_view());
        lemma_firsts_keeps_every_text(ordered.deep_view());
        found.deep_view().to_multiset_ensures();
        ordered.deep_view().to_multiset_ensures();
        assert forall|id: Seq<char>|
            listed.deep_view().contains(id) <==> found.deep_view().contains(id) by {
            assert(ordered.deep_view().contains(id) <==> ordered.deep_view().to_multiset().count(
                id,
            ) > 0);
            assert(found.deep_view().contains(id) <==> found.deep_view().to_multiset().count(id)
                > 0);
        }
    }
    listed
}

/// The id of the game that an address leads to: the first run of digits
/// that stands between `/boardgame/` and the next `/`.
pub fn id_from_url(url: &String) -> (id: String)
    requires
        ids_in(game_path(), url@).len() > 0,
    ensures
        id@ == ids_in(game_path(), url@)[0],
{
    let ids = find_ids("/boardgame/(\\d+)/", url.as_str());
    ids[0].clone()
}

/// The id of the game that an address leads to, if it leads to one.
pub fn find_id_in_url(url: &String) -> (id: Option<String>)
    ensures
        match id {
            Some(id) => ids_in(game_path(), url@).len() > 0 && id@ == ids_in(game_path(), url@)[0],
            None => ids_in(game_path(), url@).len() == 0,
        },
{
    let ids = find_ids("/boardgame/(\\d+)/", url.as_str());
    if ids.len() > 0 {
        Some(id_from_url(url))
    } else {
        None
    }
}

/// The ids of the games that a page links to, each once, in the order of
/// texts.
pub fn parse_game_ids_from_page(html: String) -> (ids: Vec<String>)
    ensures
        lists(ids.deep_view(), ids_in(game_link(), html@)),
{
    list_ids(find_ids("href=\"/boardgame/(\\d+)/", html.as_str()))
}

/// The ids of the expansions that a page links to, each once, in the order
/// of texts.
pub fn parse_expansion_ids_from_page(html: String) -> (ids: Vec<String>)
    ensures
        lists(ids.deep_view(), ids_in(expansion_link(), html@)),
{
    list_ids(find_ids("href=\"/boardgameexpansion/(\\d+)/", html.as_str()))
}

} // verus!
