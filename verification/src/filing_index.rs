//! The filing index: the query that finds a company's quarterly filings, and
//! the rewriting of each filing's index link into the address of its directory
//! listing.

use crate::text::{
    chars_of, join, join_with, lemma_join_within, lemma_replaced_keeps, lemma_split_join,
    lemma_split_pieces, lemma_split_within, lemma_without_has_none, lemma_without_keeps, pieces,
    remove_char, replace_all, replaced, split, split_on, string_of, without,
};
use vstd::prelude::*;

verus! {

/// The views of a list of name-value pairs.
pub open spec fn pairs_view(pairs: Seq<(String, String)>) -> Seq<(Seq<char>, Seq<char>)> {
    pairs.map_values(|p: (String, String)| (p.0@, p.1@))
}

/// The views of a list of strings.
pub open spec fn strings_view(strings: Seq<String>) -> Seq<Seq<char>> {
    strings.map_values(|s: String| s@)
}

/// The query of a filing search: quarterly reports of `ticker` filed before
/// `date`, owners excluded, as an Atom feed of at most 100 entries.
pub open spec fn search_query(ticker: Seq<char>, date: Seq<char>) -> Seq<(Seq<char>, Seq<char>)> {
    seq![
        ("action"@, "getcompany"@),
        ("ticker"@, ticker),
        ("type"@, "10-Q"@),
        ("dateb"@, date),
        ("owner"@, "exclude"@),
        ("start"@, ""@),
        ("output"@, "atom"@),
        ("count"@, "100"@),
    ]
}

/// The address of a filing's directory listing, from the link to its index
/// page: the ending `-index.html` or `-index.htm` becomes `/index.json`, every
/// hyphen goes, and a path of exactly ten segments loses the eighth.
pub open spec fn normalized(href: Seq<char>) -> Seq<char> {
    let long = replaced(href, "-index.html"@, "/index.json"@);
    let short = replaced(long, "-index.htm"@, "/index.json"@);
    let plain = without(short, '-');
    let segments = split(plain, '/');
    if segments.len() == 10 {
        join(segments.remove(7), '/')
    } else {
        plain
    }
}

/// The address of the filing search.
pub fn search_url() -> (url: String)
    ensures
        url@ == "https://www.sec.gov/cgi-bin/browse-edgar"@,
{
    "https://www.sec.gov/cgi-bin/browse-edgar".to_owned()
}

fn pair(name: &str, value: &str) -> (p: (String, String))
    ensures
        p.0@ == name@,
        p.1@ == value@,
{
    (name.to_owned(), value.to_owned())
}

/// The query parameters of the filing search for `ticker` as of `date`.
pub fn search_params(ticker: &str, date: &str) -> (params: Vec<(String, String)>)
    ensures
        pairs_view(params@) == search_query(ticker@, date@),
{
    let mut params: Vec<(String, String)> = Vec::new();
    params.push(pair("action", "getcompany"));
    params.push(pair("ticker", ticker));
    params.push(pair("type", "10-Q"));
    params.push(pair("dateb", date));
    params.push(pair("owner", "exclude"));
    params.push(pair("start", ""));
    params.push(pair("output", "atom"));
    params.push(pair("count", "100"));
    assert(pairs_view(params@) == search_query(ticker@, date@));
    params
}

/// Rewrites the link to a filing's index page into the address of its
/// directory listing.
pub fn normalize_url(href: &str) -> (url: String)
    ensures
        url@ == normalized(href@),
{
    let index_json = chars_of("/index.json");
    let text = chars_of(href);
    let long = replace_all(&text, &chars_of("-index.html"), &index_json);
    let short = replace_all(&long, &chars_of("-index.htm"), &index_json);
    let plain = remove_char(&short, '-');
    let mut segments = split_on(&plain, '/');
    if segments.len() == 10 {
        let ghost all = pieces(segments@);
        segments.remove(7);
        assert(pieces(segments@) == all.remove(7));
        string_of(&join_with(&segments, '/'))
    } else {
        string_of(&plain)
    }
}

/// The directory listings of the filings that a feed names, in the feed's
/// order: one address for each link.
pub fn documents(links: &Vec<String>) -> (urls: Vec<String>)
    ensures
        urls@.len() == links@.len(),
        forall|i: int| 0 <= i < links@.len() ==> (#[trigger] urls@[i])@ == normalized(links@[i]@),
{
    let mut urls: Vec<String> = Vec::new();
    let mut i: usize = 0;
    while i < links.len()
        invariant
            i <= links.len(),
            urls@.len() == i,
            forall|j: int| 0 <= j < i ==> (#[trigger] urls@[j])@ == normalized(links@[j]@),
        decreases links.len() - i,
    {
        urls.push(normalize_url(links[i].as_str()));
        i += 1;
    }
    urls
}

/// A rewritten address holds no hyphen, and its path never has exactly ten
/// segments.
pub proof fn lemma_normalized_shape(href: Seq<char>)
    ensures
        !normalized(href).contains('-'),
        split(normalized(href), '/').len() != 10,
{
    let long = replaced(href, "-index.html"@, "/index.json"@);
    let short = replaced(long, "-index.htm"@, "/index.json"@);
    let plain = without(short, '-');
    let segments = split(plain, '/');
    lemma_without_has_none(short, '-');
    lemma_split_pieces(plain, '/');
    lemma_split_within(plain, '/', '-');
    if segments.len() == 10 {
        let kept = segments.remove(7);
        assert forall|i: int| 0 <= i < kept.len() implies !(#[trigger] kept[i]).contains('-') && !kept[i].contains('/') by {
            if i < 7 {
                assert(kept[i] == segments[i]);
            } else {
                assert(kept[i] == segments[i + 1]);
            }
        }
        lemma_join_within(kept, '/', '-');
        lemma_split_join(kept, '/');
    }
}

/// Rewriting an address that was already rewritten changes nothing: twice is
/// the same as once.
pub proof fn lemma_normalized_idempotent(href: Seq<char>)
    ensures
        normalized(normalized(href)) == normalized(href),
{
    let once = normalized(href);
    lemma_normalized_shape(href);
    reveal_strlit("-index.html");
    reveal_strlit("-index.htm");
    lemma_replaced_keeps(once, "-index.html"@, "/index.json"@);
    lemma_replaced_keeps(once, "-index.htm"@, "/index.json"@);
    lemma_without_keeps(once, '-');
}

} // verus!
