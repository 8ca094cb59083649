//! A filing's directory listing: a JSON document that names the directory and
//! the files in it. The listing is read with `serde_json`; what is asked of
//! the parsed document, and what follows from the answers, is decided here.

use crate::error::{MissingField, PipelineError};
use crate::filing_index::strings_view;
use crate::text::{append, chars_of, string_of};
use vstd::prelude::*;

verus! {

#[verifier::external_type_specification]
#[verifier::external_body]
pub struct ExJsonValue(serde_json::Value);

#[verifier::external_type_specification]
#[verifier::external_body]
pub struct ExJsonError(serde_json::Error);

/// The value that `serde_json::from_str` reads from a text; nothing where it
/// reports an error.
pub uninterp spec fn json_document(text: Seq<char>) -> Option<serde_json::Value>;

/// What indexing a value with a key gives: the member of that name if the
/// value is an object that has one, and null otherwise.
pub uninterp spec fn json_member(value: serde_json::Value, key: Seq<char>) -> serde_json::Value;

/// The text of a value that is a string; nothing for any other value.
pub uninterp spec fn json_string(value: serde_json::Value) -> Option<Seq<char>>;

/// The elements of a value that is an array; nothing for any other value.
pub uninterp spec fn json_array(value: serde_json::Value) -> Option<Seq<serde_json::Value>>;

/// `serde_json::from_str` at the type `serde_json::Value`: reads one JSON
/// value from a text, or reports why the text is not one.
#[verifier::external_body]
fn parse_json(text: &str) -> (parsed: Result<serde_json::Value, serde_json::Error>)
    ensures
        match parsed {
            Ok(value) => json_document(text@) == Some(value),
            Err(_) => json_document(text@) is None,
        },
{
    serde_json::from_str(text)
}

/// Indexing a `serde_json::Value` with a string: the member of that name, or
/// null where the value is no object or has no such member. It does not
/// panic.
#[verifier::external_body]
fn member<'a>(value: &'a serde_json::Value, key: &str) -> (found: &'a serde_json::Value)
    ensures
        *found == json_member(*value, key@),
{
    &value[key]
}

/// `serde_json::Value::as_str`: the text of a string value.
#[verifier::external_body]
fn as_string<'a>(value: &'a serde_json::Value) -> (text: Option<&'a str>)
    ensures
        match text {
            Some(s) => json_string(*value) == Some(s@),
            None => json_string(*value) is None,
        },
{
    value.as_str()
}

/// `serde_json::Value::as_array`: the elements of an array value.
#[verifier::external_body]
fn as_array<'a>(value: &'a serde_json::Value) -> (items: Option<&'a Vec<serde_json::Value>>)
    ensures
        match items {
            Some(list) => json_array(*value) == Some(list@),
            None => json_array(*value) is None,
        },
{
    value.as_array()
}

/// One entry of a directory listing. Its name is missing where the entry
/// holds no `name` that is a string.
#[derive(Clone, Debug, PartialEq, Eq)]
pub struct DirectoryItem {
    pub name: Option<String>,
}

/// A directory listing: the directory's path below the host, and its entries
/// in order.
#[derive(Clone, Debug, PartialEq, Eq)]
pub struct DirectoryManifest {
    pub directory_name: String,
    pub items: Vec<DirectoryItem>,
}

/// A directory listing as sequences of texts.
pub struct ManifestView {
    pub directory_name: Seq<char>,
    pub items: Seq<Option<Seq<char>>>,
}

impl DirectoryItem {
    /// The entry's name as a text.
    pub open spec fn name_view(self) -> Option<Seq<char>> {
        match self.name {
            Some(name) => Some(name@),
            None => None,
        }
    }
}

impl View for DirectoryManifest {
    type V = ManifestView;

    open spec fn view(&self) -> ManifestView {
        ManifestView {
            directory_name: self.directory_name@,
            items: self.items@.map_values(|item: DirectoryItem| item.name_view()),
        }
    }
}

/// The file name of a summary manifest.
pub open spec fn summary_file() -> Seq<char> {
    "FilingSummary.xml"@
}

/// The name of an entry of a parsed listing.
pub open spec fn item_name(item: serde_json::Value) -> Option<Seq<char>> {
    json_string(json_member(item, "name"@))
}

/// The listing that a text holds. The text has to be JSON, `directory.name`
/// a string and `directory.item` a list.
pub open spec fn manifest_of(text: Seq<char>) -> Result<ManifestView, PipelineError> {
    match json_document(text) {
        None => Err(PipelineError::Parse),
        Some(document) => {
            let directory = json_member(document, "directory"@);
            match json_string(json_member(directory, "name"@)) {
                None => Err(PipelineError::Schema(MissingField::DirectoryName)),
                Some(name) => match json_array(json_member(directory, "item"@)) {
                    None => Err(PipelineError::Schema(MissingField::DirectoryItems)),
                    Some(items) => Ok(
                        ManifestView {
                            directory_name: name,
                            items: items.map_values(|item: serde_json::Value| item_name(item)),
                        },
                    ),
                },
            }
        },
    }
}

impl ManifestView {
    /// The listing has an entry named exactly like a summary manifest.
    pub open spec fn has_summary(self) -> bool {
        exists|i: int| 0 <= i < self.items.len() && #[trigger] self.items[i] == Some(summary_file())
    }

    /// The address of the directory's summary manifest.
    pub open spec fn summary_address(self) -> Seq<char> {
        "https://www.sec.gov/"@ + self.directory_name + "/FilingSummary.xml"@
    }

    /// The summary manifest of the directory: its address if the listing has
    /// one, and nothing otherwise.
    pub open spec fn summary(self) -> Option<Seq<char>> {
        if self.has_summary() {
            Some(self.summary_address())
        } else {
            None
        }
    }
}

/// The summary manifests of a run of listings: for each listing that has one
/// its address, in order. The first listing that cannot be read fails the
/// run.
pub open spec fn summaries_of(texts: Seq<Seq<char>>) -> Result<Seq<Seq<char>>, PipelineError>
    decreases texts.len(),
{
    if texts.len() == 0 {
        Ok(Seq::empty())
    } else {
        match summaries_of(texts.drop_last()) {
            Err(error) => Err(error),
            Ok(found) => match manifest_of(texts.last()) {
                Err(error) => Err(error),
                Ok(manifest) => match manifest.summary() {
                    Some(address) => Ok(found.push(address)),
                    None => Ok(found),
                },
            },
        }
    }
}

/// The result of a text step as sequences of texts.
pub open spec fn found_view(found: Result<Vec<String>, PipelineError>) -> Result<
    Seq<Seq<char>>,
    PipelineError,
> {
    match found {
        Ok(addresses) => Ok(strings_view(addresses@)),
        Err(error) => Err(error),
    }
}

/// The result of reading a listing, as sequences of texts.
pub open spec fn manifest_view(read: Result<DirectoryManifest, PipelineError>) -> Result<
    ManifestView,
    PipelineError,
> {
    match read {
        Ok(manifest) => Ok(manifest@),
        Err(error) => Err(error),
    }
}

/// The address in a result, as a text.
pub open spec fn address_view(address: Option<String>) -> Option<Seq<char>> {
    match address {
        Some(text) => Some(text@),
        None => None,
    }
}

impl DirectoryManifest {
    /// Reads a directory listing from its JSON text. A text that is not JSON
    /// is a parse error; a listing without a directory name that is a string,
    /// or without a list of items, is a schema error.
    pub fn read(text: &str) -> (read: Result<DirectoryManifest, PipelineError>)
        ensures
            manifest_view(read) == manifest_of(text@),
    {
        let document = match parse_json(text) {
            Ok(document) => document,
            Err(_) => {
                return Err(PipelineError::Parse);
            },
        };
        let directory = member(&document, "directory");
        let directory_name = match as_string(member(directory, "name")) {
            Some(name) => name.to_owned(),
            None => {
                return Err(PipelineError::Schema(MissingField::DirectoryName));
            },
        };
        let list = match as_array(member(directory, "item")) {
            Some(list) => list,
            None => {
                return Err(PipelineError::Schema(MissingField::DirectoryItems));
            },
        };
        let ghost names = list@.map_values(|item: serde_json::Value| item_name(item));
        let mut items: Vec<DirectoryItem> = Vec::new();
        let mut k: usize = 0;
        while k < list.len()
            invariant
                k <= list.len(),
                names == list@.map_values(|item: serde_json::Value| item_name(item)),
                items@.map_values(|item: DirectoryItem| item.name_view()) == names.take(k as int),
            decreases list.len() - k,
        {
            let ghost before = items@.map_values(|item: DirectoryItem| item.name_view());
            let item = match as_string(member(&list[k], "name")) {
                Some(name) => DirectoryItem { name: Some(name.to_owned()) },
                None => DirectoryItem { name: None },
            };
            items.push(item);
            assert(items@.map_values(|item: DirectoryItem| item.name_view()) == before.push(
                item.name_view(),
            ));
            assert(names.take(k + 1) == names.take(k as int).push(item_name(list@[k as int])));
            k += 1;
        }
        assert(names.take(k as int) == names);
        Ok(DirectoryManifest { directory_name, items })
    }

    /// The address of the directory's summary manifest: present if and only
    /// if an entry is named exactly `FilingSummary.xml`. A listing without
    /// such an entry is no error.
    pub fn summary_url(&self) -> (address: Option<String>)
        ensures
            address_view(address) == self@.summary(),
            address is None <==> forall|i: int|
                0 <= i < self.items@.len() ==> (#[trigger] self.items@[i]).name_view() != Some(
                    summary_file(),
                ),
    {
        let wanted = "FilingSummary.xml".to_owned();
        let mut k: usize = 0;
        while k < self.items.len()
            invariant
                k <= self.items.len(),
                wanted@ == summary_file(),
                forall|j: int|
                    0 <= j < k ==> (#[trigger] self.items@[j]).name_view() != Some(summary_file()),
            decreases self.items.len() - k,
        {
            let is_summary = match &self.items[k].name {
                Some(name) => *name == wanted,
                None => false,
            };
            if is_summary {
                assert(self@.items[k as int] == Some(summary_file()));
                let mut address = chars_of("https://www.sec.gov/");
                append(&mut address, &chars_of(self.directory_name.as_str()));
                append(&mut address, &chars_of("/FilingSummary.xml"));
                return Some(string_of(&address));
            }
            k += 1;
        }
        assert forall|i: int| 0 <= i < self@.items.len() implies #[trigger] self@.items[i] != Some(
            summary_file(),
        ) by {
            assert(self@.items[i] == self.items@[i].name_view());
        }
        None
    }
}

/// The summary manifest that a directory listing points to, from the
/// listing's JSON text.
pub fn filing_summary(text: &str) -> (found: Result<Option<String>, PipelineError>)
    ensures
        match found {
            Ok(address) => manifest_of(text@) matches Ok(manifest) && address_view(address)
                == manifest.summary(),
            Err(error) => manifest_of(text@) == Err::<ManifestView, PipelineError>(error),
        },
{
    match DirectoryManifest::read(text) {
        Ok(manifest) => Ok(manifest.summary_url()),
        Err(error) => Err(error),
    }
}

/// The summary manifests of a run of directory listings, from their JSON
/// texts: one address for each listing that has a summary manifest, in order.
/// A listing without one is passed over; the first listing that cannot be read
/// fails the run with its error.
pub fn filing_summaries(listings: &Vec<String>) -> (found: Result<Vec<String>, PipelineError>)
    ensures
        found_view(found) == summaries_of(strings_view(listings@)),
{
    let mut summaries: Vec<String> = Vec::new();
    let mut k: usize = 0;
    assert(strings_view(summaries@) == Seq::<Seq<char>>::empty());
    while k < listings.len()
        invariant
            k <= listings.len(),
            summaries_of(strings_view(listings@).take(k as int)) == Ok::<
                Seq<Seq<char>>,
                PipelineError,
            >(strings_view(summaries@)),
        decreases listings.len() - k,
    {
        let ghost upto = strings_view(listings@).take(k + 1);
        let ghost before = strings_view(summaries@);
        assert(upto.drop_last() == strings_view(listings@).take(k as int));
        assert(upto.last() == listings@[k as int]@);
        match filing_summary(listings[k].as_str()) {
            Ok(Some(address)) => {
                summaries.push(address);
                assert(strings_view(summaries@) == before.push(address@));
            },
            Ok(None) => {},
            Err(error) => {
                proof {
                    lemma_summaries_fail(strings_view(listings@), k + 1);
                }
                return Err(error);
            },
        }
        k += 1;
    }
    assert(strings_view(listings@).take(k as int) == strings_view(listings@));
    Ok(summaries)
}

/// A run that fails on its first `upto` listings fails in the same way on all
/// of them.
proof fn lemma_summaries_fail(texts: Seq<Seq<char>>, upto: int)
    requires
        0 <= upto <= texts.len(),
        summaries_of(texts.take(upto)) is Err,
    ensures
        summaries_of(texts) == summaries_of(texts.take(upto)),
    decreases texts.len() - upto,
{
    if upto < texts.len() {
        assert(texts.take(upto + 1).drop_last() == texts.take(upto));
        lemma_summaries_fail(texts, upto + 1);
    } else {
        assert(texts.take(upto) == texts);
    }
}

} // verus!
