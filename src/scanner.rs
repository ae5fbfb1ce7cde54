//! Finding the import file and the snippets companion in a repository listing.
use vstd::prelude::*;

use crate::error::LatError;
use crate::json::{json_array_string_pairs, pair_views, parse_array_string_pairs};
use crate::text::{
    contains_str, contains_text, ends_with, ends_with_str, opt_view, strip_suffix, strip_suffix_str,
};

verus! {

/// One entry of a repository's root listing.
#[derive(Debug)]
pub struct ListingEntry {
    pub name: String,
    pub download_url: Option<String>,
}

/// What a scan found: the import file, and the snippets companion if there is one.
#[derive(Debug)]
pub struct ScanResult {
    /// The import file's name, as listed.
    pub import_file_name: String,
    /// That name without the import suffix.
    pub import_base_name: String,
    pub import_url: String,
    pub snippets_url: Option<String>,
}

/// The token that marks a snippets file.
pub open spec fn snippets_token() -> Seq<char> {
    "snippets"@
}

/// The suffix that marks an import file.
pub open spec fn import_suffix() -> Seq<char> {
    ".sty"@
}

/// A snippets entry names the token and can be downloaded.
pub open spec fn is_snippets_entry(e: ListingEntry) -> bool {
    contains_text(e.name@, snippets_token()) && e.download_url is Some
}

/// An import entry carries the suffix, is no snippets file and can be downloaded.
pub open spec fn is_import_entry(e: ListingEntry) -> bool {
    !contains_text(e.name@, snippets_token()) && ends_with(e.name@, import_suffix())
        && e.download_url is Some
}

/// The index of the last import entry.
pub open spec fn last_import_at(es: Seq<ListingEntry>) -> Option<int>
    decreases es.len(),
{
    if es.len() == 0 {
        None
    } else if is_import_entry(es.last()) {
        Some(es.len() - 1)
    } else {
        last_import_at(es.drop_last())
    }
}

/// The index of the last snippets entry.
pub open spec fn last_snippets_at(es: Seq<ListingEntry>) -> Option<int>
    decreases es.len(),
{
    if es.len() == 0 {
        None
    } else if is_snippets_entry(es.last()) {
        Some(es.len() - 1)
    } else {
        last_snippets_at(es.drop_last())
    }
}

/// An optional index, as an integer.
pub open spec fn index_view(o: Option<usize>) -> Option<int> {
    match o {
        Some(i) => Some(i as int),
        None => None,
    }
}

/// The last import and snippets entries are entries of those kinds.
pub proof fn lemma_last_in_range(es: Seq<ListingEntry>)
    ensures
        last_import_at(es) matches Some(i) ==> 0 <= i < es.len() && is_import_entry(es[i]),
        last_snippets_at(es) matches Some(i) ==> 0 <= i < es.len() && is_snippets_entry(es[i]),
    decreases es.len(),
{
    if es.len() > 0 {
        lemma_last_in_range(es.drop_last());
    }
}

/// A listing in which no entry carries the import suffix has no import entry, so scanning it
/// reports the import as not found.
pub proof fn listing_without_import_law(es: Seq<ListingEntry>)
    requires
        forall|i: int| 0 <= i < es.len() ==> !ends_with(#[trigger] es[i].name@, import_suffix()),
    ensures
        last_import_at(es) is None,
{
    lemma_last_in_range(es);
}

fn is_snippets(e: &ListingEntry) -> (r: bool)
    ensures
        r == is_snippets_entry(*e),
{
    contains_str(e.name.as_str(), "snippets") && e.download_url.is_some()
}

fn is_import(e: &ListingEntry) -> (r: bool)
    ensures
        r == is_import_entry(*e),
{
    !contains_str(e.name.as_str(), "snippets") && ends_with_str(e.name.as_str(), ".sty")
        && e.download_url.is_some()
}

/// Scans a listing in one pass. The last import entry is the import file and the last snippets
/// entry the companion; without an import entry the import cannot be resolved.
pub fn scan_listing(entries: &Vec<ListingEntry>) -> (r: Result<ScanResult, LatError>)
    ensures
        match r {
            Ok(s) => match last_import_at(entries@) {
                Some(i) => {
                    &&& s.import_file_name@ == entries@[i].name@
                    &&& s.import_base_name@ == strip_suffix(entries@[i].name@, import_suffix())
                    &&& Some(s.import_url@) == opt_view(entries@[i].download_url)
                    &&& opt_view(s.snippets_url) == match last_snippets_at(entries@) {
                        Some(j) => opt_view(entries@[j].download_url),
                        None => None,
                    }
                },
                None => false,
            },
            Err(e) => last_import_at(entries@) is None && e == LatError::ResolutionNotFound,
        },
{
    let mut imp: Option<usize> = None;
    let mut snip: Option<usize> = None;
    let mut i: usize = 0;
    while i < entries.len()
        invariant
            i <= entries@.len(),
            index_view(imp) == last_import_at(entries@.take(i as int)),
            index_view(snip) == last_snippets_at(entries@.take(i as int)),
        decreases entries@.len() - i,
    {
        let ghost t = entries@.take(i + 1);
        assert(t.drop_last() =~= entries@.take(i as int));
        assert(t.last() == entries@[i as int]);
        let e = &entries[i];
        if is_snippets(e) {
            snip = Some(i);
        }
        if is_import(e) {
            imp = Some(i);
        }
        i = i + 1;
    }
    assert(entries@.take(entries@.len() as int) =~= entries@);
    proof {
        lemma_last_in_range(entries@);
    }
    match imp {
        None => Err(LatError::ResolutionNotFound),
        Some(k) => {
            let e = &entries[k];
            let import_url = match &e.download_url {
                Some(u) => u.clone(),
                None => String::new(),
            };
            let snippets_url = match snip {
                Some(j) => match &entries[j].download_url {
                    Some(u) => Some(u.clone()),
                    None => None,
                },
                None => None,
            };
            Ok(
                ScanResult {
                    import_file_name: e.name.clone(),
                    import_base_name: strip_suffix_str(e.name.as_str(), ".sty"),
                    import_url,
                    snippets_url,
                },
            )
        },
    }
}

/// An entry as text: its name and its download link.
pub open spec fn entry_view(e: ListingEntry) -> (Seq<char>, Option<Seq<char>>) {
    (e.name@, opt_view(e.download_url))
}

pub open spec fn listing_views(es: Seq<ListingEntry>) -> Seq<(Seq<char>, Option<Seq<char>>)> {
    es.map_values(|e: ListingEntry| entry_view(e))
}

/// The items that carry a name, in order, as (name, download link).
pub open spec fn named_items(items: Seq<(Option<Seq<char>>, Option<Seq<char>>)>) -> Seq<
    (Seq<char>, Option<Seq<char>>),
>
    decreases items.len(),
{
    if items.len() == 0 {
        Seq::empty()
    } else {
        let rest = named_items(items.drop_last());
        match items.last().0 {
            Some(n) => rest.push((n, items.last().1)),
            None => rest,
        }
    }
}

/// The listing that a body reads as: the elements of its top-level array that have a string
/// `name`, with their `download_url` where it is a string; `None` when the body is no JSON array.
pub open spec fn listing_of(body: Seq<char>) -> Option<Seq<(Seq<char>, Option<Seq<char>>)>> {
    match json_array_string_pairs(body, ""@, "name"@, "download_url"@) {
        Some(items) => Some(named_items(items)),
        None => None,
    }
}

fn clone_opt(o: &Option<String>) -> (r: Option<String>)
    ensures
        opt_view(r) == opt_view(*o),
{
    match o {
        Some(s) => Some(s.clone()),
        None => None,
    }
}

/// Reads a repository listing: a JSON array of objects, each with a string `name` and a
/// `download_url` that is a string or null. Elements without a string name are passed over.
pub fn decode_listing(body: &str) -> (r: Result<Vec<ListingEntry>, LatError>)
    ensures
        match listing_of(body@) {
            Some(l) => r matches Ok(es) && listing_views(es@) == l,
            None => r == Err::<Vec<ListingEntry>, LatError>(LatError::DecodeFailure),
        },
{
    let items = match parse_array_string_pairs(body, "", "name", "download_url") {
        Some(v) => v,
        None => return Err(LatError::DecodeFailure),
    };
    let ghost iv = pair_views(items@);
    let mut entries: Vec<ListingEntry> = Vec::new();
    let mut i: usize = 0;
    while i < items.len()
        invariant
            i <= items@.len(),
            iv == pair_views(items@),
            listing_views(entries@) == named_items(iv.take(i as int)),
        decreases items@.len() - i,
    {
        let ghost t = iv.take(i + 1);
        assert(t.drop_last() =~= iv.take(i as int));
        assert(t.last() == iv[i as int]);
        let ghost before = listing_views(entries@);
        match &items[i].0 {
            Some(n) => {
                let e = ListingEntry { name: n.clone(), download_url: clone_opt(&items[i].1) };
                entries.push(e);
                assert(listing_views(entries@) =~= before.push(entry_view(e)));
            },
            None => {},
        }
        i = i + 1;
    }
    assert(iv.take(iv.len() as int) =~= iv);
    Ok(entries)
}

} // verus!
