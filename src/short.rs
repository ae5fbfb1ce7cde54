//! The alias store: short names that stand for long references, kept as a JSON object.
//!
//! Every change reads the whole document, changes it and writes the whole document back. There
//! is no locking: two processes that change the store at once race, and the document written
//! last wins in full.
use vstd::prelude::*;

use crate::error::LatError;
use crate::json::{json_object_strings, json_string_literal, member_views, parse_object, quote_json};
use crate::text::opt_view;
use crate::text::{concat_str, same_text};

verus! {

/// An entry as text: the short name and the long reference.
pub type EntryView = (Seq<char>, Seq<char>);

pub open spec fn entry_views(v: Seq<(String, String)>) -> Seq<EntryView> {
    v.map_values(|p: (String, String)| (p.0@, p.1@))
}

pub open spec fn keys_distinct(es: Seq<EntryView>) -> bool {
    forall|i: int, j: int| 0 <= i < j < es.len() ==> #[trigger] es[i].0 != #[trigger] es[j].0
}

/// The index of the entry under `k`.
pub open spec fn key_index(es: Seq<EntryView>, k: Seq<char>) -> Option<int>
    decreases es.len(),
{
    if es.len() == 0 {
        None
    } else if es.last().0 == k {
        Some(es.len() - 1)
    } else {
        key_index(es.drop_last(), k)
    }
}

/// The long reference stored under `k`.
pub open spec fn lookup(es: Seq<EntryView>, k: Seq<char>) -> Option<Seq<char>> {
    match key_index(es, k) {
        Some(i) => Some(es[i].1),
        None => None,
    }
}

/// The entries after storing `v` under `k`: in place when `k` is present, else at the end.
pub open spec fn put_spec(es: Seq<EntryView>, k: Seq<char>, v: Seq<char>) -> Seq<EntryView> {
    match key_index(es, k) {
        Some(i) => es.update(i, (k, v)),
        None => es.push((k, v)),
    }
}

/// The entries without the one under `k`.
pub open spec fn remove_spec(es: Seq<EntryView>, k: Seq<char>) -> Seq<EntryView> {
    match key_index(es, k) {
        Some(i) => es.remove(i),
        None => es,
    }
}

/// The entries after clearing: none, whatever there were.
pub open spec fn cleared(es: Seq<EntryView>) -> Seq<EntryView> {
    Seq::empty()
}

/// One member of the stored JSON object.
pub open spec fn member_text(e: EntryView) -> Seq<char> {
    json_string_literal(e.0) + ":"@ + json_string_literal(e.1)
}

pub open spec fn members_text(es: Seq<EntryView>) -> Seq<char>
    decreases es.len(),
{
    if es.len() == 0 {
        Seq::empty()
    } else if es.len() == 1 {
        member_text(es[0])
    } else {
        members_text(es.drop_last()) + ","@ + member_text(es.last())
    }
}

/// The compact JSON object that holds the entries, in order.
pub open spec fn document_text(es: Seq<EntryView>) -> Seq<char> {
    "{"@ + members_text(es) + "}"@
}

proof fn lemma_key_index(es: Seq<EntryView>, k: Seq<char>)
    ensures
        key_index(es, k) matches Some(i) ==> 0 <= i < es.len() && es[i].0 == k,
        key_index(es, k) is None ==> forall|i: int| 0 <= i < es.len() ==> es[i].0 != k,
    decreases es.len(),
{
    if es.len() > 0 {
        lemma_key_index(es.drop_last(), k);
        if es.last().0 != k {
            assert forall|i: int| 0 <= i < es.len() - 1 && es.drop_last()[i].0 != k implies es[i].0
                != k by {
                assert(es.drop_last()[i] == es[i]);
            }
        }
    }
}

/// With distinct keys, the index of the entry under `k` is the one whose key is `k`.
proof fn lemma_key_index_unique(es: Seq<EntryView>, k: Seq<char>, i: int)
    requires
        keys_distinct(es),
        0 <= i < es.len(),
        es[i].0 == k,
    ensures
        key_index(es, k) == Some(i),
{
    lemma_key_index(es, k);
}

proof fn lemma_put_distinct(es: Seq<EntryView>, k: Seq<char>, v: Seq<char>)
    requires
        keys_distinct(es),
    ensures
        keys_distinct(put_spec(es, k, v)),
{
    lemma_key_index(es, k);
    let r = put_spec(es, k, v);
    match key_index(es, k) {
        Some(i) => {
            assert forall|a: int, b: int| 0 <= a < b < r.len() implies #[trigger] r[a].0
                != #[trigger] r[b].0 by {
                assert(r[a].0 == es[a].0);
                assert(r[b].0 == es[b].0);
            }
        },
        None => {
            assert forall|a: int, b: int| 0 <= a < b < r.len() implies #[trigger] r[a].0
                != #[trigger] r[b].0 by {
                if b == es.len() {
                    assert(r[a] == es[a]);
                } else {
                    assert(r[a] == es[a] && r[b] == es[b]);
                }
            }
        },
    }
}

proof fn lemma_remove_distinct(es: Seq<EntryView>, k: Seq<char>)
    requires
        keys_distinct(es),
    ensures
        keys_distinct(remove_spec(es, k)),
        lookup(remove_spec(es, k), k) is None,
{
    lemma_key_index(es, k);
    let r = remove_spec(es, k);
    match key_index(es, k) {
        Some(i) => {
            assert forall|a: int, b: int| 0 <= a < b < r.len() implies #[trigger] r[a].0
                != #[trigger] r[b].0 by {
                let a2 = if a < i { a } else { a + 1 };
                let b2 = if b < i { b } else { b + 1 };
                assert(r[a] == es[a2] && r[b] == es[b2]);
            }
            assert forall|a: int| 0 <= a < r.len() implies r[a].0 != k by {
                let a2 = if a < i { a } else { a + 1 };
                assert(r[a] == es[a2]);
            }
        },
        None => {},
    }
    lemma_key_index(r, k);
}

/// Short names and the long references they stand for. No name occurs twice.
pub struct AliasStore {
    entries: Vec<(String, String)>,
}

impl View for AliasStore {
    type V = Seq<EntryView>;

    closed spec fn view(&self) -> Seq<EntryView> {
        entry_views(self.entries@)
    }
}

impl AliasStore {
    /// No name occurs twice.
    pub open spec fn wf(&self) -> bool {
        keys_distinct(self@)
    }

    /// A store with no entries.
    pub fn new() -> (r: AliasStore)
        ensures
            r@ == Seq::<EntryView>::empty(),
            r.wf(),
    {
        let r = AliasStore { entries: Vec::new() };
        assert(r@ =~= Seq::<EntryView>::empty());
        r
    }

    /// The index of the entry under `name`.
    fn find(&self, name: &str) -> (r: Option<usize>)
        ensures
            match r {
                Some(i) => key_index(self@, name@) == Some(i as int),
                None => key_index(self@, name@) is None,
            },
    {
        let mut found: Option<usize> = None;
        let mut i: usize = 0;
        while i < self.entries.len()
            invariant
                i <= self.entries@.len(),
                match found {
                    Some(f) => key_index(self@.take(i as int), name@) == Some(f as int),
                    None => key_index(self@.take(i as int), name@) is None,
                },
            decreases self.entries@.len() - i,
        {
            let ghost t = self@.take(i + 1);
            assert(t.drop_last() =~= self@.take(i as int));
            assert(t.last() == self@[i as int]);
            if same_text(self.entries[i].0.as_str(), name) {
                found = Some(i);
            }
            i = i + 1;
        }
        assert(self@.take(self@.len() as int) =~= self@);
        found
    }

    /// The long reference stored under `name`; `None` when there is none.
    pub fn get(&self, name: &str) -> (r: Option<String>)
        ensures
            opt_view(r) == lookup(self@, name@),
    {
        proof {
            lemma_key_index(self@, name@);
        }
        match self.find(name) {
            Some(i) => Some(self.entries[i].1.clone()),
            None => None,
        }
    }

    /// Stores `value` under `name`, in place of any earlier value.
    pub fn put(&mut self, name: &str, value: &str)
        requires
            old(self).wf(),
        ensures
            final(self)@ == put_spec(old(self)@, name@, value@),
            final(self).wf(),
    {
        proof {
            lemma_key_index(self@, name@);
            lemma_put_distinct(self@, name@, value@);
        }
        let ghost before = self@;
        match self.find(name) {
            Some(i) => {
                self.entries.set(i, (name.to_owned(), value.to_owned()));
                assert(self@ =~= before.update(i as int, (name@, value@)));
            },
            None => {
                self.entries.push((name.to_owned(), value.to_owned()));
                assert(self@ =~= before.push((name@, value@)));
            },
        }
    }

    /// All entries, in the order in which they are stored.
    pub fn list(&self) -> (r: Vec<(String, String)>)
        ensures
            entry_views(r@) == self@,
    {
        let mut r: Vec<(String, String)> = Vec::new();
        let mut i: usize = 0;
        while i < self.entries.len()
            invariant
                i <= self.entries@.len(),
                entry_views(r@) == self@.take(i as int),
            decreases self.entries@.len() - i,
        {
            let ghost before = entry_views(r@);
            let pair = (self.entries[i].0.clone(), self.entries[i].1.clone());
            r.push(pair);
            assert(entry_views(r@) =~= self@.take(i + 1)) by {
                assert(entry_views(r@) =~= before.push((pair.0@, pair.1@)));
            }
            i = i + 1;
        }
        assert(self@.take(self@.len() as int) =~= self@);
        r
    }

    /// Removes the entry under `name`; when there is none, nothing changes and the name is
    /// reported as not found.
    pub fn remove(&mut self, name: &str) -> (r: Result<(), LatError>)
        requires
            old(self).wf(),
        ensures
            final(self).wf(),
            match lookup(old(self)@, name@) {
                Some(_) => r is Ok && final(self)@ == remove_spec(old(self)@, name@),
                None => r == Err::<(), LatError>(LatError::ResolutionNotFound) && final(self)@
                    == old(self)@,
            },
    {
        proof {
            lemma_key_index(self@, name@);
            lemma_remove_distinct(self@, name@);
        }
        let ghost before = self@;
        match self.find(name) {
            Some(i) => {
                self.entries.remove(i);
                assert(self@ =~= before.remove(i as int));
                Ok(())
            },
            None => Err(LatError::ResolutionNotFound),
        }
    }

    /// Removes every entry.
    pub fn clear(&mut self)
        ensures
            final(self)@ == cleared(old(self)@),
            final(self).wf(),
    {
        self.entries.clear();
        assert(self@ =~= Seq::<EntryView>::empty());
    }

    /// The store as a compact JSON object, entries in order.
    pub fn to_json(&self) -> (r: String)
        ensures
            r@ == document_text(self@),
    {
        let mut body = String::new();
        let mut i: usize = 0;
        while i < self.entries.len()
            invariant
                i <= self.entries@.len(),
                body@ == members_text(self@.take(i as int)),
            decreases self.entries@.len() - i,
        {
            let ghost t = self@.take(i + 1);
            assert(t.drop_last() =~= self@.take(i as int));
            assert(t.last() == self@[i as int]);
            let key = quote_json(self.entries[i].0.as_str());
            let value = quote_json(self.entries[i].1.as_str());
            let member = concat_str(concat_str(key.as_str(), ":").as_str(), value.as_str());
            if i == 0 {
                assert(t =~= seq![self@[0]]);
                body = member;
            } else {
                body = concat_str(concat_str(body.as_str(), ",").as_str(), member.as_str());
            }
            i = i + 1;
        }
        assert(self@.take(self@.len() as int) =~= self@);
        concat_str(concat_str("{", body.as_str()).as_str(), "}")
    }
}

/// Every member holds a string.
pub open spec fn all_text(ms: Seq<(Seq<char>, Option<Seq<char>>)>) -> bool {
    forall|i: int| 0 <= i < ms.len() ==> (#[trigger] ms[i]).1 is Some
}

/// The members as entries, each value's text taken.
pub open spec fn as_entries(ms: Seq<(Seq<char>, Option<Seq<char>>)>) -> Seq<EntryView> {
    ms.map_values(|m: (Seq<char>, Option<Seq<char>>)| (m.0, m.1->0))
}

/// The entries of an alias document: the members of the JSON object that serde_json reads from
/// it, when every member is a string; `None` for any other text.
pub open spec fn alias_entries_of(document: Seq<char>) -> Option<Seq<EntryView>> {
    match json_object_strings(document) {
        Some(ms) => if all_text(ms) {
            Some(as_entries(ms))
        } else {
            None
        },
        None => None,
    }
}

/// Reads an alias document: a JSON object whose members are all strings.
pub fn read_json(document: &str) -> (r: Result<AliasStore, LatError>)
    ensures
        match alias_entries_of(document@) {
            Some(es) => r matches Ok(store) && store@ == es && store.wf(),
            None => r == Err::<AliasStore, LatError>(LatError::DecodeFailure),
        },
        document@ == "{}"@ ==> (r matches Ok(store) && store@.len() == 0),
{
    let members = match parse_object(document) {
        Some(m) => m,
        None => return Err(LatError::DecodeFailure),
    };
    let ghost ms = member_views(members@);
    let mut entries: Vec<(String, String)> = Vec::new();
    let mut i: usize = 0;
    while i < members.len()
        invariant
            i <= members@.len(),
            ms == member_views(members@),
            json_object_strings(document@) == Some(ms),
            document@ == "{}"@ ==> members@.len() == 0,
            forall|j: int| 0 <= j < i ==> (#[trigger] ms[j]).1 is Some,
            entry_views(entries@) == as_entries(ms).take(i as int),
        decreases members@.len() - i,
    {
        let ghost before = entry_views(entries@);
        match &members[i].1 {
            Some(value) => {
                let pair = (members[i].0.clone(), value.clone());
                entries.push(pair);
                assert(entry_views(entries@) =~= as_entries(ms).take(i + 1)) by {
                    assert(entry_views(entries@) =~= before.push((pair.0@, pair.1@)));
                }
            },
            None => {
                assert(!all_text(ms)) by {
                    assert(ms[i as int].1 is None);
                }
                return Err(LatError::DecodeFailure);
            },
        }
        i = i + 1;
    }
    assert(as_entries(ms).take(ms.len() as int) =~= as_entries(ms));
    let store = AliasStore { entries };
    assert(store.wf()) by {
        assert forall|a: int, b: int|
            0 <= a < b < store@.len() implies #[trigger] store@[a].0 != #[trigger] store@[b].0 by {
            assert(store@[a].0 == members@[a].0@);
            assert(store@[b].0 == members@[b].0@);
        }
    }
    Ok(store)
}

/// The document with `long` stored under `short`.
pub fn add_short_to_json(document: &str, short: &str, long: &str) -> (r: Result<String, LatError>)
    ensures
        match alias_entries_of(document@) {
            Some(es) => r matches Ok(out) && out@ == document_text(put_spec(es, short@, long@)),
            None => r == Err::<String, LatError>(LatError::DecodeFailure),
        },
{
    let mut store = read_json(document)?;
    store.put(short, long);
    Ok(store.to_json())
}

/// The entries of the document, in order.
pub fn list_shorts(document: &str) -> (r: Result<Vec<(String, String)>, LatError>)
    ensures
        match alias_entries_of(document@) {
            Some(es) => r matches Ok(v) && entry_views(v@) == es,
            None => r == Err::<Vec<(String, String)>, LatError>(LatError::DecodeFailure),
        },
        document@ == "{}"@ ==> (r matches Ok(v) && v@.len() == 0),
{
    let store = read_json(document)?;
    let v = store.list();
    assert(entry_views(v@).len() == v@.len());
    Ok(v)
}

/// A document with no entries: `{}`.
pub fn empty_short_json() -> (r: String)
    ensures
        r@ == document_text(Seq::empty()),
        r@ == "{}"@,
{
    proof {
        reveal_strlit("{}");
        reveal_strlit("{");
        reveal_strlit("}");
        assert("{}"@ =~= "{"@ + members_text(Seq::<EntryView>::empty()) + "}"@);
    }
    AliasStore::new().to_json()
}

/// The document without the entry under `short`; a name that is not there is not found.
pub fn remove_short_from_json(document: &str, short: &str) -> (r: Result<String, LatError>)
    ensures
        match alias_entries_of(document@) {
            Some(es) => match lookup(es, short@) {
                Some(_) => r matches Ok(out) && out@ == document_text(remove_spec(es, short@)),
                None => r == Err::<String, LatError>(LatError::ResolutionNotFound),
            },
            None => r == Err::<String, LatError>(LatError::DecodeFailure),
        },
{
    let mut store = read_json(document)?;
    store.remove(short)?;
    Ok(store.to_json())
}

/// The long reference stored under `short` in the document, if any.
pub fn get_long_from_json(document: &str, short: &str) -> (r: Result<Option<String>, LatError>)
    ensures
        match alias_entries_of(document@) {
            Some(es) => r matches Ok(o) && opt_view(o) == lookup(es, short@),
            None => r == Err::<Option<String>, LatError>(LatError::DecodeFailure),
        },
        document@ == "{}"@ ==> r == Ok::<Option<String>, LatError>(None),
{
    let store = read_json(document)?;
    Ok(store.get(short))
}

/// Storing a value and reading it back gives that value; after the name is removed again,
/// reading it gives nothing.
pub proof fn put_get_remove_law(es: Seq<EntryView>, k: Seq<char>, v: Seq<char>)
    requires
        keys_distinct(es),
    ensures
        lookup(put_spec(es, k, v), k) == Some(v),
        lookup(remove_spec(put_spec(es, k, v), k), k) is None,
{
    lemma_key_index(es, k);
    lemma_put_distinct(es, k, v);
    let p = put_spec(es, k, v);
    match key_index(es, k) {
        Some(i) => lemma_key_index_unique(p, k, i),
        None => lemma_key_index_unique(p, k, es.len() as int),
    }
    lemma_remove_distinct(p, k);
}

/// Whatever the store held, once cleared it lists no entries.
pub proof fn clear_then_list_law(es: Seq<EntryView>)
    ensures
        cleared(es).len() == 0,
        keys_distinct(cleared(es)),
{
}

} // verus!
