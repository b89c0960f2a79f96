//! Header tables: what a response carried, and what a request is to carry.

use spider::reqwest::header::HeaderMap;
use spider::reqwest::header::HeaderName;
use spider::reqwest::header::HeaderValue;
use std::str::FromStr;
use vstd::prelude::*;

verus! {

/// A list of header entries: name and value.
pub type Entries = Seq<(Seq<char>, Seq<char>)>;

/// No name stands twice.
pub open spec fn names_distinct(entries: Entries) -> bool {
    forall|i: int, j: int|
        0 <= i < entries.len() && 0 <= j < entries.len() && i != j ==> entries[i].0 != entries[j].0
}

/// The mapping that a list of entries spells: a later entry of a name
/// overrides an earlier one.
pub open spec fn as_map(entries: Entries) -> Map<Seq<char>, Seq<char>>
    decreases entries.len(),
{
    if entries.len() == 0 {
        Map::empty()
    } else {
        as_map(entries.drop_last()).insert(entries.last().0, entries.last().1)
    }
}

/// The mapping that the entries of a response spell: entries whose value is
/// no text are passed over, and a later entry of a name overrides an earlier
/// one.
pub open spec fn readable_headers(items: Seq<(Seq<char>, Option<Seq<char>>)>) -> Map<
    Seq<char>,
    Seq<char>,
>
    decreases items.len(),
{
    if items.len() == 0 {
        Map::empty()
    } else {
        let rest = readable_headers(items.drop_last());
        match items.last().1 {
            Some(text) => rest.insert(items.last().0, text),
            None => rest,
        }
    }
}

/// A byte that a header value may hold: a tab, or anything from the space
/// upwards but DEL.
pub open spec fn value_byte_ok(b: u8) -> bool {
    (b >= 32 && b != 127) || b == 9
}

/// Bytes that make a header value.
pub open spec fn value_bytes_ok(bytes: Seq<u8>) -> bool {
    forall|i: int| 0 <= i < bytes.len() ==> value_byte_ok(#[trigger] bytes[i])
}

/// What becomes of one request header: it is kept, under its name in
/// canonical form, where the name is a header name and the value a header
/// value; else it is dropped.
pub open spec fn kept_header(name: Option<Seq<char>>, value_ok: bool, value: Seq<char>) -> Option<
    (Seq<char>, Seq<char>),
> {
    match name {
        Some(canonical) => if value_ok {
            Some((canonical, value))
        } else {
            None
        },
        None => None,
    }
}

/// The request headers that are kept of a list, in the order of the list.
pub open spec fn kept_headers(entries: Entries) -> Entries
    decreases entries.len(),
{
    if entries.len() == 0 {
        Seq::empty()
    } else {
        let rest = kept_headers(entries.drop_last());
        let last = entries.last();
        match kept_header(
            canonical_name(last.0),
            value_bytes_ok(vstd::utf8::encode_utf8(last.1)),
            last.1,
        ) {
            Some(entry) => rest.push(entry),
            None => rest,
        }
    }
}

/// `http::HeaderMap`, the multimap of headers that a response carries.
#[verifier::external_type_specification]
#[verifier::external_body]
#[verifier::reject_recursive_types(T)]
pub struct ExHeaderMap<T>(HeaderMap<T>);

/// `http::HeaderValue`, the value of one header.
#[verifier::external_type_specification]
#[verifier::external_body]
pub struct ExHeaderValue(HeaderValue);

/// The entries of a `HeaderMap` in the order in which `HeaderMap::iter`
/// visits them: the name of each as `HeaderName::as_str` gives it, and its
/// value as `HeaderValue::to_str` gives it, `None` where that is an error.
pub uninterp spec fn header_entries(map: HeaderMap) -> Seq<(Seq<char>, Option<Seq<char>>)>;

/// The canonical form that `HeaderName::from_str` gives a name, as
/// `HeaderName::as_str` shows it; `None` where the text is no header name.
pub uninterp spec fn canonical_name(name: Seq<char>) -> Option<Seq<char>>;

/// `HeaderMap::iter`, with each entry turned into strings.
#[verifier::external_body]
fn header_items(map: &HeaderMap) -> (items: Vec<(String, Option<String>)>)
    ensures
        items.deep_view() == header_entries(*map),
{
    map.iter().map(
        |(name, value)| (name.as_str().to_string(), value.to_str().ok().map(|text| text.to_string())),
    ).collect()
}

/// `HeaderName::from_str`, with the name that it makes read back by
/// `HeaderName::as_str`.
#[verifier::external_body]
fn parse_header_name(name: &str) -> (canonical: Option<String>)
    ensures
        canonical.deep_view() == canonical_name(name@),
{
    HeaderName::from_str(name).ok().map(|parsed| parsed.as_str().to_string())
}

/// `HeaderValue::from_str` accepts a text when each of its bytes is a tab
/// or stands from the space upwards and is not DEL.
#[verifier::external_body]
fn header_value_accepts(value: &str) -> (ok: bool)
    ensures
        ok == value_bytes_ok(vstd::utf8::encode_utf8(value@)),
{
    HeaderValue::from_str(value).is_ok()
}

/// A name-to-value table in which each name stands once.
#[derive(Clone)]
pub struct HeaderTable {
    entries: Vec<(String, String)>,
}

impl View for HeaderTable {
    type V = Map<Seq<char>, Seq<char>>;

    /// The table as a mapping from names to values.
    open spec fn view(&self) -> Map<Seq<char>, Seq<char>> {
        as_map(self.entries())
    }
}

impl HeaderTable {
    /// The entries, in the order in which their names came first.
    pub closed spec fn entries(&self) -> Entries {
        self.entries.deep_view()
    }

    /// The table's invariant: no name stands twice.
    pub open spec fn wf(&self) -> bool {
        names_distinct(self.entries())
    }

    /// A table without entries.
    pub fn new() -> (table: HeaderTable)
        ensures
            table.wf(),
            table.entries() == Seq::<(Seq<char>, Seq<char>)>::empty(),
            table@ == Map::<Seq<char>, Seq<char>>::empty(),
    {
        let table = HeaderTable { entries: Vec::new() };
        assert(table.entries() =~= Seq::empty());
        table
    }

    /// The number of names.
    pub fn len(&self) -> (len: usize)
        ensures
            len == self.entries().len(),
    {
        self.entries.len()
    }

    /// The entries as pairs of name and value.
    pub fn pairs(&self) -> (pairs: &Vec<(String, String)>)
        ensures
            pairs.deep_view() == self.entries(),
    {
        &self.entries
    }

    /// Where `name` stands among the entries.
    fn position(&self, name: &String) -> (at: Option<usize>)
        ensures
            match at {
                Some(i) => i < self.entries().len() && self.entries()[i as int].0 == name@,
                None => forall|i: int| 0 <= i < self.entries().len() ==> self.entries()[i].0 != name@,
            },
    {
        let mut i: usize = 0;
        while i < self.entries.len()
            invariant
                i <= self.entries.len(),
                forall|j: int| 0 <= j < i ==> self.entries()[j].0 != name@,
            decreases self.entries.len() - i,
        {
            if self.entries[i].0 == *name {
                return Some(i);
            }
            i = i + 1;
        }
        None
    }

    /// The value that stands under `name`.
    pub fn get(&self, name: &str) -> (value: Option<&String>)
        requires
            self.wf(),
        ensures
            match value {
                Some(text) => self@.contains_key(name@) && text@ == self@[name@],
                None => !self@.contains_key(name@),
            },
    {
        let wanted = name.to_owned();
        proof {
            lemma_map_of_entries(self.entries());
        }
        match self.position(&wanted) {
            Some(i) => Some(&self.entries[i].1),
            None => None,
        }
    }

    /// Puts `value` under `name`, in place of the value that stood there.
    pub fn insert(&mut self, name: String, value: String)
        requires
            old(self).wf(),
        ensures
            final(self).wf(),
            final(self)@ == old(self)@.insert(name@, value@),
    {
        let ghost before = self.entries();
        match self.position(&name) {
            Some(i) => {
                proof {
                    lemma_replace_value(before, i as int, value@);
                }
                self.entries.set(i, (name, value));
                assert(self.entries() =~= before.update(i as int, (name@, value@)));
            },
            None => {
                self.entries.push((name, value));
                assert(self.entries() =~= before.push((name@, value@)));
                assert(self.entries().drop_last() =~= before);
            },
        }
    }
}

/// A mapping spelled by entries holds the names of the entries and no
/// others; where no name stands twice, each name has the value of its entry.
pub proof fn lemma_map_of_entries(entries: Entries)
    ensures
        forall|k: Seq<char>|
            #[trigger] as_map(entries).contains_key(k) <==> exists|i: int|
                0 <= i < entries.len() && (#[trigger] entries[i]).0 == k,
        names_distinct(entries) ==> forall|i: int|
            0 <= i < entries.len() ==> as_map(entries)[(#[trigger] entries[i]).0] == entries[i].1,
    decreases entries.len(),
{
    if entries.len() > 0 {
        let front = entries.drop_last();
        let last = entries.last();
        lemma_map_of_entries(front);
        assert(as_map(entries) == as_map(front).insert(last.0, last.1));
        assert forall|k: Seq<char>| #[trigger] as_map(entries).contains_key(k) implies exists|i: int|
            0 <= i < entries.len() && (#[trigger] entries[i]).0 == k by {
            if k == last.0 {
                assert(entries[entries.len() - 1].0 == k);
            } else {
                assert(as_map(front).contains_key(k));
                let i = choose|i: int| 0 <= i < front.len() && (#[trigger] front[i]).0 == k;
                assert(entries[i] == front[i]);
            }
        }
        assert forall|k: Seq<char>|
            (exists|i: int| 0 <= i < entries.len() && (#[trigger] entries[i]).0 == k) implies #[trigger] as_map(
            entries,
        ).contains_key(k) by {
            let i = choose|i: int| 0 <= i < entries.len() && (#[trigger] entries[i]).0 == k;
            if i < front.len() {
                assert(front[i] == entries[i]);
                assert(as_map(front).contains_key(k));
            }
        }
        if names_distinct(entries) {
            assert(names_distinct(front)) by {
                assert forall|i: int, j: int|
                    0 <= i < front.len() && 0 <= j < front.len() && i != j implies front[i].0
                    != front[j].0 by {
                    assert(front[i] == entries[i] && front[j] == entries[j]);
                }
            }
            assert forall|i: int| 0 <= i < entries.len() implies as_map(entries)[(
            #[trigger] entries[i]).0] == entries[i].1 by {
                if i < front.len() {
                    assert(front[i] == entries[i]);
                    assert(entries[i].0 != entries[entries.len() - 1].0);
                }
            }
        }
    }
}

/// Giving the entry at `at` a new value, where no name stands twice, puts
/// that value under the entry's name and leaves the other names alone.
pub proof fn lemma_replace_value(entries: Entries, at: int, value: Seq<char>)
    requires
        names_distinct(entries),
        0 <= at < entries.len(),
    ensures
        names_distinct(entries.update(at, (entries[at].0, value))),
        as_map(entries.update(at, (entries[at].0, value))) == as_map(entries).insert(
            entries[at].0,
            value,
        ),
    decreases entries.len(),
{
    let name = entries[at].0;
    let updated = entries.update(at, (name, value));
    let front = entries.drop_last();
    assert forall|i: int, j: int|
        0 <= i < updated.len() && 0 <= j < updated.len() && i != j implies updated[i].0
        != updated[j].0 by {
        assert(updated[i].0 == entries[i].0 && updated[j].0 == entries[j].0);
    }
    assert(names_distinct(front)) by {
        assert forall|i: int, j: int|
            0 <= i < front.len() && 0 <= j < front.len() && i != j implies front[i].0 != front[j].0 by {
            assert(front[i] == entries[i] && front[j] == entries[j]);
        }
    }
    if at == entries.len() - 1 {
        assert(updated.drop_last() =~= front);
        assert(as_map(updated) =~= as_map(entries).insert(name, value));
    } else {
        lemma_replace_value(front, at, value);
        assert(updated.drop_last() =~= front.update(at, (name, value)));
        assert(front[at] == entries[at]);
        assert(entries.last().0 != name);
        assert(as_map(updated) =~= as_map(entries).insert(name, value));
    }
}

/// The table that the entries of a response spell: see
/// [`readable_headers`].
pub fn table_of_items(items: &Vec<(String, Option<String>)>) -> (table: HeaderTable)
    ensures
        table.wf(),
        table@ == readable_headers(items.deep_view()),
{
    let mut table = HeaderTable::new();
    let mut i: usize = 0;
    while i < items.len()
        invariant
            i <= items.len(),
            table.wf(),
            table@ == readable_headers(items.deep_view().take(i as int)),
        decreases items.len() - i,
    {
        proof {
            let head = items.deep_view().take(i + 1);
            assert(head.drop_last() =~= items.deep_view().take(i as int));
            assert(head.last() == items.deep_view()[i as int]);
        }
        match &items[i].1 {
            Some(text) => {
                table.insert(items[i].0.clone(), text.clone());
            },
            None => {},
        }
        i = i + 1;
    }
    assert(items.deep_view().take(items.len() as int) =~= items.deep_view());
    table
}

/// The headers of a response as a table from names to values. A header
/// whose value is no visible text is left out; of a header that came more
/// than once, the value that came last stays.
pub fn header_map_to_hash_map(header_map: &HeaderMap) -> (table: HeaderTable)
    ensures
        table.wf(),
        table@ == readable_headers(header_entries(*header_map)),
{
    let items = header_items(header_map);
    table_of_items(&items)
}

/// What becomes of one request header, told from what the parser made of
/// its name and of its value: see [`kept_header`].
pub fn keep_header(name: Option<String>, value_ok: bool, value: String) -> (kept: Option<
    (String, String),
>)
    ensures
        kept.deep_view() == kept_header(name.deep_view(), value_ok, value@),
{
    match name {
        Some(canonical) => {
            if value_ok {
                Some((canonical, value))
            } else {
                None
            }
        },
        None => None,
    }
}

/// The request headers to send, of those asked for: see [`kept_headers`].
pub fn accept_headers(entries: &Vec<(String, String)>) -> (kept: Vec<(String, String)>)
    ensures
        kept.deep_view() == kept_headers(entries.deep_view()),
{
    let mut kept: Vec<(String, String)> = Vec::new();
    let mut i: usize = 0;
    assert(kept.deep_view() =~= Seq::empty());
    while i < entries.len()
        invariant
            i <= entries.len(),
            kept.deep_view() == kept_headers(entries.deep_view().take(i as int)),
        decreases entries.len() - i,
    {
        proof {
            let head = entries.deep_view().take(i + 1);
            assert(head.drop_last() =~= entries.deep_view().take(i as int));
            assert(head.last() == entries.deep_view()[i as int]);
        }
        let ghost before = kept.deep_view();
        let name = parse_header_name(entries[i].0.as_str());
        let value_ok = header_value_accepts(entries[i].1.as_str());
        match keep_header(name, value_ok, entries[i].1.clone()) {
            Some(entry) => {
                kept.push(entry);
                assert(kept.deep_view() =~= before.push(entry.deep_view()));
            },
            None => {},
        }
        i = i + 1;
    }
    assert(entries.deep_view().take(entries.len() as int) =~= entries.deep_view());
    kept
}

} // verus!
