//! The mapping from column name to optional value that one CSV row yields.

use vstd::prelude::*;
use crate::key::{decompose_uid, derived_keys};

verus! {

/// One entry of a mapping, as texts: a column name and its value, if any.
pub type Entry = (Seq<char>, Option<Seq<char>>);

/// The map that a list of entries stands for; a later entry replaces an
/// earlier one of the same name.
pub open spec fn entries_map(entries: Seq<Entry>) -> Map<Seq<char>, Option<Seq<char>>>
    decreases entries.len(),
{
    if entries.len() == 0 {
        Map::empty()
    } else {
        entries_map(entries.drop_last()).insert(entries.last().0, entries.last().1)
    }
}

/// No name occurs in two entries.
pub open spec fn distinct_names(entries: Seq<Entry>) -> bool {
    forall|i: int, j: int| 0 <= i < j < entries.len() ==> entries[i].0 != entries[j].0
}

/// A name is in the map exactly if some entry carries it.
pub proof fn lemma_entries_map_dom(entries: Seq<Entry>, name: Seq<char>)
    ensures
        entries_map(entries).contains_key(name) <==> exists|i: int|
            0 <= i < entries.len() && #[trigger] entries[i].0 == name,
    decreases entries.len(),
{
    if entries.len() > 0 {
        let front = entries.drop_last();
        lemma_entries_map_dom(front, name);
        if entries_map(entries).contains_key(name) {
            if entries.last().0 == name {
                assert(entries[entries.len() - 1].0 == name);
            } else {
                let i = choose|i: int| 0 <= i < front.len() && #[trigger] front[i].0 == name;
                assert(entries[i].0 == name);
            }
        }
        if exists|i: int| 0 <= i < entries.len() && #[trigger] entries[i].0 == name {
            let i = choose|i: int| 0 <= i < entries.len() && #[trigger] entries[i].0 == name;
            if i < front.len() {
                assert(front[i].0 == name);
            }
        }
    }
}

/// Where names are distinct, the map gives each entry's own value.
pub proof fn lemma_entries_map_value(entries: Seq<Entry>, i: int)
    requires
        distinct_names(entries),
        0 <= i < entries.len(),
    ensures
        entries_map(entries).contains_key(entries[i].0),
        entries_map(entries)[entries[i].0] == entries[i].1,
    decreases entries.len(),
{
    let front = entries.drop_last();
    if i < entries.len() - 1 {
        assert(distinct_names(front)) by {
            assert forall|a: int, b: int| 0 <= a < b < front.len() implies front[a].0 != front[b].0 by {
                assert(front[a] == entries[a] && front[b] == entries[b]);
            }
        }
        lemma_entries_map_value(front, i);
        assert(front[i] == entries[i]);
        assert(entries[i].0 != entries[entries.len() - 1].0);
    }
}

/// Replacing the value of an entry replaces it in the map.
pub proof fn lemma_entries_map_update(entries: Seq<Entry>, i: int, value: Option<Seq<char>>)
    requires
        distinct_names(entries),
        0 <= i < entries.len(),
    ensures
        distinct_names(entries.update(i, (entries[i].0, value))),
        entries_map(entries.update(i, (entries[i].0, value))) == entries_map(entries).insert(
            entries[i].0,
            value,
        ),
    decreases entries.len(),
{
    let name = entries[i].0;
    let changed = entries.update(i, (name, value));
    let front = entries.drop_last();
    assert(distinct_names(changed)) by {
        assert forall|a: int, b: int| 0 <= a < b < changed.len() implies changed[a].0
            != changed[b].0 by {
            assert(changed[a].0 == entries[a].0 && changed[b].0 == entries[b].0);
        }
    }
    if i == entries.len() - 1 {
        assert(changed.drop_last() == front);
        assert(entries_map(changed) == entries_map(entries).insert(name, value));
    } else {
        assert(distinct_names(front)) by {
            assert forall|a: int, b: int| 0 <= a < b < front.len() implies front[a].0 != front[b].0 by {
                assert(front[a] == entries[a] && front[b] == entries[b]);
            }
        }
        lemma_entries_map_update(front, i, value);
        assert(front[i] == entries[i]);
        assert(changed.drop_last() == front.update(i, (name, value)));
        assert(changed.last() == entries.last());
        assert(entries.last().0 != name) by {
            assert(entries[i].0 != entries[entries.len() - 1].0);
        }
        assert(entries_map(changed) == entries_map(entries).insert(name, value));
    }
}

/// The name of the composite identifier column.
pub open spec fn platform_uid_name() -> Seq<char> {
    "platform_uid"@
}

/// The name of the first derived column.
pub open spec fn report_id_name() -> Seq<char> {
    "report_id"@
}

/// The name of the second derived column.
pub open spec fn target_id_name() -> Seq<char> {
    "target_id"@
}

/// The name of the third derived column.
pub open spec fn report_type_name() -> Seq<char> {
    "report_type"@
}

/// The first `n` headers paired with the first `n` values, by position; where
/// a header occurs twice, the later value stands.
pub open spec fn paired(headers: Seq<Seq<char>>, values: Seq<Seq<char>>, n: nat) -> Map<
    Seq<char>,
    Option<Seq<char>>,
>
    decreases n,
{
    if n == 0 {
        Map::empty()
    } else {
        paired(headers, values, (n - 1) as nat).insert(headers[n - 1], Some(values[n - 1]))
    }
}

/// How many header and value pairs a row has: the shorter length bounds it.
pub open spec fn pair_count(headers: Seq<Seq<char>>, values: Seq<Seq<char>>) -> nat {
    if headers.len() <= values.len() {
        headers.len()
    } else {
        values.len()
    }
}

/// A mapping with the three derived keys set from a composite identifier,
/// replacing any entries of the same names.
pub open spec fn with_derived_keys(
    base: Map<Seq<char>, Option<Seq<char>>>,
    uid: Seq<char>,
) -> Map<Seq<char>, Option<Seq<char>>> {
    let keys = derived_keys(Some(uid));
    base.insert(report_id_name(), keys.0).insert(target_id_name(), keys.1).insert(
        report_type_name(),
        keys.2,
    )
}

/// The mapping of one CSV row: every paired header maps to its value, the
/// empty text included, and a non-empty `platform_uid` adds the derived keys.
pub open spec fn record_mapping(headers: Seq<Seq<char>>, values: Seq<Seq<char>>) -> Map<
    Seq<char>,
    Option<Seq<char>>,
> {
    let base = paired(headers, values, pair_count(headers, values));
    if base.contains_key(platform_uid_name()) {
        match base[platform_uid_name()] {
            Some(uid) => if uid.len() > 0 {
                with_derived_keys(base, uid)
            } else {
                base
            },
            None => base,
        }
    } else {
        base
    }
}

/// A mapping from column name to optional value. A name that is absent is
/// distinct from a name that maps to no value.
pub struct RowMapping {
    entries: Vec<(String, Option<String>)>,
}

impl View for RowMapping {
    type V = Map<Seq<char>, Option<Seq<char>>>;

    closed spec fn view(&self) -> Map<Seq<char>, Option<Seq<char>>> {
        entries_map(self.entries.deep_view())
    }
}

impl RowMapping {
    #[verifier::type_invariant]
    spec fn names_occur_once(&self) -> bool {
        distinct_names(self.entries.deep_view())
    }

    /// The empty mapping.
    pub fn new() -> (m: RowMapping)
        ensures
            m@ == Map::<Seq<char>, Option<Seq<char>>>::empty(),
    {
        let m = RowMapping { entries: Vec::new() };
        assert(m.entries.deep_view() == Seq::<Entry>::empty());
        m
    }

    /// The number of names in the mapping.
    pub fn len(&self) -> (n: usize)
        ensures
            n == self@.dom().len(),
            self@.dom().finite(),
    {
        proof {
            use_type_invariant(self);
            lemma_distinct_len(self.entries.deep_view());
        }
        self.entries.len()
    }

    fn position(&self, name: &String) -> (at: Option<usize>)
        ensures
            match at {
                Some(i) => i < self.entries.len() && self.entries.deep_view()[i as int].0 == name@,
                None => forall|i: int|
                    0 <= i < self.entries.len() ==> (#[trigger] self.entries.deep_view()[i]).0
                        != name@,
            },
    {
        let mut i: usize = 0;
        while i < self.entries.len()
            invariant
                i <= self.entries.len(),
                forall|j: int| 0 <= j < i ==> (#[trigger] self.entries.deep_view()[j]).0 != name@,
            decreases self.entries.len() - i,
        {
            if self.entries[i].0 == *name {
                return Some(i);
            }
            i += 1;
        }
        None
    }

    /// The value that `name` maps to: `None` where the name is absent,
    /// `Some(None)` where it maps to no value.
    pub fn get(&self, name: &str) -> (found: Option<Option<String>>)
        ensures
            match found {
                Some(value) => self@.contains_key(name@) && self@[name@] == value.deep_view(),
                None => !self@.contains_key(name@),
            },
    {
        let owned = name.to_owned();
        proof {
            use_type_invariant(self);
            lemma_entries_map_dom(self.entries.deep_view(), name@);
        }
        match self.position(&owned) {
            Some(i) => {
                proof {
                    lemma_entries_map_value(self.entries.deep_view(), i as int);
                }
                Some(self.entries[i].1.clone())
            },
            None => None,
        }
    }

    /// Sets the value of `name`, replacing the one it had.
    pub fn insert(&mut self, name: String, value: Option<String>)
        ensures
            final(self)@ == old(self)@.insert(name@, value.deep_view()),
    {
        proof {
            use_type_invariant(&*self);
        }
        let ghost before = self.entries.deep_view();
        let found = self.position(&name);
        let mut entries: Vec<(String, Option<String>)> = Vec::new();
        core::mem::swap(&mut self.entries, &mut entries);
        match found {
            Some(i) => {
                proof {
                    lemma_entries_map_update(before, i as int, value.deep_view());
                }
                entries.set(i, (name, value));
                assert(entries.deep_view() == before.update(i as int, (name@, value.deep_view())));
            },
            None => {
                entries.push((name, value));
                assert(entries.deep_view() == before.push((name@, value.deep_view())));
                assert(entries.deep_view().drop_last() == before);
                assert(distinct_names(entries.deep_view()));
            },
        }
        self.entries = entries;
    }
}

/// Distinct names make the map as large as the list.
pub proof fn lemma_distinct_len(entries: Seq<Entry>)
    requires
        distinct_names(entries),
    ensures
        entries_map(entries).dom().finite(),
        entries_map(entries).dom().len() == entries.len(),
    decreases entries.len(),
{
    if entries.len() > 0 {
        let front = entries.drop_last();
        assert(distinct_names(front)) by {
            assert forall|a: int, b: int| 0 <= a < b < front.len() implies front[a].0 != front[b].0 by {
                assert(front[a] == entries[a] && front[b] == entries[b]);
            }
        }
        lemma_distinct_len(front);
        lemma_entries_map_dom(front, entries.last().0);
        if entries_map(front).contains_key(entries.last().0) {
            let i = choose|i: int| 0 <= i < front.len() && #[trigger] front[i].0 == entries.last().0;
            assert(entries[i].0 == entries[entries.len() - 1].0);
        }
    }
}

/// Maps one CSV row: headers and values are paired by position, as far as
/// the shorter of the two reaches. Where the row has a non-empty
/// `platform_uid`, the keys derived from it are set too.
pub fn process_csv_record(headers: &Vec<String>, record: &Vec<String>) -> (m: RowMapping)
    ensures
        m@ == record_mapping(headers.deep_view(), record.deep_view()),
{
    let n = if headers.len() <= record.len() {
        headers.len()
    } else {
        record.len()
    };
    let mut m = RowMapping::new();
    let mut i: usize = 0;
    while i < n
        invariant
            i <= n,
            n <= headers.len(),
            n <= record.len(),
            m@ == paired(headers.deep_view(), record.deep_view(), i as nat),
        decreases n - i,
    {
        m.insert(headers[i].clone(), Some(record[i].clone()));
        i += 1;
    }
    match m.get("platform_uid") {
        Some(Some(uid)) => {
            if !uid.as_str().is_empty() {
                let keys = decompose_uid(Some(&uid));
                m.insert("report_id".to_owned(), keys.0);
                m.insert("target_id".to_owned(), keys.1);
                m.insert("report_type".to_owned(), keys.2);
            }
        },
        _ => {},
    }
    m
}

} // verus!
