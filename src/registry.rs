//! The tool-server registry: a persisted map from id to entry, reconciled
//! with the set of servers that an engine currently has enabled.
use vstd::prelude::*;
use serde_json::Value;
use vstd::string::StringExecFns;
use vstd::string::StrSliceExecFns;

verus! {

#[verifier::external_type_specification]
#[verifier::external_body]
pub struct ExValue(serde_json::Value);

/// Relies on the derived `Clone` of `serde_json::Value`: the copy is the
/// same value.
pub assume_specification[ <serde_json::Value as Clone>::clone ](v: &serde_json::Value) -> (r: serde_json::Value)
    ensures
        r == *v,
;

/// One server of the registry.
#[derive(Debug)]
pub struct RegistryEntry {
    pub id: String,
    pub name: String,
    /// The server's full specification.
    pub server: Value,
    pub enabled: bool,
}

impl RegistryEntry {
    /// A copy of the entry.
    pub fn duplicate(&self) -> (r: RegistryEntry)
        ensures
            r == *self,
    {
        RegistryEntry {
            id: self.id.clone(),
            name: self.name.clone(),
            server: self.server.clone(),
            enabled: self.enabled,
        }
    }
}

/// `e` holds exactly these fields.
pub open spec fn entry_is(e: RegistryEntry, id: Seq<char>, name: Seq<char>, server: Value, enabled: bool) -> bool {
    e.id@ == id && e.name@ == name && e.server == server && e.enabled == enabled
}

/// Whether stored registry text stands for the empty registry: it holds
/// nothing but white space.
pub fn reads_as_empty(content: &str) -> (r: bool)
    ensures
        r == (crate::text::trim_of(content@).len() == 0),
{
    crate::text::trim_text(content).as_str().unicode_len() == 0
}

/// The registry: entries under distinct keys, in the order they were first
/// added.
#[derive(Debug)]
pub struct McpRegistry {
    pub servers: Vec<(String, RegistryEntry)>,
}

pub open spec fn keys_distinct(s: Seq<(String, RegistryEntry)>) -> bool {
    forall|i: int, j: int| 0 <= i < j < s.len() ==> (#[trigger] s[i]).0@ != (#[trigger] s[j]).0@
}

pub open spec fn entries_map(s: Seq<(String, RegistryEntry)>) -> Map<Seq<char>, RegistryEntry>
    decreases s.len(),
{
    if s.len() == 0 {
        Map::empty()
    } else {
        entries_map(s.drop_last()).insert(s.last().0@, s.last().1)
    }
}

proof fn lemma_entries_map_index(s: Seq<(String, RegistryEntry)>, i: int)
    requires
        keys_distinct(s),
        0 <= i < s.len(),
    ensures
        entries_map(s).contains_key(s[i].0@),
        entries_map(s)[s[i].0@] == s[i].1,
    decreases s.len(),
{
    if i < s.len() - 1 {
        let rest = s.drop_last();
        assert(rest[i] == s[i]);
        lemma_entries_map_index(rest, i);
        assert(s[i].0@ != s[s.len() - 1].0@);
    }
}

proof fn lemma_entries_map_keys(s: Seq<(String, RegistryEntry)>, k: Seq<char>)
    ensures
        entries_map(s).contains_key(k) <==> exists|i: int| 0 <= i < s.len() && (#[trigger] s[i]).0@ == k,
    decreases s.len(),
{
    if s.len() > 0 {
        let rest = s.drop_last();
        lemma_entries_map_keys(rest, k);
        if entries_map(rest).contains_key(k) {
            let i = choose|i: int| 0 <= i < rest.len() && (#[trigger] rest[i]).0@ == k;
            assert(s[i] == rest[i]);
        }
        if exists|i: int| 0 <= i < s.len() && (#[trigger] s[i]).0@ == k {
            let i = choose|i: int| 0 <= i < s.len() && (#[trigger] s[i]).0@ == k;
            if i < s.len() - 1 {
                assert(rest[i] == s[i]);
            }
        }
    }
}

impl McpRegistry {
    pub open spec fn wf(&self) -> bool {
        keys_distinct(self.servers@)
    }

    /// The registry as a map from key to entry.
    pub open spec fn view(&self) -> Map<Seq<char>, RegistryEntry> {
        entries_map(self.servers@)
    }

    /// The empty registry, read where no registry was stored.
    pub fn new() -> (r: McpRegistry)
        ensures
            r.wf(),
            r@ == Map::<Seq<char>, RegistryEntry>::empty(),
    {
        McpRegistry { servers: Vec::new() }
    }

    /// The position of the entry under `id`, if any.
    fn find(&self, id: &str) -> (r: Option<usize>)
        requires
            self.wf(),
        ensures
            r matches Some(i) ==> i < self.servers@.len() && self.servers@[i as int].0@ == id@,
            r is None ==> !self@.contains_key(id@),
    {
        let mut i: usize = 0;
        while i < self.servers.len()
            invariant
                i <= self.servers@.len(),
                forall|k: int| 0 <= k < i ==> (#[trigger] self.servers@[k]).0@ != id@,
            decreases self.servers@.len() - i,
        {
            if crate::text::same_text(self.servers[i].0.as_str(), id) {
                return Some(i);
            }
            i = i + 1;
        }
        proof {
            lemma_entries_map_keys(self.servers@, id@);
        }
        None
    }

    /// The entry under `id`, or `None` where there is none.
    pub fn get_server(&self, id: &str) -> (r: Option<RegistryEntry>)
        requires
            self.wf(),
        ensures
            r is Some <==> self@.contains_key(id@),
            r matches Some(e) ==> e == self@[id@],
    {
        match self.find(id) {
            None => None,
            Some(i) => {
                proof {
                    lemma_entries_map_index(self.servers@, i as int);
                }
                Some(self.servers[i].1.duplicate())
            },
        }
    }

    /// Puts an entry with exactly these fields under `id`, in place of any
    /// entry that was there.
    pub fn upsert_server(&mut self, id: &str, name: &str, server: &Value, enabled: bool)
        requires
            old(self).wf(),
        ensures
            final(self).wf(),
            final(self)@.dom() == old(self)@.dom().insert(id@),
            forall|k: Seq<char>| k != id@ && old(self)@.contains_key(k) ==> final(self)@[k] == old(self)@[k],
            entry_is(final(self)@[id@], id@, name@, *server, enabled),
            final(self)@ == old(self)@.insert(id@, final(self)@[id@]),
    {
        let entry = RegistryEntry {
            id: String::from_str(id),
            name: String::from_str(name),
            server: server.clone(),
            enabled,
        };
        let ghost before = self.servers@;
        match self.find(id) {
            Some(i) => {
                let key = String::from_str(id);
                self.servers.set(i, (key, entry));
                proof {
                    assert(keys_distinct(self.servers@)) by {
                        assert forall|a: int, b: int| 0 <= a < b < self.servers@.len() implies (#[trigger] self.servers@[a]).0@
                            != (#[trigger] self.servers@[b]).0@ by {
                            assert(a != i ==> self.servers@[a] == before[a]);
                            assert(b != i ==> self.servers@[b] == before[b]);
                        }
                    }
                    self.lemma_set_view(before, i as int);
                    lemma_entries_map_index(before, i as int);
                    assert(entries_map(before).dom().insert(id@) =~= entries_map(before).dom());
                }
            },
            None => {
                let key = String::from_str(id);
                self.servers.push((key, entry));
                proof {
                    assert(self.servers@.drop_last() =~= before);
                    assert(keys_distinct(self.servers@)) by {
                        assert forall|a: int, b: int| 0 <= a < b < self.servers@.len() implies (#[trigger] self.servers@[a]).0@
                            != (#[trigger] self.servers@[b]).0@ by {
                            if b == before.len() {
                                assert(self.servers@[a] == before[a]);
                                lemma_entries_map_index(before, a);
                            } else {
                                assert(self.servers@[a] == before[a]);
                                assert(self.servers@[b] == before[b]);
                            }
                        }
                    }
                    assert(self@ == entries_map(before).insert(id@, self.servers@.last().1));
                    assert(self@.dom() =~= entries_map(before).dom().insert(id@));
                }
            },
        }
    }

    proof fn lemma_set_view(&self, before: Seq<(String, RegistryEntry)>, i: int)
        requires
            keys_distinct(before),
            keys_distinct(self.servers@),
            0 <= i < before.len(),
            self.servers@.len() == before.len(),
            self.servers@[i].0@ == before[i].0@,
            forall|k: int| 0 <= k < before.len() && k != i ==> self.servers@[k] == before[k],
        ensures
            self@.dom() == entries_map(before).dom(),
            self@[before[i].0@] == self.servers@[i].1,
            forall|k: Seq<char>| k != before[i].0@ && entries_map(before).contains_key(k)
                ==> self@[k] == entries_map(before)[k],
    {
        assert forall|k: Seq<char>| self@.contains_key(k) <==> entries_map(before).contains_key(k) by {
            lemma_entries_map_keys(self.servers@, k);
            lemma_entries_map_keys(before, k);
            if exists|j: int| 0 <= j < before.len() && (#[trigger] before[j]).0@ == k {
                let j = choose|j: int| 0 <= j < before.len() && (#[trigger] before[j]).0@ == k;
                assert(self.servers@[j].0@ == k);
            }
            if exists|j: int| 0 <= j < before.len() && (#[trigger] self.servers@[j]).0@ == k {
                let j = choose|j: int| 0 <= j < before.len() && (#[trigger] self.servers@[j]).0@ == k;
                assert(before[j].0@ == k);
            }
        }
        assert(self@.dom() =~= entries_map(before).dom());
        lemma_entries_map_index(self.servers@, i);
        assert forall|k: Seq<char>| k != before[i].0@ && entries_map(before).contains_key(k) implies self@[k]
            == entries_map(before)[k] by {
            lemma_entries_map_keys(before, k);
            let j = choose|j: int| 0 <= j < before.len() && (#[trigger] before[j]).0@ == k;
            lemma_entries_map_index(before, j);
            lemma_entries_map_index(self.servers@, j);
        }
    }

    /// Deletes the entry under `id`; says whether there was one, and so
    /// whether the registry must be stored again.
    pub fn remove_server(&mut self, id: &str) -> (r: bool)
        requires
            old(self).wf(),
        ensures
            final(self).wf(),
            r == old(self)@.contains_key(id@),
            final(self)@ == old(self)@.remove(id@),
    {
        let ghost before = self.servers@;
        match self.find(id) {
            None => {
                assert(self@ =~= self@.remove(id@));
                false
            },
            Some(i) => {
                proof {
                    lemma_entries_map_index(before, i as int);
                }
                self.servers.remove(i);
                proof {
                    let after = self.servers@;
                    assert forall|a: int| 0 <= a < after.len() implies #[trigger] after[a] == before[if a < i {
                        a
                    } else {
                        a + 1
                    }] by {}
                    assert(keys_distinct(after)) by {
                        assert forall|a: int, b: int| 0 <= a < b < after.len() implies (#[trigger] after[a]).0@
                            != (#[trigger] after[b]).0@ by {
                            let a2 = if a < i { a } else { a + 1 };
                            let b2 = if b < i { b } else { b + 1 };
                            assert(after[a] == before[a2]);
                            assert(after[b] == before[b2]);
                        }
                    }
                    assert forall|k: Seq<char>| #[trigger] self@.contains_key(k) <==> entries_map(before).remove(id@).contains_key(k) by {
                        lemma_entries_map_keys(after, k);
                        lemma_entries_map_keys(before, k);
                        if exists|j: int| 0 <= j < before.len() && (#[trigger] before[j]).0@ == k {
                            let j = choose|j: int| 0 <= j < before.len() && (#[trigger] before[j]).0@ == k;
                            if j < i {
                                assert(after[j] == before[j]);
                            } else if j > i {
                                assert(after[j - 1] == before[j]);
                            }
                        }
                        if exists|j: int| 0 <= j < after.len() && (#[trigger] after[j]).0@ == k {
                            let j = choose|j: int| 0 <= j < after.len() && (#[trigger] after[j]).0@ == k;
                            let j2 = if j < i { j } else { j + 1 };
                            assert(after[j] == before[j2]);
                        }
                    }
                    assert forall|k: Seq<char>| #[trigger] self@.contains_key(k) implies self@[k] == entries_map(before)[k] by {
                        lemma_entries_map_keys(after, k);
                        let j = choose|j: int| 0 <= j < after.len() && (#[trigger] after[j]).0@ == k;
                        let j2 = if j < i { j } else { j + 1 };
                        assert(after[j] == before[j2]);
                        lemma_entries_map_index(after, j);
                        lemma_entries_map_index(before, j2);
                    }
                    assert(self@ =~= entries_map(before).remove(id@));
                }
                true
            },
        }
    }

    /// Sets the `enabled` flag of the entry under `id`, if there is one; says
    /// whether there was, and so whether the registry must be stored again.
    pub fn set_server_enabled(&mut self, id: &str, enabled: bool) -> (r: bool)
        requires
            old(self).wf(),
        ensures
            final(self).wf(),
            r == old(self)@.contains_key(id@),
            r ==> final(self)@ == old(self)@.insert(id@, RegistryEntry { enabled, ..old(self)@[id@] }),
            !r ==> final(self)@ == old(self)@,
    {
        let ghost before = self.servers@;
        match self.find(id) {
            None => false,
            Some(i) => {
                proof {
                    lemma_entries_map_index(before, i as int);
                }
                let key = self.servers[i].0.clone();
                let entry = RegistryEntry { enabled, ..self.servers[i].1.duplicate() };
                self.servers.set(i, (key, entry));
                proof {
                    assert(keys_distinct(self.servers@)) by {
                        assert forall|a: int, b: int| 0 <= a < b < self.servers@.len() implies (#[trigger] self.servers@[a]).0@
                            != (#[trigger] self.servers@[b]).0@ by {
                            assert(a != i ==> self.servers@[a] == before[a]);
                            assert(b != i ==> self.servers@[b] == before[b]);
                        }
                    }
                    self.lemma_set_view(before, i as int);
                    assert(self@ =~= entries_map(before).insert(id@, RegistryEntry { enabled, ..entries_map(before)[id@] }));
                }
                true
            },
        }
    }

    /// The servers to hand to an engine: the key and specification of every
    /// enabled entry, in registry order.
    pub fn sync_registry_to_engine(&self) -> (r: Vec<(String, Value)>)
        requires
            self.wf(),
        ensures
            pairs_distinct(r@),
            pairs_map(r@) == enabled_entries(self.servers@),
    {
        let mut r: Vec<(String, Value)> = Vec::new();
        let mut i: usize = 0;
        while i < self.servers.len()
            invariant
                self.wf(),
                i <= self.servers@.len(),
                pairs_distinct(r@),
                pairs_map(r@) == enabled_entries(self.servers@.subrange(0, i as int)),
                forall|j: int| 0 <= j < r@.len() ==> exists|k: int| 0 <= k < i && (#[trigger] r@[j]).0@ == (#[trigger] self.servers@[k]).0@,
            decreases self.servers@.len() - i,
        {
            let ghost prefix = self.servers@.subrange(0, i + 1);
            assert(prefix.drop_last() =~= self.servers@.subrange(0, i as int));
            if self.servers[i].1.enabled {
                let ghost before = r@;
                r.push((self.servers[i].0.clone(), self.servers[i].1.server.clone()));
                assert(r@.drop_last() =~= before);
                assert(pairs_distinct(r@)) by {
                    assert forall|a: int, b: int| 0 <= a < b < r@.len() implies (#[trigger] r@[a]).0@ != (#[trigger] r@[b]).0@ by {
                        if b == before.len() {
                            assert(r@[a] == before[a]);
                            let k = choose|k: int| 0 <= k < i && (#[trigger] before[a]).0@ == (#[trigger] self.servers@[k]).0@;
                            assert(self.servers@[k].0@ != self.servers@[i as int].0@);
                        } else {
                            assert(r@[a] == before[a]);
                            assert(r@[b] == before[b]);
                        }
                    }
                }
                assert forall|j: int| 0 <= j < r@.len() implies exists|k: int| 0 <= k < i + 1 && (#[trigger] r@[j]).0@ == (#[trigger] self.servers@[k]).0@ by {
                    if j < before.len() {
                        assert(r@[j] == before[j]);
                        let k = choose|k: int| 0 <= k < i && (#[trigger] before[j]).0@ == (#[trigger] self.servers@[k]).0@;
                        assert(r@[j].0@ == self.servers@[k].0@);
                    } else {
                        assert(r@[j].0@ == self.servers@[i as int].0@);
                    }
                }
            }
            i = i + 1;
        }
        assert(self.servers@.subrange(0, i as int) =~= self.servers@);
        r
    }

    /// Every server with its status for an engine whose enabled servers are
    /// `live`: first each registry entry, with the engine's specification
    /// where the engine has it enabled and the stored one otherwise; then
    /// each server that only the engine has, enabled.
    pub fn get_engine_servers_with_status(&self, live: &Vec<(String, Value)>) -> (r: Vec<(String, Value, bool)>)
        requires
            self.wf(),
            pairs_distinct(live@),
        ensures
            status_views(r@) == entry_statuses(self.servers@, live@) + live_only(live@, self@),
    {
        let mut r: Vec<(String, Value, bool)> = Vec::new();
        let mut i: usize = 0;
        while i < self.servers.len()
            invariant
                i <= self.servers@.len(),
                status_views(r@) == entry_statuses(self.servers@.subrange(0, i as int), live@),
            decreases self.servers@.len() - i,
        {
            let ghost before = status_views(r@);
            assert(self.servers@.subrange(0, i + 1).drop_last() =~= self.servers@.subrange(0, i as int));
            let key = &self.servers[i].0;
            let item = match live_lookup_exec(live, key.as_str()) {
                Some(v) => (key.clone(), v, true),
                None => (key.clone(), self.servers[i].1.server.clone(), false),
            };
            r.push(item);
            assert(status_views(r@) =~= before.push((item.0@, item.1, item.2)));
            i = i + 1;
        }
        assert(self.servers@.subrange(0, i as int) =~= self.servers@);
        let ghost head = status_views(r@);
        let mut j: usize = 0;
        while j < live.len()
            invariant
                self.wf(),
                j <= live@.len(),
                status_views(r@) == head + live_only(live@.subrange(0, j as int), self@),
            decreases live@.len() - j,
        {
            let ghost before = status_views(r@);
            assert(live@.subrange(0, j + 1).drop_last() =~= live@.subrange(0, j as int));
            let key = &live[j].0;
            match self.find(key.as_str()) {
                Some(_) => {
                    proof {
                        lemma_entries_map_keys(self.servers@, key@);
                    }
                },
                None => {
                    let item = (key.clone(), live[j].1.clone(), true);
                    r.push(item);
                    assert(status_views(r@) =~= before.push((item.0@, item.1, item.2)));
                },
            }
            j = j + 1;
        }
        assert(live@.subrange(0, j as int) =~= live@);
        r
    }
}

pub open spec fn pairs_distinct(s: Seq<(String, Value)>) -> bool {
    forall|i: int, j: int| 0 <= i < j < s.len() ==> (#[trigger] s[i]).0@ != (#[trigger] s[j]).0@
}

/// The map that a sequence of key and specification pairs stands for.
pub open spec fn pairs_map(s: Seq<(String, Value)>) -> Map<Seq<char>, Value>
    decreases s.len(),
{
    if s.len() == 0 {
        Map::empty()
    } else {
        pairs_map(s.drop_last()).insert(s.last().0@, s.last().1)
    }
}

/// The key and specification of each enabled entry.
pub open spec fn enabled_entries(s: Seq<(String, RegistryEntry)>) -> Map<Seq<char>, Value>
    decreases s.len(),
{
    if s.len() == 0 {
        Map::empty()
    } else if s.last().1.enabled {
        enabled_entries(s.drop_last()).insert(s.last().0@, s.last().1.server)
    } else {
        enabled_entries(s.drop_last())
    }
}

/// The specification that `live` holds under `k`, if any.
pub open spec fn live_lookup(live: Seq<(String, Value)>, k: Seq<char>) -> Option<Value>
    decreases live.len(),
{
    if live.len() == 0 {
        None
    } else if live.last().0@ == k {
        Some(live.last().1)
    } else {
        live_lookup(live.drop_last(), k)
    }
}

fn live_lookup_exec(live: &Vec<(String, Value)>, k: &str) -> (r: Option<Value>)
    ensures
        r == live_lookup(live@, k@),
{
    let mut j: usize = live.len();
    assert(live@.subrange(0, j as int) =~= live@);
    while j > 0
        invariant
            j <= live@.len(),
            live_lookup(live@, k@) == live_lookup(live@.subrange(0, j as int), k@),
        decreases j,
    {
        assert(live@.subrange(0, j as int).drop_last() =~= live@.subrange(0, j - 1));
        if crate::text::same_text(live[j - 1].0.as_str(), k) {
            return Some(live[j - 1].1.clone());
        }
        j = j - 1;
    }
    None
}

pub open spec fn status_views(s: Seq<(String, Value, bool)>) -> Seq<(Seq<char>, Value, bool)> {
    s.map_values(|t: (String, Value, bool)| (t.0@, t.1, t.2))
}

/// Each registry entry's key, with the live specification and `true` where
/// the engine has it enabled, else the stored specification and `false`.
pub open spec fn entry_statuses(s: Seq<(String, RegistryEntry)>, live: Seq<(String, Value)>) -> Seq<(Seq<char>, Value, bool)>
    decreases s.len(),
{
    if s.len() == 0 {
        Seq::empty()
    } else {
        let k = s.last().0@;
        let item = match live_lookup(live, k) {
            Some(v) => (k, v, true),
            None => (k, s.last().1.server, false),
        };
        entry_statuses(s.drop_last(), live).push(item)
    }
}

/// The live servers whose keys the registry does not hold, enabled.
pub open spec fn live_only(live: Seq<(String, Value)>, reg: Map<Seq<char>, RegistryEntry>) -> Seq<(Seq<char>, Value, bool)>
    decreases live.len(),
{
    if live.len() == 0 {
        Seq::empty()
    } else if reg.contains_key(live.last().0@) {
        live_only(live.drop_last(), reg)
    } else {
        live_only(live.drop_last(), reg).push((live.last().0@, live.last().1, true))
    }
}

/// After an entry with these fields is put under `id` into any registry,
/// as `upsert_server` does, getting `id` gives an entry equal to it in every
/// field; after `id` is then removed, as `remove_server` does, getting it
/// gives none.
pub proof fn law_registry_round_trip(
    m: Map<Seq<char>, RegistryEntry>,
    e: RegistryEntry,
    id: Seq<char>,
    name: Seq<char>,
    server: Value,
    enabled: bool,
)
    requires
        entry_is(e, id, name, server, enabled),
    ensures
        m.insert(id, e).contains_key(id),
        entry_is(m.insert(id, e)[id], id, name, server, enabled),
        !m.insert(id, e).remove(id).contains_key(id),
{
}

proof fn lemma_live_only_keys(live: Seq<(String, Value)>, reg: Map<Seq<char>, RegistryEntry>, j: int)
    requires
        0 <= j < live_only(live, reg).len(),
    ensures
        exists|i: int| 0 <= i < live.len() && (#[trigger] live[i]).0@ == live_only(live, reg)[j].0,
    decreases live.len(),
{
    let rest = live.drop_last();
    if j < live_only(rest, reg).len() {
        assert(live_only(live, reg)[j] == live_only(rest, reg)[j]);
        lemma_live_only_keys(rest, reg, j);
        let i = choose|i: int| 0 <= i < rest.len() && (#[trigger] rest[i]).0@ == live_only(rest, reg)[j].0;
        assert(live[i] == rest[i]);
    } else {
        assert(live_only(live, reg)[j].0 == live[live.len() - 1].0@);
    }
}

proof fn lemma_live_only_once(live: Seq<(String, Value)>, reg: Map<Seq<char>, RegistryEntry>, k: int) -> (j: int)
    requires
        pairs_distinct(live),
        0 <= k < live.len(),
        !reg.contains_key(live[k].0@),
    ensures
        0 <= j < live_only(live, reg).len(),
        live_only(live, reg)[j] == (live[k].0@, live[k].1, true),
        forall|j2: int| 0 <= j2 < live_only(live, reg).len() && (#[trigger] live_only(live, reg)[j2]).0 == live[k].0@ ==> j2 == j,
    decreases live.len(),
{
    let rest = live.drop_last();
    let out = live_only(live, reg);
    let last = live.len() - 1;
    assert(pairs_distinct(rest)) by {
        assert forall|a: int, b: int| 0 <= a < b < rest.len() implies (#[trigger] rest[a]).0@ != (#[trigger] rest[b]).0@ by {
            assert(rest[a] == live[a] && rest[b] == live[b]);
        }
    }
    if k == last {
        assert forall|j2: int| 0 <= j2 < out.len() && (#[trigger] out[j2]).0 == live[k].0@ implies j2 == out.len() - 1 by {
            if j2 < out.len() - 1 {
                assert(out[j2] == live_only(rest, reg)[j2]);
                lemma_live_only_keys(rest, reg, j2);
                let i = choose|i: int| 0 <= i < rest.len() && (#[trigger] rest[i]).0@ == live_only(rest, reg)[j2].0;
                assert(rest[i] == live[i]);
            }
        }
        out.len() - 1
    } else {
        assert(rest[k] == live[k]);
        let j = lemma_live_only_once(rest, reg, k);
        assert(live[k].0@ != live[last].0@);
        assert(out[j] == live_only(rest, reg)[j]);
        assert forall|j2: int| 0 <= j2 < out.len() && (#[trigger] out[j2]).0 == live[k].0@ implies j2 == j by {
            if j2 < live_only(rest, reg).len() {
                assert(out[j2] == live_only(rest, reg)[j2]);
            }
        }
        j
    }
}

proof fn lemma_entry_statuses_keys(s: Seq<(String, RegistryEntry)>, live: Seq<(String, Value)>)
    ensures
        entry_statuses(s, live).len() == s.len(),
        forall|i: int| 0 <= i < s.len() ==> (#[trigger] entry_statuses(s, live)[i]).0 == s[i].0@,
    decreases s.len(),
{
    if s.len() > 0 {
        let rest = s.drop_last();
        lemma_entry_statuses_keys(rest, live);
        assert forall|i: int| 0 <= i < s.len() implies (#[trigger] entry_statuses(s, live)[i]).0 == s[i].0@ by {
            if i < rest.len() {
                assert(entry_statuses(s, live)[i] == entry_statuses(rest, live)[i]);
                assert(rest[i] == s[i]);
            }
        }
    }
}

/// A server that only the engine has enabled is listed exactly once in what
/// `get_engine_servers_with_status` returns: enabled, with the engine's
/// specification.
pub proof fn law_live_only_server_is_listed_once(
    s: Seq<(String, RegistryEntry)>,
    live: Seq<(String, Value)>,
    k: int,
)
    requires
        keys_distinct(s),
        pairs_distinct(live),
        0 <= k < live.len(),
        !entries_map(s).contains_key(live[k].0@),
    ensures
        ({
            let out = entry_statuses(s, live) + live_only(live, entries_map(s));
            exists|j: int|
                0 <= j < out.len() && out[j] == (live[k].0@, live[k].1, true) && forall|j2: int|
                    0 <= j2 < out.len() && (#[trigger] out[j2]).0 == live[k].0@ ==> j2 == j
        }),
{
    let reg = entries_map(s);
    let head = entry_statuses(s, live);
    let tail = live_only(live, reg);
    let out = head + tail;
    lemma_entry_statuses_keys(s, live);
    let j = lemma_live_only_once(live, reg, k);
    lemma_entries_map_keys(s, live[k].0@);
    assert(out[head.len() + j] == tail[j]);
    assert forall|j2: int| 0 <= j2 < out.len() && (#[trigger] out[j2]).0 == live[k].0@ implies j2 == head.len() + j by {
        if j2 < head.len() {
            assert(out[j2] == head[j2]);
            assert(head[j2].0 == s[j2].0@);
        } else {
            assert(out[j2] == tail[j2 - head.len()]);
        }
    }
}

/// What is handed to an engine is exactly the enabled part of the registry:
/// every enabled entry's key, with its stored specification, and nothing else.
pub proof fn law_sync_hands_over_enabled(s: Seq<(String, RegistryEntry)>)
    requires
        keys_distinct(s),
    ensures
        forall|k: Seq<char>|
            #[trigger] enabled_entries(s).contains_key(k) <==> entries_map(s).contains_key(k)
                && entries_map(s)[k].enabled,
        forall|k: Seq<char>|
            #[trigger] enabled_entries(s).contains_key(k) ==> enabled_entries(s)[k]
                == entries_map(s)[k].server,
    decreases s.len(),
{
    if s.len() > 0 {
        let rest = s.drop_last();
        assert(keys_distinct(rest)) by {
            assert forall|a: int, b: int| 0 <= a < b < rest.len() implies (#[trigger] rest[a]).0@
                != (#[trigger] rest[b]).0@ by {
                assert(rest[a] == s[a] && rest[b] == s[b]);
            }
        }
        law_sync_hands_over_enabled(rest);
        let lk = s.last().0@;
        lemma_entries_map_keys(rest, lk);
        if entries_map(rest).contains_key(lk) {
            let i = choose|i: int| 0 <= i < rest.len() && (#[trigger] rest[i]).0@ == lk;
            assert(rest[i] == s[i]);
            assert(s[i].0@ != s[s.len() - 1].0@);
        }
        assert forall|k: Seq<char>| #[trigger] enabled_entries(s).contains_key(k) <==> entries_map(s).contains_key(k)
            && entries_map(s)[k].enabled by {
            if k != lk {
                assert(enabled_entries(rest).contains_key(k) <==> entries_map(rest).contains_key(k)
                    && entries_map(rest)[k].enabled);
            }
        }
        assert forall|k: Seq<char>| #[trigger] enabled_entries(s).contains_key(k) implies enabled_entries(s)[k]
            == entries_map(s)[k].server by {
            if k != lk {
                assert(enabled_entries(rest).contains_key(k) ==> enabled_entries(rest)[k]
                    == entries_map(rest)[k].server);
            }
        }
    }
}

} // verus!
