//! The configuration store: the set of named launch configurations, keyed by
//! display name, with the exact insert-and-load semantics that persistence
//! relies on.

use vstd::prelude::*;

verus! {

/// How to launch one service: the path of its executable and the display
/// name it is keyed by.
pub struct ServiceConfig {
    pub path: String,
    pub display_name: String,
}

/// The mathematical content of a `ServiceConfig`.
pub ghost struct ConfigData {
    pub path: Seq<char>,
    pub display_name: Seq<char>,
}

impl View for ServiceConfig {
    type V = ConfigData;

    open spec fn view(&self) -> ConfigData {
        ConfigData { path: self.path@, display_name: self.display_name@ }
    }
}

impl Clone for ServiceConfig {
    fn clone(&self) -> (r: Self)
        ensures
            r@ == self@,
    {
        ServiceConfig { path: self.path.clone(), display_name: self.display_name.clone() }
    }
}

/// Whether some entry carries this display name.
pub open spec fn has_name(s: Seq<ConfigData>, name: Seq<char>) -> bool {
    exists|i: int| 0 <= i < s.len() && s[i].display_name == name
}

/// No two entries share a display name.
pub open spec fn names_unique(s: Seq<ConfigData>) -> bool {
    forall|i: int, j: int| 0 <= i < j < s.len() ==> s[i].display_name != s[j].display_name
}

/// The position of the entry with this display name; meaningful only under
/// `has_name`.
pub open spec fn name_index(s: Seq<ConfigData>, name: Seq<char>) -> int {
    choose|i: int| 0 <= i < s.len() && s[i].display_name == name
}

/// The entry with this display name; meaningful only under `has_name`.
pub open spec fn config_of(s: Seq<ConfigData>, name: Seq<char>) -> ConfigData {
    s[name_index(s, name)]
}

/// Inserting a configuration: it replaces the entry with the same display
/// name, or else is appended as a new entry.
pub open spec fn upsert(s: Seq<ConfigData>, c: ConfigData) -> Seq<ConfigData> {
    if has_name(s, c.display_name) {
        s.update(name_index(s, c.display_name), c)
    } else {
        s.push(c)
    }
}

/// Loading a record list into a store: every record is inserted in order, a
/// later record overwriting an earlier one with the same display name.
pub open spec fn load_all(s: Seq<ConfigData>, records: Seq<ConfigData>) -> Seq<ConfigData>
    decreases records.len(),
{
    if records.len() == 0 {
        s
    } else {
        load_all(upsert(s, records[0]), records.skip(1))
    }
}

/// The set of named launch configurations, at most one per display name.
pub struct ConfigStore {
    entries: Vec<ServiceConfig>,
}

impl View for ConfigStore {
    type V = Seq<ConfigData>;

    closed spec fn view(&self) -> Seq<ConfigData> {
        self.entries@.map_values(|c: ServiceConfig| c@)
    }
}

impl ConfigStore {
    /// No two stored entries share a display name.
    pub open spec fn wf(&self) -> bool {
        names_unique(self@)
    }

    pub fn new() -> (r: ConfigStore)
        ensures
            r.wf(),
            r@ == Seq::<ConfigData>::empty(),
    {
        let r = ConfigStore { entries: Vec::new() };
        proof {
            assert(r@ =~= Seq::<ConfigData>::empty());
        }
        r
    }

    /// The position of the entry carrying `display_name`, if any.
    fn find_name(&self, display_name: &String) -> (r: Option<usize>)
        ensures
            (match r {
                Some(i) => i < self@.len() && self@[i as int].display_name == display_name@,
                None => !has_name(self@, display_name@),
            }),
    {
        let mut i: usize = 0;
        while i < self.entries.len()
            invariant
                i <= self.entries@.len(),
                forall|j: int| 0 <= j < i ==> self@[j].display_name != display_name@,
            decreases self.entries@.len() - i,
        {
            if self.entries[i].display_name == *display_name {
                return Some(i);
            }
            i = i + 1;
        }
        None
    }

    /// Inserts `config`, overwriting any entry with the same display name.
    pub fn insert(&mut self, config: ServiceConfig)
        requires
            old(self).wf(),
        ensures
            final(self).wf(),
            final(self)@ == upsert(old(self)@, config@),
    {
        let found = self.find_name(&config.display_name);
        match found {
            Some(i) => {
                let ghost pre = self@;
                let ghost name = config@.display_name;
                self.entries[i] = config;
                proof {
                    assert(self@ =~= pre.update(i as int, config@));
                    assert(has_name(pre, name));
                    let k = name_index(pre, name);
                    assert(0 <= k < pre.len() && pre[k].display_name == name);
                    assert(k == i as int);
                    assert(forall|m: int, n: int|
                        0 <= m < n < self@.len() ==> self@[m].display_name
                            != self@[n].display_name) by {
                        assert(forall|m: int|
                            0 <= m < self@.len() ==> self@[m].display_name
                                == pre[m].display_name);
                    }
                }
            },
            None => {
                let ghost pre = self@;
                let ghost name = config@.display_name;
                self.entries.push(config);
                proof {
                    assert(self@ =~= pre.push(config@));
                    assert(forall|m: int, n: int|
                        0 <= m < n < self@.len() ==> self@[m].display_name
                            != self@[n].display_name) by {
                        assert(forall|m: int| 0 <= m < pre.len() ==> self@[m] == pre[m]);
                        assert(forall|m: int|
                            0 <= m < pre.len() ==> pre[m].display_name != name);
                    }
                }
            },
        }
    }

    /// Inserts a configuration built from an executable path and a display
    /// name, overwriting any entry with that name.
    pub fn add(&mut self, path: String, display_name: String)
        requires
            old(self).wf(),
        ensures
            final(self).wf(),
            final(self)@ == upsert(
                old(self)@,
                (ConfigData { path: path@, display_name: display_name@ }),
            ),
    {
        self.insert(ServiceConfig { path, display_name });
    }

    /// The configuration carrying `display_name`, if any.
    pub fn get(&self, display_name: &String) -> (r: Option<&ServiceConfig>)
        requires
            self.wf(),
        ensures
            r is Some <==> has_name(self@, display_name@),
            (match r {
                Some(c) => c@ == config_of(self@, display_name@),
                None => true,
            }),
    {
        match self.find_name(display_name) {
            Some(i) => {
                proof {
                    assert(self@[i as int].display_name == display_name@);
                    let k = name_index(self@, display_name@);
                    assert(0 <= k < self@.len() && self@[k].display_name == display_name@);
                    assert(k == i as int);
                }
                Some(&self.entries[i])
            },
            None => None,
        }
    }

    /// Every configuration, in store order, for wholesale persistence.
    pub fn records(&self) -> (r: Vec<ServiceConfig>)
        ensures
            r@.len() == self@.len(),
            forall|i: int| 0 <= i < self@.len() ==> r@[i]@ == self@[i],
    {
        let mut out: Vec<ServiceConfig> = Vec::new();
        let mut i: usize = 0;
        while i < self.entries.len()
            invariant
                i <= self.entries@.len(),
                out@.len() == i,
                forall|j: int| 0 <= j < i ==> out@[j]@ == self@[j],
            decreases self.entries@.len() - i,
        {
            out.push(self.entries[i].clone());
            i = i + 1;
        }
        out
    }

    /// Inserts every record in order; a later record overwrites an earlier
    /// one with the same display name.
    pub fn load_records(&mut self, records: Vec<ServiceConfig>)
        requires
            old(self).wf(),
        ensures
            final(self).wf(),
            final(self)@ == load_all(old(self)@, records@.map_values(|c: ServiceConfig| c@)),
    {
        let ghost rviews = records@.map_values(|c: ServiceConfig| c@);
        proof {
            assert(rviews.skip(0) =~= rviews);
        }
        let mut i: usize = 0;
        while i < records.len()
            invariant
                i <= records@.len(),
                rviews == records@.map_values(|c: ServiceConfig| c@),
                self.wf(),
                load_all(self@, rviews.skip(i as int)) == load_all(old(self)@, rviews),
            decreases records@.len() - i,
        {
            let ghost pre = self@;
            self.insert(records[i].clone());
            proof {
                assert(rviews.skip(i as int)[0] == rviews[i as int]);
                assert(rviews.skip(i as int).skip(1) =~= rviews.skip(i as int + 1));
                assert(load_all(pre, rviews.skip(i as int)) == load_all(
                    upsert(pre, rviews[i as int]),
                    rviews.skip(i as int + 1),
                ));
            }
            i = i + 1;
        }
        proof {
            assert(rviews.skip(records@.len() as int) =~= Seq::<ConfigData>::empty());
        }
    }
}

/// Loading records whose names are pairwise distinct and absent from the
/// accumulator appends them in order.
proof fn lemma_load_all_fresh(s: Seq<ConfigData>, records: Seq<ConfigData>)
    requires
        names_unique(records),
        forall|i: int| 0 <= i < records.len() ==> !has_name(s, records[i].display_name),
    ensures
        load_all(s, records) == s + records,
    decreases records.len(),
{
    if records.len() == 0 {
        assert(s + records =~= s);
    } else {
        let c = records[0];
        let tail = records.skip(1);
        assert(!has_name(s, c.display_name));
        assert(upsert(s, c) == s.push(c));
        assert(names_unique(tail)) by {
            assert(forall|m: int| 0 <= m < tail.len() ==> tail[m] == records[m + 1]);
        }
        assert forall|k: int| 0 <= k < tail.len() implies !has_name(
            s.push(c),
            tail[k].display_name,
        ) by {
            assert(tail[k] == records[k + 1]);
            assert(!has_name(s, records[k + 1].display_name));
            assert(records[0].display_name != records[k + 1].display_name);
            assert forall|m: int| 0 <= m < s.push(c).len() implies s.push(c)[m].display_name
                != tail[k].display_name by {
                if m < s.len() {
                    assert(s.push(c)[m] == s[m]);
                } else {
                    assert(s.push(c)[m] == c);
                }
            }
        }
        lemma_load_all_fresh(s.push(c), tail);
        assert(load_all(s, records) == load_all(s.push(c), tail));
        assert(s.push(c) + tail =~= s + records);
    }
}

/// Round trip through persistence: saving a well-formed store wholesale and
/// loading the saved records into an empty store reproduces the store
/// exactly — in particular, a configuration just added is in the loaded set.
pub proof fn lemma_save_load_round_trip(s: Seq<ConfigData>)
    requires
        names_unique(s),
    ensures
        load_all(Seq::<ConfigData>::empty(), s) == s,
{
    lemma_load_all_fresh(Seq::<ConfigData>::empty(), s);
    assert(Seq::<ConfigData>::empty() + s =~= s);
}

} // verus!
