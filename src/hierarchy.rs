//! Construction of the containment hierarchy: Earth, then countries, then
//! states and regions, then cities, with cities whose state is unknown kept
//! apart under their country.
use vstd::prelude::*;
use vstd::hash_map::{HashMapWithView, StringHashMap};
use crate::models::{ChildEntry, ChildModel, GeoName};
use crate::names::{NameResolver, NamesModel, resolved_name};
use crate::table::{NodeTable, TableModel, empty_table, table_append, table_ensure};

verus! {

broadcast use vstd::std_specs::hash::group_hash_axioms;

/// The id of the root node.
pub const EARTH_ID: i64 = 6295630;

/// What the first scan over the records has gathered.
pub struct ScanModel {
    /// The last classified record seen for each id.
    pub entries: Map<i64, GeoName>,
    /// Country code to the id of the last country record with that code.
    pub countries: Map<Seq<char>, i64>,
    /// The state keys in the order in which each was first seen.
    pub state_keys: Seq<Seq<char>>,
    /// State key to the id of the last state record with that key.
    pub states: Map<Seq<char>, i64>,
    /// The ids of city records, in record order.
    pub cities: Seq<i64>,
    /// The hierarchy nodes made so far.
    pub nodes: TableModel,
}

/// The key under which a state is indexed: `country.admin1`.
pub open spec fn state_key(country: Seq<char>, admin1: Seq<char>) -> Seq<char> {
    country + "."@ + admin1
}

pub open spec fn display_name(names: NamesModel, g: GeoName) -> Seq<char> {
    resolved_name(names, g.geoname_id, g.name@)
}

pub open spec fn child_of(names: NamesModel, g: GeoName) -> ChildModel {
    (g.geoname_id, display_name(names, g))
}

/// The table that holds only the Earth node, with no children.
pub open spec fn earth_table() -> TableModel {
    table_ensure(empty_table(), EARTH_ID, "Earth"@)
}

pub open spec fn initial_scan() -> ScanModel {
    ScanModel {
        entries: Map::empty(),
        countries: Map::empty(),
        state_keys: Seq::empty(),
        states: Map::empty(),
        cities: Seq::empty(),
        nodes: earth_table(),
    }
}

/// What one record adds to the scan.
pub open spec fn scan_step(names: NamesModel, m: ScanModel, g: GeoName) -> ScanModel {
    let m1 = if g.spec_is_country() {
        ScanModel {
            nodes: table_ensure(
                table_append(m.nodes, EARTH_ID, "Earth"@, child_of(names, g)),
                g.geoname_id,
                display_name(names, g),
            ),
            countries: m.countries.insert(g.country_code@, g.geoname_id),
            ..m
        }
    } else {
        m
    };
    let key = state_key(g.country_code@, g.admin1_code@);
    let m2 = if g.spec_is_state_region() {
        ScanModel {
            nodes: table_ensure(m1.nodes, g.geoname_id, display_name(names, g)),
            state_keys: if m1.states.contains_key(key) {
                m1.state_keys
            } else {
                m1.state_keys.push(key)
            },
            states: m1.states.insert(key, g.geoname_id),
            ..m1
        }
    } else {
        m1
    };
    let m3 = if g.spec_is_city_town() {
        ScanModel { cities: m2.cities.push(g.geoname_id), ..m2 }
    } else {
        m2
    };
    if g.spec_is_classified() {
        ScanModel { entries: m3.entries.insert(g.geoname_id, g), ..m3 }
    } else {
        m3
    }
}

/// The scan over a sequence of records.
pub open spec fn scan_records(names: NamesModel, recs: Seq<GeoName>) -> ScanModel
    decreases recs.len(),
{
    if recs.len() == 0 {
        initial_scan()
    } else {
        scan_step(names, scan_records(names, recs.drop_last()), recs.last())
    }
}

/// Attaches the state indexed under `key` to its country's node, when the
/// state's record and its country can be found.
pub open spec fn state_attach_step(names: NamesModel, m: ScanModel, t: TableModel, key: Seq<char>) -> TableModel {
    if m.states.contains_key(key) && m.entries.contains_key(m.states[key]) {
        let g = m.entries[m.states[key]];
        if m.countries.contains_key(g.country_code@) && m.entries.contains_key(
            m.countries[g.country_code@],
        ) {
            let p = m.entries[m.countries[g.country_code@]];
            table_append(t, m.countries[g.country_code@], display_name(names, p), child_of(names, g))
        } else {
            t
        }
    } else {
        t
    }
}

pub open spec fn attach_states(names: NamesModel, m: ScanModel, t: TableModel, keys: Seq<Seq<char>>) -> TableModel
    decreases keys.len(),
{
    if keys.len() == 0 {
        t
    } else {
        state_attach_step(names, m, attach_states(names, m, t, keys.drop_last()), keys.last())
    }
}

/// Attaches the city `id` to its state's node, or else to its country's
/// bucket of unparented cities, or else nowhere. `tl` holds the hierarchy
/// and the buckets.
pub open spec fn city_attach_step(
    names: NamesModel,
    m: ScanModel,
    tl: (TableModel, TableModel),
    id: i64,
) -> (TableModel, TableModel) {
    if m.entries.contains_key(id) {
        let g = m.entries[id];
        let key = state_key(g.country_code@, g.admin1_code@);
        if m.states.contains_key(key) {
            if m.entries.contains_key(m.states[key]) {
                let p = m.entries[m.states[key]];
                (table_append(tl.0, m.states[key], display_name(names, p), child_of(names, g)), tl.1)
            } else {
                tl
            }
        } else if m.countries.contains_key(g.country_code@) {
            if m.entries.contains_key(m.countries[g.country_code@]) {
                let c = m.entries[m.countries[g.country_code@]];
                (
                    tl.0,
                    table_append(
                        tl.1,
                        m.countries[g.country_code@],
                        display_name(names, c),
                        child_of(names, g),
                    ),
                )
            } else {
                tl
            }
        } else {
            tl
        }
    } else {
        tl
    }
}

pub open spec fn attach_cities(
    names: NamesModel,
    m: ScanModel,
    tl: (TableModel, TableModel),
    ids: Seq<i64>,
) -> (TableModel, TableModel)
    decreases ids.len(),
{
    if ids.len() == 0 {
        tl
    } else {
        city_attach_step(names, m, attach_cities(names, m, tl, ids.drop_last()), ids.last())
    }
}

/// The hierarchy and the buckets of unparented cities that come of the scan `m`.
pub open spec fn attached(names: NamesModel, m: ScanModel) -> (TableModel, TableModel) {
    attach_cities(
        names,
        m,
        (attach_states(names, m, m.nodes, m.state_keys), empty_table()),
        m.cities,
    )
}

/// The hierarchy and the buckets of unparented cities built from `recs`.
pub open spec fn hierarchy_of(names: NamesModel, recs: Seq<GeoName>) -> (TableModel, TableModel) {
    attached(names, scan_records(names, recs))
}

/// The result of a build: the hierarchy, and the cities whose state could not
/// be found, grouped under their country's id.
pub struct Hierarchy {
    pub nodes: NodeTable,
    pub unparented: NodeTable,
}

/// Collects the records one at a time, then attaches states and cities.
pub struct HierarchyBuilder {
    entries: HashMapWithView<i64, GeoName>,
    countries: StringHashMap<i64>,
    state_keys: Vec<String>,
    states: StringHashMap<i64>,
    cities: Vec<i64>,
    nodes: NodeTable,
}

impl View for HierarchyBuilder {
    type V = ScanModel;

    closed spec fn view(&self) -> ScanModel {
        ScanModel {
            entries: self.entries@,
            countries: self.countries@,
            state_keys: self.state_keys@.map_values(|s: String| s@),
            states: self.states@,
            cities: self.cities@,
            nodes: self.nodes@,
        }
    }
}

/// The key `country.admin1` of a state.
pub fn state_key_of(country: &str, admin1: &str) -> (r: String)
    ensures
        r@ == state_key(country@, admin1@),
{
    let mut key = String::from_str(country);
    key.append(".");
    key.append(admin1);
    key
}

impl HierarchyBuilder {
    pub closed spec fn wf(&self) -> bool {
        self.nodes.wf()
    }

    /// A builder that holds only the Earth node.
    pub fn new() -> (r: Self)
        ensures
            r.wf(),
            r@ == initial_scan(),
    {
        let mut nodes = NodeTable::new();
        nodes.ensure(EARTH_ID, String::from_str("Earth"));
        let r = HierarchyBuilder {
            entries: HashMapWithView::new(),
            countries: StringHashMap::new(),
            state_keys: Vec::new(),
            states: StringHashMap::new(),
            cities: Vec::new(),
            nodes,
        };
        proof {
            assert(r@.state_keys =~= Seq::<Seq<char>>::empty());
        }
        r
    }

    /// Takes one record into the scan: a country joins Earth's children and
    /// the country index, a state the state index, a city the list of cities.
    pub fn add_record(&mut self, g: &GeoName, names: &NameResolver)
        requires
            old(self).wf(),
        ensures
            final(self).wf(),
            final(self)@ == scan_step(names@, old(self)@, *g),
    {
        if g.is_country() {
            let name = names.resolve(g.geoname_id, g.name.as_str());
            self.nodes.append_child(
                EARTH_ID,
                String::from_str("Earth"),
                ChildEntry { id: g.geoname_id, name: name.clone() },
            );
            self.nodes.ensure(g.geoname_id, name);
            self.countries.insert(g.country_code.clone(), g.geoname_id);
        }
        let ghost m1 = self@;
        if g.is_state_region() {
            let name = names.resolve(g.geoname_id, g.name.as_str());
            self.nodes.ensure(g.geoname_id, name);
            let key = state_key_of(g.country_code.as_str(), g.admin1_code.as_str());
            if !self.states.contains_key(key.as_str()) {
                self.state_keys.push(key.clone());
                proof {
                    assert(self.state_keys@.map_values(|s: String| s@) =~= m1.state_keys.push(key@));
                }
            }
            self.states.insert(key, g.geoname_id);
        }
        if g.is_city_town() {
            self.cities.push(g.geoname_id);
        }
        if g.is_continent() || g.is_country() || g.is_state_region() || g.is_city_town() {
            self.entries.insert(g.geoname_id, g.duplicate());
        }
    }

    /// Attaches states to countries, then cities to states or, failing
    /// that, to their country's bucket of unparented cities.
    pub fn finish(self, names: &NameResolver) -> (r: Hierarchy)
        requires
            self.wf(),
        ensures
            r.nodes.wf(),
            r.unparented.wf(),
            (r.nodes@, r.unparented@) == attached(names@, self@),
    {
        let ghost m = self@;
        let HierarchyBuilder { entries, countries, state_keys, states, cities, mut nodes } = self;
        let mut i: usize = 0;
        while i < state_keys.len()
            invariant
                0 <= i <= state_keys@.len(),
                nodes.wf(),
                m.entries == entries@,
                m.countries == countries@,
                m.states == states@,
                m.state_keys == state_keys@.map_values(|s: String| s@),
                nodes@ == attach_states(names@, m, m.nodes, m.state_keys.take(i as int)),
            decreases state_keys@.len() - i,
        {
            proof {
                assert(m.state_keys.take(i as int + 1).drop_last() =~= m.state_keys.take(i as int));
            }
            let key = &state_keys[i];
            if let Some(sid) = states.get(key.as_str()) {
                if let Some(g) = entries.get(sid) {
                    if let Some(pid) = countries.get(g.country_code.as_str()) {
                        if let Some(p) = entries.get(pid) {
                            let pname = names.resolve(p.geoname_id, p.name.as_str());
                            let cname = names.resolve(g.geoname_id, g.name.as_str());
                            nodes.append_child(*pid, pname, ChildEntry { id: g.geoname_id, name: cname });
                        }
                    }
                }
            }
            i = i + 1;
        }
        proof {
            assert(m.state_keys.take(i as int) =~= m.state_keys);
        }
        let mut loose = NodeTable::new();
        let mut j: usize = 0;
        while j < cities.len()
            invariant
                0 <= j <= cities@.len(),
                nodes.wf(),
                loose.wf(),
                m.entries == entries@,
                m.countries == countries@,
                m.states == states@,
                m.cities == cities@,
                (nodes@, loose@) == attach_cities(
                    names@,
                    m,
                    (attach_states(names@, m, m.nodes, m.state_keys), empty_table()),
                    m.cities.take(j as int),
                ),
            decreases cities@.len() - j,
        {
            proof {
                assert(m.cities.take(j as int + 1).drop_last() =~= m.cities.take(j as int));
            }
            let cid = cities[j];
            if let Some(g) = entries.get(&cid) {
                let key = state_key_of(g.country_code.as_str(), g.admin1_code.as_str());
                match states.get(key.as_str()) {
                    Some(sid) => {
                        if let Some(p) = entries.get(sid) {
                            let pname = names.resolve(p.geoname_id, p.name.as_str());
                            let cname = names.resolve(g.geoname_id, g.name.as_str());
                            nodes.append_child(*sid, pname, ChildEntry { id: g.geoname_id, name: cname });
                        }
                    },
                    None => {
                        if let Some(pid) = countries.get(g.country_code.as_str()) {
                            if let Some(p) = entries.get(pid) {
                                let pname = names.resolve(p.geoname_id, p.name.as_str());
                                let cname = names.resolve(g.geoname_id, g.name.as_str());
                                loose.append_child(*pid, pname, ChildEntry { id: g.geoname_id, name: cname });
                            }
                        }
                    },
                }
            }
            j = j + 1;
        }
        proof {
            assert(m.cities.take(j as int) =~= m.cities);
        }
        Hierarchy { nodes, unparented: loose }
    }
}

/// Builds the hierarchy from all records of the gazetteer, in file order.
pub fn build_hierarchy(records: &Vec<GeoName>, names: &NameResolver) -> (r: Hierarchy)
    ensures
        r.nodes.wf(),
        r.unparented.wf(),
        (r.nodes@, r.unparented@) == hierarchy_of(names@, records@),
{
    let mut b = HierarchyBuilder::new();
    let mut i: usize = 0;
    proof {
        assert(records@.take(0) =~= Seq::<GeoName>::empty());
    }
    while i < records.len()
        invariant
            0 <= i <= records@.len(),
            b.wf(),
            b@ == scan_records(names@, records@.take(i as int)),
        decreases records@.len() - i,
    {
        proof {
            assert(records@.take(i as int + 1).drop_last() =~= records@.take(i as int));
        }
        b.add_record(&records[i], names);
        i = i + 1;
    }
    proof {
        assert(records@.take(i as int) =~= records@);
    }
    b.finish(names)
}

} // verus!
