//! Facts about the hierarchy that follow from how it is built.
use vstd::prelude::*;
use crate::models::{ChildModel, GeoName};
use crate::names::NamesModel;
use crate::hierarchy::{
    ScanModel, attach_cities, attached, child_of, city_attach_step, hierarchy_of, scan_records,
    scan_step, state_key,
};
use crate::table::{TableModel, empty_table, table_append, table_ensure};

verus! {

/// The state key of a record.
pub open spec fn key_of(g: GeoName) -> Seq<char> {
    state_key(g.country_code@, g.admin1_code@)
}

/// Every index of a scan points at a record that the scan holds, and each
/// record is held under its own id.
pub open spec fn scan_consistent(m: ScanModel) -> bool {
    &&& forall|k: i64| #[trigger]
        m.entries.contains_key(k) ==> m.entries[k].geoname_id == k
    &&& forall|k: Seq<char>| #[trigger]
        m.states.contains_key(k) ==> m.entries.contains_key(m.states[k])
    &&& forall|k: Seq<char>| #[trigger]
        m.countries.contains_key(k) ==> m.entries.contains_key(m.countries[k])
    &&& forall|i: int| 0 <= i < m.cities.len() ==> m.entries.contains_key(#[trigger] m.cities[i])
}

pub proof fn lemma_scan_consistent(names: NamesModel, recs: Seq<GeoName>)
    ensures
        scan_consistent(scan_records(names, recs)),
    decreases recs.len(),
{
    if recs.len() > 0 {
        lemma_scan_consistent(names, recs.drop_last());
        let m0 = scan_records(names, recs.drop_last());
        let m = scan_records(names, recs);
        let g = recs.last();
        assert(m == scan_step(names, m0, g));
        assert forall|i: int| 0 <= i < m.cities.len() implies m.entries.contains_key(
            #[trigger] m.cities[i],
        ) by {
            if i < m0.cities.len() {
                assert(m.cities[i] == m0.cities[i]);
            }
        }
    }
}

/// The country index maps a country code to the id of the last country
/// record that carries that code.
pub proof fn lemma_country_index_last(names: NamesModel, recs: Seq<GeoName>, i: int)
    requires
        0 <= i < recs.len(),
        recs[i].spec_is_country(),
        forall|j: int|
            i < j < recs.len() && #[trigger] recs[j].spec_is_country() ==> recs[j].country_code@
                != recs[i].country_code@,
    ensures
        scan_records(names, recs).countries.contains_key(recs[i].country_code@),
        scan_records(names, recs).countries[recs[i].country_code@] == recs[i].geoname_id,
    decreases recs.len(),
{
    if i < recs.len() - 1 {
        let init = recs.drop_last();
        assert forall|j: int|
            i < j < init.len() && #[trigger] init[j].spec_is_country() implies init[j].country_code@
                != init[i].country_code@ by {
            assert(init[j] == recs[j]);
        }
        lemma_country_index_last(names, init, i);
        assert(init[i] == recs[i]);
        if recs.last().spec_is_country() {
            assert(recs[recs.len() - 1].spec_is_country());
        }
    }
}

/// Building twice from the same records and names gives the same hierarchy,
/// node order and child order included.
pub proof fn lemma_build_deterministic(names: NamesModel, a: Seq<GeoName>, b: Seq<GeoName>)
    requires
        a == b,
    ensures
        hierarchy_of(names, a) == hierarchy_of(names, b),
{
}

proof fn lemma_append_adds(t: TableModel, id: i64, name: Seq<char>, c: ChildModel)
    ensures
        table_append(t, id, name, c).1.contains_key(id),
        table_append(t, id, name, c).1[id].1.contains(c),
{
    let u = table_append(t, id, name, c);
    assert(u.1[id].1[u.1[id].1.len() - 1] == c);
}

proof fn lemma_append_keeps(t: TableModel, id: i64, name: Seq<char>, c: ChildModel, x: i64, child: ChildModel)
    requires
        t.1.contains_key(x),
        t.1[x].1.contains(child),
    ensures
        table_append(t, id, name, c).1.contains_key(x),
        table_append(t, id, name, c).1[x].1.contains(child),
{
    let u = table_append(t, id, name, c);
    let k = choose|k: int| 0 <= k < t.1[x].1.len() && t.1[x].1[k] == child;
    if x == id {
        assert(table_ensure(t, id, name) == t);
        assert(u.1[x].1[k] == child);
    }
}

proof fn lemma_cities_keep(
    names: NamesModel,
    m: ScanModel,
    tl: (TableModel, TableModel),
    ids: Seq<i64>,
    x: i64,
    child: ChildModel,
)
    requires
        tl.0.1.contains_key(x),
        tl.0.1[x].1.contains(child),
    ensures
        attach_cities(names, m, tl, ids).0.1.contains_key(x),
        attach_cities(names, m, tl, ids).0.1[x].1.contains(child),
    decreases ids.len(),
{
    if ids.len() > 0 {
        lemma_cities_keep(names, m, tl, ids.drop_last(), x, child);
        let inner = attach_cities(names, m, tl, ids.drop_last());
        let id = ids.last();
        if m.entries.contains_key(id) {
            let g = m.entries[id];
            let key = key_of(g);
            if m.states.contains_key(key) && m.entries.contains_key(m.states[key]) {
                let p = m.entries[m.states[key]];
                lemma_append_keeps(
                    inner.0,
                    m.states[key],
                    crate::hierarchy::display_name(names, p),
                    child_of(names, g),
                    x,
                    child,
                );
            }
        }
    }
}

proof fn lemma_city_attached(
    names: NamesModel,
    m: ScanModel,
    tl: (TableModel, TableModel),
    ids: Seq<i64>,
    p: int,
)
    requires
        scan_consistent(m),
        0 <= p < ids.len(),
        m.entries.contains_key(ids[p]),
        m.states.contains_key(key_of(m.entries[ids[p]])),
    ensures
        attach_cities(names, m, tl, ids).0.1.contains_key(m.states[key_of(m.entries[ids[p]])]),
        attach_cities(names, m, tl, ids).0.1[m.states[key_of(m.entries[ids[p]])]].1.contains(
            child_of(names, m.entries[ids[p]]),
        ),
    decreases ids.len(),
{
    let g = m.entries[ids[p]];
    let sid = m.states[key_of(g)];
    let inner = attach_cities(names, m, tl, ids.drop_last());
    assert(m.entries.contains_key(sid));
    if p == ids.len() - 1 {
        lemma_append_adds(
            inner.0,
            sid,
            crate::hierarchy::display_name(names, m.entries[sid]),
            child_of(names, g),
        );
    } else {
        assert(ids.drop_last()[p] == ids[p]);
        lemma_city_attached(names, m, tl, ids.drop_last(), p);
        lemma_cities_keep(names, m, inner, seq![ids.last()], sid, child_of(names, g));
        assert(attach_cities(names, m, inner, seq![ids.last()]) == city_attach_step(
            names,
            m,
            attach_cities(names, m, inner, seq![ids.last()].drop_last()),
            ids.last(),
        ));
        assert(seq![ids.last()].drop_last() =~= Seq::<i64>::empty());
    }
}

/// Every child in the buckets of unparented cities is a city whose state key
/// does not resolve.
pub open spec fn loose_unresolved(m: ScanModel, u: TableModel) -> bool {
    forall|b: i64, k: int|
        u.1.contains_key(b) && 0 <= k < u.1[b].1.len() ==> m.entries.contains_key(
            #[trigger] u.1[b].1[k].0,
        ) && !m.states.contains_key(key_of(m.entries[u.1[b].1[k].0]))
}

proof fn lemma_append_loose(m: ScanModel, u: TableModel, id: i64, name: Seq<char>, c: ChildModel)
    requires
        loose_unresolved(m, u),
        m.entries.contains_key(c.0),
        !m.states.contains_key(key_of(m.entries[c.0])),
    ensures
        loose_unresolved(m, table_append(u, id, name, c)),
{
    let v = table_append(u, id, name, c);
    let w = table_ensure(u, id, name);
    assert forall|b: i64, k: int|
        v.1.contains_key(b) && 0 <= k < v.1[b].1.len() implies m.entries.contains_key(
        #[trigger] v.1[b].1[k].0,
    ) && !m.states.contains_key(key_of(m.entries[v.1[b].1[k].0])) by {
        if b == id {
            if k < w.1[id].1.len() {
                if !u.1.contains_key(id) {
                    assert(w.1[id].1.len() == 0);
                }
                assert(v.1[b].1[k] == u.1[b].1[k]);
            } else {
                assert(v.1[b].1[k] == c);
            }
        } else {
            assert(v.1[b] == u.1[b]);
        }
    }
}

proof fn lemma_cities_loose(names: NamesModel, m: ScanModel, tl: (TableModel, TableModel), ids: Seq<i64>)
    requires
        scan_consistent(m),
        loose_unresolved(m, tl.1),
    ensures
        loose_unresolved(m, attach_cities(names, m, tl, ids).1),
    decreases ids.len(),
{
    if ids.len() > 0 {
        lemma_cities_loose(names, m, tl, ids.drop_last());
        let inner = attach_cities(names, m, tl, ids.drop_last());
        let id = ids.last();
        if m.entries.contains_key(id) {
            let g = m.entries[id];
            if !m.states.contains_key(key_of(g)) && m.countries.contains_key(g.country_code@)
                && m.entries.contains_key(m.countries[g.country_code@]) {
                let c = m.entries[m.countries[g.country_code@]];
                lemma_append_loose(
                    m,
                    inner.1,
                    m.countries[g.country_code@],
                    crate::hierarchy::display_name(names, c),
                    child_of(names, g),
                );
            }
        }
    }
}

/// A city whose state key resolves is a child of that state's node, and is
/// in no bucket of unparented cities, whether or not its country resolves.
pub proof fn lemma_city_prefers_state(names: NamesModel, recs: Seq<GeoName>, p: int)
    requires
        0 <= p < scan_records(names, recs).cities.len(),
        scan_records(names, recs).states.contains_key(
            key_of(scan_records(names, recs).entries[scan_records(names, recs).cities[p]]),
        ),
    ensures
        ({
            let m = scan_records(names, recs);
            let g = m.entries[m.cities[p]];
            let h = hierarchy_of(names, recs);
            &&& h.0.1.contains_key(m.states[key_of(g)])
            &&& h.0.1[m.states[key_of(g)]].1.contains(child_of(names, g))
            &&& forall|b: i64, k: int|
                h.1.1.contains_key(b) && 0 <= k < h.1.1[b].1.len() ==> #[trigger] h.1.1[b].1[k].0
                    != g.geoname_id
        }),
{
    let m = scan_records(names, recs);
    lemma_scan_consistent(names, recs);
    let g = m.entries[m.cities[p]];
    let start = (crate::hierarchy::attach_states(names, m, m.nodes, m.state_keys), empty_table());
    lemma_city_attached(names, m, start, m.cities, p);
    lemma_cities_loose(names, m, start, m.cities);
    let h = hierarchy_of(names, recs);
    assert(h == attached(names, m));
    assert forall|b: i64, k: int|
        h.1.1.contains_key(b) && 0 <= k < h.1.1[b].1.len() implies #[trigger] h.1.1[b].1[k].0
        != g.geoname_id by {
        let x = h.1.1[b].1[k].0;
        if x == g.geoname_id {
            assert(m.entries[x] == g);
        }
    }
}

} // verus!
