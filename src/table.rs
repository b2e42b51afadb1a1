//! An id-keyed table of hierarchy nodes that remembers the order in which
//! nodes were created.
use vstd::prelude::*;
use vstd::hash_map::HashMapWithView;
use crate::models::{ChildEntry, ChildModel, ExtendedGeoNameEntry, NodeModel};

verus! {

broadcast use vstd::std_specs::hash::group_hash_axioms;

/// A node table as a value: ids in creation order, and each id's node.
pub type TableModel = (Seq<i64>, Map<i64, NodeModel>);

pub open spec fn empty_table() -> TableModel {
    (Seq::<i64>::empty(), Map::<i64, NodeModel>::empty())
}

/// Get-or-create: a node named `name` with no children is added for `id` unless
/// one is there already.
pub open spec fn table_ensure(t: TableModel, id: i64, name: Seq<char>) -> TableModel {
    if t.1.contains_key(id) {
        t
    } else {
        (t.0.push(id), t.1.insert(id, (name, Seq::<ChildModel>::empty())))
    }
}

/// Appends `child` to the children of `id`, creating the node first if needed.
pub open spec fn table_append(t: TableModel, id: i64, name: Seq<char>, child: ChildModel) -> TableModel {
    let u = table_ensure(t, id, name);
    (u.0, u.1.insert(id, (u.1[id].0, u.1[id].1.push(child))))
}

pub struct NodeTable {
    ids: Vec<i64>,
    nodes: Vec<ExtendedGeoNameEntry>,
    slots: HashMapWithView<i64, usize>,
}

impl View for NodeTable {
    type V = TableModel;

    closed spec fn view(&self) -> TableModel {
        (
            self.ids@,
            Map::new(
                |k: i64| self.slots@.contains_key(k),
                |k: i64| self.nodes@[self.slots@[k] as int].model(),
            ),
        )
    }
}

impl NodeTable {
    /// The table's internal invariant: each id has exactly one slot, and the
    /// slot's position holds that id and its node.
    pub closed spec fn wf(&self) -> bool {
        &&& self.ids@.len() == self.nodes@.len()
        &&& forall|i: int|
            0 <= i < self.ids@.len() ==> #[trigger] self.slots@.contains_key(self.ids@[i])
                && self.slots@[self.ids@[i]] == i
        &&& forall|k: i64| #[trigger]
            self.slots@.contains_key(k) ==> self.slots@[k] < self.ids@.len() && self.ids@[self.slots@[k] as int] == k
    }

    pub fn new() -> (r: Self)
        ensures
            r.wf(),
            r@ == empty_table(),
    {
        let r = NodeTable { ids: Vec::new(), nodes: Vec::new(), slots: HashMapWithView::new() };
        proof {
            assert(r@.1 =~= Map::<i64, NodeModel>::empty());
        }
        r
    }

    /// The number of nodes.
    pub fn len(&self) -> (r: usize)
        requires
            self.wf(),
        ensures
            r == self@.0.len(),
    {
        self.ids.len()
    }

    /// The id of the `i`-th node created.
    pub fn id_at(&self, i: usize) -> (r: i64)
        requires
            self.wf(),
            i < self@.0.len(),
        ensures
            r == self@.0[i as int],
    {
        self.ids[i]
    }

    /// The node of `id`, if the table has one.
    pub fn get(&self, id: i64) -> (r: Option<&ExtendedGeoNameEntry>)
        requires
            self.wf(),
        ensures
            match r {
                Some(n) => self@.1.contains_key(id) && n.model() == self@.1[id],
                None => !self@.1.contains_key(id),
            },
    {
        match self.slots.get(&id) {
            Some(s) => Some(&self.nodes[*s]),
            None => None,
        }
    }

    /// Get-or-create the node of `id`.
    pub fn ensure(&mut self, id: i64, name: String)
        requires
            old(self).wf(),
        ensures
            final(self).wf(),
            final(self)@ == table_ensure(old(self)@, id, name@),
    {
        if self.slots.contains_key(&id) {
            return;
        }
        let slot = self.ids.len();
        self.ids.push(id);
        self.nodes.push(ExtendedGeoNameEntry { name, children: Vec::new() });
        self.slots.insert(id, slot);
        proof {
            assert(self.nodes@[slot as int].children@.map_values(|c: ChildEntry| c.model())
                =~= Seq::<ChildModel>::empty());
            assert forall|i: int|
                0 <= i < self.ids@.len() implies #[trigger] self.slots@.contains_key(self.ids@[i])
                && self.slots@[self.ids@[i]] == i by {
                if i < slot {
                    assert(old(self).slots@.contains_key(old(self).ids@[i]));
                }
            }
            assert(self@.1 =~= old(self)@.1.insert(id, (name@, Seq::<ChildModel>::empty())));
        }
    }

    /// Appends `child` to the node of `id`, creating that node, named `name`, if needed.
    pub fn append_child(&mut self, id: i64, name: String, child: ChildEntry)
        requires
            old(self).wf(),
        ensures
            final(self).wf(),
            final(self)@ == table_append(old(self)@, id, name@, child.model()),
    {
        self.ensure(id, name);
        let ghost mid = self@;
        let slot = match self.slots.get(&id) {
            Some(s) => *s,
            None => {
                return;
            },
        };
        let ghost before = self.nodes@[slot as int];
        self.nodes[slot].children.push(child);
        proof {
            assert(self.nodes@[slot as int].children@.map_values(|c: ChildEntry| c.model())
                =~= before.children@.map_values(|c: ChildEntry| c.model()).push(child.model()));
            assert(self@.1 =~= mid.1.insert(id, (mid.1[id].0, mid.1[id].1.push(child.model()))));
        }
    }
}

} // verus!
