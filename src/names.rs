//! Choice of display names: fixed overrides, then preferred English alternate
//! names, then the record's own name.
use vstd::prelude::*;
use vstd::hash_map::HashMapWithView;
use crate::models::{AlternateNameEntry, same_text};

verus! {

broadcast use vstd::std_specs::hash::group_hash_axioms;

/// The two lookup tables as values: overrides first, alternate names second.
pub type NamesModel = (Map<i64, String>, Map<i64, String>);

/// The id that the United States of America have in the dataset.
pub const UNITED_STATES_ID: i64 = 6252001;

/// The name shown for `id`: its override if there is one, else its alternate
/// name if there is one, else `fallback`.
pub open spec fn resolved_name(m: NamesModel, id: i64, fallback: Seq<char>) -> Seq<char> {
    if m.0.contains_key(id) {
        m.0[id]@
    } else if m.1.contains_key(id) {
        m.1[id]@
    } else {
        fallback
    }
}

/// An alternate name is kept when it is English and marked preferred or short.
pub open spec fn is_kept_alternate(e: AlternateNameEntry) -> bool {
    e.isolanguage@ == "en"@ && (e.is_preferred_name == Some(true) || e.is_short_name == Some(
        true,
    ))
}

pub struct NameResolver {
    overrides: HashMapWithView<i64, String>,
    alternates: HashMapWithView<i64, String>,
}

impl View for NameResolver {
    type V = NamesModel;

    closed spec fn view(&self) -> NamesModel {
        (self.overrides@, self.alternates@)
    }
}

impl NameResolver {
    /// A resolver with no override and no alternate name.
    pub fn new() -> (r: Self)
        ensures
            r@ == (Map::<i64, String>::empty(), Map::<i64, String>::empty()),
    {
        NameResolver { overrides: HashMapWithView::new(), alternates: HashMapWithView::new() }
    }

    /// A resolver holding the standard override table and no alternate name.
    pub fn with_default_overrides() -> (r: Self)
        ensures
            r@.0.dom() == set![UNITED_STATES_ID],
            r@.0[UNITED_STATES_ID]@ == "United States of America"@,
            r@.1 == Map::<i64, String>::empty(),
    {
        let mut r = NameResolver::new();
        r.add_override(UNITED_STATES_ID, String::from_str("United States of America"));
        proof {
            assert(r@.0.dom() =~= set![UNITED_STATES_ID]);
        }
        r
    }

    /// Sets the override name of `id`.
    pub fn add_override(&mut self, id: i64, name: String)
        ensures
            final(self)@.0 == old(self)@.0.insert(id, name),
            final(self)@.1 == old(self)@.1,
    {
        self.overrides.insert(id, name);
    }

    /// Records an alternate name if it is kept; a later kept name for the same
    /// id replaces an earlier one.
    pub fn add_alternate(&mut self, e: &AlternateNameEntry)
        ensures
            final(self)@.0 == old(self)@.0,
            final(self)@.1 == (if is_kept_alternate(*e) {
                old(self)@.1.insert(e.geoname_id, e.alternate_name)
            } else {
                old(self)@.1
            }),
    {
        let marked = match (e.is_preferred_name, e.is_short_name) {
            (Some(true), _) => true,
            (_, Some(true)) => true,
            _ => false,
        };
        if marked && same_text(e.isolanguage.as_str(), "en") {
            self.alternates.insert(e.geoname_id, e.alternate_name.clone());
        }
    }

    /// The display name of `id`, whose own name in the dataset is `fallback`.
    pub fn resolve(&self, id: i64, fallback: &str) -> (r: String)
        ensures
            r@ == resolved_name(self@, id, fallback@),
    {
        match self.overrides.get(&id) {
            Some(n) => n.clone(),
            None => match self.alternates.get(&id) {
                Some(n) => n.clone(),
                None => String::from_str(fallback),
            },
        }
    }
}

/// Name resolution order: an override beats an alternate name, and an
/// alternate name beats the record's own name.
pub proof fn lemma_resolution_priority(m: NamesModel, id: i64, fallback: Seq<char>)
    ensures
        m.0.contains_key(id) ==> resolved_name(m, id, fallback) == m.0[id]@,
        !m.0.contains_key(id) && m.1.contains_key(id) ==> resolved_name(m, id, fallback)
            == m.1[id]@,
        !m.0.contains_key(id) && !m.1.contains_key(id) ==> resolved_name(m, id, fallback)
            == fallback,
{
}

} // verus!
