//! The records read from the dataset and the nodes of the resulting hierarchy.
use vstd::prelude::*;
use vstd::string::StrSliceExecFns;

verus! {

/// One line of the alternate-names file.
#[derive(Debug, Clone)]
pub struct AlternateNameEntry {
    pub alternate_name_id: i64,
    pub geoname_id: i64,
    pub isolanguage: String,
    pub alternate_name: String,
    pub is_preferred_name: Option<bool>,
    pub is_short_name: Option<bool>,
    pub is_colloquial: Option<bool>,
    pub is_historic: Option<bool>,
    pub from: Option<String>,
    pub to: Option<String>,
}

/// A labelled edge from a hierarchy node to one of its children.
#[derive(Debug, Clone)]
pub struct ChildEntry {
    pub id: i64,
    pub name: String,
}

/// A hierarchy node: its display name and its children in the order they were attached.
#[derive(Debug, Clone)]
pub struct ExtendedGeoNameEntry {
    pub name: String,
    pub children: Vec<ChildEntry>,
}

/// One line of the gazetteer file, reduced to the fields the hierarchy needs.
#[derive(Debug, Clone)]
pub struct GeoName {
    pub geoname_id: i64,
    pub name: String,
    pub feature_class: char,
    pub feature_code: String,
    pub country_code: String,
    pub admin1_code: String,
}

/// A child edge as a value: the child's id and its display name.
pub type ChildModel = (i64, Seq<char>);

/// A node as a value: its display name and its children in order.
pub type NodeModel = (Seq<char>, Seq<ChildModel>);

impl ChildEntry {
    pub open spec fn model(&self) -> ChildModel {
        (self.id, self.name@)
    }
}

impl ExtendedGeoNameEntry {
    pub open spec fn model(&self) -> NodeModel {
        (self.name@, self.children@.map_values(|c: ChildEntry| c.model()))
    }
}

pub open spec fn is_continent_kind(class: char, code: Seq<char>) -> bool {
    class == 'L' && code == "CONT"@
}

pub open spec fn is_country_kind(class: char, code: Seq<char>) -> bool {
    class == 'A' && (code == "PCLI"@ || code == "PCLF"@ || code == "PCLS"@)
}

pub open spec fn is_state_kind(class: char, code: Seq<char>) -> bool {
    class == 'A' && code == "ADM1"@
}

pub open spec fn is_city_kind(class: char, code: Seq<char>) -> bool {
    class == 'P' && code == "PPL"@
}

impl GeoName {
    pub open spec fn spec_is_continent(&self) -> bool {
        is_continent_kind(self.feature_class, self.feature_code@)
    }

    pub open spec fn spec_is_country(&self) -> bool {
        is_country_kind(self.feature_class, self.feature_code@)
    }

    pub open spec fn spec_is_state_region(&self) -> bool {
        is_state_kind(self.feature_class, self.feature_code@)
    }

    pub open spec fn spec_is_city_town(&self) -> bool {
        is_city_kind(self.feature_class, self.feature_code@)
    }

    /// One of the four kinds that take part in the hierarchy.
    pub open spec fn spec_is_classified(&self) -> bool {
        self.spec_is_continent() || self.spec_is_country() || self.spec_is_state_region()
            || self.spec_is_city_town()
    }

    /// A field-by-field copy.
    pub fn duplicate(&self) -> (r: GeoName)
        ensures
            r == *self,
    {
        GeoName {
            geoname_id: self.geoname_id,
            name: self.name.clone(),
            feature_class: self.feature_class,
            feature_code: self.feature_code.clone(),
            country_code: self.country_code.clone(),
            admin1_code: self.admin1_code.clone(),
        }
    }

    pub fn is_continent(&self) -> (r: bool)
        ensures
            r == self.spec_is_continent(),
    {
        self.feature_class == 'L' && same_text(self.feature_code.as_str(), "CONT")
    }

    pub fn is_country(&self) -> (r: bool)
        ensures
            r == self.spec_is_country(),
    {
        let code = self.feature_code.as_str();
        self.feature_class == 'A' && (same_text(code, "PCLI") || same_text(code, "PCLF")
            || same_text(code, "PCLS"))
    }

    pub fn is_state_region(&self) -> (r: bool)
        ensures
            r == self.spec_is_state_region(),
    {
        self.feature_class == 'A' && same_text(self.feature_code.as_str(), "ADM1")
    }

    pub fn is_city_town(&self) -> (r: bool)
        ensures
            r == self.spec_is_city_town(),
    {
        self.feature_class == 'P' && same_text(self.feature_code.as_str(), "PPL")
    }
}

/// Character-by-character equality of two texts.
pub fn same_text(a: &str, b: &str) -> (r: bool)
    ensures
        r == (a@ == b@),
{
    let n = a.unicode_len();
    if n != b.unicode_len() {
        return false;
    }
    let mut i: usize = 0;
    while i < n
        invariant
            i <= n,
            n == a@.len(),
            n == b@.len(),
            forall|j: int| 0 <= j < i ==> a@[j] == b@[j],
        decreases n - i,
    {
        if a.get_char(i) != b.get_char(i) {
            return false;
        }
        i = i + 1;
    }
    proof {
        assert(a@ =~= b@);
    }
    true
}

} // verus!
