//! Parsing of GeoNames gazetteer data and construction of the Earth → country →
//! state → city containment hierarchy.
pub mod text;
pub mod models;
pub mod parsers;
pub mod names;
pub mod table;
pub mod hierarchy;
pub mod lemmas;
