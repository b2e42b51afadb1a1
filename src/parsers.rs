//! Line parsers for the two tab-separated input formats.
use vstd::prelude::*;
use crate::models::{AlternateNameEntry, GeoName};
use crate::text::{
    decimal_text, field, has_no_tab, i64_of_text, join_tabs, lemma_decimal_text, lemma_split_join, parse_i64, split_tab_fields,
    split_tabs, text_of,
};

verus! {

/// Why a line could not be read.
#[derive(Debug, Clone, Copy, PartialEq, Eq, Structural)]
pub enum ParseError {
    /// The geoname id is not a signed 64-bit decimal integer.
    InvalidGeonameId,
    /// The alternate-name id is not a signed 64-bit decimal integer.
    InvalidAlternateNameId,
    /// An alternate-name line has fewer than four fields.
    TooFewFields,
}

/// The feature class: the first character of its field, or a space when the field is empty.
pub open spec fn class_of(f: Seq<char>) -> char {
    if f.len() > 0 {
        f[0]
    } else {
        ' '
    }
}

/// `g` holds what the gazetteer line with fields `fs` says.
pub open spec fn geoname_matches_fields(fs: Seq<Seq<char>>, g: GeoName) -> bool {
    &&& i64_of_text(field(fs, 0)) == Some(g.geoname_id)
    &&& g.name@ == field(fs, 1)
    &&& g.feature_class == class_of(field(fs, 6))
    &&& g.feature_code@ == field(fs, 7)
    &&& g.country_code@ == field(fs, 8)
    &&& g.admin1_code@ == field(fs, 10)
}

/// The result of reading one gazetteer line.
pub open spec fn geoname_line_result(line: Seq<char>, r: Result<GeoName, ParseError>) -> bool {
    let fs = split_tabs(line);
    match r {
        Ok(g) => geoname_matches_fields(fs, g),
        Err(e) => e == ParseError::InvalidGeonameId && i64_of_text(field(fs, 0)) is None,
    }
}

/// An optional flag column: absent is unset, the text `1` is true, anything else false.
pub open spec fn flag_of(fs: Seq<Seq<char>>, i: int) -> Option<bool> {
    if i < fs.len() {
        Some(fs[i] == seq!['1'])
    } else {
        None
    }
}

pub open spec fn optional_text_of(fs: Seq<Seq<char>>, i: int) -> Option<Seq<char>> {
    if i < fs.len() {
        Some(fs[i])
    } else {
        None
    }
}

pub open spec fn text_view(o: Option<String>) -> Option<Seq<char>> {
    match o {
        Some(s) => Some(s@),
        None => None,
    }
}

/// `e` holds what the alternate-name line with fields `fs` says.
pub open spec fn alternate_matches_fields(fs: Seq<Seq<char>>, e: AlternateNameEntry) -> bool {
    &&& i64_of_text(fs[0]) == Some(e.alternate_name_id)
    &&& i64_of_text(fs[1]) == Some(e.geoname_id)
    &&& e.isolanguage@ == fs[2]
    &&& e.alternate_name@ == fs[3]
    &&& e.is_preferred_name == flag_of(fs, 4)
    &&& e.is_short_name == flag_of(fs, 5)
    &&& e.is_colloquial == flag_of(fs, 6)
    &&& e.is_historic == flag_of(fs, 7)
    &&& text_view(e.from) == optional_text_of(fs, 8)
    &&& text_view(e.to) == optional_text_of(fs, 9)
}

/// The result of reading one alternate-name line.
pub open spec fn alternate_line_result(
    line: Seq<char>,
    r: Result<AlternateNameEntry, ParseError>,
) -> bool {
    let fs = split_tabs(line);
    if fs.len() < 4 {
        r == Err::<AlternateNameEntry, ParseError>(ParseError::TooFewFields)
    } else if i64_of_text(fs[0]) is None {
        r == Err::<AlternateNameEntry, ParseError>(ParseError::InvalidAlternateNameId)
    } else if i64_of_text(fs[1]) is None {
        r == Err::<AlternateNameEntry, ParseError>(ParseError::InvalidGeonameId)
    } else {
        r matches Ok(e) && alternate_matches_fields(fs, e)
    }
}

fn field_chars(fs: &Vec<Vec<char>>, i: usize) -> (r: Vec<char>)
    ensures
        r@ == (if i < fs@.len() {
            fs@[i as int]@
        } else {
            Seq::<char>::empty()
        }),
{
    if i < fs.len() {
        fs[i].clone()
    } else {
        Vec::new()
    }
}

fn field_string(fs: &Vec<Vec<char>>, i: usize) -> (r: String)
    ensures
        r@ == (if i < fs@.len() {
            fs@[i as int]@
        } else {
            Seq::<char>::empty()
        }),
{
    if i < fs.len() {
        text_of(&fs[i])
    } else {
        text_of(&Vec::new())
    }
}

fn optional_flag(fs: &Vec<Vec<char>>, i: usize) -> (r: Option<bool>)
    ensures
        r == (if i < fs@.len() {
            Some(fs@[i as int]@ == seq!['1'])
        } else {
            None::<bool>
        }),
{
    if i < fs.len() {
        let f = &fs[i];
        let one = f.len() == 1 && f[0] == '1';
        proof {
            if f@.len() == 1 && f@[0] == '1' {
                assert(f@ =~= seq!['1']);
            }
        }
        Some(one)
    } else {
        None
    }
}

fn optional_string(fs: &Vec<Vec<char>>, i: usize) -> (r: Option<String>)
    ensures
        text_view(r) == (if i < fs@.len() {
            Some(fs@[i as int]@)
        } else {
            None::<Seq<char>>
        }),
{
    if i < fs.len() {
        Some(text_of(&fs[i]))
    } else {
        None
    }
}

/// Reads one gazetteer line: id, name, feature class and code, country code and
/// admin1 code from their columns; missing trailing columns read as empty.
pub fn parse_geoname_line(line: &str) -> (r: Result<GeoName, ParseError>)
    ensures
        geoname_line_result(line@, r),
{
    let fs = split_tab_fields(line);
    let id_text = field_chars(&fs, 0);
    let geoname_id = match parse_i64(&id_text) {
        Some(v) => v,
        None => {
            return Err(ParseError::InvalidGeonameId);
        },
    };
    let name = field_string(&fs, 1);
    let class_text = field_chars(&fs, 6);
    let feature_class = if class_text.len() > 0 {
        class_text[0]
    } else {
        ' '
    };
    let feature_code = field_string(&fs, 7);
    let country_code = field_string(&fs, 8);
    let admin1_code = field_string(&fs, 10);
    Ok(GeoName { geoname_id, name, feature_class, feature_code, country_code, admin1_code })
}

/// Reads one alternate-name line. It needs at least four fields; the flag and
/// validity columns after them are optional.
pub fn parse_alternate_name_line(line: &str) -> (r: Result<AlternateNameEntry, ParseError>)
    ensures
        alternate_line_result(line@, r),
{
    let fs = split_tab_fields(line);
    if fs.len() < 4 {
        return Err(ParseError::TooFewFields);
    }
    let alternate_name_id = match parse_i64(&fs[0]) {
        Some(v) => v,
        None => {
            return Err(ParseError::InvalidAlternateNameId);
        },
    };
    let geoname_id = match parse_i64(&fs[1]) {
        Some(v) => v,
        None => {
            return Err(ParseError::InvalidGeonameId);
        },
    };
    let isolanguage = text_of(&fs[2]);
    let alternate_name = text_of(&fs[3]);
    let is_preferred_name = optional_flag(&fs, 4);
    let is_short_name = optional_flag(&fs, 5);
    let is_colloquial = optional_flag(&fs, 6);
    let is_historic = optional_flag(&fs, 7);
    let from = optional_string(&fs, 8);
    let to = optional_string(&fs, 9);
    Ok(
        AlternateNameEntry {
            alternate_name_id,
            geoname_id,
            isolanguage,
            alternate_name,
            is_preferred_name,
            is_short_name,
            is_colloquial,
            is_historic,
            from,
            to,
        },
    )
}

/// The eleven gazetteer columns that hold `g`, its id written as `id_text`
/// and the columns that are not read left empty.
pub open spec fn geoname_columns(id_text: Seq<char>, g: GeoName) -> Seq<Seq<char>> {
    let e = Seq::<char>::empty();
    seq![
        id_text,
        g.name@,
        e,
        e,
        e,
        e,
        seq![g.feature_class],
        g.feature_code@,
        g.country_code@,
        e,
        g.admin1_code@,
    ]
}

/// Writing a record's fields into their columns and reading the line back
/// gives the same id, name, feature class and code, country and admin1 code.
pub proof fn lemma_geoname_round_trip(
    g: GeoName,
    id_text: Seq<char>,
    r: Result<GeoName, ParseError>,
)
    requires
        i64_of_text(id_text) == Some(g.geoname_id),
        has_no_tab(id_text),
        has_no_tab(g.name@),
        g.feature_class != '\t',
        has_no_tab(g.feature_code@),
        has_no_tab(g.country_code@),
        has_no_tab(g.admin1_code@),
        geoname_line_result(join_tabs(geoname_columns(id_text, g)), r),
    ensures
        r matches Ok(h) && h.geoname_id == g.geoname_id && h.name@ == g.name@ && h.feature_class
            == g.feature_class && h.feature_code@ == g.feature_code@ && h.country_code@
            == g.country_code@ && h.admin1_code@ == g.admin1_code@,
{
    let fs = geoname_columns(id_text, g);
    assert forall|i: int| 0 <= i < fs.len() implies has_no_tab(#[trigger] fs[i]) by {
        if i == 6 {
            assert(fs[6] == seq![g.feature_class]);
        }
    }
    lemma_split_join(fs);
}

/// A record written out as a gazetteer line, its id in decimal, reads back
/// as the same id, name, feature class and code, country and admin1 code.
pub proof fn lemma_geoname_line_round_trip(g: GeoName, r: Result<GeoName, ParseError>)
    requires
        has_no_tab(g.name@),
        g.feature_class != '\t',
        has_no_tab(g.feature_code@),
        has_no_tab(g.country_code@),
        has_no_tab(g.admin1_code@),
        geoname_line_result(join_tabs(geoname_columns(decimal_text(g.geoname_id as int), g)), r),
    ensures
        r matches Ok(h) && h.geoname_id == g.geoname_id && h.name@ == g.name@ && h.feature_class
            == g.feature_class && h.feature_code@ == g.feature_code@ && h.country_code@
            == g.country_code@ && h.admin1_code@ == g.admin1_code@,
{
    lemma_decimal_text(g.geoname_id);
    lemma_geoname_round_trip(g, decimal_text(g.geoname_id as int), r);
}

/// An alternate-name line with four leading fields, the first two of them
/// integers, is read whatever the number of optional fields after them, and
/// its first four values come from those leading fields.
pub proof fn lemma_alternate_optional_fields(
    lead: Seq<Seq<char>>,
    extra: Seq<Seq<char>>,
    r: Result<AlternateNameEntry, ParseError>,
)
    requires
        lead.len() == 4,
        extra.len() <= 6,
        forall|i: int| 0 <= i < lead.len() ==> has_no_tab(#[trigger] lead[i]),
        forall|i: int| 0 <= i < extra.len() ==> has_no_tab(#[trigger] extra[i]),
        i64_of_text(lead[0]) is Some,
        i64_of_text(lead[1]) is Some,
        alternate_line_result(join_tabs(lead + extra), r),
    ensures
        r matches Ok(e) && Some(e.alternate_name_id) == i64_of_text(lead[0]) && Some(e.geoname_id)
            == i64_of_text(lead[1]) && e.isolanguage@ == lead[2] && e.alternate_name@ == lead[3],
{
    let fs = lead + extra;
    assert forall|i: int| 0 <= i < fs.len() implies has_no_tab(#[trigger] fs[i]) by {
        if i < 4 {
            assert(fs[i] == lead[i]);
        } else {
            assert(fs[i] == extra[i - 4]);
        }
    }
    lemma_split_join(fs);
    assert(fs[0] == lead[0] && fs[1] == lead[1] && fs[2] == lead[2] && fs[3] == lead[3]);
}

} // verus!
