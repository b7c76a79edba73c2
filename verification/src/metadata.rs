//! The geospatial metadata of a table: for each geometry column its encoding
//! and the geometry types it holds.

use vstd::prelude::*;
use crate::error::Error;

verus! {

/// What the metadata says of one geometry column.
#[derive(Clone, Debug, PartialEq)]
pub struct GeoColumn {
    pub name: String,
    /// The column's encoding, as the metadata spells it (`WKB`, `point`, ...).
    pub encoding: String,
    /// The geometry types of the column, as the metadata spells them, each
    /// once, in no particular order.
    pub geometry_types: Vec<String>,
}

/// The geospatial metadata of one table.
#[derive(Clone, Debug, PartialEq)]
pub struct GeoMetadata {
    pub columns: Vec<GeoColumn>,
}

/// The columns that a `geo` entry declares: for each column name its encoding
/// and the set of its geometry types. `None` where the text is no such entry.
pub uninterp spec fn geo_columns(json: Seq<char>) -> Option<Map<Seq<char>, (Seq<char>, Set<Seq<char>>)>>;

/// What the decoder says of a text that is no `geo` entry.
pub uninterp spec fn geo_error(json: Seq<char>) -> Seq<char>;

/// The geometry type that stands for a set of declared types: `Unknown` for
/// none, the type itself for one, `Mixed` for more.
pub open spec fn type_tag(types: Set<Seq<char>>) -> Seq<char> {
    if types.len() == 0 {
        "Unknown"@
    } else if types.len() == 1 {
        types.choose()
    } else {
        "Mixed"@
    }
}

/// The texts of a list of strings, in order.
pub open spec fn texts(v: Vec<String>) -> Seq<Seq<char>> {
    Seq::new(v.len() as nat, |i: int| v[i]@)
}

impl GeoColumn {
    /// The geometry types as a set.
    pub open spec fn type_set(&self) -> Set<Seq<char>> {
        texts(self.geometry_types).to_set()
    }

    /// No geometry type is listed twice.
    pub open spec fn wf(&self) -> bool {
        texts(self.geometry_types).no_duplicates()
    }
}

impl GeoMetadata {
    /// The column names, in the order held.
    pub open spec fn names(&self) -> Seq<Seq<char>> {
        Seq::new(self.columns.len() as nat, |i: int| self.columns[i].name@)
    }

    /// No column is listed twice, and no column lists a type twice.
    pub open spec fn wf(&self) -> bool {
        &&& self.names().no_duplicates()
        &&& forall|i: int| 0 <= i < self.columns.len() ==> (#[trigger] self.columns[i]).wf()
    }

    /// The metadata as a map from column name to encoding and type set.
    pub open spec fn view_map(&self) -> Map<Seq<char>, (Seq<char>, Set<Seq<char>>)> {
        Map::new(
            |name: Seq<char>| self.names().contains(name),
            |name: Seq<char>|
                {
                    let i = self.names().index_of(name);
                    (self.columns[i].encoding@, self.columns[i].type_set())
                },
        )
    }
}

/// Whether two texts are the same.
pub fn same_text(a: &str, b: &str) -> (r: bool)
    ensures
        r == (a@ == b@),
{
    let x = String::from_str(a);
    let y = String::from_str(b);
    x == y
}

/// Whether no text occurs twice in a list.
pub fn texts_are_distinct(list: &Vec<String>) -> (r: bool)
    ensures
        r == texts(*list).no_duplicates(),
{
    let ghost all = texts(*list);
    let mut i: usize = 0;
    while i < list.len()
        invariant
            i <= list.len(),
            all == texts(*list),
            forall|a: int, b: int| 0 <= a < b < i ==> all[a] != all[b],
        decreases list.len() - i,
    {
        let mut j: usize = 0;
        while j < i
            invariant
                j <= i < list.len(),
                all == texts(*list),
                forall|a: int| 0 <= a < j ==> all[a] != all[i as int],
            decreases i - j,
        {
            if same_text(list[j].as_str(), list[i].as_str()) {
                assert(all[j as int] == all[i as int]);
                return false;
            }
            j += 1;
        }
        i += 1;
    }
    true
}

impl GeoColumn {
    /// Whether the column meets [`GeoColumn::wf`].
    pub fn is_valid(&self) -> (r: bool)
        ensures
            r == self.wf(),
    {
        texts_are_distinct(&self.geometry_types)
    }

    /// The geometry type that stands for the column: `Unknown` where it
    /// declares none, the type itself where it declares one, `Mixed` otherwise.
    pub fn type_tag(&self) -> (tag: String)
        requires
            self.wf(),
        ensures
            tag@ == type_tag(self.type_set()),
    {
        let ghost types = texts(self.geometry_types);
        proof {
            types.unique_seq_to_set();
        }
        if self.geometry_types.len() == 0 {
            String::from_str("Unknown")
        } else if self.geometry_types.len() == 1 {
            proof {
                let set = types.to_set();
                assert(set.contains(types[0]));
                assert(set.is_singleton()) by {
                    Set::lemma_is_singleton(set);
                }
                assert(set.choose() == types[0]);
            }
            self.geometry_types[0].clone()
        } else {
            String::from_str("Mixed")
        }
    }
}

impl GeoMetadata {
    /// Whether the metadata meets [`GeoMetadata::wf`].
    pub fn is_valid(&self) -> (r: bool)
        ensures
            r == self.wf(),
    {
        let ghost names = self.names();
        let mut i: usize = 0;
        while i < self.columns.len()
            invariant
                i <= self.columns.len(),
                names == self.names(),
                forall|a: int, b: int| 0 <= a < b < i ==> names[a] != names[b],
                forall|a: int| 0 <= a < i ==> (#[trigger] self.columns[a]).wf(),
            decreases self.columns.len() - i,
        {
            if !self.columns[i].is_valid() {
                return false;
            }
            let mut j: usize = 0;
            while j < i
                invariant
                    j <= i < self.columns.len(),
                    names == self.names(),
                    forall|a: int| 0 <= a < j ==> names[a] != names[i as int],
                decreases i - j,
            {
                if same_text(self.columns[j].name.as_str(), self.columns[i].name.as_str()) {
                    assert(names[j as int] == names[i as int]);
                    return false;
                }
                j += 1;
            }
            i += 1;
        }
        true
    }

    /// The place of the column called `name`, if the table has one.
    pub fn position(&self, name: &str) -> (r: Option<usize>)
        requires
            self.wf(),
        ensures
            match r {
                Some(i) => i < self.columns.len() && self.columns[i as int].name@ == name@
                    && self.view_map().contains_key(name@) && self.view_map()[name@] == (
                    self.columns[i as int].encoding@,
                    self.columns[i as int].type_set(),
                ),
                None => !self.view_map().contains_key(name@),
            },
    {
        let mut i: usize = 0;
        while i < self.columns.len()
            invariant
                i <= self.columns.len(),
                self.wf(),
                forall|j: int| 0 <= j < i ==> self.names()[j] != name@,
            decreases self.columns.len() - i,
        {
            if same_text(self.columns[i].name.as_str(), name) {
                proof {
                    let names = self.names();
                    assert(names[i as int] == name@);
                    assert(names.contains(name@));
                    let k = names.index_of(name@);
                    assert(0 <= k < names.len() && names[k] == name@);
                    assert(k == i);
                }
                return Some(i);
            }
            i += 1;
        }
        proof {
            let names = self.names();
            assert(!names.contains(name@));
        }
        None
    }
}

/// Decodes a `geo` entry with `serde_json::from_str` into geoarrow's
/// `GeoParquetMetadata`, and hands out its `columns` field by field: the key,
/// the `Display` text of `encoding` and those of `geometry_types`. The
/// contract claims that the outcome is a function of the text alone, that a
/// map's keys and a set's items come out once each, and nothing about their
/// order. On failure it hands out the decoder's message.
#[verifier::external_body]
fn decode_geo_entry(json: &str) -> (r: Result<GeoMetadata, String>)
    ensures
        match r {
            Ok(meta) => meta.wf() && geo_columns(json@) == Some(meta.view_map()),
            Err(msg) => geo_columns(json@) is None && msg@ == geo_error(json@),
        },
{
    match serde_json::from_str::<geoarrow::io::parquet::metadata::GeoParquetMetadata>(json) {
        Ok(meta) => Ok(GeoMetadata {
            columns: meta.columns.iter().map(|(name, column)| GeoColumn {
                name: name.clone(),
                encoding: column.encoding.to_string(),
                geometry_types: column.geometry_types.iter().map(|t| t.to_string()).collect(),
            }).collect(),
        }),
        Err(e) => Err(e.to_string()),
    }
}

/// The text in front of the decoder's message in a malformed-metadata error.
pub open spec fn malformed_prefix() -> Seq<char> {
    "Malformed `geo` metadata: "@
}

/// Decodes the `geo` entry of a table.
///
/// Succeeds exactly on the texts that are such an entry, with the columns it
/// declares; any other text is a metadata error that carries the decoder's
/// message.
pub fn parse_geo_metadata(json: &str) -> (r: Result<GeoMetadata, Error>)
    ensures
        match r {
            Ok(meta) => meta.wf() && geo_columns(json@) == Some(meta.view_map()),
            Err(e) => geo_columns(json@) is None && e == Error::ParquetMetadata(
                e->ParquetMetadata_0,
            ) && e.message() == malformed_prefix() + geo_error(json@),
        },
{
    match decode_geo_entry(json) {
        Ok(meta) => Ok(meta),
        Err(msg) => {
            let mut text = String::from_str("Malformed `geo` metadata: ");
            text.append(msg.as_str());
            Err(Error::ParquetMetadata(text))
        },
    }
}

} // verus!
