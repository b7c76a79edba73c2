//! Writing a column of geometries as a column of well-known text.

use vstd::prelude::*;
use crate::error::{Error, ErrorKind};
use crate::wkt::geometry::Geometry;
use crate::wkt::scalar::{geometry_text, geometry_to_wkt, is_writable};

verus! {

/// The text of each row of a column of geometries; a null row has none.
pub open spec fn wkt_rows(rows: Seq<Option<Geometry>>) -> Seq<Option<Seq<char>>> {
    Seq::new(
        rows.len(),
        |i: int|
            match rows[i] {
                Some(g) => Some(geometry_text(g)),
                None => None,
            },
    )
}

/// The texts of a column of texts.
pub open spec fn text_rows(rows: Seq<Option<String>>) -> Seq<Option<Seq<char>>> {
    Seq::new(
        rows.len(),
        |i: int|
            match rows[i] {
                Some(s) => Some(s@),
                None => None,
            },
    )
}

/// Whether every geometry of a column is valid.
pub open spec fn rows_wf(rows: Seq<Option<Geometry>>) -> bool {
    forall|i: int| 0 <= i < rows.len() && rows[i] is Some ==> (#[trigger] rows[i])->0.wf()
}

/// Whether every geometry of a column can be written.
pub open spec fn rows_writable(rows: Seq<Option<Geometry>>) -> bool {
    forall|i: int| 0 <= i < rows.len() && rows[i] is Some ==> is_writable((#[trigger] rows[i])->0)
}

/// Whether every geometry of a column is valid.
pub fn check_rows(rows: &Vec<Option<Geometry>>) -> (r: bool)
    ensures
        r == rows_wf(rows@),
{
    let mut i: usize = 0;
    while i < rows.len()
        invariant
            i <= rows.len(),
            forall|j: int| 0 <= j < i && rows@[j] is Some ==> (#[trigger] rows@[j])->0.wf(),
        decreases rows.len() - i,
    {
        match &rows[i] {
            Some(g) => {
                if !g.is_valid() {
                    return false;
                }
            },
            None => {},
        }
        i += 1;
    }
    true
}

/// A column that can be written as well-known text.
pub trait ToWKT {
    /// Whether the column is valid.
    spec fn wkt_wf(&self) -> bool;

    /// Whether every row of the column can be written.
    spec fn wkt_writable(&self) -> bool;

    /// The text of each row.
    spec fn wkt_texts(&self) -> Seq<Option<Seq<char>>>;

    /// The column as texts, row for row: the text of the geometry, null for
    /// a null row. Fails, as not implemented, exactly where a row cannot be
    /// written.
    fn to_wkt(&self) -> (r: Result<Vec<Option<String>>, Error>)
        requires
            self.wkt_wf(),
        ensures
            match r {
                Ok(rows) => self.wkt_writable() && text_rows(rows@) == self.wkt_texts(),
                Err(e) => !self.wkt_writable() && e.kind() == ErrorKind::NotImplemented,
            },
    ;
}

impl ToWKT for Vec<Option<Geometry>> {
    open spec fn wkt_wf(&self) -> bool {
        rows_wf(self@)
    }

    open spec fn wkt_writable(&self) -> bool {
        rows_writable(self@)
    }

    open spec fn wkt_texts(&self) -> Seq<Option<Seq<char>>> {
        wkt_rows(self@)
    }

    fn to_wkt(&self) -> (r: Result<Vec<Option<String>>, Error>) {
        let mut out: Vec<Option<String>> = Vec::new();
        let mut i: usize = 0;
        while i < self.len()
            invariant
                i <= self.len(),
                rows_wf(self@),
                out@.len() == i,
                forall|j: int| 0 <= j < i && self@[j] is Some ==> is_writable((#[trigger] self@[j])->0),
                forall|j: int| 0 <= j < i ==> #[trigger] text_rows(out@)[j] == wkt_rows(self@)[j],
            decreases self.len() - i,
        {
            let ghost before = out@;
            match &self[i] {
                Some(geom) => {
                    assert(self@[i as int]->0.wf());
                    let mut text = String::new();
                    match geometry_to_wkt(geom, &mut text) {
                        Ok(_) => {},
                        Err(e) => {
                            return Err(e);
                        },
                    }
                    assert(text@ =~= geometry_text(*geom));
                    out.push(Some(text));
                },
                None => {
                    out.push(None);
                },
            }
            assert forall|j: int| 0 <= j < i + 1 implies #[trigger] text_rows(out@)[j] == wkt_rows(
                self@,
            )[j] by {
                if j < i {
                    assert(text_rows(before)[j] == wkt_rows(self@)[j]);
                    assert(out@[j] == before[j]);
                }
            }
            i += 1;
        }
        assert(text_rows(out@) =~= wkt_rows(self@));
        Ok(out)
    }
}

/// A column written as text has a text for each row of the column of
/// geometries, and a null exactly where that column has one.
pub proof fn lemma_text_keeps_rows(texts: Seq<Option<String>>, rows: Seq<Option<Geometry>>)
    requires
        text_rows(texts) == wkt_rows(rows),
    ensures
        texts.len() == rows.len(),
        forall|i: int| 0 <= i < rows.len() ==> (#[trigger] texts[i] is None) == (rows[i] is None),
{
    assert(text_rows(texts).len() == texts.len());
    assert(wkt_rows(rows).len() == rows.len());
    assert forall|i: int| 0 <= i < rows.len() implies (#[trigger] texts[i] is None) == (
    rows[i] is None) by {
        assert(text_rows(texts)[i] == wkt_rows(rows)[i]);
    }
}

} // verus!
