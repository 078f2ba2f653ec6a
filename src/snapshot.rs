use vstd::prelude::*;
use crate::domain::{column_names, Domain, shape};
use crate::value::{fits, row_view, Cell, SqlValue};

verus! {

/// Why one domain could not be imported.
#[derive(Clone, Debug)]
pub enum ImportError {
    /// The domain is not in the registry.
    UnknownDomain,
    /// The domain's entry could not be read out of the archive.
    Unreadable,
    /// A row has another number of columns than the domain's shape.
    SchemaMismatch { row: usize, expected: usize, found: usize },
    /// The snapshot's table lacks column number `column` of the shape; a
    /// snapshot without the domain's table lacks every column.
    MissingColumn { column: usize },
    /// A value of a row cannot be read as the type its column expects.
    RowDecode { row: usize, column: usize },
    /// The database refused to open, read, write or commit; the message is
    /// the database's own.
    Storage(String),
}

/// Whether a row conforms to a domain's shape: as many values as columns,
/// each of the type its column expects.
pub open spec fn row_fits(d: Domain, r: Seq<Cell>) -> bool {
    &&& r.len() == shape(d).len()
    &&& forall|i: int| 0 <= i < r.len() ==> #[trigger] fits(r[i], shape(d)[i].1)
}

/// The mathematical value of a list of rows.
pub open spec fn rows_view(rows: Seq<Vec<SqlValue>>) -> Seq<Seq<Cell>> {
    rows.map_values(|r: Vec<SqlValue>| row_view(r@))
}

/// Whether every row conforms to a domain's shape.
pub open spec fn all_fit(d: Domain, rows: Seq<Seq<Cell>>) -> bool {
    forall|i: int| 0 <= i < rows.len() ==> #[trigger] row_fits(d, rows[i])
}

/// The error reported for row number `index`, which does not conform to the
/// shape of `d`: a mismatch of widths, or else the first value of the wrong
/// type.
pub open spec fn row_error(d: Domain, r: Seq<Cell>, index: int, e: ImportError) -> bool {
    if r.len() != shape(d).len() {
        e == ImportError::SchemaMismatch {
            row: index as usize,
            expected: shape(d).len() as usize,
            found: r.len() as usize,
        }
    } else {
        match e {
            ImportError::RowDecode { row, column } => {
                &&& row == index
                &&& column < r.len()
                &&& !fits(r[column as int], shape(d)[column as int].1)
                &&& forall|k: int| 0 <= k < column ==> #[trigger] fits(r[k], shape(d)[k].1)
            },
            _ => false,
        }
    }
}

/// The rows of one domain, each conforming to the domain's shape, in the
/// order they were read.
pub struct Snapshot {
    pub domain: Domain,
    pub rows: Vec<Vec<SqlValue>>,
}

impl Snapshot {
    pub open spec fn wf(&self) -> bool {
        all_fit(self.domain, rows_view(self.rows@))
    }
}

/// Whether a table with the columns named `present` has every column of the
/// shape of `d`.
pub open spec fn has_columns(d: Domain, present: Seq<Seq<char>>) -> bool {
    forall|c: int| 0 <= c < shape(d).len() ==> present.contains(#[trigger] column_names(d)[c])
}

/// Checks that a snapshot's table, whose columns are named `present`, has
/// every column of the shape of `d`; otherwise the first missing column of
/// the shape is reported.
pub fn check_columns(d: Domain, present: &Vec<String>) -> (r: Result<(), ImportError>)
    ensures
        r is Ok <==> has_columns(d, present@.map_values(|p: String| p@)),
        r matches Err(e) ==> e matches ImportError::MissingColumn { column } && column < shape(
            d,
        ).len() && !present@.map_values(|p: String| p@).contains(column_names(d)[column as int])
            && forall|c: int|
            0 <= c < column ==> present@.map_values(|p: String| p@).contains(
                #[trigger] column_names(d)[c],
            ),
{
    let ghost pv = present@.map_values(|p: String| p@);
    let names = d.column_names();
    proof {
        assert(names@.map_values(|p: String| p@).len() == names@.len());
        assert(column_names(d).len() == shape(d).len());
    }
    let mut c: usize = 0;
    while c < names.len()
        invariant
            pv == present@.map_values(|p: String| p@),
            names@.map_values(|p: String| p@) == column_names(d),
            names@.len() == shape(d).len(),
            c <= names@.len(),
            forall|k: int| 0 <= k < c ==> pv.contains(#[trigger] column_names(d)[k]),
        decreases names@.len() - c,
    {
        assert(names@.map_values(|p: String| p@)[c as int] == names@[c as int]@);
        let mut found = false;
        let mut j: usize = 0;
        while j < present.len()
            invariant
                pv == present@.map_values(|p: String| p@),
                c < names@.len(),
                j <= present@.len(),
                found ==> pv.contains(names@[c as int]@),
                !found ==> forall|q: int| 0 <= q < j ==> pv[q] != names@[c as int]@,
            decreases present@.len() - j,
        {
            assert(pv[j as int] == present@[j as int]@);
            if present[j] == names[c] {
                found = true;
            }
            j += 1;
        }
        if !found {
            return Err(ImportError::MissingColumn { column: c });
        }
        c += 1;
    }
    Ok(())
}

/// Checks one row, number `index` of its snapshot, against the shape of `d`.
pub fn check_row(d: Domain, row: &Vec<SqlValue>, index: usize) -> (r: Result<(), ImportError>)
    ensures
        r is Ok <==> row_fits(d, row_view(row@)),
        r matches Err(e) ==> row_error(d, row_view(row@), index as int, e),
{
    let cols = d.columns();
    let ghost rv = row_view(row@);
    if row.len() != cols.len() {
        return Err(ImportError::SchemaMismatch { row: index, expected: cols.len(), found: row.len() });
    }
    let mut c: usize = 0;
    while c < row.len()
        invariant
            rv == row_view(row@),
            row@.len() == cols@.len(),
            cols@.len() == shape(d).len(),
            forall|i: int| 0 <= i < cols@.len() ==> #[trigger] cols@[i].ty == shape(d)[i].1,
            c <= row@.len(),
            forall|k: int| 0 <= k < c ==> #[trigger] fits(rv[k], shape(d)[k].1),
        decreases row@.len() - c,
    {
        if !row[c].fits(cols[c].ty) {
            assert(rv[c as int] == row@[c as int]@);
            return Err(ImportError::RowDecode { row: index, column: c });
        }
        assert(rv[c as int] == row@[c as int]@);
        c += 1;
    }
    Ok(())
}

/// Checks the rows read from a domain's snapshot against its shape. The
/// rows come back unchanged as a [`Snapshot`] when every row conforms;
/// otherwise the first row that does not conform is reported.
pub fn decode_snapshot(d: Domain, rows: Vec<Vec<SqlValue>>) -> (r: Result<Snapshot, ImportError>)
    ensures
        r is Ok <==> all_fit(d, rows_view(rows@)),
        r matches Ok(s) ==> s.domain == d && s.rows@ == rows@ && s.wf(),
        r matches Err(e) ==> exists|i: int|
            0 <= i < rows@.len() && all_fit(d, rows_view(rows@.subrange(0, i)))
                && !row_fits(d, rows_view(rows@)[i])
                && row_error(d, rows_view(rows@)[i], i, e),
{
    let ghost rv = rows_view(rows@);
    let mut i: usize = 0;
    while i < rows.len()
        invariant
            rv == rows_view(rows@),
            i <= rows@.len(),
            forall|k: int| 0 <= k < i ==> #[trigger] row_fits(d, rv[k]),
        decreases rows@.len() - i,
    {
        assert(rv[i as int] == row_view(rows@[i as int]@));
        match check_row(d, &rows[i], i) {
            Ok(()) => {},
            Err(e) => {
                proof {
                    assert(!row_fits(d, rv[i as int]));
                    assert(row_error(d, rv[i as int], i as int, e));
                    assert(rows_view(rows@.subrange(0, i as int)) =~= rv.subrange(0, i as int));
                    assert(all_fit(d, rows_view(rows@.subrange(0, i as int))));
                }
                return Err(e);
            },
        }
        i += 1;
    }
    Ok(Snapshot { domain: d, rows })
}

} // verus!
