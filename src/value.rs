use vstd::prelude::*;

verus! {

/// One stored value as a database hands it out.
///
/// A floating-point value is carried as its IEEE-754 bit pattern: the
/// library moves such values from one table to another and never computes
/// with them.
#[derive(Clone, Debug)]
pub enum SqlValue {
    Null,
    Integer(i64),
    Real(u64),
    Text(String),
    Blob(Vec<u8>),
}

/// The mathematical value of a [`SqlValue`].
pub enum Cell {
    Null,
    Integer(int),
    Real(u64),
    Text(Seq<char>),
    Blob(Seq<u8>),
}

impl View for SqlValue {
    type V = Cell;

    open spec fn view(&self) -> Cell {
        match self {
            SqlValue::Null => Cell::Null,
            SqlValue::Integer(i) => Cell::Integer(*i as int),
            SqlValue::Real(b) => Cell::Real(*b),
            SqlValue::Text(s) => Cell::Text(s@),
            SqlValue::Blob(b) => Cell::Blob(b@),
        }
    }
}

/// The type a column of a row shape expects.
#[derive(Clone, Copy, Debug, PartialEq, Eq, Structural)]
pub enum ColumnType {
    Integer,
    Real,
    Text,
    NullableInteger,
    NullableReal,
    NullableText,
}

/// Whether a stored value can be read as a column of type `t`: an integer
/// column takes integers, a real column takes reals and integers, a text
/// column takes text, and a nullable column also takes `Null`. A blob fits
/// no column.
pub open spec fn fits(v: Cell, t: ColumnType) -> bool {
    match t {
        ColumnType::Integer => v is Integer,
        ColumnType::Real => v is Integer || v is Real,
        ColumnType::Text => v is Text,
        ColumnType::NullableInteger => v is Null || v is Integer,
        ColumnType::NullableReal => v is Null || v is Integer || v is Real,
        ColumnType::NullableText => v is Null || v is Text,
    }
}

/// The mathematical value of a row.
pub open spec fn row_view(r: Seq<SqlValue>) -> Seq<Cell> {
    r.map_values(|v: SqlValue| v@)
}

/// A copy of a row.
pub fn copy_row(r: &Vec<SqlValue>) -> (c: Vec<SqlValue>)
    ensures
        row_view(c@) == row_view(r@),
{
    let mut c: Vec<SqlValue> = Vec::new();
    let mut i: usize = 0;
    while i < r.len()
        invariant
            i <= r@.len(),
            c@.len() == i,
            forall|j: int| 0 <= j < i ==> #[trigger] c@[j]@ == r@[j]@,
        decreases r@.len() - i,
    {
        c.push(r[i].copy());
        i += 1;
    }
    assert(row_view(c@) =~= row_view(r@));
    c
}

impl SqlValue {
    /// Whether this value can be read as a column of type `t`.
    pub fn fits(&self, t: ColumnType) -> (r: bool)
        ensures
            r == fits(self@, t),
    {
        match t {
            ColumnType::Integer => matches!(self, SqlValue::Integer(_)),
            ColumnType::Real => matches!(self, SqlValue::Integer(_) | SqlValue::Real(_)),
            ColumnType::Text => matches!(self, SqlValue::Text(_)),
            ColumnType::NullableInteger => matches!(self, SqlValue::Null | SqlValue::Integer(_)),
            ColumnType::NullableReal => matches!(
                self,
                SqlValue::Null | SqlValue::Integer(_) | SqlValue::Real(_)
            ),
            ColumnType::NullableText => matches!(self, SqlValue::Null | SqlValue::Text(_)),
        }
    }

    /// A copy of this value.
    pub fn copy(&self) -> (r: SqlValue)
        ensures
            r@ == self@,
    {
        match self {
            SqlValue::Null => SqlValue::Null,
            SqlValue::Integer(i) => SqlValue::Integer(*i),
            SqlValue::Real(b) => SqlValue::Real(*b),
            SqlValue::Text(s) => SqlValue::Text(s.clone()),
            SqlValue::Blob(b) => SqlValue::Blob(copy_bytes(b)),
        }
    }

    /// Whether two values are equal.
    pub fn same_as(&self, other: &SqlValue) -> (r: bool)
        ensures
            r == (self@ == other@),
    {
        match (self, other) {
            (SqlValue::Null, SqlValue::Null) => true,
            (SqlValue::Integer(a), SqlValue::Integer(b)) => *a == *b,
            (SqlValue::Real(a), SqlValue::Real(b)) => *a == *b,
            (SqlValue::Text(a), SqlValue::Text(b)) => *a == *b,
            (SqlValue::Blob(a), SqlValue::Blob(b)) => bytes_equal(a, b),
            _ => false,
        }
    }
}

/// A copy of a byte vector.
fn copy_bytes(a: &Vec<u8>) -> (r: Vec<u8>)
    ensures
        r@ == a@,
{
    let mut r: Vec<u8> = Vec::new();
    let mut i: usize = 0;
    while i < a.len()
        invariant
            i <= a@.len(),
            r@ == a@.subrange(0, i as int),
        decreases a@.len() - i,
    {
        r.push(a[i]);
        i += 1;
        assert(r@ =~= a@.subrange(0, i as int));
    }
    assert(a@.subrange(0, a@.len() as int) =~= a@);
    r
}

/// Whether two byte vectors hold the same bytes.
fn bytes_equal(a: &Vec<u8>, b: &Vec<u8>) -> (r: bool)
    ensures
        r == (a@ == b@),
{
    if a.len() != b.len() {
        return false;
    }
    let mut i: usize = 0;
    while i < a.len()
        invariant
            a@.len() == b@.len(),
            i <= a@.len(),
            forall|j: int| 0 <= j < i ==> a@[j] == b@[j],
        decreases a@.len() - i,
    {
        if a[i] != b[i] {
            return false;
        }
        i += 1;
    }
    assert(a@ =~= b@);
    true
}

} // verus!
