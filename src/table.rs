use vstd::prelude::*;
use crate::domain::{Domain, key_column, shape};
use crate::snapshot::{all_fit, decode_snapshot, row_fits, rows_view, ImportError, Snapshot};
use crate::value::{copy_row, row_view, Cell, SqlValue};

verus! {

/// The natural key of a row of domain `d`.
pub open spec fn key_of(d: Domain, r: Seq<Cell>) -> Cell {
    r[key_column(d)]
}

/// The primary key of a row: its first value.
pub open spec fn primary_of(r: Seq<Cell>) -> Cell {
    r[0]
}

/// A table after writing one row: the rows with the same primary key or the
/// same natural key give way to it, as in a table whose primary key is
/// enforced and whose rows with the row's natural key were removed first.
pub open spec fn upsert(d: Domain, m: Map<Cell, Seq<Cell>>, r: Seq<Cell>) -> Map<Cell, Seq<Cell>> {
    Map::new(|c: Cell| m.contains_key(c) && primary_of(m[c]) != primary_of(r), |c: Cell| m[c]).insert(
        key_of(d, r),
        r,
    )
}

/// A table after writing rows one by one, in order.
pub open spec fn replay(d: Domain, m: Map<Cell, Seq<Cell>>, rows: Seq<Seq<Cell>>) -> Map<
    Cell,
    Seq<Cell>,
>
    decreases rows.len(),
{
    if rows.len() == 0 {
        m
    } else {
        upsert(d, replay(d, m, rows.drop_last()), rows.last())
    }
}

/// What writing `rows` into an empty table leaves.
pub open spec fn latest(d: Domain, rows: Seq<Seq<Cell>>) -> Map<Cell, Seq<Cell>> {
    replay(d, Map::empty(), rows)
}

/// Whether some row of `rows` shares the natural key or the primary key of
/// row `v`, so that writing `rows` removes `v`.
pub open spec fn touched(d: Domain, rows: Seq<Seq<Cell>>, v: Seq<Cell>) -> bool {
    exists|j: int|
        0 <= j < rows.len() && (key_of(d, #[trigger] rows[j]) == key_of(d, v) || primary_of(rows[j])
            == primary_of(v))
}

/// The rows of `m` that writing `rows` leaves in place.
pub open spec fn untouched(d: Domain, m: Map<Cell, Seq<Cell>>, rows: Seq<Seq<Cell>>) -> Map<
    Cell,
    Seq<Cell>,
> {
    Map::new(|c: Cell| m.contains_key(c) && !touched(d, rows, m[c]), |c: Cell| m[c])
}

/// Whether every row of `m` is filed under its natural key.
pub open spec fn keyed(d: Domain, m: Map<Cell, Seq<Cell>>) -> bool {
    forall|c: Cell| #[trigger] m.contains_key(c) ==> key_of(d, m[c]) == c
}

proof fn lemma_touched_push(d: Domain, s: Seq<Seq<Cell>>, v: Seq<Cell>)
    requires
        s.len() > 0,
    ensures
        touched(d, s, v) == (touched(d, s.drop_last(), v) || key_of(d, s.last()) == key_of(d, v)
            || primary_of(s.last()) == primary_of(v)),
{
    let t = s.drop_last();
    if touched(d, s, v) {
        let j = choose|j: int|
            0 <= j < s.len() && (key_of(d, #[trigger] s[j]) == key_of(d, v) || primary_of(s[j])
                == primary_of(v));
        if j < t.len() {
            assert(t[j] == s[j]);
        }
    }
    if touched(d, t, v) {
        let j = choose|j: int|
            0 <= j < t.len() && (key_of(d, #[trigger] t[j]) == key_of(d, v) || primary_of(t[j])
                == primary_of(v));
        assert(s[j] == t[j]);
    }
    if key_of(d, s.last()) == key_of(d, v) || primary_of(s.last()) == primary_of(v) {
        assert(s[s.len() - 1] == s.last());
    }
}

/// Every row that writing `rows` into an empty table leaves is one of
/// `rows`, filed under its natural key.
pub proof fn lemma_latest_from_rows(d: Domain, s: Seq<Seq<Cell>>)
    ensures
        keyed(d, latest(d, s)),
        forall|c: Cell|
            #[trigger] latest(d, s).contains_key(c) ==> exists|j: int|
                0 <= j < s.len() && latest(d, s)[c] == s[j],
    decreases s.len(),
{
    if s.len() > 0 {
        let t = s.drop_last();
        lemma_latest_from_rows(d, t);
        assert forall|c: Cell| #[trigger] latest(d, s).contains_key(c) implies exists|j: int|
            0 <= j < s.len() && latest(d, s)[c] == s[j] by {
            if c == key_of(d, s.last()) {
                assert(latest(d, s)[c] == s[s.len() - 1]);
            } else {
                let j = choose|j: int| 0 <= j < t.len() && latest(d, t)[c] == t[j];
                assert(latest(d, s)[c] == s[j]);
            }
        }
    }
}

/// Writing rows into a table keeps the rows none of them shares a key
/// with, and adds what writing them into an empty table leaves.
pub proof fn lemma_replay_overlays(d: Domain, m: Map<Cell, Seq<Cell>>, s: Seq<Seq<Cell>>)
    requires
        keyed(d, m),
    ensures
        replay(d, m, s) == untouched(d, m, s).union_prefer_right(latest(d, s)),
    decreases s.len(),
{
    if s.len() == 0 {
        assert(untouched(d, m, s).union_prefer_right(Map::empty()) =~= m);
    } else {
        let t = s.drop_last();
        let r = s.last();
        lemma_replay_overlays(d, m, t);
        lemma_latest_from_rows(d, t);
        assert forall|v: Seq<Cell>| #[trigger] touched(d, s, v) == (touched(d, t, v) || key_of(d, r)
            == key_of(d, v) || primary_of(r) == primary_of(v)) by {
            lemma_touched_push(d, s, v);
        }
        assert forall|c: Cell|
            latest(d, t).contains_key(c) && #[trigger] m.contains_key(c) implies touched(
            d,
            t,
            m[c],
        ) by {
            let j = choose|j: int| 0 <= j < t.len() && latest(d, t)[c] == t[j];
            assert(key_of(d, t[j]) == key_of(d, m[c]));
        }
        assert(replay(d, m, s) =~= untouched(d, m, s).union_prefer_right(latest(d, s)));
    }
}

/// Importing the same snapshot a second time leaves the table as the first
/// import left it.
pub proof fn lemma_import_idempotent(d: Domain, m: Map<Cell, Seq<Cell>>, rows: Seq<Seq<Cell>>)
    requires
        keyed(d, m),
    ensures
        replay(d, replay(d, m, rows), rows) == replay(d, m, rows),
{
    let l = latest(d, rows);
    let f = replay(d, m, rows);
    lemma_replay_overlays(d, m, rows);
    lemma_latest_from_rows(d, rows);
    assert forall|c: Cell| #[trigger] f.contains_key(c) implies key_of(d, f[c]) == c by {
        if !l.contains_key(c) {
            assert(m.contains_key(c));
        }
    }
    lemma_replay_overlays(d, f, rows);
    assert forall|c: Cell| #[trigger] l.contains_key(c) implies touched(d, rows, l[c]) by {
        let j = choose|j: int| 0 <= j < rows.len() && l[c] == rows[j];
        assert(key_of(d, rows[j]) == key_of(d, l[c]));
    }
    assert(untouched(d, f, rows).union_prefer_right(l) =~= f);
}

/// Every shape has a column, and its natural key is one of its columns.
proof fn lemma_shape_keyed(d: Domain)
    ensures
        shape(d).len() > 0,
        0 <= key_column(d) < shape(d).len(),
{
}

/// The specification model of a domain's SQLite table: each row filed under
/// its natural key, no two rows with the same natural key, each conforming
/// to the domain's shape. Writing a row here does what the restore path
/// does to the SQLite table: the statement of [`Domain::clear_statement`],
/// when the domain has one, and then that of [`Domain::upsert_statement`],
/// whose `INSERT OR REPLACE` also removes the row with the same primary key.
/// The restore path itself writes to SQLite; this model is where the
/// upsert, idempotence and isolation properties are stated and proved.
pub struct Table {
    domain: Domain,
    rows: Vec<Vec<SqlValue>>,
    contents: Ghost<Map<Cell, Seq<Cell>>>,
}

impl View for Table {
    type V = Map<Cell, Seq<Cell>>;

    /// Each natural key mapped to the row it identifies.
    closed spec fn view(&self) -> Map<Cell, Seq<Cell>> {
        self.contents@
    }
}

impl Table {
    /// The domain whose rows the table holds.
    pub closed spec fn spec_domain(&self) -> Domain {
        self.domain
    }

    pub closed spec fn wf(&self) -> bool {
        let d = self.domain;
        let rv = rows_view(self.rows@);
        &&& all_fit(d, rv)
        &&& keyed(d, self.contents@)
        &&& forall|i: int|
            #![trigger rv[i]]
            0 <= i < rv.len() ==> self.contents@.contains_key(key_of(d, rv[i]))
                && self.contents@[key_of(d, rv[i])] == rv[i]
        &&& forall|i: int, j: int|
            #![trigger rv[i], rv[j]]
            0 <= i < rv.len() && 0 <= j < rv.len() && i != j ==> key_of(d, rv[i]) != key_of(
                d,
                rv[j],
            )
        &&& forall|k: Cell|
            #![trigger self.contents@.contains_key(k)]
            self.contents@.contains_key(k) ==> exists|i: int|
                0 <= i < rv.len() && key_of(d, rv[i]) == k
        &&& self.contents@.dom().finite()
        &&& self.contents@.dom().len() == rv.len()
    }

    /// An empty table of domain `domain`.
    pub fn new(domain: Domain) -> (t: Table)
        ensures
            t.wf(),
            t.spec_domain() == domain,
            t@ == Map::<Cell, Seq<Cell>>::empty(),
    {
        let t = Table { domain, rows: Vec::new(), contents: Ghost(Map::empty()) };
        assert(rows_view(t.rows@) =~= Seq::empty());
        t
    }

    /// The domain whose rows the table holds.
    pub fn domain(&self) -> (d: Domain)
        ensures
            d == self.spec_domain(),
    {
        self.domain
    }

    /// The number of rows.
    pub fn len(&self) -> (n: usize)
        requires
            self.wf(),
        ensures
            n == self@.dom().len(),
    {
        self.rows.len()
    }

    /// The position of the row whose natural key equals `key`, if any.
    fn position(&self, key: &SqlValue) -> (r: Option<usize>)
        requires
            self.wf(),
        ensures
            r matches Some(i) ==> i < self.rows@.len() && key_of(
                self.domain,
                rows_view(self.rows@)[i as int],
            ) == key@,
            r is None ==> !self@.contains_key(key@),
    {
        let ghost rv = rows_view(self.rows@);
        let k = self.domain.key_index();
        proof {
            lemma_shape_keyed(self.domain);
        }
        let mut i: usize = 0;
        while i < self.rows.len()
            invariant
                self.wf(),
                rv == rows_view(self.rows@),
                k == key_column(self.domain),
                0 <= key_column(self.domain) < shape(self.domain).len(),
                i <= self.rows@.len(),
                forall|j: int| 0 <= j < i ==> key_of(self.domain, #[trigger] rv[j]) != key@,
            decreases self.rows@.len() - i,
        {
            proof {
                assert(row_fits(self.domain, rv[i as int]));
                assert(rv[i as int] == row_view(self.rows@[i as int]@));
            }
            if self.rows[i][k].same_as(key) {
                return Some(i);
            }
            i += 1;
        }
        None
    }

    /// The row whose natural key is `key`, if any.
    pub fn get(&self, key: &SqlValue) -> (r: Option<Vec<SqlValue>>)
        requires
            self.wf(),
        ensures
            r is Some <==> self@.contains_key(key@),
            r matches Some(row) ==> row_view(row@) == self@[key@],
    {
        match self.position(key) {
            Some(i) => {
                assert(rows_view(self.rows@)[i as int] == row_view(self.rows@[i as int]@));
                Some(copy_row(&self.rows[i]))
            },
            None => None,
        }
    }

    /// Writes one row: the rows with its natural key or its primary key give
    /// way to it.
    pub fn upsert(&mut self, row: Vec<SqlValue>)
        requires
            old(self).wf(),
            row_fits(old(self).spec_domain(), row_view(row@)),
        ensures
            final(self).wf(),
            final(self).spec_domain() == old(self).spec_domain(),
            final(self)@ == upsert(old(self).spec_domain(), old(self)@, row_view(row@)),
    {
        let d = self.domain;
        proof {
            lemma_shape_keyed(d);
        }
        let k = d.key_index();
        let ghost rv = rows_view(self.rows@);
        let ghost r = row_view(row@);
        let ghost old_c = self.contents@;
        let ghost target = Map::new(
            |c: Cell|
                old_c.contains_key(c) && primary_of(old_c[c]) != primary_of(r) && c != key_of(d, r),
            |c: Cell| old_c[c],
        );
        assert(r[0] == row@[0]@);
        assert(r[k as int] == row@[k as int]@);
        let mut kept: Vec<Vec<SqlValue>> = Vec::new();
        let ghost mut m: Map<Cell, Seq<Cell>> = Map::empty();
        let mut i: usize = 0;
        while i < self.rows.len()
            invariant
                self.wf(),
                self.domain == d,
                rv == rows_view(self.rows@),
                old_c == self.contents@,
                r == row_view(row@),
                row_fits(d, r),
                k == key_column(d),
                0 <= key_column(d) < shape(d).len(),
                r[0] == row@[0]@,
                r[k as int] == row@[k as int]@,
                target == Map::new(
                    |c: Cell|
                        old_c.contains_key(c) && primary_of(old_c[c]) != primary_of(r) && c
                            != key_of(d, r),
                    |c: Cell| old_c[c],
                ),
                i <= rv.len(),
                all_fit(d, rows_view(kept@)),
                forall|j: int|
                    #![trigger rows_view(kept@)[j]]
                    0 <= j < kept@.len() ==> m.contains_key(key_of(d, rows_view(kept@)[j]))
                        && m[key_of(d, rows_view(kept@)[j])] == rows_view(kept@)[j],
                forall|j1: int, j2: int|
                    #![trigger rows_view(kept@)[j1], rows_view(kept@)[j2]]
                    0 <= j1 < kept@.len() && 0 <= j2 < kept@.len() && j1 != j2 ==> key_of(
                        d,
                        rows_view(kept@)[j1],
                    ) != key_of(d, rows_view(kept@)[j2]),
                forall|c: Cell|
                    #![trigger m.contains_key(c)]
                    m.contains_key(c) ==> exists|j: int|
                        0 <= j < kept@.len() && key_of(d, rows_view(kept@)[j]) == c,
                m.dom().finite(),
                m.dom().len() == kept@.len(),
                forall|c: Cell|
                    #![trigger m.contains_key(c)]
                    m.contains_key(c) ==> target.contains_key(c) && m[c] == old_c[c] && exists|
                        j: int,
                    | 0 <= j < i && key_of(d, rv[j]) == c,
                forall|j: int|
                    #![trigger rv[j]]
                    0 <= j < i && target.contains_key(key_of(d, rv[j])) ==> m.contains_key(
                        key_of(d, rv[j]),
                    ),
            decreases rv.len() - i,
        {
            let ghost v = rv[i as int];
            let ghost kv = rows_view(kept@);
            assert(v == row_view(self.rows@[i as int]@));
            assert(row_fits(d, v));
            assert(v[0] == self.rows@[i as int]@[0]@);
            assert(v[k as int] == self.rows@[i as int]@[k as int]@);
            let keep = !self.rows[i][0].same_as(&row[0]) && !self.rows[i][k].same_as(&row[k]);
            proof {
                assert(old_c.contains_key(key_of(d, v)) && old_c[key_of(d, v)] == v);
                assert(keep == target.contains_key(key_of(d, v)));
                assert(!m.contains_key(key_of(d, v))) by {
                    if m.contains_key(key_of(d, v)) {
                        let j = choose|j: int| 0 <= j < i && key_of(d, rv[j]) == key_of(d, v);
                        assert(rv[j] == rv[j]);
                        assert(v == rv[i as int]);
                    }
                }
            }
            if keep {
                let c = copy_row(&self.rows[i]);
                kept.push(c);
                proof {
                    let nk = rows_view(kept@);
                    assert(nk =~= kv.push(v));
                    m = m.insert(key_of(d, v), v);
                    assert(nk[kv.len() as int] == v);
                    assert forall|c: Cell| #[trigger] m.contains_key(c) implies exists|j: int|
                        0 <= j < kept@.len() && key_of(d, rows_view(kept@)[j]) == c by {
                        if c == key_of(d, v) {
                            assert(key_of(d, nk[kv.len() as int]) == c);
                        } else {
                            let j = choose|j: int| 0 <= j < kv.len() && key_of(d, kv[j]) == c;
                            assert(nk[j] == kv[j]);
                        }
                    }
                    assert forall|c: Cell| #[trigger] m.contains_key(c) implies target.contains_key(c)
                        && m[c] == old_c[c] && exists|j: int|
                        0 <= j < i + 1 && key_of(d, rv[j]) == c by {
                        if c == key_of(d, v) {
                            assert(key_of(d, rv[i as int]) == c);
                        } else {
                            let j = choose|j: int| 0 <= j < i && key_of(d, rv[j]) == c;
                            assert(key_of(d, rv[j]) == c);
                        }
                    }
                    assert forall|j1: int, j2: int|
                        0 <= j1 < nk.len() && 0 <= j2 < nk.len() && j1 != j2 implies key_of(
                        d,
                        #[trigger] nk[j1],
                    ) != key_of(d, #[trigger] nk[j2]) by {
                        if j1 < kv.len() {
                            assert(nk[j1] == kv[j1]);
                        }
                        if j2 < kv.len() {
                            assert(nk[j2] == kv[j2]);
                        }
                    }
                }
            } else {
                proof {
                    assert forall|c: Cell| #[trigger] m.contains_key(c) implies target.contains_key(c)
                        && m[c] == old_c[c] && exists|j: int|
                        0 <= j < i + 1 && key_of(d, rv[j]) == c by {
                        let j = choose|j: int| 0 <= j < i && key_of(d, rv[j]) == c;
                        assert(key_of(d, rv[j]) == c);
                    }
                }
            }
            i += 1;
        }
        proof {
            assert forall|c: Cell| #[trigger] target.contains_key(c) implies m.contains_key(c) by {
                assert(old_c.contains_key(c));
                let j = choose|j: int| 0 <= j < rv.len() && key_of(d, rv[j]) == c;
                assert(rv[j] == rv[j]);
            }
            assert(m =~= target);
            assert(!m.contains_key(key_of(d, r)));
        }
        let ghost kv = rows_view(kept@);
        kept.push(row);
        self.rows = kept;
        self.contents = Ghost(m.insert(key_of(d, r), r));
        proof {
            let nv = rows_view(self.rows@);
            assert(nv =~= kv.push(r));
            assert(nv[kv.len() as int] == r);
            assert(self.contents@ =~= upsert(d, old_c, r));
            assert forall|c: Cell| #[trigger] self.contents@.contains_key(c) implies exists|j: int|
                0 <= j < nv.len() && key_of(d, nv[j]) == c by {
                if c == key_of(d, r) {
                    assert(key_of(d, nv[kv.len() as int]) == c);
                } else {
                    let j = choose|j: int| 0 <= j < kv.len() && key_of(d, kv[j]) == c;
                    assert(nv[j] == kv[j]);
                }
            }
            assert forall|j1: int, j2: int|
                0 <= j1 < nv.len() && 0 <= j2 < nv.len() && j1 != j2 implies key_of(
                d,
                #[trigger] nv[j1],
            ) != key_of(d, #[trigger] nv[j2]) by {
                if j1 < kv.len() {
                    assert(nv[j1] == kv[j1]);
                }
                if j2 < kv.len() {
                    assert(nv[j2] == kv[j2]);
                }
            }
            assert forall|j: int| 0 <= j < nv.len() implies self.contents@.contains_key(
                key_of(d, #[trigger] nv[j]),
            ) && self.contents@[key_of(d, nv[j])] == nv[j] by {
                if j < kv.len() {
                    assert(nv[j] == kv[j]);
                }
            }
            assert forall|j: int| 0 <= j < nv.len() implies #[trigger] row_fits(d, nv[j]) by {
                if j < kv.len() {
                    assert(nv[j] == kv[j]);
                }
            }
        }
    }

    /// Writes every row of a snapshot, in order.
    pub fn import(&mut self, snapshot: &Snapshot) -> (n: usize)
        requires
            old(self).wf(),
            snapshot.wf(),
            snapshot.domain == old(self).spec_domain(),
        ensures
            final(self).wf(),
            final(self).spec_domain() == old(self).spec_domain(),
            final(self)@ == replay(old(self).spec_domain(), old(self)@, rows_view(snapshot.rows@)),
            n == snapshot.rows@.len(),
    {
        let ghost start = self@;
        let ghost sv = rows_view(snapshot.rows@);
        let mut i: usize = 0;
        while i < snapshot.rows.len()
            invariant
                self.wf(),
                self.spec_domain() == snapshot.domain,
                snapshot.wf(),
                sv == rows_view(snapshot.rows@),
                i <= snapshot.rows@.len(),
                self@ == replay(snapshot.domain, start, sv.subrange(0, i as int)),
            decreases snapshot.rows@.len() - i,
        {
            assert(sv[i as int] == row_view(snapshot.rows@[i as int]@));
            assert(row_fits(snapshot.domain, sv[i as int]));
            let row = copy_row(&snapshot.rows[i]);
            self.upsert(row);
            proof {
                let next = sv.subrange(0, i + 1);
                assert(next.drop_last() =~= sv.subrange(0, i as int));
            }
            i += 1;
        }
        assert(sv.subrange(0, snapshot.rows@.len() as int) =~= sv);
        snapshot.rows.len()
    }

    /// Imports the rows read from a snapshot of this table's domain, all or
    /// nothing: when every row conforms to the shape they are written in
    /// order; otherwise the table is left as it was and the first row that
    /// does not conform is reported.
    pub fn import_rows(&mut self, rows: Vec<Vec<SqlValue>>) -> (r: Result<usize, ImportError>)
        requires
            old(self).wf(),
        ensures
            final(self).wf(),
            final(self).spec_domain() == old(self).spec_domain(),
            r is Ok <==> all_fit(old(self).spec_domain(), rows_view(rows@)),
            r matches Ok(n) ==> final(self)@ == replay(old(self).spec_domain(), old(self)@, rows_view(rows@)) && n
                == rows@.len(),
            r is Err ==> final(self)@ == old(self)@,
    {
        match decode_snapshot(self.domain, rows) {
            Ok(snapshot) => Ok(self.import(&snapshot)),
            Err(e) => Err(e),
        }
    }
}

/// A table after importing rows read from a snapshot of domain `d`: the
/// rows replayed when all conform to the shape, else the table unchanged.
pub open spec fn import_effect(m: Map<Cell, Seq<Cell>>, d: Domain, rows: Seq<Seq<Cell>>) -> Map<
    Cell,
    Seq<Cell>,
> {
    if all_fit(d, rows) {
        replay(d, m, rows)
    } else {
        m
    }
}

/// The tables after importing each batch of rows into the table at the same
/// position, each on its own.
pub open spec fn restore_effect(
    tables: Seq<Map<Cell, Seq<Cell>>>,
    domains: Seq<Domain>,
    batches: Seq<Seq<Seq<Cell>>>,
) -> Seq<Map<Cell, Seq<Cell>>> {
    Seq::new(tables.len(), |j: int| import_effect(tables[j], domains[j], batches[j]))
}

/// A batch that does not decode leaves its own table as it was, and the
/// table of every other domain comes out as it would whatever that batch
/// held.
pub proof fn lemma_isolation(
    tables: Seq<Map<Cell, Seq<Cell>>>,
    domains: Seq<Domain>,
    batches: Seq<Seq<Seq<Cell>>>,
    a: int,
    b: int,
    other: Seq<Seq<Cell>>,
)
    requires
        domains.len() == tables.len(),
        batches.len() == tables.len(),
        0 <= a < tables.len(),
        0 <= b < tables.len(),
        a != b,
        !all_fit(domains[a], batches[a]),
    ensures
        restore_effect(tables, domains, batches)[a] == tables[a],
        restore_effect(tables, domains, batches)[b] == restore_effect(
            tables,
            domains,
            batches.update(a, other),
        )[b],
{
}

/// The views of a list of tables.
pub open spec fn table_views(ts: Seq<Table>) -> Seq<Map<Cell, Seq<Cell>>> {
    ts.map_values(|t: Table| t@)
}

/// The domains of a list of tables.
pub open spec fn table_domains(ts: Seq<Table>) -> Seq<Domain> {
    ts.map_values(|t: Table| t.spec_domain())
}

/// The views of a list of batches of rows.
pub open spec fn batch_views(bs: Seq<Vec<Vec<SqlValue>>>) -> Seq<Seq<Seq<Cell>>> {
    bs.map_values(|b: Vec<Vec<SqlValue>>| rows_view(b@))
}

/// Imports each batch of rows into the table at the same position, one
/// table after another, each all or nothing and on its own: a batch that
/// does not decode is reported and the others go on. This runs on the
/// in-memory model of the tables, not on the restore path, which writes to
/// SQLite one domain at a time in the same way.
pub fn restore_tables(tables: Vec<Table>, batches: Vec<Vec<Vec<SqlValue>>>) -> (r: (
    Vec<Table>,
    Vec<Result<usize, ImportError>>,
))
    requires
        batches@.len() == tables@.len(),
        forall|j: int| 0 <= j < tables@.len() ==> (#[trigger] tables@[j]).wf(),
    ensures
        r.0@.len() == tables@.len(),
        r.1@.len() == tables@.len(),
        forall|j: int| 0 <= j < tables@.len() ==> (#[trigger] r.0@[j]).wf(),
        table_domains(r.0@) == table_domains(tables@),
        table_views(r.0@) == restore_effect(
            table_views(tables@),
            table_domains(tables@),
            batch_views(batches@),
        ),
        forall|j: int|
            0 <= j < tables@.len() ==> (#[trigger] r.1@[j] is Ok <==> all_fit(
                tables@[j].spec_domain(),
                rows_view(batches@[j]@),
            )),
{
    let ghost t0 = tables@;
    let ghost b0 = batches@;
    let mut rest_tables = tables;
    let mut rest_batches = batches;
    let mut out: Vec<Table> = Vec::new();
    let mut results: Vec<Result<usize, ImportError>> = Vec::new();
    let n = rest_tables.len();
    let mut i: usize = 0;
    while i < n
        invariant
            n == t0.len(),
            b0.len() == t0.len(),
            i <= n,
            rest_tables@ == t0.subrange(i as int, n as int),
            rest_batches@ == b0.subrange(i as int, n as int),
            forall|j: int| 0 <= j < t0.len() ==> (#[trigger] t0[j]).wf(),
            out@.len() == i,
            results@.len() == i,
            forall|j: int|
                #![trigger out@[j]]
                0 <= j < i ==> out@[j].wf() && out@[j].spec_domain() == t0[j].spec_domain()
                    && out@[j]@ == import_effect(t0[j]@, t0[j].spec_domain(), rows_view(b0[j]@)),
            forall|j: int|
                0 <= j < i ==> (#[trigger] results@[j] is Ok <==> all_fit(
                    t0[j].spec_domain(),
                    rows_view(b0[j]@),
                )),
        decreases n - i,
    {
        let mut table = rest_tables.remove(0);
        let batch = rest_batches.remove(0);
        assert(table == t0[i as int]);
        assert(batch == b0[i as int]);
        let res = table.import_rows(batch);
        out.push(table);
        results.push(res);
        i += 1;
        assert(rest_tables@ =~= t0.subrange(i as int, n as int));
        assert(rest_batches@ =~= b0.subrange(i as int, n as int));
    }
    assert(table_domains(out@) =~= table_domains(t0));
    assert(table_views(out@) =~= restore_effect(
        table_views(t0),
        table_domains(t0),
        batch_views(b0),
    ));
    (out, results)
}

} // verus!
