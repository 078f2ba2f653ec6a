use vstd::prelude::*;
use crate::value::ColumnType;

verus! {

/// A logical dataset of the application, kept in a database of its own whose
/// single table has the same name as the domain.
#[derive(Clone, Copy, Debug, PartialEq, Eq, Structural)]
pub enum Domain {
    AppConfig,
    AllStocks,
    MySelection,
    StockReview,
    SelfReflect,
    MarketAnalysis,
    StockLines,
    TrendLines,
    Holdings,
    Orders,
}

/// A column of a row shape: its name and the type it expects.
#[derive(Clone, Debug)]
pub struct Column {
    pub name: String,
    pub ty: ColumnType,
}

/// The name of a domain: the stem of its archive entry, the name of its
/// database and of its table.
pub open spec fn domain_name(d: Domain) -> Seq<char> {
    match d {
        Domain::AppConfig => "app_config"@,
        Domain::AllStocks => "all_stocks"@,
        Domain::MySelection => "my_selection"@,
        Domain::StockReview => "stock_review"@,
        Domain::SelfReflect => "self_reflect"@,
        Domain::MarketAnalysis => "market_analysis"@,
        Domain::StockLines => "stock_lines"@,
        Domain::TrendLines => "trend_lines"@,
        Domain::Holdings => "holdings"@,
        Domain::Orders => "orders"@,
    }
}

/// The row shape of a domain's table, in column order. The first column of
/// every shape is the table's primary key.
pub open spec fn shape(d: Domain) -> Seq<(Seq<char>, ColumnType)> {
    match d {
        Domain::AppConfig => seq![("key"@, ColumnType::Text), ("value"@, ColumnType::Text)],
        Domain::AllStocks => seq![("symbol"@, ColumnType::Text), ("name"@, ColumnType::Text)],
        Domain::MySelection => seq![
            ("code"@, ColumnType::Text),
            ("name"@, ColumnType::Text),
            ("color"@, ColumnType::NullableText),
            ("remark"@, ColumnType::NullableText),
            ("sort"@, ColumnType::Integer),
        ],
        Domain::StockReview => seq![
            ("id"@, ColumnType::Integer),
            ("title"@, ColumnType::Text),
            ("code"@, ColumnType::Text),
            ("date"@, ColumnType::Text),
            ("type"@, ColumnType::Text),
            ("description"@, ColumnType::NullableText),
        ],
        Domain::SelfReflect => seq![
            ("id"@, ColumnType::Integer),
            ("title"@, ColumnType::Text),
            ("code"@, ColumnType::Text),
            ("date"@, ColumnType::Text),
            ("description"@, ColumnType::NullableText),
        ],
        Domain::MarketAnalysis => seq![
            ("date"@, ColumnType::Text),
            ("analysis"@, ColumnType::Text),
            ("status"@, ColumnType::Text),
        ],
        Domain::StockLines => seq![
            ("id"@, ColumnType::Integer),
            ("code"@, ColumnType::Text),
            ("period"@, ColumnType::Text),
            ("x1"@, ColumnType::Real),
            ("y1"@, ColumnType::Real),
            ("x2"@, ColumnType::Real),
            ("y2"@, ColumnType::Real),
            ("width"@, ColumnType::Real),
            ("height"@, ColumnType::Real),
        ],
        Domain::TrendLines => seq![
            ("id"@, ColumnType::Integer),
            ("code"@, ColumnType::Text),
            ("period"@, ColumnType::Text),
            ("start_time"@, ColumnType::Integer),
            ("end_time"@, ColumnType::Integer),
            ("start_price"@, ColumnType::Real),
            ("end_price"@, ColumnType::Real),
        ],
        Domain::Holdings => seq![
            ("id"@, ColumnType::Integer),
            ("code"@, ColumnType::Text),
            ("name"@, ColumnType::Text),
            ("cost"@, ColumnType::Real),
            ("quantity"@, ColumnType::Integer),
            ("hold_time"@, ColumnType::Text),
            ("status"@, ColumnType::Integer),
            ("sell_time"@, ColumnType::NullableText),
            ("sell_price"@, ColumnType::NullableReal),
            ("profit"@, ColumnType::NullableReal),
        ],
        Domain::Orders => seq![
            ("id"@, ColumnType::Integer),
            ("code"@, ColumnType::Text),
            ("name"@, ColumnType::Text),
            ("time"@, ColumnType::Text),
            ("quantity"@, ColumnType::Integer),
            ("cost"@, ColumnType::Real),
            ("action"@, ColumnType::Text),
        ],
    }
}

/// The position of a domain's natural key: an imported row takes the place
/// of the row with the same value there. A holding is matched by its stock
/// code; every other table by its primary key.
pub open spec fn key_column(d: Domain) -> int {
    match d {
        Domain::Holdings => 1,
        _ => 0,
    }
}

/// The registry: every domain, in the order a full restore visits them.
pub open spec fn registry() -> Seq<Domain> {
    seq![
        Domain::AppConfig,
        Domain::AllStocks,
        Domain::MySelection,
        Domain::StockReview,
        Domain::SelfReflect,
        Domain::MarketAnalysis,
        Domain::StockLines,
        Domain::TrendLines,
        Domain::Holdings,
        Domain::Orders,
    ]
}

/// The names of a shape's columns, in order.
pub open spec fn column_names(d: Domain) -> Seq<Seq<char>> {
    shape(d).map_values(|c: (Seq<char>, ColumnType)| c.0)
}

/// The items of `s` separated by `", "`.
pub open spec fn join(s: Seq<Seq<char>>) -> Seq<char>
    decreases s.len(),
{
    if s.len() == 0 {
        Seq::empty()
    } else if s.len() == 1 {
        s[0]
    } else {
        join(s.drop_last()) + ", "@ + s.last()
    }
}

/// The statement that reads every row of a domain's table in shape order.
pub open spec fn select_sql(d: Domain) -> Seq<char> {
    "SELECT "@ + join(column_names(d)) + " FROM "@ + domain_name(d)
}

/// The statement that writes one row of a domain's table, replacing the row
/// with the same primary key if there is one.
pub open spec fn upsert_sql(d: Domain) -> Seq<char> {
    "INSERT OR REPLACE INTO "@ + domain_name(d) + " ("@ + join(column_names(d)) + ") VALUES ("@
        + join(Seq::new(shape(d).len(), |i: int| "?"@)) + ")"@
}

/// For a domain whose natural key is not its primary key, the statement
/// that removes the rows with a given natural key; it runs before each row
/// is written. The other domains need none.
pub open spec fn clear_sql(d: Domain) -> Option<Seq<char>> {
    if key_column(d) == 0 {
        None
    } else {
        Some("DELETE FROM "@ + domain_name(d) + " WHERE "@ + column_names(d)[key_column(d)] + " = ?"@)
    }
}

fn column(name: &str, ty: ColumnType) -> (c: Column)
    ensures
        c.name@ == name@,
        c.ty == ty,
{
    Column { name: String::from_str(name), ty }
}

proof fn lemma_join_push(s: Seq<Seq<char>>, i: int)
    requires
        0 <= i < s.len(),
    ensures
        join(s.subrange(0, i + 1)) == if i == 0 {
            s[0]
        } else {
            join(s.subrange(0, i)) + ", "@ + s[i]
        },
{
    let t = s.subrange(0, i + 1);
    assert(t.drop_last() =~= s.subrange(0, i));
}

/// Joins the strings of `parts` with `", "`.
pub fn join_names(parts: &Vec<String>) -> (r: String)
    ensures
        r@ == join(parts@.map_values(|p: String| p@)),
{
    let ghost views = parts@.map_values(|p: String| p@);
    let mut r = String::new();
    let mut i: usize = 0;
    while i < parts.len()
        invariant
            i <= parts@.len(),
            views == parts@.map_values(|p: String| p@),
            r@ == join(views.subrange(0, i as int)),
        decreases parts@.len() - i,
    {
        proof {
            lemma_join_push(views, i as int);
        }
        if i > 0 {
            r.append(", ");
        }
        r.append(parts[i].as_str());
        i += 1;
    }
    assert(views.subrange(0, parts@.len() as int) =~= views);
    r
}

impl Domain {
    /// Every registered domain, in the order a full restore visits them.
    pub fn all() -> (r: Vec<Domain>)
        ensures
            r@ == registry(),
    {
        let r = vec![
            Domain::AppConfig,
            Domain::AllStocks,
            Domain::MySelection,
            Domain::StockReview,
            Domain::SelfReflect,
            Domain::MarketAnalysis,
            Domain::StockLines,
            Domain::TrendLines,
            Domain::Holdings,
            Domain::Orders,
        ];
        assert(r@ =~= registry());
        r
    }

    /// The domain's name.
    pub fn name(&self) -> (r: String)
        ensures
            r@ == domain_name(*self),
    {
        match self {
            Domain::AppConfig => String::from_str("app_config"),
            Domain::AllStocks => String::from_str("all_stocks"),
            Domain::MySelection => String::from_str("my_selection"),
            Domain::StockReview => String::from_str("stock_review"),
            Domain::SelfReflect => String::from_str("self_reflect"),
            Domain::MarketAnalysis => String::from_str("market_analysis"),
            Domain::StockLines => String::from_str("stock_lines"),
            Domain::TrendLines => String::from_str("trend_lines"),
            Domain::Holdings => String::from_str("holdings"),
            Domain::Orders => String::from_str("orders"),
        }
    }

    /// The registered domain with the given name, if there is one.
    pub fn from_name(name: &str) -> (r: Option<Domain>)
        ensures
            r matches Some(d) ==> domain_name(d) == name@,
            r is None <==> (forall|d: Domain| domain_name(d) != name@),
    {
        let wanted = String::from_str(name);
        let all = Domain::all();
        let mut i: usize = 0;
        while i < all.len()
            invariant
                all@ == registry(),
                i <= all@.len(),
                wanted@ == name@,
                forall|j: int| 0 <= j < i ==> domain_name(#[trigger] all@[j]) != name@,
            decreases all@.len() - i,
        {
            let d = all[i];
            if d.name() == wanted {
                return Some(d);
            }
            i += 1;
        }
        proof {
            assert forall|d: Domain| domain_name(d) != name@ by {
                let j: int = match d {
                    Domain::AppConfig => 0,
                    Domain::AllStocks => 1,
                    Domain::MySelection => 2,
                    Domain::StockReview => 3,
                    Domain::SelfReflect => 4,
                    Domain::MarketAnalysis => 5,
                    Domain::StockLines => 6,
                    Domain::TrendLines => 7,
                    Domain::Holdings => 8,
                    Domain::Orders => 9,
                };
                assert(all@[j] == d);
            }
        }
        None
    }
    /// The columns of the domain's table, in shape order.
    pub fn columns(&self) -> (r: Vec<Column>)
        ensures
            r@.len() == shape(*self).len(),
            forall|i: int|
                #![trigger r@[i]]
                0 <= i < r@.len() ==> r@[i].name@ == shape(*self)[i].0 && r@[i].ty == shape(
                    *self,
                )[i].1,
    {
        match self {
            Domain::AppConfig => vec![
                column("key", ColumnType::Text),
                column("value", ColumnType::Text),
            ],
            Domain::AllStocks => vec![
                column("symbol", ColumnType::Text),
                column("name", ColumnType::Text),
            ],
            Domain::MySelection => vec![
                column("code", ColumnType::Text),
                column("name", ColumnType::Text),
                column("color", ColumnType::NullableText),
                column("remark", ColumnType::NullableText),
                column("sort", ColumnType::Integer),
            ],
            Domain::StockReview => vec![
                column("id", ColumnType::Integer),
                column("title", ColumnType::Text),
                column("code", ColumnType::Text),
                column("date", ColumnType::Text),
                column("type", ColumnType::Text),
                column("description", ColumnType::NullableText),
            ],
            Domain::SelfReflect => vec![
                column("id", ColumnType::Integer),
                column("title", ColumnType::Text),
                column("code", ColumnType::Text),
                column("date", ColumnType::Text),
                column("description", ColumnType::NullableText),
            ],
            Domain::MarketAnalysis => vec![
                column("date", ColumnType::Text),
                column("analysis", ColumnType::Text),
                column("status", ColumnType::Text),
            ],
            Domain::StockLines => vec![
                column("id", ColumnType::Integer),
                column("code", ColumnType::Text),
                column("period", ColumnType::Text),
                column("x1", ColumnType::Real),
                column("y1", ColumnType::Real),
                column("x2", ColumnType::Real),
                column("y2", ColumnType::Real),
                column("width", ColumnType::Real),
                column("height", ColumnType::Real),
            ],
            Domain::TrendLines => vec![
                column("id", ColumnType::Integer),
                column("code", ColumnType::Text),
                column("period", ColumnType::Text),
                column("start_time", ColumnType::Integer),
                column("end_time", ColumnType::Integer),
                column("start_price", ColumnType::Real),
                column("end_price", ColumnType::Real),
            ],
            Domain::Holdings => vec![
                column("id", ColumnType::Integer),
                column("code", ColumnType::Text),
                column("name", ColumnType::Text),
                column("cost", ColumnType::Real),
                column("quantity", ColumnType::Integer),
                column("hold_time", ColumnType::Text),
                column("status", ColumnType::Integer),
                column("sell_time", ColumnType::NullableText),
                column("sell_price", ColumnType::NullableReal),
                column("profit", ColumnType::NullableReal),
            ],
            Domain::Orders => vec![
                column("id", ColumnType::Integer),
                column("code", ColumnType::Text),
                column("name", ColumnType::Text),
                column("time", ColumnType::Text),
                column("quantity", ColumnType::Integer),
                column("cost", ColumnType::Real),
                column("action", ColumnType::Text),
            ],
        }
    }

    /// The names of the domain's columns, in shape order.
    pub fn column_names(&self) -> (r: Vec<String>)
        ensures
            r@.map_values(|p: String| p@) == column_names(*self),
    {
        let cols = self.columns();
        let mut r: Vec<String> = Vec::new();
        let mut i: usize = 0;
        while i < cols.len()
            invariant
                i <= cols@.len(),
                cols@.len() == shape(*self).len(),
                forall|k: int|
                    0 <= k < cols@.len() ==> #[trigger] cols@[k].name@ == shape(*self)[k].0,
                r@.len() == i,
                forall|k: int| 0 <= k < i ==> #[trigger] r@[k]@ == shape(*self)[k].0,
            decreases cols@.len() - i,
        {
            r.push(cols[i].name.clone());
            i += 1;
        }
        assert(r@.map_values(|p: String| p@) =~= column_names(*self));
        r
    }

    /// The statement that reads every row of the domain's table, columns in
    /// shape order.
    pub fn select_statement(&self) -> (r: String)
        ensures
            r@ == select_sql(*self),
    {
        let names = self.column_names();
        let mut r = String::from_str("SELECT ");
        let cols = join_names(&names);
        r.append(cols.as_str());
        r.append(" FROM ");
        let table = self.name();
        r.append(table.as_str());
        r
    }

    /// The position of the domain's natural key in its shape.
    pub fn key_index(&self) -> (k: usize)
        ensures
            k == key_column(*self),
            k < shape(*self).len(),
    {
        match self {
            Domain::Holdings => 1,
            _ => 0,
        }
    }

    /// The statement that removes the rows with a given natural key, for a
    /// domain whose natural key is not its primary key.
    pub fn clear_statement(&self) -> (r: Option<String>)
        ensures
            r is None <==> clear_sql(*self) is None,
            r matches Some(s) ==> clear_sql(*self) == Some(s@),
    {
        let k = self.key_index();
        if k == 0 {
            return None;
        }
        let names = self.column_names();
        assert(names@.map_values(|p: String| p@).len() == names@.len());
        assert(column_names(*self).len() == shape(*self).len());
        assert(names@.map_values(|p: String| p@)[k as int] == names@[k as int]@);
        let mut r = String::from_str("DELETE FROM ");
        let table = self.name();
        r.append(table.as_str());
        r.append(" WHERE ");
        r.append(names[k].as_str());
        r.append(" = ?");
        Some(r)
    }

    /// The statement that writes one row of the domain's table and replaces
    /// the row with the same primary key, if any.
    pub fn upsert_statement(&self) -> (r: String)
        ensures
            r@ == upsert_sql(*self),
    {
        let names = self.column_names();
        let mut marks: Vec<String> = Vec::new();
        let n = names.len();
        let mut i: usize = 0;
        while i < n
            invariant
                i <= n,
                marks@.len() == i,
                forall|k: int| 0 <= k < i ==> #[trigger] marks@[k]@ == "?"@,
            decreases n - i,
        {
            marks.push(String::from_str("?"));
            i += 1;
        }
        proof {
            let ghost cn = column_names(*self);
            assert(names@.len() == cn.len());
            assert(marks@.map_values(|p: String| p@) =~= Seq::new(
                shape(*self).len(),
                |i: int| "?"@,
            ));
        }
        let mut r = String::from_str("INSERT OR REPLACE INTO ");
        let table = self.name();
        r.append(table.as_str());
        r.append(" (");
        let cols = join_names(&names);
        r.append(cols.as_str());
        r.append(") VALUES (");
        let qs = join_names(&marks);
        r.append(qs.as_str());
        r.append(")");
        r
    }
}

} // verus!
