//! The database builder: the derived database is rebuilt in full from the
//! in-memory part set, never patched.
//!
//! The builder computes the exact statement sequence of a rebuild — one
//! table per configured category, then one insert per part, in order. The
//! caller executes the statements against a fresh database file inside a
//! single transaction; the catalog files stay the only source of truth.

use vstd::prelude::*;
use crate::config::{Cat, has_category};
use crate::csv_store::{CsvRow, row_of_part};
use crate::part::{Part, PartV};

verus! {

/// One statement of a rebuild: the SQL text and its positional parameters.
#[derive(Debug)]
pub struct SqlStatement {
    pub sql: String,
    pub params: Vec<String>,
}

impl View for SqlStatement {
    type V = (Seq<char>, Seq<Seq<char>>);

    open spec fn view(&self) -> (Seq<char>, Seq<Seq<char>>) {
        (self.sql@, self.params.deep_view())
    }
}

impl DeepView for SqlStatement {
    type V = (Seq<char>, Seq<Seq<char>>);

    open spec fn deep_view(&self) -> (Seq<char>, Seq<Seq<char>>) {
        self.view()
    }
}

/// The fixed 16-column table schema, after the table name.
pub open spec fn create_cols() -> Seq<char> {
    " (id TEXT PRIMARY KEY, Subcategory TEXT, Description TEXT, Value TEXT, Manufacturer TEXT, MPN TEXT, Package TEXT, Supplier1 TEXT, SPN1 TEXT, Supplier2 TEXT, SPN2 TEXT, Symbol TEXT, Footprint TEXT, Datasheet TEXT, Status TEXT, Notes TEXT)"@
}

/// The insert column list and placeholders, after the table name.
pub open spec fn insert_cols() -> Seq<char> {
    " (id, Subcategory, Description, Value, Manufacturer, MPN, Package, Supplier1, SPN1, Supplier2, SPN2, Symbol, Footprint, Datasheet, Status, Notes) VALUES (?1, ?2, ?3, ?4, ?5, ?6, ?7, ?8, ?9, ?10, ?11, ?12, ?13, ?14, ?15, ?16)"@
}

pub open spec fn create_sql_of(cat: Seq<char>) -> Seq<char> {
    "CREATE TABLE "@ + cat + create_cols()
}

pub open spec fn insert_sql_of(cat: Seq<char>) -> Seq<char> {
    "INSERT INTO "@ + cat + insert_cols()
}

/// The table-creation statements: one table per configured category, in
/// configuration order.
pub open spec fn create_stmts(cats: Seq<(String, Cat)>) -> Seq<(Seq<char>, Seq<Seq<char>>)> {
    Seq::new(cats.len(), |i: int| (create_sql_of(cats[i].0@), Seq::<Seq<char>>::empty()))
}

/// The insert a part contributes: its row into its category's table, or
/// nothing when its category has no table.
pub open spec fn insert_stmt(cats: Seq<(String, Cat)>, p: PartV) -> Option<
    (Seq<char>, Seq<Seq<char>>),
> {
    if has_category(cats, p.category) {
        Some((insert_sql_of(p.category), row_of_part(p)))
    } else {
        None
    }
}

/// The row-insert statements of all parts, in part order. A part whose
/// category has no table is skipped.
pub open spec fn insert_stmts(cats: Seq<(String, Cat)>, parts: Seq<PartV>) -> Seq<
    (Seq<char>, Seq<Seq<char>>),
>
    decreases parts.len(),
{
    if parts.len() == 0 {
        Seq::empty()
    } else {
        insert_stmts(cats, parts.drop_last()) + match insert_stmt(cats, parts.last()) {
            Some(s) => seq![s],
            None => Seq::empty(),
        }
    }
}

/// The whole rebuild: every table created, then every row inserted.
pub open spec fn db_plan(cats: Seq<(String, Cat)>, parts: Seq<PartV>) -> Seq<
    (Seq<char>, Seq<Seq<char>>),
> {
    create_stmts(cats) + insert_stmts(cats, parts)
}

/// Computes the statements that rebuild the derived database from the full
/// in-memory part set: on execution against a fresh database the contents
/// exactly reflect the parts passed in.
pub fn build_kicad_db(parts: &Vec<Part>, categories: &Vec<(String, Cat)>) -> (r: Vec<SqlStatement>)
    ensures
        r.deep_view() == db_plan(categories@, parts.deep_view()),
{
    let mut stmts: Vec<SqlStatement> = Vec::new();
    let mut i: usize = 0;
    #[verifier::loop_isolation(false)]
    while i < categories.len()
        invariant
            0 <= i <= categories@.len(),
            stmts.deep_view() =~= create_stmts(categories@.take(i as int)),
        decreases categories@.len() - i,
    {
        let mut sql = String::from_str("CREATE TABLE ");
        sql.append(categories[i].0.as_str());
        sql.append(
            " (id TEXT PRIMARY KEY, Subcategory TEXT, Description TEXT, Value TEXT, Manufacturer TEXT, MPN TEXT, Package TEXT, Supplier1 TEXT, SPN1 TEXT, Supplier2 TEXT, SPN2 TEXT, Symbol TEXT, Footprint TEXT, Datasheet TEXT, Status TEXT, Notes TEXT)",
        );
        let ghost prevv = stmts@;
        let ghost prevdv = stmts.deep_view();
        let st = SqlStatement { sql, params: Vec::new() };
        proof {
            assert(st@.1 =~= Seq::<Seq<char>>::empty());
            assert(st@.0 =~= create_sql_of(categories@[i as int].0@));
        }
        stmts.push(st);
        proof {
            assert forall|m: int| 0 <= m < stmts@.len() implies stmts.deep_view()[m] == create_stmts(
                categories@.take(i + 1),
            )[m] by {
                if m < prevv.len() {
                    assert(stmts@[m] == prevv[m]);
                    assert(prevdv[m] == prevv[m].deep_view());
                }
            }
            assert(stmts.deep_view() =~= create_stmts(categories@.take(i + 1)));
        }
        i = i + 1;
    }
    proof {
        assert(categories@.take(categories@.len() as int) =~= categories@);
        assert(stmts.deep_view() =~= create_stmts(categories@) + insert_stmts(
            categories@,
            parts.deep_view().take(0),
        ));
    }
    let mut k: usize = 0;
    #[verifier::loop_isolation(false)]
    while k < parts.len()
        invariant
            0 <= k <= parts@.len(),
            stmts.deep_view() =~= create_stmts(categories@) + insert_stmts(
                categories@,
                parts.deep_view().take(k as int),
            ),
        decreases parts@.len() - k,
    {
        proof {
            assert(parts.deep_view().take(k + 1).drop_last() =~= parts.deep_view().take(k as int));
            assert(parts.deep_view()[k as int] == parts@[k as int]@);
        }
        let part = &parts[k];
        let mut found = false;
        let mut c: usize = 0;
        #[verifier::loop_isolation(false)]
        while c < categories.len()
            invariant
                0 <= c <= categories@.len(),
                found == (exists|m: int|
                    0 <= m < c && categories@[m].0@ == part.category@),
            decreases categories@.len() - c,
        {
            if crate::text::str_eq(categories[c].0.as_str(), part.category.as_str()) {
                found = true;
            }
            c = c + 1;
        }
        if found {
            let mut sql = String::from_str("INSERT INTO ");
            sql.append(part.category.as_str());
            sql.append(
                " (id, Subcategory, Description, Value, Manufacturer, MPN, Package, Supplier1, SPN1, Supplier2, SPN2, Symbol, Footprint, Datasheet, Status, Notes) VALUES (?1, ?2, ?3, ?4, ?5, ?6, ?7, ?8, ?9, ?10, ?11, ?12, ?13, ?14, ?15, ?16)",
            );
            let params = CsvRow::from_part(part).to_fields();
            let ghost prevv = stmts@;
            let ghost prevdv = stmts.deep_view();
            let st = SqlStatement { sql, params };
            proof {
                assert(st@.0 =~= insert_sql_of(part@.category));
            }
            stmts.push(st);
            proof {
                assert forall|m: int| 0 <= m < stmts@.len() implies stmts.deep_view()[m] == (
                create_stmts(categories@) + insert_stmts(
                    categories@,
                    parts.deep_view().take(k + 1),
                ))[m] by {
                    if m < prevv.len() {
                        assert(stmts@[m] == prevv[m]);
                        assert(prevdv[m] == prevv[m].deep_view());
                    }
                }
                assert(stmts.deep_view() =~= create_stmts(categories@) + insert_stmts(
                    categories@,
                    parts.deep_view().take(k + 1),
                ));
            }
        } else {
            proof {
                assert(insert_stmt(categories@, parts.deep_view()[k as int]) is None);
                assert(stmts.deep_view() =~= create_stmts(categories@) + insert_stmts(
                    categories@,
                    parts.deep_view().take(k + 1),
                ));
            }
        }
        k = k + 1;
    }
    proof {
        assert(parts.deep_view().take(parts@.len() as int) =~= parts.deep_view());
    }
    stmts
}

/// Rebuilding the derived database from a given part set twice in a row
/// issues identical statements both times: the plan is a function of the
/// part set and the configuration alone.
pub proof fn lemma_rebuild_deterministic(
    cats: Seq<(String, Cat)>,
    parts: Seq<PartV>,
    plan1: Seq<(Seq<char>, Seq<Seq<char>>)>,
    plan2: Seq<(Seq<char>, Seq<Seq<char>>)>,
)
    requires
        plan1 == db_plan(cats, parts),
        plan2 == db_plan(cats, parts),
    ensures
        plan1 == plan2,
{
}

} // verus!
