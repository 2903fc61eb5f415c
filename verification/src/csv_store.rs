//! The catalog store: the append-only flat-file persistence layer.
//!
//! A part is stored as one tabular row per category file. This module holds
//! the row codec, the loader that turns file contents into parts, the append
//! planner and the identifier allocator. Reading and writing the files
//! themselves is left to the caller; the tabular encoding is delegated to
//! the `csv` crate behind trusted wrappers.

use vstd::prelude::*;
use crate::config::{Cat, Config, has_category, lookup_cat};
use crate::error::Error;
use crate::part::{Part, PartV};
use crate::text::{
    find_char, idx_first_of, is_digit_char, lemma_idx_first_of, lemma_idx_first_of_at,
    lemma_padded4_digits, lemma_parse_padded4, padded4, parse_u32_spec, parse_u32_str, str_eq,
    u64_to_dec4,
};
use crate::util::{Normalise, none_if_empty_spec};

verus! {

/// The tabular representation of a component. Field order is the column
/// order of the catalog files.
#[derive(Debug)]
pub struct CsvRow {
    pub id: String,
    pub subcategory: String,
    pub description: String,
    pub value: String,
    pub manufacturer: String,
    pub mpn: String,
    pub package: String,
    pub supplier1: String,
    pub spn1: String,
    pub supplier2: String,
    pub spn2: String,
    pub symbol: String,
    pub footprint: String,
    pub datasheet: String,
    pub status: String,
    pub notes: String,
}

impl View for CsvRow {
    type V = Seq<Seq<char>>;

    open spec fn view(&self) -> Seq<Seq<char>> {
        seq![
            self.id@,
            self.subcategory@,
            self.description@,
            self.value@,
            self.manufacturer@,
            self.mpn@,
            self.package@,
            self.supplier1@,
            self.spn1@,
            self.supplier2@,
            self.spn2@,
            self.symbol@,
            self.footprint@,
            self.datasheet@,
            self.status@,
            self.notes@,
        ]
    }
}

impl DeepView for CsvRow {
    type V = Seq<Seq<char>>;

    open spec fn deep_view(&self) -> Seq<Seq<char>> {
        self.view()
    }
}

/// The column headers of a catalog file, in order.
pub open spec fn col_names() -> Seq<Seq<char>> {
    seq![
        "ID"@,
        "Subcategory"@,
        "Description"@,
        "Value"@,
        "Manufacturer"@,
        "MPN"@,
        "Package"@,
        "Supplier1"@,
        "SPN1"@,
        "Supplier2"@,
        "SPN2"@,
        "Symbol"@,
        "Footprint"@,
        "Datasheet"@,
        "Status"@,
        "Notes"@,
    ]
}

pub open spec fn opt_or_empty(o: Option<Seq<char>>) -> Seq<char> {
    match o {
        Some(v) => v,
        None => Seq::empty(),
    }
}

/// Decoding a row: absent optional attributes come back as absent values;
/// the category tag is not part of the row.
pub open spec fn part_of_row(r: Seq<Seq<char>>) -> PartV
    recommends
        r.len() == 16,
{
    PartV {
        id: Some(r[0]),
        category: Seq::empty(),
        subcategory: r[1],
        description: r[2],
        value: r[3],
        manufacturer: none_if_empty_spec(r[4]),
        mpn: none_if_empty_spec(r[5]),
        package: none_if_empty_spec(r[6]),
        supplier1: none_if_empty_spec(r[7]),
        spn1: none_if_empty_spec(r[8]),
        supplier2: none_if_empty_spec(r[9]),
        spn2: none_if_empty_spec(r[10]),
        symbol: r[11],
        footprint: none_if_empty_spec(r[12]),
        datasheet: none_if_empty_spec(r[13]),
        status: r[14],
        notes: none_if_empty_spec(r[15]),
    }
}

/// Encoding a part: absent optional attributes serialize as empty fields.
pub open spec fn row_of_part(p: PartV) -> Seq<Seq<char>> {
    seq![
        opt_or_empty(p.id),
        p.subcategory,
        p.description,
        p.value,
        opt_or_empty(p.manufacturer),
        opt_or_empty(p.mpn),
        opt_or_empty(p.package),
        opt_or_empty(p.supplier1),
        opt_or_empty(p.spn1),
        opt_or_empty(p.supplier2),
        opt_or_empty(p.spn2),
        p.symbol,
        opt_or_empty(p.footprint),
        opt_or_empty(p.datasheet),
        p.status,
        opt_or_empty(p.notes),
    ]
}

/// Encoding a part as a row and decoding the row restores the part, for any
/// combination of present and absent optional attributes; only the category
/// tag, which the row does not carry, is cleared.
pub proof fn lemma_row_roundtrip(p: PartV)
    requires
        p.wf(),
        (p.id is Some),
    ensures
        part_of_row(row_of_part(p)) == (PartV { category: Seq::<char>::empty(), ..p }),
{
    assert(part_of_row(row_of_part(p)) =~= PartV { category: Seq::<char>::empty(), ..p });
}

fn opt_clone_or_empty(o: &Option<String>) -> (r: String)
    ensures
        r@ == opt_or_empty(o.deep_view()),
{
    match o {
        Some(s) => s.clone(),
        None => String::new(),
    }
}

impl CsvRow {
    /// Decodes this row into a part; the category tag is supplied by the
    /// store that owns the file the row came from.
    pub fn into_part(self) -> (p: Part)
        ensures
            p@ == part_of_row(self@),
    {
        let p = Part {
            id: Some(self.id),
            category: String::new(),
            subcategory: self.subcategory,
            description: self.description,
            value: self.value,
            manufacturer: self.manufacturer.none_if_empty(),
            mpn: self.mpn.none_if_empty(),
            package: self.package.none_if_empty(),
            supplier1: self.supplier1.none_if_empty(),
            spn1: self.spn1.none_if_empty(),
            supplier2: self.supplier2.none_if_empty(),
            spn2: self.spn2.none_if_empty(),
            symbol: self.symbol,
            footprint: self.footprint.none_if_empty(),
            datasheet: self.datasheet.none_if_empty(),
            status: self.status,
            notes: self.notes.none_if_empty(),
        };
        proof {
            assert(p@ =~= part_of_row(self@));
        }
        p
    }

    /// Encodes a part as a row.
    pub fn from_part(p: &Part) -> (r: CsvRow)
        ensures
            r@ == row_of_part(p@),
    {
        let r = CsvRow {
            id: opt_clone_or_empty(&p.id),
            subcategory: p.subcategory.clone(),
            description: p.description.clone(),
            value: p.value.clone(),
            manufacturer: opt_clone_or_empty(&p.manufacturer),
            mpn: opt_clone_or_empty(&p.mpn),
            package: opt_clone_or_empty(&p.package),
            supplier1: opt_clone_or_empty(&p.supplier1),
            spn1: opt_clone_or_empty(&p.spn1),
            supplier2: opt_clone_or_empty(&p.supplier2),
            spn2: opt_clone_or_empty(&p.spn2),
            symbol: p.symbol.clone(),
            footprint: opt_clone_or_empty(&p.footprint),
            datasheet: opt_clone_or_empty(&p.datasheet),
            status: p.status.clone(),
            notes: opt_clone_or_empty(&p.notes),
        };
        proof {
            assert(r@ =~= row_of_part(p@));
        }
        r
    }

    /// The row's fields in column order.
    pub fn to_fields(self) -> (r: Vec<String>)
        ensures
            r.deep_view() == self@,
    {
        let ghost v = self@;
        let r = vec![
            self.id,
            self.subcategory,
            self.description,
            self.value,
            self.manufacturer,
            self.mpn,
            self.package,
            self.supplier1,
            self.spn1,
            self.supplier2,
            self.spn2,
            self.symbol,
            self.footprint,
            self.datasheet,
            self.status,
            self.notes,
        ];
        proof {
            assert(r.deep_view() =~= v);
        }
        r
    }
}

/// The header fields of a catalog file.
pub fn header_fields() -> (r: Vec<String>)
    ensures
        r.deep_view() == col_names(),
{
    let r = vec![
        String::from_str("ID"),
        String::from_str("Subcategory"),
        String::from_str("Description"),
        String::from_str("Value"),
        String::from_str("Manufacturer"),
        String::from_str("MPN"),
        String::from_str("Package"),
        String::from_str("Supplier1"),
        String::from_str("SPN1"),
        String::from_str("Supplier2"),
        String::from_str("SPN2"),
        String::from_str("Symbol"),
        String::from_str("Footprint"),
        String::from_str("Datasheet"),
        String::from_str("Status"),
        String::from_str("Notes"),
    ];
    proof {
        assert(r.deep_view() =~= col_names());
    }
    r
}

/// What parsing tabular text yields: the header row and the records, or
/// nothing when the text is not well-formed. The result is a function of
/// the text alone.
pub uninterp spec fn csv_table_of(text: Seq<char>) -> Option<(Seq<Seq<char>>, Seq<Seq<Seq<char>>>)>;

/// Relies on `csv::Reader` (`ReaderBuilder::from_reader`, `headers`,
/// `records`): the first row is the header, the rest are the records; any
/// parse or encoding error fails the whole read.
#[verifier::external_body]
fn csv_parse(text: &str) -> (r: Option<(Vec<String>, Vec<Vec<String>>)>)
    ensures
        r.deep_view() == csv_table_of(text@),
{
    let mut rdr = csv::ReaderBuilder::new().from_reader(text.as_bytes());
    let headers: Vec<String> = match rdr.headers() {
        Ok(h) => h.iter().map(|f| f.to_string()).collect(),
        Err(_) => return None,
    };
    let mut records: Vec<Vec<String>> = Vec::new();
    for rec in rdr.records() {
        match rec {
            Ok(sr) => records.push(sr.iter().map(|f| f.to_string()).collect()),
            Err(_) => return None,
        }
    }
    Some((headers, records))
}

/// Index of the first header equal to `name`, if any.
pub open spec fn find_col(hs: Seq<Seq<char>>, name: Seq<char>) -> Option<int>
    decreases hs.len(),
{
    if hs.len() == 0 {
        None
    } else if hs[0] == name {
        Some(0int)
    } else {
        match find_col(hs.drop_first(), name) {
            Some(i) => Some(i + 1),
            None => None,
        }
    }
}

proof fn lemma_find_col_at(hs: Seq<Seq<char>>, name: Seq<char>, i: int)
    requires
        0 <= i < hs.len(),
        forall|k: int| 0 <= k < i ==> hs[k] != name,
        hs[i] == name,
    ensures
        find_col(hs, name) == Some(i),
    decreases i,
{
    if i == 0 {
    } else {
        let d = hs.drop_first();
        assert(forall|k: int| 0 <= k < i - 1 ==> d[k] != name);
        lemma_find_col_at(d, name, i - 1);
    }
}

proof fn lemma_find_col_none(hs: Seq<Seq<char>>, name: Seq<char>)
    requires
        forall|k: int| 0 <= k < hs.len() ==> hs[k] != name,
    ensures
        find_col(hs, name) is None,
    decreases hs.len(),
{
    if hs.len() > 0 {
        let d = hs.drop_first();
        assert(forall|k: int| 0 <= k < d.len() ==> d[k] != name);
        lemma_find_col_none(d, name);
    }
}

fn find_col_exec(hs: &Vec<String>, name: &str) -> (r: Option<usize>)
    ensures
        match r {
            Some(i) => find_col(hs.deep_view(), name@) == Some(i as int),
            None => find_col(hs.deep_view(), name@) is None,
        },
{
    let n = hs.len();
    let mut i: usize = 0;
    #[verifier::loop_isolation(false)]
    while i < n
        invariant
            0 <= i <= n,
            n == hs@.len(),
            forall|k: int| 0 <= k < i ==> hs.deep_view()[k] != name@,
        decreases n - i,
    {
        if str_eq(hs[i].as_str(), name) {
            proof {
                lemma_find_col_at(hs.deep_view(), name@, i as int);
            }
            return Some(i);
        }
        i = i + 1;
    }
    proof {
        lemma_find_col_none(hs.deep_view(), name@);
    }
    None
}

pub open spec fn opt_idx(o: Option<int>) -> int {
    match o {
        Some(i) => i,
        None => 0,
    }
}

/// The column index of each catalog attribute in the header row, or nothing
/// when a required column is missing.
pub open spec fn cols_spec(hs: Seq<Seq<char>>) -> Option<Seq<int>> {
    if forall|j: int| 0 <= j < 16 ==> find_col(hs, col_names()[j]) is Some {
        Some(Seq::new(16, |j: int| opt_idx(find_col(hs, col_names()[j]))))
    } else {
        None
    }
}

pub open spec fn rec_ok(cols: Seq<int>, rec: Seq<Seq<char>>) -> bool {
    forall|j: int| 0 <= j < cols.len() ==> 0 <= #[trigger] cols[j] < rec.len()
}

/// The catalog attributes of one record, read through the column map.
pub open spec fn rec_fields(cols: Seq<int>, rec: Seq<Seq<char>>) -> Seq<Seq<char>> {
    Seq::new(cols.len(), |j: int| rec[cols[j]])
}

pub open spec fn tagged(cat: Seq<char>, p: PartV) -> PartV {
    PartV { category: cat, ..p }
}

/// What loading one existing category file yields: every record decoded as
/// a part tagged with the category, or nothing when the text is malformed.
/// A file with a header but no records, or an empty file, yields no parts.
pub open spec fn load_file_spec(cat: Seq<char>, text: Seq<char>) -> Option<Seq<PartV>> {
    match csv_table_of(text) {
        None => None,
        Some(table) => if table.1.len() == 0 {
            Some(Seq::empty())
        } else {
            match cols_spec(table.0) {
                None => None,
                Some(cols) => if forall|k: int| 0 <= k < table.1.len() ==> rec_ok(
                    cols,
                    table.1[k],
                ) {
                    Some(
                        Seq::new(
                            table.1.len() as nat,
                            |k: int| tagged(cat, part_of_row(rec_fields(cols, table.1[k]))),
                        ),
                    )
                } else {
                    None
                },
            }
        },
    }
}

/// Every part the store decodes meets the structural invariant: optional
/// attributes read from a row are absent or hold non-blank content.
pub proof fn lemma_loaded_parts_wf(cat: Seq<char>, text: Seq<char>)
    ensures
        (load_file_spec(cat, text) matches Some(ps) ==> forall|k: int|
            0 <= k < ps.len() ==> (#[trigger] ps[k]).wf()),
{
    if load_file_spec(cat, text) is Some {
        let ps = load_file_spec(cat, text).unwrap();
        assert forall|k: int| 0 <= k < ps.len() implies (#[trigger] ps[k]).wf() by {
            if ps.len() > 0 {
                let table = csv_table_of(text).unwrap();
                let cols = cols_spec(table.0).unwrap();
                assert(ps[k] == tagged(cat, part_of_row(rec_fields(cols, table.1[k]))));
            }
        }
    }
}

/// Loads the parts of one existing category file.
pub fn parts_from_file(category: &str, text: &str) -> (r: Result<Vec<Part>, Error>)
    ensures
        match r {
            Ok(parts) => load_file_spec(category@, text@) == Some(parts.deep_view()),
            Err(e) => load_file_spec(category@, text@) is None && e == Error::MalformedRow,
        },
{
    let table = match csv_parse(text) {
        Some(t) => t,
        None => {
            return Err(Error::MalformedRow);
        },
    };
    let (headers, records) = table;
    if records.len() == 0 {
        let parts: Vec<Part> = Vec::new();
        proof {
            assert(parts.deep_view() =~= Seq::<PartV>::empty());
        }
        return Ok(parts);
    }
    let names = header_fields();
    let mut cols: Vec<usize> = Vec::new();
    let mut j: usize = 0;
    #[verifier::loop_isolation(false)]
    while j < 16
        invariant
            0 <= j <= 16,
            names.deep_view() == col_names(),
            cols@.len() == j,
            forall|k: int| 0 <= k < j ==> find_col(headers.deep_view(), col_names()[k]) == Some(
                cols@[k] as int,
            ),
        decreases 16 - j,
    {
        match find_col_exec(&headers, names[j].as_str()) {
            Some(i) => {
                cols.push(i);
            },
            None => {
                return Err(Error::MalformedRow);
            },
        }
        j = j + 1;
    }
    let ghost cols_s: Seq<int> = Seq::new(16, |k: int| opt_idx(find_col(headers.deep_view(), col_names()[k])));
    proof {
        assert(cols_spec(headers.deep_view()) == Some(cols_s));
        assert(forall|k: int| 0 <= k < 16 ==> cols_s[k] == cols@[k] as int);
    }
    let mut parts: Vec<Part> = Vec::new();
    let mut k: usize = 0;
    #[verifier::loop_isolation(false)]
    while k < records.len()
        invariant
            0 <= k <= records@.len(),
            cols@.len() == 16,
            forall|m: int| 0 <= m < 16 ==> cols_s[m] == cols@[m] as int,
            cols_spec(headers.deep_view()) == Some(cols_s),
            forall|m: int| 0 <= m < k ==> rec_ok(cols_s, records.deep_view()[m]),
            parts.deep_view() =~= Seq::new(
                k as nat,
                |m: int| tagged(category@, part_of_row(rec_fields(cols_s, records.deep_view()[m]))),
            ),
        decreases records@.len() - k,
    {
        let rec = &records[k];
        let mut j2: usize = 0;
        #[verifier::loop_isolation(false)]
        while j2 < 16
            invariant
                0 <= j2 <= 16,
                cols@.len() == 16,
                forall|m: int| 0 <= m < j2 ==> cols@[m] < rec@.len(),
            decreases 16 - j2,
        {
            if cols[j2] >= rec.len() {
                proof {
                    assert(!rec_ok(cols_s, records.deep_view()[k as int]));
                }
                return Err(Error::MalformedRow);
            }
            j2 = j2 + 1;
        }
        proof {
            assert(rec.deep_view() == records.deep_view()[k as int]);
            assert(rec_ok(cols_s, records.deep_view()[k as int]));
        }
        let row = CsvRow {
            id: rec[cols[0]].clone(),
            subcategory: rec[cols[1]].clone(),
            description: rec[cols[2]].clone(),
            value: rec[cols[3]].clone(),
            manufacturer: rec[cols[4]].clone(),
            mpn: rec[cols[5]].clone(),
            package: rec[cols[6]].clone(),
            supplier1: rec[cols[7]].clone(),
            spn1: rec[cols[8]].clone(),
            supplier2: rec[cols[9]].clone(),
            spn2: rec[cols[10]].clone(),
            symbol: rec[cols[11]].clone(),
            footprint: rec[cols[12]].clone(),
            datasheet: rec[cols[13]].clone(),
            status: rec[cols[14]].clone(),
            notes: rec[cols[15]].clone(),
        };
        proof {
            assert(row@ =~= rec_fields(cols_s, records.deep_view()[k as int]));
        }
        let mut part = row.into_part();
        part.category = category.to_owned();
        proof {
            assert(part@ =~= tagged(
                category@,
                part_of_row(rec_fields(cols_s, records.deep_view()[k as int])),
            ));
        }
        let ghost prevv = parts@;
        let ghost prevdv = parts.deep_view();
        parts.push(part);
        proof {
            assert forall|m: int| 0 <= m < k + 1 implies parts.deep_view()[m] == tagged(
                category@,
                part_of_row(rec_fields(cols_s, records.deep_view()[m])),
            ) by {
                assert(parts.deep_view()[m] == parts@[m].deep_view());
                if m < k {
                    assert(parts@[m] == prevv[m]);
                    assert(prevdv[m] == prevv[m].deep_view());
                } else {
                    assert(parts@[m] == part);
                }
            }
            assert(parts.deep_view() =~= Seq::new(
                (k + 1) as nat,
                |m: int| tagged(category@, part_of_row(rec_fields(cols_s, records.deep_view()[m]))),
            ));
        }
        k = k + 1;
    }
    proof {
        assert(records.deep_view().len() == records@.len());
        assert(load_file_spec(category@, text@) == Some(parts.deep_view()));
    }
    Ok(parts)
}

/// What loading the whole catalog yields: the parts of each configured
/// category in order, a missing file meaning zero parts for that category,
/// or nothing when any existing file is malformed.
pub open spec fn load_all_spec(
    cats: Seq<(String, Cat)>,
    files: Seq<Option<Seq<char>>>,
) -> Option<Seq<PartV>>
    recommends
        files.len() == cats.len(),
    decreases cats.len(),
{
    if cats.len() == 0 {
        Some(Seq::empty())
    } else {
        match load_all_spec(cats.drop_last(), files.drop_last()) {
            None => None,
            Some(init) => match files.last() {
                None => Some(init),
                Some(text) => match load_file_spec(cats.last().0@, text) {
                    None => None,
                    Some(ps) => Some(init + ps),
                },
            },
        }
    }
}

proof fn lemma_load_all_none(cats: Seq<(String, Cat)>, files: Seq<Option<Seq<char>>>, m: int)
    requires
        0 <= m <= cats.len(),
        files.len() == cats.len(),
        (load_all_spec(cats.take(m), files.take(m)) is None),
    ensures
        load_all_spec(cats, files) is None,
    decreases cats.len() - m,
{
    if m == cats.len() {
        assert(cats.take(m) =~= cats);
        assert(files.take(m) =~= files);
    } else {
        assert(cats.drop_last().take(m) =~= cats.take(m));
        assert(files.drop_last().take(m) =~= files.take(m));
        lemma_load_all_none(cats.drop_last(), files.drop_last(), m);
    }
}

/// Loads all parts from the per-category file contents, `files[i]` holding
/// the text of `categories[i]`'s backing file, or nothing when that file
/// does not exist.
pub fn load_all_parts(categories: &Vec<(String, Cat)>, files: &Vec<Option<String>>) -> (r: Result<
    Vec<Part>,
    Error,
>)
    requires
        files@.len() == categories@.len(),
    ensures
        match r {
            Ok(parts) => load_all_spec(categories@, files.deep_view()) == Some(parts.deep_view()),
            Err(e) => load_all_spec(categories@, files.deep_view()) is None && e
                == Error::MalformedRow,
        },
{
    let mut parts: Vec<Part> = Vec::new();
    let mut i: usize = 0;
    proof {
        assert(categories@.take(0) =~= Seq::<(String, Cat)>::empty());
        assert(files.deep_view().take(0) =~= Seq::<Option<Seq<char>>>::empty());
        assert(parts.deep_view() =~= Seq::<PartV>::empty());
    }
    #[verifier::loop_isolation(false)]
    while i < categories.len()
        invariant
            0 <= i <= categories@.len(),
            files.deep_view().len() == categories@.len(),
            load_all_spec(categories@.take(i as int), files.deep_view().take(i as int)) == Some(
                parts.deep_view(),
            ),
        decreases categories@.len() - i,
    {
        proof {
            assert(categories@.take(i + 1).drop_last() =~= categories@.take(i as int));
            assert(files.deep_view().take(i + 1).drop_last() =~= files.deep_view().take(i as int));
            assert(files.deep_view()[i as int] == files@[i as int].deep_view());
        }
        match &files[i] {
            None => {},
            Some(text) => {
                match parts_from_file(categories[i].0.as_str(), text.as_str()) {
                    Ok(mut ps) => {
                        let ghost prevdv = parts.deep_view();
                        let ghost psdv = ps.deep_view();
                        let ghost prevv = parts@;
                        let ghost psv = ps@;
                        parts.append(&mut ps);
                        proof {
                            assert(parts@ == prevv + psv);
                            assert forall|m: int| 0 <= m < parts@.len() implies
                                parts.deep_view()[m] == (prevdv + psdv)[m] by {
                                if m < prevv.len() {
                                    assert(parts@[m] == prevv[m]);
                                } else {
                                    assert(parts@[m] == psv[m - prevv.len()]);
                                }
                            }
                            assert(parts.deep_view() =~= prevdv + psdv);
                        }
                    },
                    Err(e) => {
                        proof {
                            lemma_load_all_none(categories@, files.deep_view(), i + 1);
                        }
                        return Err(e);
                    },
                }
            },
        }
        i = i + 1;
    }
    proof {
        assert(categories@.take(categories@.len() as int) =~= categories@);
        assert(files.deep_view().take(categories@.len() as int) =~= files.deep_view());
    }
    Ok(parts)
}

/// The numeric suffix that `id` contributes to allocation under `code`:
/// the identifier's prefix before the first `-` must equal `code`, and the
/// segment after it must parse as a decimal number. Anything else is
/// ignored, not an error.
pub open spec fn id_suffix_for(id: Seq<char>, code: Seq<char>) -> Option<u32> {
    let i = idx_first_of(id, '-');
    if i == id.len() {
        None
    } else if id.take(i) != code {
        None
    } else {
        let rest = id.skip(i + 1);
        parse_u32_spec(rest.take(idx_first_of(rest, '-')))
    }
}

/// Decides `id_suffix_for` on real identifiers.
fn id_suffix_for_code(id: &str, code: &str) -> (r: Option<u32>)
    ensures
        r == id_suffix_for(id@, code@),
{
    let n = id.unicode_len();
    let i = find_char(id, '-');
    if i == n {
        return None;
    }
    let first = id.substring_char(0, i);
    proof {
        assert(first@ =~= id@.take(i as int));
    }
    if !str_eq(first, code) {
        return None;
    }
    let rest = id.substring_char(i + 1, n);
    proof {
        assert(rest@ =~= id@.skip(i + 1));
    }
    let j = find_char(rest, '-');
    let second = rest.substring_char(0, j);
    proof {
        assert(second@ =~= rest@.take(j as int));
    }
    parse_u32_str(second)
}

/// The suffix value a part contributes under `code`; 0 when it contributes
/// nothing.
pub open spec fn suffix_val(p: PartV, code: Seq<char>) -> nat {
    match p.id {
        Some(id) => match id_suffix_for(id, code) {
            Some(v) => v as nat,
            None => 0,
        },
        None => 0,
    }
}

/// The largest numeric suffix any part of the catalog contributes under
/// `code`; 0 when none contributes.
pub open spec fn max_suffix(parts: Seq<PartV>, code: Seq<char>) -> nat
    decreases parts.len(),
{
    if parts.len() == 0 {
        0
    } else {
        let rest = max_suffix(parts.drop_last(), code);
        let cur = suffix_val(parts.last(), code);
        if cur > rest {
            cur
        } else {
            rest
        }
    }
}

/// The identifier the allocator assigns next under `code`.
pub open spec fn next_id_of(parts: Seq<PartV>, code: Seq<char>) -> Seq<char> {
    code + seq!['-'] + padded4(max_suffix(parts, code) + 1)
}

/// Computes the next unique identifier for a category: `code`, a dash, and
/// one more than the largest suffix any existing identifier with prefix
/// `code` carries, zero-padded to four digits.
pub fn get_next_id(parts: &Vec<Part>, category_code: &str) -> (r: Result<String, Error>)
    ensures
        (r matches Ok(id) && id@ == next_id_of(parts.deep_view(), category_code@)),
{
    let mut mx: u32 = 0;
    let mut i: usize = 0;
    proof {
        assert(parts.deep_view().take(0) =~= Seq::<PartV>::empty());
    }
    #[verifier::loop_isolation(false)]
    while i < parts.len()
        invariant
            0 <= i <= parts@.len(),
            mx as nat == max_suffix(parts.deep_view().take(i as int), category_code@),
        decreases parts@.len() - i,
    {
        proof {
            assert(parts.deep_view().take(i + 1).drop_last() =~= parts.deep_view().take(i as int));
            assert(parts.deep_view()[i as int] == parts@[i as int]@);
        }
        let p = &parts[i];
        let cur: u32 = match &p.id {
            Some(id) => match id_suffix_for_code(id.as_str(), category_code) {
                Some(v) => v,
                None => 0,
            },
            None => 0,
        };
        if cur > mx {
            mx = cur;
        }
        i = i + 1;
    }
    proof {
        assert(parts.deep_view().take(parts@.len() as int) =~= parts.deep_view());
    }
    let mut s = String::from_str(category_code);
    crate::text::push_char(&mut s, '-');
    let num = u64_to_dec4(mx as u64 + 1);
    s.append(num.as_str());
    proof {
        assert(s@ =~= next_id_of(parts.deep_view(), category_code@));
    }
    Ok(s)
}

/// The identifier the allocator returns parses back under `code`: it
/// carries suffix `max + 1`, provided the category code itself holds no
/// dash and the counter has room.
pub proof fn lemma_next_id_counts(parts: Seq<PartV>, code: Seq<char>)
    requires
        idx_first_of(code, '-') == code.len(),
        max_suffix(parts, code) + 1 <= u32::MAX,
    ensures
        id_suffix_for(next_id_of(parts, code), code) == Some(
            (max_suffix(parts, code) + 1) as u32,
        ),
{
    let m = max_suffix(parts, code) + 1;
    let pad = padded4(m);
    let id = next_id_of(parts, code);
    assert(id =~= code + seq!['-'] + pad);
    lemma_idx_first_of(code, '-');
    lemma_padded4_digits(m);
    assert forall|k: int| 0 <= k < code.len() implies id[k] != '-' by {
        assert(id[k] == code[k]);
    }
    assert(id[code.len() as int] == '-');
    lemma_idx_first_of_at(id, '-', code.len() as int);
    assert(id.take(code.len() as int) =~= code);
    let rest = id.skip(code.len() as int + 1);
    assert(rest =~= pad);
    assert forall|k: int| 0 <= k < rest.len() implies rest[k] != '-' by {
        assert(is_digit_char(pad[k]));
    }
    lemma_idx_first_of_at(rest, '-', rest.len() as int);
    assert(rest.take(rest.len() as int) =~= pad);
    lemma_parse_padded4(m);
}

proof fn lemma_suffix_le(parts: Seq<PartV>, code: Seq<char>, k: int)
    requires
        0 <= k < parts.len(),
    ensures
        suffix_val(parts[k], code) <= max_suffix(parts, code),
    decreases parts.len(),
{
    if k == parts.len() - 1 {
    } else {
        lemma_suffix_le(parts.drop_last(), code, k);
        assert(parts.drop_last()[k] == parts[k]);
    }
}

/// The allocator assigns each identifier exactly once: what it returns is
/// carried by no part already in the catalog.
pub proof fn lemma_assigned_id_is_fresh(parts: Seq<PartV>, code: Seq<char>, k: int)
    requires
        idx_first_of(code, '-') == code.len(),
        max_suffix(parts, code) + 1 <= u32::MAX,
        0 <= k < parts.len(),
    ensures
        parts[k].id != Some(next_id_of(parts, code)),
{
    if parts[k].id == Some(next_id_of(parts, code)) {
        lemma_next_id_counts(parts, code);
        lemma_suffix_le(parts, code, k);
        assert(suffix_val(parts[k], code) == max_suffix(parts, code) + 1);
        assert(false);
    }
}

/// A part whose identifier contributes nothing under `code` — any part of
/// another category among them — leaves the allocator's choice unchanged.
pub proof fn lemma_next_id_ignores_other(parts: Seq<PartV>, p: PartV, code: Seq<char>)
    requires
        suffix_val(p, code) == 0,
    ensures
        next_id_of(parts.push(p), code) == next_id_of(parts, code),
{
    assert(parts.push(p).drop_last() =~= parts);
}

/// What encoding one record yields: the fields quoted as needed, separated
/// by commas and terminated by a newline. The result is a function of the
/// fields alone.
pub uninterp spec fn csv_line_of(fields: Seq<Seq<char>>) -> Seq<char>;

/// Relies on `csv::Writer` (`write_record` into an in-memory buffer):
/// encoding one record succeeds — writing to a `Vec<u8>` cannot fail, a
/// single record sets the expected field count, and string fields keep the
/// buffer valid UTF-8.
#[verifier::external_body]
fn csv_encode_record(fields: &Vec<String>) -> (r: String)
    ensures
        r@ == csv_line_of(fields.deep_view()),
{
    let mut wtr = csv::WriterBuilder::new().has_headers(false).from_writer(Vec::new());
    wtr.write_record(fields.iter()).expect("in-memory record write");
    let buf = wtr.into_inner().expect("in-memory flush");
    String::from_utf8(buf).expect("encoded fields are UTF-8")
}

/// A durable append to exactly one category file: which file, and the text
/// to add at its end.
#[derive(Debug)]
pub struct AppendPlan {
    pub filename: String,
    pub content: String,
}

/// What an append adds to the backing file: the part's row, preceded by the
/// header row when the file does not exist yet.
pub open spec fn append_content(p: PartV, file_exists: bool) -> Seq<char> {
    if file_exists {
        csv_line_of(row_of_part(p))
    } else {
        csv_line_of(col_names()) + csv_line_of(row_of_part(p))
    }
}

/// Plans the durable append of one part: resolves the part's category to
/// its backing file and encodes the row, with a header first when the file
/// does not exist yet. Failure to resolve the category is a fatal
/// configuration-mismatch error.
pub fn insert_part(part: &Part, config: &Config, file_exists: bool) -> (r: Result<
    AppendPlan,
    Error,
>)
    ensures
        match r {
            Ok(plan) => has_category(config.cat@, part.category@) && (lookup_cat(
                config.cat@,
                part.category@,
            ) matches Some(c) && plan.filename@ == c.filename@) && plan.content@
                == append_content(part@, file_exists),
            Err(e) => e == Error::UnknownCategory && !has_category(config.cat@, part.category@),
        },
{
    let idx = match config.find_cat(part.category.as_str()) {
        Some(i) => i,
        None => {
            return Err(Error::UnknownCategory);
        },
    };
    let filename = config.cat[idx].1.filename.clone();
    let row = CsvRow::from_part(part);
    let fields = row.to_fields();
    let line = csv_encode_record(&fields);
    let content = if !file_exists {
        let hdr_fields = header_fields();
        let hdr = csv_encode_record(&hdr_fields);
        hdr.concat(line.as_str())
    } else {
        line
    };
    Ok(AppendPlan { filename, content })
}

} // verus!
