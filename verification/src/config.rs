//! The active project configuration: category table, paths and credentials.
//!
//! Loading and path resolution are file-system work and live outside the
//! library; the library receives the loaded values.

use vstd::prelude::*;
use crate::text::str_eq;

verus! {

/// Credentials for the remote product-lookup service.
#[derive(Debug, Clone)]
pub struct Digikey {
    pub client_id: String,
    pub client_secret: String,
}

/// The optional credentials file contents.
#[derive(Debug)]
pub struct Secrets {
    pub digikey: Option<Digikey>,
}

/// One configured category: its identifier prefix, backing file and
/// allowed subcategory labels.
#[derive(Debug, Clone)]
pub struct Cat {
    pub code: String,
    pub filename: String,
    pub subcategories: Vec<String>,
}

/// The mathematical value of a category entry.
#[verifier::ext_equal]
pub ghost struct CatV {
    pub code: Seq<char>,
    pub filename: Seq<char>,
    pub subcategories: Seq<Seq<char>>,
}

impl View for Cat {
    type V = CatV;

    open spec fn view(&self) -> CatV {
        CatV {
            code: self.code@,
            filename: self.filename@,
            subcategories: self.subcategories.deep_view(),
        }
    }
}

impl DeepView for Cat {
    type V = CatV;

    open spec fn deep_view(&self) -> CatV {
        self.view()
    }
}

/// The project configuration. The category table is ordered as configured;
/// names are unique.
#[derive(Debug)]
pub struct Config {
    pub editor_cmd: String,
    pub db_file_path: String,
    pub csv_dir_path: String,
    pub history_dir_path: String,
    pub digikey: Option<Digikey>,
    pub cat: Vec<(String, Cat)>,
}

/// Whether `name` is a key of the category table.
pub open spec fn has_category(cats: Seq<(String, Cat)>, name: Seq<char>) -> bool {
    exists|i: int| 0 <= i < cats.len() && cats[i].0@ == name
}

/// The first category entry under `name`, if any.
pub open spec fn lookup_cat(cats: Seq<(String, Cat)>, name: Seq<char>) -> Option<Cat>
    decreases cats.len(),
{
    if cats.len() == 0 {
        None
    } else if cats[0].0@ == name {
        Some(cats[0].1)
    } else {
        lookup_cat(cats.drop_first(), name)
    }
}

/// Position of the first category entry named `name`; the length when
/// there is none.
pub open spec fn cat_pos(cats: Seq<(String, Cat)>, name: Seq<char>) -> int
    decreases cats.len(),
{
    if cats.len() == 0 {
        0
    } else if cats[0].0@ == name {
        0
    } else {
        1 + cat_pos(cats.drop_first(), name)
    }
}

proof fn lemma_cat_pos_at(cats: Seq<(String, Cat)>, name: Seq<char>, i: int)
    requires
        0 <= i < cats.len(),
        forall|k: int| 0 <= k < i ==> cats[k].0@ != name,
        cats[i].0@ == name,
    ensures
        cat_pos(cats, name) == i,
    decreases i,
{
    if i == 0 {
    } else {
        let d = cats.drop_first();
        assert(forall|k: int| 0 <= k < i - 1 ==> d[k].0@ != name);
        lemma_cat_pos_at(d, name, i - 1);
    }
}

impl Config {
    /// Index of the first category entry named `name`, if any.
    pub fn find_cat(&self, name: &str) -> (r: Option<usize>)
        ensures
            match r {
                Some(i) => i < self.cat@.len() && self.cat@[i as int].0@ == name@
                    && lookup_cat(self.cat@, name@) == Some(self.cat@[i as int].1) && i as int
                    == cat_pos(self.cat@, name@) && (forall|k: int|
                    0 <= k < i ==> self.cat@[k].0@ != name@),
                None => !has_category(self.cat@, name@),
            },
    {
        let n = self.cat.len();
        let mut i: usize = 0;
        #[verifier::loop_isolation(false)]
        while i < n
            invariant
                0 <= i <= n,
                n == self.cat@.len(),
                forall|k: int| 0 <= k < i ==> self.cat@[k].0@ != name@,
            decreases n - i,
        {
            if str_eq(self.cat[i].0.as_str(), name) {
                proof {
                    lemma_lookup_prefix(self.cat@, name@, i as int);
                    lemma_cat_pos_at(self.cat@, name@, i as int);
                }
                return Some(i);
            }
            i = i + 1;
        }
        None
    }

    /// Whether `name` is a configured category.
    pub fn has_cat(&self, name: &str) -> (r: bool)
        ensures
            r == has_category(self.cat@, name@),
    {
        self.find_cat(name).is_some()
    }
}

/// The configuration file text that a fresh project starts from.
pub open spec fn default_config_text() -> Seq<char> {
    "\n# Partman Config File\n\n# Command to run your editor\neditor_cmd = \"code.cmd --wait --new-window\" # VSCode\n# editor_cmd = \"nvim\" # Neovim\n\n# Path to the database file\n# Can be absolute or relative to partman.toml\ndb_file_path = \"build/components.db\"\n\n# Path to the directory containing the CSV files for each category\n# Can be absolute or relative to partman.toml\ncsv_dir_path = \"csv/\"\n\n# Path to the directory where partman will store temporary files\n# Can be absolute or relative to partman.toml\nhistory_dir_path = \"history/\"\n\n# Categories, each category has a code, a file and a list of subcategories\n[cat.resistor]\ncode = \"RES\"\nfilename = \"resistor.csv\"\nsubcategories = [\"chip\", \"through-hole\", \"potentiometer\"]\n\n[cat.capacitor]\ncode = \"CAP\"\nfilename = \"capacitor.csv\"\nsubcategories = [\"chip\", \"aluminium\"]\n"@
}

/// The credentials file text that a fresh project starts from.
pub open spec fn default_secrets_text() -> Seq<char> {
    "\n# Partman API Keys File\n\n# Digikey API credentials, get them from https://developer.digikey.com/\n[digikey]\nclient_id = \"\"\nclient_secret = \"\"\n"@
}

impl Config {
    /// The configuration file text that a fresh project starts from.
    pub fn default_config() -> (r: String)
        ensures
            r@ == default_config_text(),
    {
        String::from_str(
            "\n# Partman Config File\n\n# Command to run your editor\neditor_cmd = \"code.cmd --wait --new-window\" # VSCode\n# editor_cmd = \"nvim\" # Neovim\n\n# Path to the database file\n# Can be absolute or relative to partman.toml\ndb_file_path = \"build/components.db\"\n\n# Path to the directory containing the CSV files for each category\n# Can be absolute or relative to partman.toml\ncsv_dir_path = \"csv/\"\n\n# Path to the directory where partman will store temporary files\n# Can be absolute or relative to partman.toml\nhistory_dir_path = \"history/\"\n\n# Categories, each category has a code, a file and a list of subcategories\n[cat.resistor]\ncode = \"RES\"\nfilename = \"resistor.csv\"\nsubcategories = [\"chip\", \"through-hole\", \"potentiometer\"]\n\n[cat.capacitor]\ncode = \"CAP\"\nfilename = \"capacitor.csv\"\nsubcategories = [\"chip\", \"aluminium\"]\n",
        )
    }
}

impl Secrets {
    /// The credentials file text that a fresh project starts from.
    pub fn default_secrets() -> (r: String)
        ensures
            r@ == default_secrets_text(),
    {
        String::from_str(
            "\n# Partman API Keys File\n\n# Digikey API credentials, get them from https://developer.digikey.com/\n[digikey]\nclient_id = \"\"\nclient_secret = \"\"\n",
        )
    }
}

/// When the first `i` entries miss `name` and entry `i` carries it,
/// the lookup returns entry `i`.
proof fn lemma_lookup_prefix(cats: Seq<(String, Cat)>, name: Seq<char>, i: int)
    requires
        0 <= i < cats.len(),
        forall|k: int| 0 <= k < i ==> cats[k].0@ != name,
        cats[i].0@ == name,
    ensures
        lookup_cat(cats, name) == Some(cats[i].1),
    decreases i,
{
    if i == 0 {
    } else {
        let d = cats.drop_first();
        assert(forall|k: int| 0 <= k < i - 1 ==> d[k].0@ != name);
        assert(d[i - 1].0@ == name);
        lemma_lookup_prefix(d, name, i - 1);
    }
}

} // verus!
