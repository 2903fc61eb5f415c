//! The editable, human-facing form used during the add/resume workflow:
//! sectioned, with defaults supplied when no external product data is
//! available, parsed back from the edited template.

use vstd::prelude::*;
use crate::config::{Cat, CatV};
use crate::error::Error;
use crate::part::{Part, PartV};
use crate::product::ProductInfo;
use crate::text::{lower_of, lowercase, trim_of, trim_str};
use crate::util::{Normalise, none_if_empty_spec};

verus! {

/// The identity section: what the part is.
#[derive(Debug)]
pub struct About {
    pub id: Option<String>,
    pub category: String,
    pub subcategory: String,
    pub description: String,
    pub value: String,
}

/// The component section: manufacturer data.
#[derive(Debug)]
pub struct Component {
    pub manufacturer: String,
    pub mpn: String,
    pub package: String,
    pub datasheet: String,
}

/// The suppliers section: two supplier / part-number pairs.
#[derive(Debug)]
pub struct Suppliers {
    pub supplier1: String,
    pub spn1: String,
    pub supplier2: String,
    pub spn2: String,
}

/// The library section: symbol, footprint and lifecycle data.
#[derive(Debug)]
pub struct Library {
    pub symbol: String,
    pub footprint: String,
    pub status: String,
    pub notes: String,
}

#[verifier::ext_equal]
pub ghost struct AboutV {
    pub id: Option<Seq<char>>,
    pub category: Seq<char>,
    pub subcategory: Seq<char>,
    pub description: Seq<char>,
    pub value: Seq<char>,
}

#[verifier::ext_equal]
pub ghost struct ComponentV {
    pub manufacturer: Seq<char>,
    pub mpn: Seq<char>,
    pub package: Seq<char>,
    pub datasheet: Seq<char>,
}

#[verifier::ext_equal]
pub ghost struct SuppliersV {
    pub supplier1: Seq<char>,
    pub spn1: Seq<char>,
    pub supplier2: Seq<char>,
    pub spn2: Seq<char>,
}

#[verifier::ext_equal]
pub ghost struct LibraryV {
    pub symbol: Seq<char>,
    pub footprint: Seq<char>,
    pub status: Seq<char>,
    pub notes: Seq<char>,
}

impl View for About {
    type V = AboutV;

    open spec fn view(&self) -> AboutV {
        AboutV {
            id: self.id.deep_view(),
            category: self.category@,
            subcategory: self.subcategory@,
            description: self.description@,
            value: self.value@,
        }
    }
}

impl View for Component {
    type V = ComponentV;

    open spec fn view(&self) -> ComponentV {
        ComponentV {
            manufacturer: self.manufacturer@,
            mpn: self.mpn@,
            package: self.package@,
            datasheet: self.datasheet@,
        }
    }
}

impl View for Suppliers {
    type V = SuppliersV;

    open spec fn view(&self) -> SuppliersV {
        SuppliersV {
            supplier1: self.supplier1@,
            spn1: self.spn1@,
            supplier2: self.supplier2@,
            spn2: self.spn2@,
        }
    }
}

impl View for Library {
    type V = LibraryV;

    open spec fn view(&self) -> LibraryV {
        LibraryV {
            symbol: self.symbol@,
            footprint: self.footprint@,
            status: self.status@,
            notes: self.notes@,
        }
    }
}

/// The whole editable form; the category table and long description only
/// feed the advisory comments of the rendered template.
#[derive(Debug)]
pub struct Form {
    pub about: About,
    pub component: Component,
    pub suppliers: Suppliers,
    pub library: Library,
    pub categories: Option<Vec<(String, Cat)>>,
    pub long_description: Option<String>,
}

#[verifier::ext_equal]
pub ghost struct FormV {
    pub about: AboutV,
    pub component: ComponentV,
    pub suppliers: SuppliersV,
    pub library: LibraryV,
    pub categories: Option<Seq<(Seq<char>, CatV)>>,
    pub long_description: Option<Seq<char>>,
}

impl View for Form {
    type V = FormV;

    open spec fn view(&self) -> FormV {
        FormV {
            about: self.about@,
            component: self.component@,
            suppliers: self.suppliers@,
            library: self.library@,
            categories: self.categories.deep_view(),
            long_description: self.long_description.deep_view(),
        }
    }
}

pub open spec fn about_default() -> AboutV {
    AboutV {
        id: None,
        category: "resistor"@,
        subcategory: "chip"@,
        description: "RES 120K OHM 1% 1/16W 0402"@,
        value: "120K"@,
    }
}

pub open spec fn component_default() -> ComponentV {
    ComponentV {
        manufacturer: "YAGEO"@,
        mpn: "RC0402FR-07120KL"@,
        package: "0402"@,
        datasheet: "https://www.yageo.com/upload/media/product/products/datasheet/rchip/PYu-RC_Group_51_RoHS_L_12.pdf"@,
    }
}

pub open spec fn suppliers_default() -> SuppliersV {
    SuppliersV { supplier1: "Digi-Key"@, spn1: ""@, supplier2: "LCSC"@, spn2: ""@ }
}

pub open spec fn library_default() -> LibraryV {
    LibraryV { symbol: "Generic:R_US"@, footprint: "RES:RESC100x05x04N"@, status: "New"@, notes: ""@ }
}

impl Default for About {
    fn default() -> (d: Self)
        ensures
            d@ == about_default(),
    {
        About {
            id: None,
            category: String::from_str("resistor"),
            subcategory: String::from_str("chip"),
            description: String::from_str("RES 120K OHM 1% 1/16W 0402"),
            value: String::from_str("120K"),
        }
    }
}

impl Default for Component {
    fn default() -> (d: Self)
        ensures
            d@ == component_default(),
    {
        Component {
            manufacturer: String::from_str("YAGEO"),
            mpn: String::from_str("RC0402FR-07120KL"),
            package: String::from_str("0402"),
            datasheet: String::from_str(
                "https://www.yageo.com/upload/media/product/products/datasheet/rchip/PYu-RC_Group_51_RoHS_L_12.pdf",
            ),
        }
    }
}

impl Default for Suppliers {
    fn default() -> (d: Self)
        ensures
            d@ == suppliers_default(),
    {
        let d = Suppliers {
            supplier1: String::from_str("Digi-Key"),
            spn1: String::new(),
            supplier2: String::from_str("LCSC"),
            spn2: String::new(),
        };
        proof {
            reveal_strlit("");
            assert(d@ =~= suppliers_default());
        }
        d
    }
}

impl Default for Library {
    fn default() -> (d: Self)
        ensures
            d@ == library_default(),
    {
        let d = Library {
            symbol: String::from_str("Generic:R_US"),
            footprint: String::from_str("RES:RESC100x05x04N"),
            status: String::from_str("New"),
            notes: String::new(),
        };
        proof {
            reveal_strlit("");
            assert(d@ =~= library_default());
        }
        d
    }
}

impl Default for Form {
    fn default() -> (d: Self)
        ensures
            d@.about == about_default(),
            d@.component == component_default(),
            d@.suppliers == suppliers_default(),
            d@.library == library_default(),
            (d@.categories is None),
            (d@.long_description is None),
    {
        Form {
            about: About::default(),
            component: Component::default(),
            suppliers: Suppliers::default(),
            library: Library::default(),
            categories: None,
            long_description: None,
        }
    }
}

/// The form a remote product record pre-fills: identity and manufacturer
/// data from the record, the rest from the defaults.
pub open spec fn form_of_product(p: ProductInfo) -> FormV {
    FormV {
        about: AboutV {
            id: None,
            category: p.category.name@,
            subcategory: "chip"@,
            description: p.description.product_description@,
            value: "120K"@,
        },
        component: ComponentV {
            manufacturer: p.manufacturer.name@,
            mpn: p.manufacturer_product_number@,
            package: "0402"@,
            datasheet: match p.datasheet_url.deep_view() {
                Some(u) => u,
                None => ""@,
            },
        },
        suppliers: SuppliersV {
            supplier1: "Digi-Key"@,
            spn1: match p.search_spn.deep_view() {
                Some(s) => s,
                None => ""@,
            },
            supplier2: "LCSC"@,
            spn2: ""@,
        },
        library: library_default(),
        categories: None,
        long_description: Some(p.description.detailed_description@),
    }
}

impl Form {
    /// Pre-fills a form from a remote product record, as the add workflow
    /// does when an external lookup succeeds.
    pub fn from_product(p: ProductInfo) -> (f: Form)
        ensures
            f@ == form_of_product(p),
    {
        let ghost pg = p;
        let datasheet = match p.datasheet_url {
            Some(u) => u,
            None => String::new(),
        };
        let spn1 = match p.search_spn {
            Some(s) => s,
            None => String::new(),
        };
        let f = Form {
            about: About {
                id: None,
                category: p.category.name,
                subcategory: String::from_str("chip"),
                description: p.description.product_description,
                value: String::from_str("120K"),
            },
            component: Component {
                manufacturer: p.manufacturer.name,
                mpn: p.manufacturer_product_number,
                package: String::from_str("0402"),
                datasheet,
            },
            suppliers: Suppliers {
                supplier1: String::from_str("Digi-Key"),
                spn1,
                supplier2: String::from_str("LCSC"),
                spn2: String::new(),
            },
            library: Library::default(),
            categories: None,
            long_description: Some(p.description.detailed_description),
        };
        proof {
            reveal_strlit("");
            assert(f@ =~= form_of_product(pg));
        }
        f
    }

    /// The part an edited form denotes: category and subcategory are
    /// trimmed and lowercased; blank optional attributes become absent.
    pub fn into_part(self) -> (p: Part)
        ensures
            p@ == part_of_form(self@),
    {
        let category = lowercase(trim_str(self.about.category.as_str()).as_str());
        let subcategory = lowercase(trim_str(self.about.subcategory.as_str()).as_str());
        let p = Part {
            id: self.about.id,
            category,
            subcategory,
            description: self.about.description,
            value: self.about.value,
            manufacturer: self.component.manufacturer.none_if_empty(),
            mpn: self.component.mpn.none_if_empty(),
            package: self.component.package.none_if_empty(),
            supplier1: self.suppliers.supplier1.none_if_empty(),
            spn1: self.suppliers.spn1.none_if_empty(),
            supplier2: self.suppliers.supplier2.none_if_empty(),
            spn2: self.suppliers.spn2.none_if_empty(),
            symbol: self.library.symbol,
            footprint: self.library.footprint.none_if_empty(),
            datasheet: self.component.datasheet.none_if_empty(),
            status: self.library.status,
            notes: self.library.notes.none_if_empty(),
        };
        proof {
            assert(p@ =~= part_of_form(self@));
        }
        p
    }
}

/// The part an edited form denotes.
pub open spec fn part_of_form(f: FormV) -> PartV {
    PartV {
        id: f.about.id,
        category: lower_of(trim_of(f.about.category)),
        subcategory: lower_of(trim_of(f.about.subcategory)),
        description: f.about.description,
        value: f.about.value,
        manufacturer: none_if_empty_spec(f.component.manufacturer),
        mpn: none_if_empty_spec(f.component.mpn),
        package: none_if_empty_spec(f.component.package),
        supplier1: none_if_empty_spec(f.suppliers.supplier1),
        spn1: none_if_empty_spec(f.suppliers.spn1),
        supplier2: none_if_empty_spec(f.suppliers.supplier2),
        spn2: none_if_empty_spec(f.suppliers.spn2),
        symbol: f.library.symbol,
        footprint: none_if_empty_spec(f.library.footprint),
        datasheet: none_if_empty_spec(f.component.datasheet),
        status: f.library.status,
        notes: none_if_empty_spec(f.library.notes),
    }
}

/// A part built from a form meets the structural invariant of stored
/// parts: its optional attributes are absent or non-blank.
pub proof fn lemma_part_of_form_wf(f: FormV)
    ensures
        part_of_form(f).wf(),
{
}

/// Whether the text is a well-formed document, as `toml::from_str` decides.
pub uninterp spec fn toml_parses(text: Seq<char>) -> bool;

/// Relies on `toml::from_str::<toml::Value>`: acceptance is a function of
/// the text alone.
#[verifier::external_body]
fn toml_accepts(text: &str) -> (r: bool)
    ensures
        r == toml_parses(text@),
{
    toml::from_str::<toml::Value>(text).is_ok()
}

/// The string at `[section] key` of the document: present exactly when the
/// text parses as a document holding a string value there. A function of
/// the text and the path alone.
pub uninterp spec fn toml_str_in(text: Seq<char>, section: Seq<char>, key: Seq<char>) -> Option<
    Seq<char>,
>;

/// Relies on `toml::from_str::<toml::Value>`, `toml::Value::get` and
/// `toml::Value::as_str` for the lookup.
#[verifier::external_body]
fn toml_get_str(text: &str, section: &str, key: &str) -> (r: Option<String>)
    ensures
        r.deep_view() == toml_str_in(text@, section@, key@),
{
    let doc: toml::Value = match toml::from_str(text) {
        Ok(v) => v,
        Err(_) => return None,
    };
    Some(doc.get(section)?.get(key)?.as_str()?.to_string())
}

/// Whether the document holds every required field of the form.
pub open spec fn form_fields_present(text: Seq<char>) -> bool {
    &&& (toml_str_in(text, "about"@, "category"@) is Some)
    &&& (toml_str_in(text, "about"@, "subcategory"@) is Some)
    &&& (toml_str_in(text, "about"@, "description"@) is Some)
    &&& (toml_str_in(text, "about"@, "value"@) is Some)
    &&& (toml_str_in(text, "component"@, "manufacturer"@) is Some)
    &&& (toml_str_in(text, "component"@, "mpn"@) is Some)
    &&& (toml_str_in(text, "component"@, "package"@) is Some)
    &&& (toml_str_in(text, "component"@, "datasheet"@) is Some)
    &&& (toml_str_in(text, "suppliers"@, "supplier1"@) is Some)
    &&& (toml_str_in(text, "suppliers"@, "spn1"@) is Some)
    &&& (toml_str_in(text, "suppliers"@, "supplier2"@) is Some)
    &&& (toml_str_in(text, "suppliers"@, "spn2"@) is Some)
    &&& (toml_str_in(text, "library"@, "symbol"@) is Some)
    &&& (toml_str_in(text, "library"@, "footprint"@) is Some)
    &&& (toml_str_in(text, "library"@, "status"@) is Some)
    &&& (toml_str_in(text, "library"@, "notes"@) is Some)
}

pub open spec fn req_str(text: Seq<char>, section: Seq<char>, key: Seq<char>) -> Seq<char> {
    match toml_str_in(text, section, key) {
        Some(v) => v,
        None => Seq::empty(),
    }
}

/// The form an edited template denotes, when it is well formed and every
/// required field is present. The identifier field is optional; the
/// category table and the long description are advisory comments in the
/// template and do not survive a parse.
pub open spec fn parsed_form_v(text: Seq<char>) -> Option<FormV> {
    if toml_parses(text) && form_fields_present(text) {
        Some(
            FormV {
                about: AboutV {
                    id: toml_str_in(text, "about"@, "id"@),
                    category: req_str(text, "about"@, "category"@),
                    subcategory: req_str(text, "about"@, "subcategory"@),
                    description: req_str(text, "about"@, "description"@),
                    value: req_str(text, "about"@, "value"@),
                },
                component: ComponentV {
                    manufacturer: req_str(text, "component"@, "manufacturer"@),
                    mpn: req_str(text, "component"@, "mpn"@),
                    package: req_str(text, "component"@, "package"@),
                    datasheet: req_str(text, "component"@, "datasheet"@),
                },
                suppliers: SuppliersV {
                    supplier1: req_str(text, "suppliers"@, "supplier1"@),
                    spn1: req_str(text, "suppliers"@, "spn1"@),
                    supplier2: req_str(text, "suppliers"@, "supplier2"@),
                    spn2: req_str(text, "suppliers"@, "spn2"@),
                },
                library: LibraryV {
                    symbol: req_str(text, "library"@, "symbol"@),
                    footprint: req_str(text, "library"@, "footprint"@),
                    status: req_str(text, "library"@, "status"@),
                    notes: req_str(text, "library"@, "notes"@),
                },
                categories: None,
                long_description: None,
            },
        )
    } else {
        None
    }
}

/// Parses an edited template back into a form. Malformed text, or a
/// missing required field, is a fatal parse error.
pub fn parse_form(text: &str) -> (r: Result<Form, Error>)
    ensures
        match r {
            Ok(f) => parsed_form_v(text@) == Some(f@),
            Err(e) => parsed_form_v(text@) is None && e == Error::MalformedForm,
        },
{
    if !toml_accepts(text) {
        return Err(Error::MalformedForm);
    }
    let id = toml_get_str(text, "about", "id");
    let category = match toml_get_str(text, "about", "category") {
        Some(s) => s,
        None => {
            return Err(Error::MalformedForm);
        },
    };
    let subcategory = match toml_get_str(text, "about", "subcategory") {
        Some(s) => s,
        None => {
            return Err(Error::MalformedForm);
        },
    };
    let description = match toml_get_str(text, "about", "description") {
        Some(s) => s,
        None => {
            return Err(Error::MalformedForm);
        },
    };
    let value = match toml_get_str(text, "about", "value") {
        Some(s) => s,
        None => {
            return Err(Error::MalformedForm);
        },
    };
    let manufacturer = match toml_get_str(text, "component", "manufacturer") {
        Some(s) => s,
        None => {
            return Err(Error::MalformedForm);
        },
    };
    let mpn = match toml_get_str(text, "component", "mpn") {
        Some(s) => s,
        None => {
            return Err(Error::MalformedForm);
        },
    };
    let package = match toml_get_str(text, "component", "package") {
        Some(s) => s,
        None => {
            return Err(Error::MalformedForm);
        },
    };
    let datasheet = match toml_get_str(text, "component", "datasheet") {
        Some(s) => s,
        None => {
            return Err(Error::MalformedForm);
        },
    };
    let supplier1 = match toml_get_str(text, "suppliers", "supplier1") {
        Some(s) => s,
        None => {
            return Err(Error::MalformedForm);
        },
    };
    let spn1 = match toml_get_str(text, "suppliers", "spn1") {
        Some(s) => s,
        None => {
            return Err(Error::MalformedForm);
        },
    };
    let supplier2 = match toml_get_str(text, "suppliers", "supplier2") {
        Some(s) => s,
        None => {
            return Err(Error::MalformedForm);
        },
    };
    let spn2 = match toml_get_str(text, "suppliers", "spn2") {
        Some(s) => s,
        None => {
            return Err(Error::MalformedForm);
        },
    };
    let symbol = match toml_get_str(text, "library", "symbol") {
        Some(s) => s,
        None => {
            return Err(Error::MalformedForm);
        },
    };
    let footprint = match toml_get_str(text, "library", "footprint") {
        Some(s) => s,
        None => {
            return Err(Error::MalformedForm);
        },
    };
    let status = match toml_get_str(text, "library", "status") {
        Some(s) => s,
        None => {
            return Err(Error::MalformedForm);
        },
    };
    let notes = match toml_get_str(text, "library", "notes") {
        Some(s) => s,
        None => {
            return Err(Error::MalformedForm);
        },
    };
    let f = Form {
        about: About { id, category, subcategory, description, value },
        component: Component { manufacturer, mpn, package, datasheet },
        suppliers: Suppliers { supplier1, spn1, supplier2, spn2 },
        library: Library { symbol, footprint, status, notes },
        categories: None,
        long_description: None,
    };
    proof {
        assert(f@ =~= parsed_form_v(text@).unwrap());
    }
    Ok(f)
}

} // verus!
