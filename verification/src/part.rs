//! The canonical catalog entity and its validation gate.

use vstd::prelude::*;
use crate::config::{Config, has_category};
use crate::error::Error;
use crate::text::is_blank;

verus! {

/// One catalog entry describing a physical component.
///
/// Optional attributes are present with non-blank content or absent,
/// never present but empty.
#[derive(Debug)]
pub struct Part {
    pub id: Option<String>,
    pub category: String,
    pub subcategory: String,
    pub description: String,
    pub value: String,
    pub manufacturer: Option<String>,
    pub mpn: Option<String>,
    pub package: Option<String>,
    pub supplier1: Option<String>,
    pub spn1: Option<String>,
    pub supplier2: Option<String>,
    pub spn2: Option<String>,
    pub symbol: String,
    pub footprint: Option<String>,
    pub datasheet: Option<String>,
    pub status: String,
    pub notes: Option<String>,
}

/// The mathematical value of a part: every field as a character sequence.
#[verifier::ext_equal]
pub ghost struct PartV {
    pub id: Option<Seq<char>>,
    pub category: Seq<char>,
    pub subcategory: Seq<char>,
    pub description: Seq<char>,
    pub value: Seq<char>,
    pub manufacturer: Option<Seq<char>>,
    pub mpn: Option<Seq<char>>,
    pub package: Option<Seq<char>>,
    pub supplier1: Option<Seq<char>>,
    pub spn1: Option<Seq<char>>,
    pub supplier2: Option<Seq<char>>,
    pub spn2: Option<Seq<char>>,
    pub symbol: Seq<char>,
    pub footprint: Option<Seq<char>>,
    pub datasheet: Option<Seq<char>>,
    pub status: Seq<char>,
    pub notes: Option<Seq<char>>,
}

impl DeepView for Part {
    type V = PartV;

    open spec fn deep_view(&self) -> PartV {
        self.view()
    }
}

impl View for Part {
    type V = PartV;

    open spec fn view(&self) -> PartV {
        PartV {
            id: self.id.deep_view(),
            category: self.category@,
            subcategory: self.subcategory@,
            description: self.description@,
            value: self.value@,
            manufacturer: self.manufacturer.deep_view(),
            mpn: self.mpn.deep_view(),
            package: self.package.deep_view(),
            supplier1: self.supplier1.deep_view(),
            spn1: self.spn1.deep_view(),
            supplier2: self.supplier2.deep_view(),
            spn2: self.spn2.deep_view(),
            symbol: self.symbol@,
            footprint: self.footprint.deep_view(),
            datasheet: self.datasheet.deep_view(),
            status: self.status@,
            notes: self.notes.deep_view(),
        }
    }
}

impl PartV {
    /// The structural invariant of a stored part: optional attributes
    /// are absent or hold non-blank content.
    pub open spec fn wf(self) -> bool {
        &&& (self.manufacturer matches Some(v) ==> !is_blank(v))
        &&& (self.mpn matches Some(v) ==> !is_blank(v))
        &&& (self.package matches Some(v) ==> !is_blank(v))
        &&& (self.supplier1 matches Some(v) ==> !is_blank(v))
        &&& (self.spn1 matches Some(v) ==> !is_blank(v))
        &&& (self.supplier2 matches Some(v) ==> !is_blank(v))
        &&& (self.spn2 matches Some(v) ==> !is_blank(v))
        &&& (self.footprint matches Some(v) ==> !is_blank(v))
        &&& (self.datasheet matches Some(v) ==> !is_blank(v))
        &&& (self.notes matches Some(v) ==> !is_blank(v))
    }
}

fn clone_opt(o: &Option<String>) -> (r: Option<String>)
    ensures
        r.deep_view() == o.deep_view(),
{
    match o {
        Some(s) => Some(s.clone()),
        None => None,
    }
}

impl Clone for Part {
    /// Clones the part, field by field.
    fn clone(&self) -> (r: Self)
        ensures
            r@ == self@,
    {
        let r = Part {
            id: clone_opt(&self.id),
            category: self.category.clone(),
            subcategory: self.subcategory.clone(),
            description: self.description.clone(),
            value: self.value.clone(),
            manufacturer: clone_opt(&self.manufacturer),
            mpn: clone_opt(&self.mpn),
            package: clone_opt(&self.package),
            supplier1: clone_opt(&self.supplier1),
            spn1: clone_opt(&self.spn1),
            supplier2: clone_opt(&self.supplier2),
            spn2: clone_opt(&self.spn2),
            symbol: self.symbol.clone(),
            footprint: clone_opt(&self.footprint),
            datasheet: clone_opt(&self.datasheet),
            status: self.status.clone(),
            notes: clone_opt(&self.notes),
        };
        proof {
            assert(r@ =~= self@);
        }
        r
    }
}

impl Part {
    /// The last gate before an irreversible append: the part must carry an
    /// assigned identifier and name a configured category.
    pub fn validate(&self, config: &Config) -> (r: Result<(), Error>)
        ensures
            match r {
                Ok(()) => self.id is Some && has_category(config.cat@, self.category@),
                Err(e) => {
                    ||| (self.id is None && e == Error::IdUnassigned)
                    ||| (self.id is Some && !has_category(config.cat@, self.category@) && e
                        == Error::UnknownCategory)
                },
            },
    {
        if self.id.is_none() {
            return Err(Error::IdUnassigned);
        }
        if !config.has_cat(self.category.as_str()) {
            return Err(Error::UnknownCategory);
        }
        Ok(())
    }
}

} // verus!
