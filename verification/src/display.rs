//! Rendering a form as the commented, human-editable template that an edit
//! session writes into a history snapshot.

use vstd::prelude::*;
use crate::config::CatV;
use crate::config::Cat;
use crate::form::{About, AboutV, Component, ComponentV, Form, FormV, Library, LibraryV, Suppliers, SuppliersV};
use crate::text::push_char;

verus! {

pub open spec fn hex_char(d: nat) -> char {
    if d == 0 {
        '0'
    } else if d == 1 {
        '1'
    } else if d == 2 {
        '2'
    } else if d == 3 {
        '3'
    } else if d == 4 {
        '4'
    } else if d == 5 {
        '5'
    } else if d == 6 {
        '6'
    } else if d == 7 {
        '7'
    } else if d == 8 {
        '8'
    } else if d == 9 {
        '9'
    } else if d == 10 {
        'A'
    } else if d == 11 {
        'B'
    } else if d == 12 {
        'C'
    } else if d == 13 {
        'D'
    } else if d == 14 {
        'E'
    } else {
        'F'
    }
}

/// How one character appears inside a quoted template string: quotes,
/// backslashes and control characters are escaped.
pub open spec fn esc_char(c: char) -> Seq<char> {
    if c == '"' {
        seq!['\\', '"']
    } else if c == '\\' {
        seq!['\\', '\\']
    } else if c == '\u{0008}' {
        seq!['\\', 'b']
    } else if c == '\t' {
        seq!['\\', 't']
    } else if c == '\n' {
        seq!['\\', 'n']
    } else if c == '\u{000C}' {
        seq!['\\', 'f']
    } else if c == '\r' {
        seq!['\\', 'r']
    } else if c < ' ' || c == '\u{007F}' {
        seq!['\\', 'u', '0', '0', hex_char((c as u32 / 16) as nat), hex_char((c as u32 % 16) as nat)]
    } else {
        seq![c]
    }
}

pub open spec fn esc_str(s: Seq<char>) -> Seq<char>
    decreases s.len(),
{
    if s.len() == 0 {
        Seq::empty()
    } else {
        esc_str(s.drop_last()) + esc_char(s.last())
    }
}

fn hex_digit(d: u32) -> (r: char)
    requires
        d < 16,
    ensures
        r == hex_char(d as nat),
{
    if d == 0 {
        '0'
    } else if d == 1 {
        '1'
    } else if d == 2 {
        '2'
    } else if d == 3 {
        '3'
    } else if d == 4 {
        '4'
    } else if d == 5 {
        '5'
    } else if d == 6 {
        '6'
    } else if d == 7 {
        '7'
    } else if d == 8 {
        '8'
    } else if d == 9 {
        '9'
    } else if d == 10 {
        'A'
    } else if d == 11 {
        'B'
    } else if d == 12 {
        'C'
    } else if d == 13 {
        'D'
    } else if d == 14 {
        'E'
    } else {
        'F'
    }
}

/// Escapes a field for a quoted template string.
fn escape_str(s: &str) -> (r: String)
    ensures
        r@ == esc_str(s@),
{
    let n = s.unicode_len();
    let mut out = String::new();
    let mut i: usize = 0;
    #[verifier::loop_isolation(false)]
    while i < n
        invariant
            0 <= i <= n,
            n == s@.len(),
            out@ == esc_str(s@.take(i as int)),
        decreases n - i,
    {
        let c = s.get_char(i);
        proof {
            assert(s@.take(i + 1).drop_last() =~= s@.take(i as int));
            assert(s@.take(i + 1).last() == s@[i as int]);
        }
        if c == '"' {
            out.append("\\\"");
            proof {
                reveal_strlit("\\\"");
                assert("\\\""@ =~= seq!['\\', '"']);
            }
        } else if c == '\\' {
            out.append("\\\\");
            proof {
                reveal_strlit("\\\\");
                assert("\\\\"@ =~= seq!['\\', '\\']);
            }
        } else if c == '\u{0008}' {
            out.append("\\b");
            proof {
                reveal_strlit("\\b");
                assert("\\b"@ =~= seq!['\\', 'b']);
            }
        } else if c == '\t' {
            out.append("\\t");
            proof {
                reveal_strlit("\\t");
                assert("\\t"@ =~= seq!['\\', 't']);
            }
        } else if c == '\n' {
            out.append("\\n");
            proof {
                reveal_strlit("\\n");
                assert("\\n"@ =~= seq!['\\', 'n']);
            }
        } else if c == '\u{000C}' {
            out.append("\\f");
            proof {
                reveal_strlit("\\f");
                assert("\\f"@ =~= seq!['\\', 'f']);
            }
        } else if c == '\r' {
            out.append("\\r");
            proof {
                reveal_strlit("\\r");
                assert("\\r"@ =~= seq!['\\', 'r']);
            }
        } else if c < ' ' || c == '\u{007F}' {
            out.append("\\u00");
            proof {
                reveal_strlit("\\u00");
                assert("\\u00"@ =~= seq!['\\', 'u', '0', '0']);
            }
            push_char(&mut out, hex_digit(c as u32 / 16));
            push_char(&mut out, hex_digit(c as u32 % 16));
        } else {
            push_char(&mut out, c);
        }
        proof {
            assert(out@ =~= esc_str(s@.take(i + 1)));
        }
        i = i + 1;
    }
    proof {
        assert(s@.take(n as int) =~= s@);
    }
    out
}

pub open spec fn header_text() -> Seq<char> {
    "# KiCad Database Library Part Manager\n# Fill in the fields below, use empty strings (\"\") for null values.\n# Save and exit editor when done.\n# See README for library info, conventions and category examples: http://github.com/bartekkowalski/partman/README.md\n\n"@
}

pub open spec fn long_desc_text(ld: Option<Seq<char>>) -> Seq<char> {
    match ld {
        Some(d) => "# Long Description: "@ + d,
        None => Seq::empty(),
    }
}

pub open spec fn about_text(a: AboutV) -> Seq<char> {
    "\n\n[about]\ncategory = \""@ + a.category + "\" # Required field\nsubcategory = \""@
        + a.subcategory + "\" # Required field\ndescription = \""@ + a.description
        + "\" # Required field\nvalue = \""@ + a.value + "\" # Required field\n\n"@
}

pub open spec fn component_text(c: ComponentV) -> Seq<char> {
    "[component]\nmanufacturer = \""@ + esc_str(c.manufacturer) + "\"\nmpn = \""@ + esc_str(c.mpn)
        + "\"\npackage = \""@ + esc_str(c.package) + "\"\ndatasheet = \""@ + esc_str(c.datasheet)
        + "\"\n"@
}

pub open spec fn suppliers_text(s: SuppliersV) -> Seq<char> {
    "[suppliers]\nsupplier1 = \""@ + esc_str(s.supplier1) + "\"\nspn1 = \""@ + esc_str(s.spn1)
        + "\"\nsupplier2 = \""@ + esc_str(s.supplier2) + "\"\nspn2 = \""@ + esc_str(s.spn2)
        + "\"\n"@
}

pub open spec fn library_text(l: LibraryV) -> Seq<char> {
    "[library]\nsymbol = \""@ + l.symbol + "\" # Required field\nfootprint = \""@ + l.footprint
        + "\"\nstatus = \""@ + l.status
        + "\" # Required field, options: [new, verified, issues, obsolete]\nnotes = \""@ + l.notes
        + "\"\n\n"@
}

pub open spec fn labels_text(ls: Seq<Seq<char>>) -> Seq<char>
    decreases ls.len(),
{
    if ls.len() == 0 {
        Seq::empty()
    } else if ls.len() == 1 {
        ls[0]
    } else {
        labels_text(ls.drop_last()) + ", "@ + ls.last()
    }
}

pub open spec fn cat_lines(cs: Seq<(Seq<char>, CatV)>) -> Seq<char>
    decreases cs.len(),
{
    if cs.len() == 0 {
        Seq::empty()
    } else {
        cat_lines(cs.drop_last()) + "\n#    "@ + cs.last().0 + ": ["@ + labels_text(
            cs.last().1.subcategories,
        ) + "]"@
    }
}

/// The trailing comment enumerating valid category and subcategory
/// combinations for operator reference. A form that carries no category
/// table renders no trailing comment: comments are advisory, and only
/// comment text may stand there.
pub open spec fn cats_text(c: Option<Seq<(Seq<char>, CatV)>>) -> Seq<char> {
    match c {
        Some(cs) => "# Category and Subcategory options:"@ + cat_lines(cs),
        None => Seq::empty(),
    }
}

/// The whole template a form renders as.
pub open spec fn render_of(f: FormV) -> Seq<char> {
    header_text() + long_desc_text(f.long_description) + about_text(f.about) + component_text(
        f.component,
    ) + suppliers_text(f.suppliers) + library_text(f.library) + cats_text(f.categories) + "\n"@
}

fn render_about(a: &About) -> (r: String)
    ensures
        r@ == about_text(a@),
{
    let mut out = String::from_str("\n\n[about]\ncategory = \"");
    out.append(a.category.as_str());
    out.append("\" # Required field\nsubcategory = \"");
    out.append(a.subcategory.as_str());
    out.append("\" # Required field\ndescription = \"");
    out.append(a.description.as_str());
    out.append("\" # Required field\nvalue = \"");
    out.append(a.value.as_str());
    out.append("\" # Required field\n\n");
    proof {
        assert(out@ =~= about_text(a@));
    }
    out
}

fn render_component(c: &Component) -> (r: String)
    ensures
        r@ == component_text(c@),
{
    let mut out = String::from_str("[component]\nmanufacturer = \"");
    out.append(escape_str(c.manufacturer.as_str()).as_str());
    out.append("\"\nmpn = \"");
    out.append(escape_str(c.mpn.as_str()).as_str());
    out.append("\"\npackage = \"");
    out.append(escape_str(c.package.as_str()).as_str());
    out.append("\"\ndatasheet = \"");
    out.append(escape_str(c.datasheet.as_str()).as_str());
    out.append("\"\n");
    proof {
        assert(out@ =~= component_text(c@));
    }
    out
}

fn render_suppliers(s: &Suppliers) -> (r: String)
    ensures
        r@ == suppliers_text(s@),
{
    let mut out = String::from_str("[suppliers]\nsupplier1 = \"");
    out.append(escape_str(s.supplier1.as_str()).as_str());
    out.append("\"\nspn1 = \"");
    out.append(escape_str(s.spn1.as_str()).as_str());
    out.append("\"\nsupplier2 = \"");
    out.append(escape_str(s.supplier2.as_str()).as_str());
    out.append("\"\nspn2 = \"");
    out.append(escape_str(s.spn2.as_str()).as_str());
    out.append("\"\n");
    proof {
        assert(out@ =~= suppliers_text(s@));
    }
    out
}

fn render_library(l: &Library) -> (r: String)
    ensures
        r@ == library_text(l@),
{
    let mut out = String::from_str("[library]\nsymbol = \"");
    out.append(l.symbol.as_str());
    out.append("\" # Required field\nfootprint = \"");
    out.append(l.footprint.as_str());
    out.append("\"\nstatus = \"");
    out.append(l.status.as_str());
    out.append("\" # Required field, options: [new, verified, issues, obsolete]\nnotes = \"");
    out.append(l.notes.as_str());
    out.append("\"\n\n");
    proof {
        assert(out@ =~= library_text(l@));
    }
    out
}

fn render_cats(categories: &Option<Vec<(String, Cat)>>) -> (r: String)
    ensures
        r@ == cats_text(categories.deep_view()),
{
    match categories {
        None => {
            let r = String::new();
            proof {
                assert(r@ =~= Seq::<char>::empty());
            }
            r
        },
        Some(cs) => {
            let mut out = String::from_str("# Category and Subcategory options:");
            let mut i: usize = 0;
            proof {
                assert(cs.deep_view().take(0) =~= Seq::<(Seq<char>, CatV)>::empty());
            }
            #[verifier::loop_isolation(false)]
            while i < cs.len()
                invariant
                    0 <= i <= cs@.len(),
                    out@ == "# Category and Subcategory options:"@ + cat_lines(
                        cs.deep_view().take(i as int),
                    ),
                decreases cs@.len() - i,
            {
                proof {
                    assert(cs.deep_view().take(i + 1).drop_last() =~= cs.deep_view().take(
                        i as int,
                    ));
                    assert(cs.deep_view()[i as int] == (cs@[i as int].0@, cs@[i as int].1@));
                }
                out.append("\n#    ");
                out.append(cs[i].0.as_str());
                out.append(": [");
                let labels = &cs[i].1.subcategories;
                let ghost before = out@;
                let mut j: usize = 0;
                proof {
                    assert(labels.deep_view().take(0) =~= Seq::<Seq<char>>::empty());
                }
                #[verifier::loop_isolation(false)]
                while j < labels.len()
                    invariant
                        0 <= j <= labels@.len(),
                        out@ == before + labels_text(labels.deep_view().take(j as int)),
                    decreases labels@.len() - j,
                {
                    proof {
                        assert(labels.deep_view().take(j + 1).drop_last() =~= labels.deep_view()
                            .take(j as int));
                        assert(labels.deep_view()[j as int] == labels@[j as int]@);
                    }
                    if j > 0 {
                        out.append(", ");
                    }
                    out.append(labels[j].as_str());
                    proof {
                        assert(out@ =~= before + labels_text(labels.deep_view().take(j + 1)));
                    }
                    j = j + 1;
                }
                proof {
                    assert(labels.deep_view().take(labels@.len() as int) =~= labels.deep_view());
                    assert(labels.deep_view() =~= cs.deep_view()[i as int].1.subcategories);
                }
                out.append("]");
                proof {
                    assert(out@ =~= "# Category and Subcategory options:"@ + cat_lines(
                        cs.deep_view().take(i + 1),
                    ));
                }
                i = i + 1;
            }
            proof {
                assert(cs.deep_view().take(cs@.len() as int) =~= cs.deep_view());
            }
            out
        },
    }
}

impl Form {
    /// Renders the form as the commented, human-editable template.
    pub fn render(&self) -> (r: String)
        ensures
            r@ == render_of(self@),
    {
        let mut out = String::from_str(
            "# KiCad Database Library Part Manager\n# Fill in the fields below, use empty strings (\"\") for null values.\n# Save and exit editor when done.\n# See README for library info, conventions and category examples: http://github.com/bartekkowalski/partman/README.md\n\n",
        );
        match &self.long_description {
            Some(d) => {
                out.append("# Long Description: ");
                out.append(d.as_str());
            },
            None => {},
        }
        proof {
            assert(out@ =~= header_text() + long_desc_text(self@.long_description));
        }
        out.append(render_about(&self.about).as_str());
        out.append(render_component(&self.component).as_str());
        out.append(render_suppliers(&self.suppliers).as_str());
        out.append(render_library(&self.library).as_str());
        out.append(render_cats(&self.categories).as_str());
        out.append("\n");
        proof {
            assert(out@ =~= render_of(self@));
        }
        out
    }
}

} // verus!
