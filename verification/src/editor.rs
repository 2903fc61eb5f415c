//! The form editor workflow: change detection between the snapshot as
//! written and as saved, and the completion pipeline that turns an edited
//! form into a validated, identified part, an append to the catalog and a
//! database rebuild. Launching the external editor and touching the file
//! system are the caller's work.

use vstd::prelude::*;
use crate::config::{Config, cat_pos, has_category, lookup_cat};
use crate::csv_store::{
    AppendPlan, append_content, get_next_id, insert_part, load_all_parts, load_all_spec, next_id_of,
};
use crate::error::Error;
use crate::form::{Form, parse_form, parsed_form_v, part_of_form};
use crate::kicad_db::{SqlStatement, build_kicad_db, db_plan};
use crate::part::{Part, PartV};
use crate::text::{
    first_non_ws, is_comment_line, lemma_comment_line_trim_end, lemma_trim_end_idempotent,
    split_lines_of, split_lines_str, trim_end_of, trim_end_str,
};

verus! {

/// The lines that matter for change detection: comment lines dropped,
/// trailing whitespace stripped from every line.
pub open spec fn clean_lines(ls: Seq<Seq<char>>) -> Seq<Seq<char>>
    decreases ls.len(),
{
    if ls.len() == 0 {
        Seq::empty()
    } else {
        let init = clean_lines(ls.drop_last());
        if is_comment_line(ls.last()) {
            init
        } else {
            init.push(trim_end_of(ls.last()))
        }
    }
}

pub open spec fn clean_of(text: Seq<char>) -> Seq<Seq<char>> {
    clean_lines(split_lines_of(text))
}

/// Whether the edited text differs meaningfully from the original.
pub open spec fn meaning_changed(original: Seq<char>, edited: Seq<char>) -> bool {
    clean_of(edited) != clean_of(original)
}

/// Removes comments and whitespace for comparing edited content.
///
/// Used to determine if meaningful changes were made during editing.
pub fn clean(text: &str) -> (r: Vec<String>)
    ensures
        r.deep_view() == clean_of(text@),
{
    let lines = split_lines_str(text);
    let mut out: Vec<String> = Vec::new();
    let mut i: usize = 0;
    proof {
        assert(lines.deep_view().take(0) =~= Seq::<Seq<char>>::empty());
        assert(out.deep_view() =~= Seq::<Seq<char>>::empty());
    }
    #[verifier::loop_isolation(false)]
    while i < lines.len()
        invariant
            0 <= i <= lines@.len(),
            lines.deep_view() == split_lines_of(text@),
            out.deep_view() == clean_lines(lines.deep_view().take(i as int)),
        decreases lines@.len() - i,
    {
        proof {
            assert(lines.deep_view().take(i + 1).drop_last() =~= lines.deep_view().take(i as int));
            assert(lines.deep_view()[i as int] == lines@[i as int]@);
        }
        let line = &lines[i];
        let j = first_non_ws(line.as_str());
        let is_comment = j < line.as_str().unicode_len() && line.as_str().get_char(j) == '#';
        proof {
            assert(is_comment == is_comment_line(line@));
        }
        if !is_comment {
            let trimmed = trim_end_str(line.as_str());
            let ghost prevv = out@;
            let ghost prevdv = out.deep_view();
            out.push(trimmed);
            proof {
                assert forall|m: int| 0 <= m < out@.len() implies out.deep_view()[m] == prevdv.push(
                    trim_end_of(line@),
                )[m] by {
                    if m < prevv.len() {
                        assert(out@[m] == prevv[m]);
                        assert(prevdv[m] == prevv[m].deep_view());
                    } else {
                        assert(out@[m] == trimmed);
                    }
                }
                assert(out.deep_view() =~= prevdv.push(trim_end_of(line@)));
            }
        }
        i = i + 1;
    }
    proof {
        assert(lines.deep_view().take(lines@.len() as int) =~= lines.deep_view());
    }
    out
}

fn vec_string_eq(a: &Vec<String>, b: &Vec<String>) -> (r: bool)
    ensures
        r == (a.deep_view() == b.deep_view()),
{
    if a.len() != b.len() {
        proof {
            assert(a.deep_view().len() == a@.len());
            assert(b.deep_view().len() == b@.len());
        }
        return false;
    }
    let mut i: usize = 0;
    #[verifier::loop_isolation(false)]
    while i < a.len()
        invariant
            0 <= i <= a@.len(),
            a@.len() == b@.len(),
            forall|k: int| 0 <= k < i ==> a.deep_view()[k] == b.deep_view()[k],
        decreases a@.len() - i,
    {
        if !(a[i] == b[i]) {
            proof {
                assert(a.deep_view()[i as int] != b.deep_view()[i as int]);
            }
            return false;
        }
        i = i + 1;
    }
    proof {
        assert(a.deep_view() =~= b.deep_view());
    }
    true
}

/// Decides whether an edit changed the snapshot meaningfully: comment
/// lines and trailing whitespace are ignored.
pub fn changed(original: &str, edited: &str) -> (r: bool)
    ensures
        r == meaning_changed(original@, edited@),
{
    let a = clean(edited);
    let b = clean(original);
    !vec_string_eq(&a, &b)
}

/// The normalization behind change detection is idempotent: once comments
/// are dropped and line ends trimmed, normalizing again changes nothing.
pub proof fn lemma_clean_lines_idempotent(ls: Seq<Seq<char>>)
    ensures
        clean_lines(clean_lines(ls)) == clean_lines(ls),
    decreases ls.len(),
{
    if ls.len() > 0 {
        let init = ls.drop_last();
        lemma_clean_lines_idempotent(init);
        if !is_comment_line(ls.last()) {
            let e = trim_end_of(ls.last());
            let ci = clean_lines(init);
            let c = clean_lines(ls);
            assert(c == ci.push(e));
            assert(c.drop_last() =~= ci);
            assert(c.last() == e);
            lemma_comment_line_trim_end(ls.last());
            lemma_trim_end_idempotent(ls.last());
            assert(clean_lines(c) == clean_lines(ci).push(trim_end_of(e)));
            assert(clean_lines(c) =~= c);
        }
    }
}

/// Saving content that is byte-identical up to comments and trailing
/// whitespace yields "no change": diffing is idempotent under the
/// normalization it applies.
pub proof fn lemma_diff_ignores_normalization(original: Seq<char>, edited: Seq<char>)
    requires
        clean_of(edited) == clean_of(original),
    ensures
        !meaning_changed(original, edited),
{
}

/// What ends an edit session: the saved snapshot was meaningless noise, or
/// it parses into a form, or it is malformed.
pub fn process_edit(original: &str, edited: &str) -> (r: Result<Option<Form>, Error>)
    ensures
        match r {
            Ok(None) => !meaning_changed(original@, edited@),
            Ok(Some(f)) => meaning_changed(original@, edited@) && parsed_form_v(edited@) == Some(
                f@,
            ),
            Err(e) => meaning_changed(original@, edited@) && parsed_form_v(edited@) is None && e
                == Error::MalformedForm,
        },
{
    if !changed(original, edited) {
        return Ok(None);
    }
    match parse_form(edited) {
        Ok(f) => Ok(Some(f)),
        Err(e) => Err(e),
    }
}

/// The completed workflow of one accepted edit: the part with its assigned
/// identifier, the append it causes, and the statements that rebuild the
/// derived database from the grown catalog.
#[derive(Debug)]
pub struct ProcessOutcome {
    pub part: Part,
    pub append: AppendPlan,
    pub db: Vec<SqlStatement>,
}

/// Runs the completion pipeline on an edited form: convert to a part, load
/// the full catalog, allocate the next identifier, validate, plan the
/// append, and plan the database rebuild from the grown part set.
/// `files[i]` holds the text of `config.cat[i]`'s backing file, or nothing
/// when that file does not exist.
pub fn process_form(edited_form: Form, config: &Config, files: &Vec<Option<String>>) -> (r: Result<
    ProcessOutcome,
    Error,
>)
    requires
        files@.len() == config.cat@.len(),
    ensures
        ({
            let p0 = part_of_form(edited_form@);
            let loaded = load_all_spec(config.cat@, files.deep_view());
            match r {
                Ok(out) => (loaded matches Some(parts) && lookup_cat(
                    config.cat@,
                    p0.category,
                ) matches Some(c) && out.part@ == (PartV {
                    id: Some(next_id_of(parts, c.code@)),
                    ..p0
                }) && out.append.filename@ == c.filename@ && out.append.content@ == append_content(
                    out.part@,
                    (files.deep_view()[cat_pos(config.cat@, p0.category)] is Some),
                ) && out.db.deep_view() == db_plan(config.cat@, parts.push(out.part@))
                    && out.part@.wf()),
                Err(e) => {
                    ||| (e == Error::MalformedRow && loaded is None)
                    ||| (e == Error::UnknownCategory && loaded is Some && !has_category(
                        config.cat@,
                        p0.category,
                    ))
                },
            }
        }),
{
    let ghost fv = edited_form@;
    let part0 = edited_form.into_part();
    let parts = match load_all_parts(&config.cat, files) {
        Ok(ps) => ps,
        Err(e) => {
            return Err(e);
        },
    };
    let idx = match config.find_cat(part0.category.as_str()) {
        Some(i) => i,
        None => {
            return Err(Error::UnknownCategory);
        },
    };
    let id = match get_next_id(&parts, config.cat[idx].1.code.as_str()) {
        Ok(s) => s,
        Err(_) => {
            proof {
                assert(false);
            }
            unreached()
        },
    };
    let mut new_part = part0;
    new_part.id = Some(id);
    match new_part.validate(config) {
        Ok(()) => {},
        Err(_) => {
            proof {
                assert(false);
            }
            unreached()
        },
    }
    let file_exists = files[idx].is_some();
    let append = match insert_part(&new_part, config, file_exists) {
        Ok(p) => p,
        Err(_) => {
            proof {
                assert(false);
            }
            unreached()
        },
    };
    let part_copy = new_part.clone();
    let mut all = parts;
    let ghost allv = all@;
    let ghost alldv = all.deep_view();
    all.push(part_copy);
    proof {
        assert forall|m: int| 0 <= m < all@.len() implies all.deep_view()[m] == alldv.push(
            new_part@,
        )[m] by {
            if m < allv.len() {
                assert(all@[m] == allv[m]);
                assert(alldv[m] == allv[m].deep_view());
            } else {
                assert(all@[m] == part_copy);
            }
        }
        assert(all.deep_view() =~= alldv.push(new_part@));
    }
    let db = build_kicad_db(&all, &config.cat);
    proof {
        crate::form::lemma_part_of_form_wf(fv);
    }
    Ok(ProcessOutcome { part: new_part, append, db })
}

} // verus!
