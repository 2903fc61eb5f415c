//! The history store: editing sessions persist as snapshot files named by
//! the Unix timestamp at creation; the most recent one can be resumed.

use vstd::prelude::*;
use crate::error::Error;
use crate::text::{
    dec_str, lemma_dec_str_digits, lemma_parse_dec_str, parse_u64_spec, parse_u64_str, str_eq,
    u64_to_dec,
};

verus! {

/// The timestamp a snapshot file name denotes: the name must end in
/// `.toml` and its stem must parse as an unsigned number.
pub open spec fn snapshot_stamp(name: Seq<char>) -> Option<u64> {
    if name.len() >= 5 && name.skip(name.len() - 5) == ".toml"@ {
        parse_u64_spec(name.take(name.len() - 5))
    } else {
        None
    }
}

/// The largest timestamp any of the names denotes, if any does.
pub open spec fn max_stamp(names: Seq<Seq<char>>) -> Option<u64>
    decreases names.len(),
{
    if names.len() == 0 {
        None
    } else {
        let rest = max_stamp(names.drop_last());
        match snapshot_stamp(names.last()) {
            None => rest,
            Some(v) => match rest {
                None => Some(v),
                Some(m) => Some(
                    if v > m {
                        v
                    } else {
                        m
                    },
                ),
            },
        }
    }
}

/// The file name of the snapshot created at `secs`.
pub open spec fn snapshot_name_of(secs: u64) -> Seq<char> {
    dec_str(secs as nat) + ".toml"@
}

/// The snapshot file name for an edit session started at `secs` seconds
/// since the Unix epoch.
pub fn snapshot_name(secs: u64) -> (r: String)
    ensures
        r@ == snapshot_name_of(secs),
{
    let mut s = u64_to_dec(secs);
    s.append(".toml");
    s
}

/// Selection fails exactly when nothing qualifies: over an empty set of
/// names, or one where no name has the snapshot extension and a numeric
/// stem, there is nothing to resume.
pub proof fn lemma_nothing_to_resume(names: Seq<Seq<char>>)
    ensures
        (max_stamp(names) is None) <==> (forall|k: int|
            0 <= k < names.len() ==> (snapshot_stamp(#[trigger] names[k]) is None)),
    decreases names.len(),
{
    if names.len() > 0 {
        let d = names.drop_last();
        lemma_nothing_to_resume(d);
        if (forall|k: int| 0 <= k < names.len() ==> (snapshot_stamp(#[trigger] names[k]) is None)) {
            assert forall|k: int| 0 <= k < d.len() implies (snapshot_stamp(#[trigger] d[k]) is None) by {
                assert(d[k] == names[k]);
            }
            assert(snapshot_stamp(names.last()) is None);
        }
        if max_stamp(names) is None {
            assert forall|k: int|
                0 <= k < names.len() implies (snapshot_stamp(#[trigger] names[k]) is None) by {
                if k < names.len() - 1 {
                    assert(names[k] == d[k]);
                } else {
                    assert(names[k] == names.last());
                }
            }
        }
    }
}

/// The snapshot file an edit session writes is one a later resume
/// recognizes: its name denotes exactly the session's timestamp.
pub proof fn lemma_snapshot_name_resumable(secs: u64)
    ensures
        snapshot_stamp(snapshot_name_of(secs)) == Some(secs),
{
    let d = dec_str(secs as nat);
    let name = snapshot_name_of(secs);
    lemma_dec_str_digits(secs as nat);
    reveal_strlit(".toml");
    assert(name.len() == d.len() + 5);
    assert(name.skip(name.len() - 5) =~= ".toml"@);
    assert(name.take(name.len() - 5) =~= d);
    lemma_parse_dec_str(secs);
}

/// Decides `snapshot_stamp` on a real file name.
fn stamp_of_name(name: &str) -> (r: Option<u64>)
    ensures
        r == snapshot_stamp(name@),
{
    let n = name.unicode_len();
    if n < 5 {
        return None;
    }
    let ext = name.substring_char(n - 5, n);
    proof {
        assert(ext@ =~= name@.skip(name@.len() - 5));
    }
    if !str_eq(ext, ".toml") {
        return None;
    }
    let stem = name.substring_char(0, n - 5);
    proof {
        assert(stem@ =~= name@.take(name@.len() - 5));
    }
    parse_u64_str(stem)
}

/// Selects the most recent snapshot among the given file names: the one
/// whose stem is the largest timestamp. An empty or all-malformed set is a
/// fatal "nothing to resume" error. Pure selection; no side effects.
pub fn find_latest(names: &Vec<String>) -> (r: Result<String, Error>)
    ensures
        match r {
            Ok(name) => (max_stamp(names.deep_view()) matches Some(v) && name@ == snapshot_name_of(
                v,
            )),
            Err(e) => max_stamp(names.deep_view()) is None && e == Error::NothingToResume,
        },
{
    let mut best: Option<u64> = None;
    let mut i: usize = 0;
    proof {
        assert(names.deep_view().take(0) =~= Seq::<Seq<char>>::empty());
    }
    #[verifier::loop_isolation(false)]
    while i < names.len()
        invariant
            0 <= i <= names@.len(),
            best == max_stamp(names.deep_view().take(i as int)),
        decreases names@.len() - i,
    {
        proof {
            assert(names.deep_view().take(i + 1).drop_last() =~= names.deep_view().take(i as int));
            assert(names.deep_view()[i as int] == names@[i as int]@);
        }
        match stamp_of_name(names[i].as_str()) {
            None => {},
            Some(v) => {
                best = match best {
                    None => Some(v),
                    Some(m) => Some(
                        if v > m {
                            v
                        } else {
                            m
                        },
                    ),
                };
            },
        }
        i = i + 1;
    }
    proof {
        assert(names.deep_view().take(names@.len() as int) =~= names.deep_view());
    }
    match best {
        Some(v) => Ok(snapshot_name(v)),
        None => Err(Error::NothingToResume),
    }
}

} // verus!
