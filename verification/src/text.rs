//! Character-level helpers shared by the catalog: whitespace handling,
//! decimal parsing and formatting, and line splitting.

use vstd::prelude::*;

verus! {

/// The Unicode White_Space characters, the set that `trim`-style
/// normalization removes at line and field boundaries.
pub open spec fn is_ws_char(c: char) -> bool {
    ||| c == ' '
    ||| c == '\t'
    ||| c == '\n'
    ||| c == '\r'
    ||| c == '\u{000B}'
    ||| c == '\u{000C}'
    ||| c == '\u{0085}'
    ||| c == '\u{00A0}'
    ||| c == '\u{1680}'
    ||| ('\u{2000}' <= c && c <= '\u{200A}')
    ||| c == '\u{2028}'
    ||| c == '\u{2029}'
    ||| c == '\u{202F}'
    ||| c == '\u{205F}'
    ||| c == '\u{3000}'
}

/// Decides membership in the White_Space set.
pub fn is_ws(c: char) -> (r: bool)
    ensures
        r == is_ws_char(c),
{
    c == ' ' || c == '\t' || c == '\n' || c == '\r' || c == '\u{000B}' || c == '\u{000C}'
        || c == '\u{0085}' || c == '\u{00A0}' || c == '\u{1680}' || ('\u{2000}' <= c && c
        <= '\u{200A}') || c == '\u{2028}' || c == '\u{2029}' || c == '\u{202F}' || c == '\u{205F}'
        || c == '\u{3000}'
}

pub open spec fn is_digit_char(c: char) -> bool {
    '0' <= c && c <= '9'
}

/// Numeric value of a decimal digit character; 0 for anything else.
pub open spec fn digit_val(c: char) -> nat {
    if is_digit_char(c) {
        (c as u32 - '0' as u32) as nat
    } else {
        0
    }
}

pub open spec fn all_digits(s: Seq<char>) -> bool {
    forall|i: int| 0 <= i < s.len() ==> is_digit_char(s[i])
}

/// Value of a digit string read most-significant first.
pub open spec fn digits_val(s: Seq<char>) -> nat
    decreases s.len(),
{
    if s.len() == 0 {
        0
    } else {
        digits_val(s.drop_last()) * 10 + digit_val(s.last())
    }
}

/// The digit portion of an unsigned decimal literal as `u64::from_str`
/// accepts it: an optional leading `+`, then one or more digits.
pub open spec fn dec_digits_of(s: Seq<char>) -> Option<Seq<char>> {
    let ds = if s.len() > 0 && s[0] == '+' {
        s.drop_first()
    } else {
        s
    };
    if ds.len() > 0 && all_digits(ds) {
        Some(ds)
    } else {
        None
    }
}

/// The mathematical value an unsigned decimal literal denotes, if well formed.
pub open spec fn parsed_nat(s: Seq<char>) -> Option<nat> {
    match dec_digits_of(s) {
        Some(ds) => Some(digits_val(ds)),
        None => None,
    }
}

/// What `str::parse::<u64>` returns on `s`.
pub open spec fn parse_u64_spec(s: Seq<char>) -> Option<u64> {
    match parsed_nat(s) {
        Some(v) => if v <= u64::MAX {
            Some(v as u64)
        } else {
            None
        },
        None => None,
    }
}

/// What `str::parse::<u32>` returns on `s`.
pub open spec fn parse_u32_spec(s: Seq<char>) -> Option<u32> {
    match parsed_nat(s) {
        Some(v) => if v <= u32::MAX {
            Some(v as u32)
        } else {
            None
        },
        None => None,
    }
}

proof fn lemma_digits_val_take_succ(s: Seq<char>, k: int)
    requires
        0 <= k < s.len(),
    ensures
        digits_val(s.take(k + 1)) == digits_val(s.take(k)) * 10 + digit_val(s[k]),
{
    assert(s.take(k + 1).drop_last() =~= s.take(k));
    assert(s.take(k + 1).last() == s[k]);
}

/// A digit string is worth at least any of its prefixes.
proof fn lemma_digits_val_take_le(s: Seq<char>, k: int)
    requires
        0 <= k <= s.len(),
    ensures
        digits_val(s.take(k)) <= digits_val(s),
    decreases s.len() - k,
{
    if k == s.len() {
        assert(s.take(k) =~= s);
    } else {
        lemma_digits_val_take_succ(s, k);
        assert(digits_val(s.take(k)) * 10 >= digits_val(s.take(k)));
        lemma_digits_val_take_le(s, k + 1);
    }
}

/// `u64::MAX / 10` and `u64::MAX % 10`, spelled out for the overflow guard.
const U64_MAX_DIV_10: u64 = 1844674407370955161;

const U64_MAX_MOD_10: u64 = 5;

/// Implements `str::parse::<u64>` for unsigned decimal strings.
pub fn parse_u64_str(s: &str) -> (r: Option<u64>)
    ensures
        r == parse_u64_spec(s@),
{
    let n: usize = s.unicode_len();
    let start: usize = if n > 0 && s.get_char(0) == '+' {
        1
    } else {
        0
    };
    let ghost ds: Seq<char> = s@.skip(start as int);
    proof {
        if n > 0 && s@[0] == '+' {
            assert(ds =~= s@.drop_first());
        } else {
            assert(ds =~= s@);
        }
        assert(dec_digits_of(s@) == if ds.len() > 0 && all_digits(ds) {
            Some(ds)
        } else {
            Option::<Seq<char>>::None
        });
    }
    if start >= n {
        return None;
    }
    let mut acc: u64 = 0;
    let mut j: usize = start;
    #[verifier::loop_isolation(false)]
    while j < n
        invariant
            start <= j <= n,
            n == s@.len(),
            ds == s@.skip(start as int),
            ds.len() == n - start,
            forall|k: int| 0 <= k < j - start ==> is_digit_char(ds[k]),
            acc == digits_val(ds.take(j - start)),
        decreases n - j,
    {
        let c = s.get_char(j);
        proof {
            assert(ds[j - start] == s@[j as int]);
        }
        if !('0' <= c && c <= '9') {
            return None;
        }
        let d: u64 = (c as u32 - 48) as u64;
        proof {
            assert(d == digit_val(c));
        }
        if acc > U64_MAX_DIV_10 || (acc == U64_MAX_DIV_10 && d > U64_MAX_MOD_10) {
            proof {
                lemma_digits_val_take_succ(ds, j - start);
                if acc > U64_MAX_DIV_10 {
                    vstd::arithmetic::mul::lemma_mul_inequality(
                        U64_MAX_DIV_10 as int + 1,
                        acc as int,
                        10,
                    );
                }
                assert(digits_val(ds.take(j - start + 1)) > u64::MAX);
                if all_digits(ds) {
                    lemma_digits_val_take_le(ds, j - start + 1);
                }
            }
            return None;
        }
        proof {
            if acc < U64_MAX_DIV_10 {
                vstd::arithmetic::mul::lemma_mul_inequality(
                    acc as int,
                    U64_MAX_DIV_10 as int - 1,
                    10,
                );
            }
            lemma_digits_val_take_succ(ds, j - start);
        }
        acc = acc * 10 + d;
        j = j + 1;
    }
    proof {
        assert(ds.take(n - start) =~= ds);
    }
    Some(acc)
}

/// Implements `str::parse::<u32>` for unsigned decimal strings.
pub fn parse_u32_str(s: &str) -> (r: Option<u32>)
    ensures
        r == parse_u32_spec(s@),
{
    match parse_u64_str(s) {
        Some(v) => if v <= u32::MAX as u64 {
            Some(v as u32)
        } else {
            None
        },
        None => None,
    }
}

pub open spec fn digit_char(d: nat) -> char {
    if d == 0 {
        '0'
    } else if d == 1 {
        '1'
    } else if d == 2 {
        '2'
    } else if d == 3 {
        '3'
    } else if d == 4 {
        '4'
    } else if d == 5 {
        '5'
    } else if d == 6 {
        '6'
    } else if d == 7 {
        '7'
    } else if d == 8 {
        '8'
    } else {
        '9'
    }
}

/// The decimal rendering of `n`, most-significant digit first.
pub open spec fn dec_str(n: nat) -> Seq<char>
    decreases n,
{
    if n < 10 {
        seq![digit_char(n)]
    } else {
        dec_str(n / 10).push(digit_char(n % 10))
    }
}

fn digit_str(d: u64) -> (r: &'static str)
    requires
        d < 10,
    ensures
        r@ == seq![digit_char(d as nat)],
{
    if d == 0 {
        proof {
            reveal_strlit("0");
            assert("0"@ =~= seq![digit_char(0)]);
        }
        "0"
    } else if d == 1 {
        proof {
            reveal_strlit("1");
            assert("1"@ =~= seq![digit_char(1)]);
        }
        "1"
    } else if d == 2 {
        proof {
            reveal_strlit("2");
            assert("2"@ =~= seq![digit_char(2)]);
        }
        "2"
    } else if d == 3 {
        proof {
            reveal_strlit("3");
            assert("3"@ =~= seq![digit_char(3)]);
        }
        "3"
    } else if d == 4 {
        proof {
            reveal_strlit("4");
            assert("4"@ =~= seq![digit_char(4)]);
        }
        "4"
    } else if d == 5 {
        proof {
            reveal_strlit("5");
            assert("5"@ =~= seq![digit_char(5)]);
        }
        "5"
    } else if d == 6 {
        proof {
            reveal_strlit("6");
            assert("6"@ =~= seq![digit_char(6)]);
        }
        "6"
    } else if d == 7 {
        proof {
            reveal_strlit("7");
            assert("7"@ =~= seq![digit_char(7)]);
        }
        "7"
    } else if d == 8 {
        proof {
            reveal_strlit("8");
            assert("8"@ =~= seq![digit_char(8)]);
        }
        "8"
    } else {
        proof {
            reveal_strlit("9");
            assert("9"@ =~= seq![digit_char(9)]);
        }
        "9"
    }
}

/// Renders `n` in decimal, as `format!("{}", n)` does.
pub fn u64_to_dec(n: u64) -> (r: String)
    ensures
        r@ == dec_str(n as nat),
    decreases n,
{
    if n < 10 {
        digit_str(n).to_owned()
    } else {
        let mut s = u64_to_dec(n / 10);
        s.append(digit_str(n % 10));
        proof {
            assert(s@ =~= dec_str(n as nat / 10).push(digit_char(n as nat % 10)));
        }
        s
    }
}

/// The decimal rendering of `n` zero-padded to at least four digits,
/// as `format!("{:04}", n)` does.
pub open spec fn padded4(n: nat) -> Seq<char> {
    if n < 10 {
        seq!['0', '0', '0'] + dec_str(n)
    } else if n < 100 {
        seq!['0', '0'] + dec_str(n)
    } else if n < 1000 {
        seq!['0'] + dec_str(n)
    } else {
        dec_str(n)
    }
}

/// The decimal rendering of `n` is made of digits and is worth `n`.
pub proof fn lemma_dec_str_digits(n: nat)
    ensures
        all_digits(dec_str(n)),
        dec_str(n).len() >= 1,
        digits_val(dec_str(n)) == n,
    decreases n,
{
    if n < 10 {
        let w = seq![digit_char(n)];
        assert(dec_str(n) == w);
        assert(w.drop_last() =~= Seq::<char>::empty());
        assert(w.last() == digit_char(n));
        assert(digits_val(w) == digits_val(w.drop_last()) * 10 + digit_val(w.last()));
        assert(digits_val(Seq::<char>::empty()) == 0);
        assert(digit_val(digit_char(n)) == n);
    } else {
        lemma_dec_str_digits(n / 10);
        let s = dec_str(n / 10);
        let w = s.push(digit_char(n % 10));
        assert(w.drop_last() =~= s);
        assert(w.last() == digit_char(n % 10));
        assert forall|i: int| 0 <= i < w.len() implies is_digit_char(w[i]) by {
            if i < s.len() {
                assert(w[i] == s[i]);
            }
        }
        assert(digits_val(w) == digits_val(s) * 10 + digit_val(digit_char(n % 10)));
    }
}

/// Parsing the decimal rendering of `v` gives back `v`.
pub proof fn lemma_parse_dec_str(v: u64)
    ensures
        parse_u64_spec(dec_str(v as nat)) == Some(v),
{
    let s = dec_str(v as nat);
    lemma_dec_str_digits(v as nat);
    assert(is_digit_char(s[0]));
    assert(s[0] != '+');
    assert(dec_digits_of(s) == Some(s));
}

/// Prepending a zero digit leaves the value of a digit string unchanged.
proof fn lemma_digits_val_zero_prefix(s: Seq<char>)
    ensures
        digits_val(seq!['0'] + s) == digits_val(s),
    decreases s.len(),
{
    let w = seq!['0'] + s;
    if s.len() == 0 {
        assert(w =~= seq!['0']);
        assert(w.drop_last() =~= Seq::<char>::empty());
        assert(digits_val(w) == digits_val(w.drop_last()) * 10 + digit_val(w.last()));
        assert(digits_val(Seq::<char>::empty()) == 0);
        assert(digits_val(s) == 0);
        assert(digit_val('0') == 0);
    } else {
        assert(w.drop_last() =~= seq!['0'] + s.drop_last());
        assert(w.last() == s.last());
        lemma_digits_val_zero_prefix(s.drop_last());
        assert(digits_val(w) == digits_val(w.drop_last()) * 10 + digit_val(w.last()));
        assert(digits_val(s) == digits_val(s.drop_last()) * 10 + digit_val(s.last()));
    }
}

/// The zero-padded rendering is made of digits and is still worth `n`.
pub proof fn lemma_padded4_digits(n: nat)
    ensures
        all_digits(padded4(n)),
        padded4(n).len() >= 1,
        digits_val(padded4(n)) == n,
{
    lemma_dec_str_digits(n);
    let d = dec_str(n);
    if n < 1000 {
        lemma_digits_val_zero_prefix(d);
        lemma_digits_val_zero_prefix(seq!['0'] + d);
        lemma_digits_val_zero_prefix(seq!['0'] + (seq!['0'] + d));
        if n < 10 {
            assert(padded4(n) =~= seq!['0'] + (seq!['0'] + (seq!['0'] + d)));
        } else if n < 100 {
            assert(padded4(n) =~= seq!['0'] + (seq!['0'] + d));
        } else {
            assert(padded4(n) =~= seq!['0'] + d);
        }
        assert forall|i: int| 0 <= i < padded4(n).len() implies is_digit_char(padded4(n)[i]) by {
            if padded4(n)[i] != '0' {
                let k = i - (padded4(n).len() - d.len());
                assert(padded4(n)[i] == d[k]);
            }
        }
    }
}

/// Parsing the zero-padded rendering of a small value gives it back.
pub proof fn lemma_parse_padded4(m: nat)
    requires
        m <= u32::MAX,
    ensures
        parse_u32_spec(padded4(m)) == Some(m as u32),
{
    let s = padded4(m);
    lemma_padded4_digits(m);
    assert(is_digit_char(s[0]));
    assert(s[0] != '+');
    assert(dec_digits_of(s) == Some(s));
}

/// Renders `n` in decimal zero-padded to at least four digits.
pub fn u64_to_dec4(n: u64) -> (r: String)
    ensures
        r@ == padded4(n as nat),
{
    let s = u64_to_dec(n);
    if n < 10 {
        proof {
            reveal_strlit("000");
            assert("000"@ =~= seq!['0', '0', '0']);
        }
        let mut t = String::from_str("000");
        t.append(s.as_str());
        t
    } else if n < 100 {
        proof {
            reveal_strlit("00");
            assert("00"@ =~= seq!['0', '0']);
        }
        let mut t = String::from_str("00");
        t.append(s.as_str());
        t
    } else if n < 1000 {
        proof {
            reveal_strlit("0");
            assert("0"@ =~= seq!['0']);
        }
        let mut t = String::from_str("0");
        t.append(s.as_str());
        t
    } else {
        s
    }
}

pub open spec fn trim_start_of(s: Seq<char>) -> Seq<char>
    decreases s.len(),
{
    if s.len() > 0 && is_ws_char(s[0]) {
        trim_start_of(s.drop_first())
    } else {
        s
    }
}

pub open spec fn trim_end_of(s: Seq<char>) -> Seq<char>
    decreases s.len(),
{
    if s.len() > 0 && is_ws_char(s.last()) {
        trim_end_of(s.drop_last())
    } else {
        s
    }
}

/// What `str::trim` keeps: the text with leading and trailing whitespace gone.
pub open spec fn trim_of(s: Seq<char>) -> Seq<char> {
    trim_end_of(trim_start_of(s))
}

/// True when the text consists of whitespace alone.
pub open spec fn is_blank(s: Seq<char>) -> bool {
    forall|i: int| 0 <= i < s.len() ==> is_ws_char(s[i])
}

proof fn lemma_trim_start_skip(s: Seq<char>, i: int)
    requires
        0 <= i <= s.len(),
        forall|k: int| 0 <= k < i ==> is_ws_char(s[k]),
        i == s.len() || !is_ws_char(s[i]),
    ensures
        trim_start_of(s) == s.skip(i),
    decreases i,
{
    if i == 0 {
        assert(s.skip(0) =~= s);
    } else {
        let d = s.drop_first();
        assert(forall|k: int| 0 <= k < i - 1 ==> is_ws_char(d[k]));
        lemma_trim_start_skip(d, i - 1);
        assert(d.skip(i - 1) =~= s.skip(i));
    }
}

proof fn lemma_trim_end_take(s: Seq<char>, j: int)
    requires
        0 <= j <= s.len(),
        forall|k: int| j <= k < s.len() ==> is_ws_char(s[k]),
        j == 0 || !is_ws_char(s[j - 1]),
    ensures
        trim_end_of(s) == s.take(j),
    decreases s.len() - j,
{
    if j == s.len() {
        assert(s.take(j) =~= s);
    } else {
        let d = s.drop_last();
        assert(is_ws_char(s.last()));
        assert(forall|k: int| j <= k < d.len() ==> is_ws_char(d[k]));
        lemma_trim_end_take(d, j);
        assert(d.take(j) =~= s.take(j));
    }
}

/// A comment line: its first non-whitespace character is `#`.
pub open spec fn is_comment_line(l: Seq<char>) -> bool {
    trim_start_of(l).len() > 0 && trim_start_of(l)[0] == '#'
}

proof fn lemma_trim_start_props(s: Seq<char>)
    ensures
        trim_start_of(s).len() <= s.len(),
        trim_start_of(s) == s.skip(s.len() - trim_start_of(s).len()),
        forall|k: int| 0 <= k < s.len() - trim_start_of(s).len() ==> is_ws_char(s[k]),
        trim_start_of(s).len() > 0 ==> !is_ws_char(trim_start_of(s)[0]),
    decreases s.len(),
{
    if s.len() > 0 && is_ws_char(s[0]) {
        let d = s.drop_first();
        lemma_trim_start_props(d);
        assert(d.skip(d.len() - trim_start_of(d).len()) =~= s.skip(s.len() - trim_start_of(
            s,
        ).len()));
        assert forall|k: int| 0 <= k < s.len() - trim_start_of(s).len() implies is_ws_char(
            s[k],
        ) by {
            if k > 0 {
                assert(s[k] == d[k - 1]);
            }
        }
    } else {
        assert(s.skip(0) =~= s);
    }
}

proof fn lemma_trim_end_props(s: Seq<char>)
    ensures
        trim_end_of(s).len() <= s.len(),
        trim_end_of(s) == s.take(trim_end_of(s).len() as int),
        forall|k: int| trim_end_of(s).len() <= k < s.len() ==> is_ws_char(s[k]),
        trim_end_of(s).len() > 0 ==> !is_ws_char(s[trim_end_of(s).len() - 1]),
    decreases s.len(),
{
    if s.len() > 0 && is_ws_char(s.last()) {
        let d = s.drop_last();
        lemma_trim_end_props(d);
        assert(d.take(trim_end_of(d).len() as int) =~= s.take(trim_end_of(s).len() as int));
        assert forall|k: int| trim_end_of(s).len() <= k < s.len() implies is_ws_char(s[k]) by {
            if k < d.len() {
                assert(s[k] == d[k]);
            } else {
                assert(s[k] == s.last());
            }
        }
        if trim_end_of(s).len() > 0 {
            assert(s[trim_end_of(s).len() - 1] == d[trim_end_of(d).len() - 1]);
        }
    } else {
        assert(s.take(s.len() as int) =~= s);
    }
}

/// Stripping trailing whitespace twice strips it once.
pub proof fn lemma_trim_end_idempotent(s: Seq<char>)
    ensures
        trim_end_of(trim_end_of(s)) == trim_end_of(s),
    decreases s.len(),
{
    if s.len() > 0 && is_ws_char(s.last()) {
        lemma_trim_end_idempotent(s.drop_last());
    }
}

/// Stripping trailing whitespace does not change whether a line is a
/// comment: the first non-whitespace character stays in place.
pub proof fn lemma_comment_line_trim_end(l: Seq<char>)
    ensures
        is_comment_line(trim_end_of(l)) == is_comment_line(l),
{
    let t = trim_end_of(l);
    lemma_trim_end_props(l);
    lemma_trim_start_props(l);
    lemma_trim_start_props(t);
    let i = l.len() - trim_start_of(l).len();
    let j = t.len() as int;
    if trim_start_of(l).len() == 0 {
        if trim_start_of(t).len() > 0 {
            let m = t.len() - trim_start_of(t).len();
            assert(trim_start_of(t)[0] == t.skip(m)[0]);
            assert(t.skip(m)[0] == t[m]);
            assert(t[m] == l[m]);
            assert(is_ws_char(l[m]));
            assert(false);
        }
    } else {
        assert(trim_start_of(l)[0] == l.skip(i)[0]);
        assert(l.skip(i)[0] == l[i]);
        assert(!is_ws_char(l[i]));
        assert(i < j);
        assert forall|k: int| 0 <= k < i implies is_ws_char(t[k]) by {
            assert(t[k] == l[k]);
        }
        assert(t[i] == l[i]);
        lemma_trim_start_skip(t, i);
        assert(trim_start_of(t)[0] == t.skip(i)[0]);
        assert(t.skip(i)[0] == t[i]);
    }
}

/// Index of the first character that is not whitespace, or the length.
pub fn first_non_ws(s: &str) -> (i: usize)
    ensures
        0 <= i <= s@.len(),
        forall|k: int| 0 <= k < i ==> is_ws_char(s@[k]),
        i < s@.len() ==> !is_ws_char(s@[i as int]),
        trim_start_of(s@) == s@.skip(i as int),
{
    let n = s.unicode_len();
    let mut i: usize = 0;
    while i < n && is_ws(s.get_char(i))
        invariant
            0 <= i <= n,
            n == s@.len(),
            forall|k: int| 0 <= k < i ==> is_ws_char(s@[k]),
        decreases n - i,
    {
        i = i + 1;
    }
    proof {
        lemma_trim_start_skip(s@, i as int);
    }
    i
}

/// Index just past the last character that is not whitespace, at or after `lo`.
fn last_non_ws_from(s: &str, lo: usize) -> (j: usize)
    requires
        lo <= s@.len(),
    ensures
        lo <= j <= s@.len(),
        forall|k: int| j <= k < s@.len() ==> is_ws_char(s@[k]),
        j > lo ==> !is_ws_char(s@[j - 1]),
{
    let n = s.unicode_len();
    let mut j: usize = n;
    while j > lo && is_ws(s.get_char(j - 1))
        invariant
            lo <= j <= n,
            n == s@.len(),
            forall|k: int| j <= k < s@.len() ==> is_ws_char(s@[k]),
        decreases j,
    {
        j = j - 1;
    }
    j
}

/// Implements `str::trim`.
pub fn trim_str(s: &str) -> (r: String)
    ensures
        r@ == trim_of(s@),
{
    let i = first_non_ws(s);
    let j = last_non_ws_from(s, i);
    let t = s.substring_char(i, j);
    proof {
        let sk = s@.skip(i as int);
        assert(forall|k: int| j - i <= k < sk.len() ==> is_ws_char(sk[k]));
        if j > i {
            assert(!is_ws_char(sk[j - i - 1]));
        }
        lemma_trim_end_take(sk, j - i);
        assert(sk.take(j - i) =~= s@.subrange(i as int, j as int));
    }
    t.to_owned()
}

/// Implements `str::trim_end`.
pub fn trim_end_str(s: &str) -> (r: String)
    ensures
        r@ == trim_end_of(s@),
{
    let j = last_non_ws_from(s, 0);
    let t = s.substring_char(0, j);
    proof {
        lemma_trim_end_take(s@, j as int);
        assert(s@.take(j as int) =~= s@.subrange(0, j as int));
    }
    t.to_owned()
}

/// Decides whether the text is whitespace alone, as `str::trim` followed by
/// `is_empty` does.
pub fn is_blank_str(s: &str) -> (r: bool)
    ensures
        r == is_blank(s@),
{
    let i = first_non_ws(s);
    i == s.unicode_len()
}

/// Relies on `String::push`: appends exactly the given character.
#[verifier::external_body]
pub fn push_char(s: &mut String, c: char)
    ensures
        final(s)@ == old(s)@.push(c),
{
    s.push(c);
}

/// Builds the string holding exactly the given characters.
pub fn string_from_chars(v: &Vec<char>) -> (r: String)
    ensures
        r@ == v@,
{
    let mut s = String::new();
    let mut i: usize = 0;
    while i < v.len()
        invariant
            0 <= i <= v@.len(),
            s@ == v@.take(i as int),
        decreases v@.len() - i,
    {
        push_char(&mut s, v[i]);
        proof {
            assert(v@.take(i as int).push(v@[i as int]) =~= v@.take(i + 1));
        }
        i = i + 1;
    }
    proof {
        assert(v@.take(v@.len() as int) =~= v@);
    }
    s
}

/// What `str::to_lowercase` returns: a function of the characters alone.
pub uninterp spec fn lower_of(s: Seq<char>) -> Seq<char>;

/// Relies on `str::to_lowercase`: the result depends on the characters alone.
#[verifier::external_body]
pub fn lowercase(s: &str) -> (r: String)
    ensures
        r@ == lower_of(s@),
{
    s.to_lowercase()
}

/// Index of the first occurrence of `c`, or the length when absent.
pub open spec fn idx_first_of(s: Seq<char>, c: char) -> int
    decreases s.len(),
{
    if s.len() == 0 {
        0
    } else if s[0] == c {
        0
    } else {
        1 + idx_first_of(s.drop_first(), c)
    }
}

pub proof fn lemma_idx_first_of(s: Seq<char>, c: char)
    ensures
        0 <= idx_first_of(s, c) <= s.len(),
        forall|k: int| 0 <= k < idx_first_of(s, c) ==> s[k] != c,
        idx_first_of(s, c) < s.len() ==> s[idx_first_of(s, c)] == c,
    decreases s.len(),
{
    if s.len() == 0 || s[0] == c {
    } else {
        let d = s.drop_first();
        lemma_idx_first_of(d, c);
        assert forall|k: int| 0 <= k < idx_first_of(s, c) implies s[k] != c by {
            if k > 0 {
                assert(s[k] == d[k - 1]);
            }
        }
    }
}

pub proof fn lemma_idx_first_of_at(s: Seq<char>, c: char, m: int)
    requires
        0 <= m <= s.len(),
        forall|k: int| 0 <= k < m ==> s[k] != c,
        m < s.len() ==> s[m] == c,
    ensures
        idx_first_of(s, c) == m,
    decreases m,
{
    if s.len() == 0 {
    } else if m == 0 {
    } else {
        let d = s.drop_first();
        assert(forall|k: int| 0 <= k < m - 1 ==> d[k] != c);
        lemma_idx_first_of_at(d, c, m - 1);
    }
}

pub open spec fn idx_first_nl(s: Seq<char>) -> int {
    idx_first_of(s, '\n')
}

proof fn lemma_idx_first_nl(s: Seq<char>)
    ensures
        0 <= idx_first_nl(s) <= s.len(),
        forall|k: int| 0 <= k < idx_first_nl(s) ==> s[k] != '\n',
        idx_first_nl(s) < s.len() ==> s[idx_first_nl(s)] == '\n',
{
    lemma_idx_first_of(s, '\n');
}

proof fn lemma_idx_first_nl_at(s: Seq<char>, m: int)
    requires
        0 <= m <= s.len(),
        forall|k: int| 0 <= k < m ==> s[k] != '\n',
        m < s.len() ==> s[m] == '\n',
    ensures
        idx_first_nl(s) == m,
{
    lemma_idx_first_of_at(s, '\n', m);
}

/// Index of the first occurrence of `c` in `s`, or the length when absent.
pub fn find_char(s: &str, c: char) -> (i: usize)
    ensures
        i == idx_first_of(s@, c),
        0 <= i <= s@.len(),
        forall|k: int| 0 <= k < i ==> s@[k] != c,
        i < s@.len() ==> s@[i as int] == c,
{
    let n = s.unicode_len();
    let mut i: usize = 0;
    while i < n && s.get_char(i) != c
        invariant
            0 <= i <= n,
            n == s@.len(),
            forall|k: int| 0 <= k < i ==> s@[k] != c,
        decreases n - i,
    {
        i = i + 1;
    }
    proof {
        lemma_idx_first_of_at(s@, c, i as int);
    }
    i
}

/// A line terminated by `\n` loses one trailing `\r`, as `str::lines` does.
pub open spec fn strip_cr(l: Seq<char>) -> Seq<char> {
    if l.len() > 0 && l.last() == '\r' {
        l.drop_last()
    } else {
        l
    }
}

/// The lines of the text, as `str::lines` yields them.
pub open spec fn split_lines_of(s: Seq<char>) -> Seq<Seq<char>>
    decreases s.len(),
    via split_lines_of_decreases
{
    if s.len() == 0 {
        Seq::empty()
    } else {
        let i = idx_first_nl(s);
        if i == s.len() {
            seq![s]
        } else {
            seq![strip_cr(s.take(i))] + split_lines_of(s.skip(i + 1))
        }
    }
}

#[via_fn]
proof fn split_lines_of_decreases(s: Seq<char>) {
    lemma_idx_first_nl(s);
}

/// Splits text into lines, as `str::lines` does.
pub fn split_lines_str(s: &str) -> (r: Vec<String>)
    ensures
        r.deep_view() == split_lines_of(s@),
{
    let n = s.unicode_len();
    let mut out: Vec<String> = Vec::new();
    let mut cur: Vec<char> = Vec::new();
    let mut start: usize = 0;
    let mut i: usize = 0;
    proof {
        assert(s@.skip(0) =~= s@);
        assert(out.deep_view() + split_lines_of(s@) =~= split_lines_of(s@));
    }
    #[verifier::loop_isolation(false)]
    while i < n
        invariant
            0 <= start <= i <= n,
            n == s@.len(),
            cur@ == s@.subrange(start as int, i as int),
            forall|k: int| start <= k < i ==> s@[k] != '\n',
            split_lines_of(s@) == out.deep_view() + split_lines_of(s@.skip(start as int)),
        decreases n - i,
    {
        let c = s.get_char(i);
        if c == '\n' {
            let ghost rest = s@.skip(start as int);
            proof {
                assert(forall|k: int| 0 <= k < i - start ==> rest[k] == s@[k + start]);
                lemma_idx_first_nl_at(rest, i - start);
                assert(rest.take(i - start) =~= cur@);
                assert(rest.skip(i - start + 1) =~= s@.skip(i + 1));
            }
            if cur.len() > 0 && cur[cur.len() - 1] == '\r' {
                cur.pop();
            }
            proof {
                assert(cur@ =~= strip_cr(rest.take(i - start)));
            }
            let line = string_from_chars(&cur);
            out.push(line);
            proof {
                assert(out.deep_view() =~= split_lines_of(s@).take(out.deep_view().len() as int));
                assert(split_lines_of(s@) =~= out.deep_view() + split_lines_of(s@.skip(i + 1)));
            }
            cur = Vec::new();
            start = i + 1;
            proof {
                assert(cur@ =~= s@.subrange(start as int, i + 1));
            }
        } else {
            cur.push(c);
            proof {
                assert(cur@ =~= s@.subrange(start as int, i + 1));
            }
        }
        i = i + 1;
    }
    let ghost rest = s@.skip(start as int);
    if cur.len() > 0 {
        proof {
            assert(forall|k: int| 0 <= k < rest.len() ==> rest[k] == s@[k + start]);
            lemma_idx_first_nl_at(rest, rest.len() as int);
            assert(rest =~= cur@);
        }
        let line = string_from_chars(&cur);
        out.push(line);
        proof {
            assert(split_lines_of(rest) =~= seq![cur@]);
            assert(out.deep_view() =~= split_lines_of(s@));
        }
    } else {
        proof {
            assert(rest =~= Seq::<char>::empty());
            assert(out.deep_view() =~= split_lines_of(s@));
        }
    }
    out
}

/// Decides equality of two string slices by their characters.
pub fn str_eq(a: &str, b: &str) -> (r: bool)
    ensures
        r == (a@ == b@),
{
    let na = a.unicode_len();
    let nb = b.unicode_len();
    if na != nb {
        return false;
    }
    let mut i: usize = 0;
    while i < na
        invariant
            0 <= i <= na,
            na == a@.len(),
            na == b@.len(),
            forall|k: int| 0 <= k < i ==> a@[k] == b@[k],
        decreases na - i,
    {
        if a.get_char(i) != b.get_char(i) {
            return false;
        }
        i = i + 1;
    }
    proof {
        assert(a@ =~= b@);
    }
    true
}

} // verus!
