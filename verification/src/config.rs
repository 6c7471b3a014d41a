//! Parser for the declarative sandbox-definition file.
//!
//! The format is line-oriented: blank lines and lines whose first
//! non-blank byte is `#` are skipped; the first significant line names the
//! sandbox (everything after the first space is discarded); every later
//! significant line is either `key = value` (with one optional trailing
//! `;`) or a bare flag key. A value that is empty becomes a flag, one that
//! reads as a 32-bit signed integer becomes an integer, anything else
//! stays text. The final parsed entry is dropped at end of input — an
//! inherited trailer-handling quirk that callers depend on, preserved
//! here deliberately.

use vstd::prelude::*;

use crate::params::EntryView;
use crate::params::ParamEntry;
use crate::params::ParamValue;
use crate::params::ParameterSet;
use crate::params::ValueView;
use crate::util::find_byte;
use crate::util::subvec;

verus! {

/// Horizontal blank bytes: space, tab, carriage return.
pub open spec fn is_blank(b: u8) -> bool {
    b == 32 || b == 9 || b == 13
}

/// The first position of `b` in `s`, or `s.len()` when absent.
pub open spec fn find_first(s: Seq<u8>, b: u8) -> int
    decreases s.len(),
{
    if s.len() == 0 {
        0
    } else if s[0] == b {
        0
    } else {
        1 + find_first(s.drop_first(), b)
    }
}

pub proof fn lemma_find_first_le(s: Seq<u8>, b: u8)
    ensures
        0 <= find_first(s, b) <= s.len(),
    decreases s.len(),
{
    if s.len() > 0 && s[0] != b {
        lemma_find_first_le(s.drop_first(), b);
    }
}

pub proof fn lemma_find_first_at(s: Seq<u8>, b: u8, i: int)
    requires
        0 <= i < s.len(),
        s[i] == b,
        forall|j: int| 0 <= j < i ==> s[j] != b,
    ensures
        find_first(s, b) == i,
    decreases i,
{
    if i > 0 {
        assert(s[0] != b);
        let t = s.drop_first();
        assert(t[i - 1] == s[i]);
        assert forall|j: int| 0 <= j < i - 1 implies t[j] != b by {
            assert(t[j] == s[j + 1]);
        }
        lemma_find_first_at(t, b, i - 1);
    }
}

pub proof fn lemma_find_first_none(s: Seq<u8>, b: u8)
    requires
        forall|j: int| 0 <= j < s.len() ==> s[j] != b,
    ensures
        find_first(s, b) == s.len(),
    decreases s.len(),
{
    if s.len() > 0 {
        let t = s.drop_first();
        assert forall|j: int| 0 <= j < t.len() implies t[j] != b by {
            assert(t[j] == s[j + 1]);
        }
        lemma_find_first_none(t, b);
    }
}

/// `s` without its leading blanks.
pub open spec fn trim_start(s: Seq<u8>) -> Seq<u8>
    decreases s.len(),
{
    if s.len() > 0 && is_blank(s[0]) {
        trim_start(s.drop_first())
    } else {
        s
    }
}

/// `s` without its trailing blanks.
pub open spec fn trim_end(s: Seq<u8>) -> Seq<u8>
    decreases s.len(),
{
    if s.len() > 0 && is_blank(s[s.len() - 1]) {
        trim_end(s.drop_last())
    } else {
        s
    }
}

/// `s` without leading and trailing blanks.
pub open spec fn trim(s: Seq<u8>) -> Seq<u8> {
    trim_end(trim_start(s))
}

proof fn lemma_trim_start_skip(s: Seq<u8>, a: int)
    requires
        0 <= a <= s.len(),
        forall|j: int| 0 <= j < a ==> is_blank(s[j]),
        a < s.len() ==> !is_blank(s[a]),
    ensures
        trim_start(s) == s.skip(a),
    decreases a,
{
    if a == 0 {
        assert(s.skip(0) =~= s);
    } else {
        assert(is_blank(s[0]));
        let t = s.drop_first();
        assert forall|j: int| 0 <= j < a - 1 implies is_blank(t[j]) by {
            assert(t[j] == s[j + 1]);
        }
        assert(a - 1 < t.len() ==> !is_blank(t[a - 1]));
        lemma_trim_start_skip(t, a - 1);
        assert(t.skip(a - 1) =~= s.skip(a));
    }
}

proof fn lemma_trim_end_take(s: Seq<u8>, b: int)
    requires
        0 <= b <= s.len(),
        forall|j: int| b <= j < s.len() ==> is_blank(s[j]),
        b > 0 ==> !is_blank(s[b - 1]),
    ensures
        trim_end(s) == s.take(b),
    decreases s.len() - b,
{
    if b == s.len() {
        if s.len() > 0 {
            assert(!is_blank(s[s.len() - 1]));
        }
        assert(s.take(b) =~= s);
    } else {
        assert(is_blank(s[s.len() - 1]));
        let t = s.drop_last();
        assert forall|j: int| b <= j < t.len() implies is_blank(t[j]) by {
            assert(t[j] == s[j]);
        }
        assert(b > 0 ==> t[b - 1] == s[b - 1]);
        lemma_trim_end_take(t, b);
        assert(t.take(b) =~= s.take(b));
    }
}

/// A line that produces an entry: non-blank, and not a comment.
pub open spec fn significant(line: Seq<u8>) -> bool {
    trim(line).len() > 0 && trim(line)[0] != 35
}

/// ASCII decimal digit.
pub open spec fn is_digit(b: u8) -> bool {
    48 <= b <= 57
}

pub open spec fn all_digits(s: Seq<u8>) -> bool {
    forall|i: int| 0 <= i < s.len() ==> is_digit(#[trigger] s[i])
}

/// The value of a digit string, most-significant digit first.
pub open spec fn digits_val(s: Seq<u8>) -> int
    decreases s.len(),
{
    if s.len() == 0 {
        0
    } else {
        digits_val(s.drop_last()) * 10 + (s[s.len() - 1] - 48)
    }
}

/// The integer a literal denotes: an optional sign, then one or more
/// digits, nothing else.
pub open spec fn int_literal_val(s: Seq<u8>) -> Option<int> {
    if s.len() == 0 {
        None
    } else {
        let sign: int = if s[0] == 45 {
            -1
        } else {
            1
        };
        let ds = if s[0] == 45 || s[0] == 43 {
            s.drop_first()
        } else {
            s
        };
        if ds.len() > 0 && all_digits(ds) {
            Some(sign * digits_val(ds))
        } else {
            None
        }
    }
}

/// The literal as a 32-bit signed integer, if it denotes one in range.
pub open spec fn parse_i32_spec(s: Seq<u8>) -> Option<i32> {
    match int_literal_val(s) {
        Some(v) => if -0x8000_0000 <= v <= 0x7fff_ffff {
            Some(v as i32)
        } else {
            None
        },
        None => None,
    }
}

proof fn lemma_digits_val_take_step(ds: Seq<u8>, k: int)
    requires
        0 <= k < ds.len(),
    ensures
        digits_val(ds.take(k + 1)) == digits_val(ds.take(k)) * 10 + (ds[k] - 48),
{
    let q = ds.take(k + 1);
    assert(q.drop_last() =~= ds.take(k));
    assert(q[q.len() - 1] == ds[k]);
}

fn is_digit_byte(b: u8) -> (r: bool)
    ensures
        r == is_digit(b),
{
    48 <= b && b <= 57
}

/// Parses an optional sign and decimal digits as an `i32`; anything
/// malformed or out of range yields `None`.
#[verifier::rlimit(50)]
pub fn parse_i32(s: &Vec<u8>) -> (r: Option<i32>)
    ensures
        r == parse_i32_spec(s@),
{
    let n = s.len();
    if n == 0 {
        return None;
    }
    let neg = s[0] == 45;
    let start: usize = if s[0] == 45 || s[0] == 43 {
        1
    } else {
        0
    };
    let ghost ds = if s@[0] == 45 || s@[0] == 43 {
        s@.drop_first()
    } else {
        s@
    };
    assert(ds.len() == n - start);
    assert(forall|j: int| 0 <= j < ds.len() ==> ds[j] == s@[j + start]);
    if n == start {
        return None;
    }
    let mut acc: u64 = 0;
    let mut over = false;
    let mut i: usize = start;
    while i < n
        invariant
            start <= i <= n,
            n == s@.len(),
            n > start,
            neg == (s@[0] == 45),
            start == (if s@[0] == 45 || s@[0] == 43 {
                1int
            } else {
                0int
            }),
            ds == (if s@[0] == 45 || s@[0] == 43 {
                s@.drop_first()
            } else {
                s@
            }),
            ds.len() == n - start,
            forall|j: int| 0 <= j < ds.len() ==> ds[j] == s@[j + start],
            all_digits(ds.take(i - start)),
            !over ==> acc == digits_val(ds.take(i - start)) && acc <= 0x8000_0000,
            over ==> digits_val(ds.take(i - start)) > 0x8000_0000,
        decreases n - i,
    {
        let b = s[i];
        assert(ds[i - start] == b);
        if !is_digit_byte(b) {
            assert(!all_digits(ds));
            return None;
        }
        proof {
            assert(ds.take(i - start + 1) =~= ds.take(i - start).push(b));
            assert forall|j: int| 0 <= j < i - start + 1 implies is_digit(
                #[trigger] ds.take(i - start + 1)[j],
            ) by {
                if j < i - start {
                    assert(ds.take(i - start)[j] == ds.take(i - start + 1)[j]);
                }
            }
            lemma_digits_val_take_step(ds, i - start);
        }
        if over {
            proof {
                let prev = digits_val(ds.take(i - start));
                assert(prev * 10 >= prev + prev) by (nonlinear_arith)
                    requires
                        prev >= 0,
                ;
            }
        } else {
            let d = (b - 48) as u64;
            acc = acc * 10 + d;
            if acc > 0x8000_0000 {
                over = true;
            }
        }
        i += 1;
    }
    assert(ds.take(n - start) =~= ds);
    assert(all_digits(ds));
    let ghost dv = digits_val(ds);
    proof {
        assert(dv >= 0) by {
            lemma_digits_val_nonneg(ds);
        }
        if s@[0] == 45 {
            assert(int_literal_val(s@) == Some(-1 * dv));
        } else {
            assert(int_literal_val(s@) == Some(1 * dv));
        }
    }
    if over {
        proof {
            assert(dv > 0x8000_0000);
            if s@[0] == 45 {
                assert(-1 * dv < -0x8000_0000) by (nonlinear_arith)
                    requires
                        dv > 0x8000_0000,
                ;
            } else {
                assert(1 * dv > 0x7fff_ffff) by (nonlinear_arith)
                    requires
                        dv > 0x8000_0000,
                ;
            }
            assert(parse_i32_spec(s@) is None);
        }
        return None;
    }
    assert(acc == dv);
    if neg {
        let wide: i64 = -(acc as i64);
        assert(wide == -(acc as int));
        assert(acc == dv);
        assert(wide == -1 * dv) by (nonlinear_arith)
            requires
                wide == -(acc as int),
                acc == dv,
        ;
        let r: i32 = wide as i32;
        assert(r == -1 * dv);
        assert(parse_i32_spec(s@) == Some(r));
        Some(r)
    } else {
        if acc > 0x7fff_ffff {
            proof {
                assert(1 * dv > 0x7fff_ffff) by (nonlinear_arith)
                    requires
                        dv > 0x7fff_ffff,
                ;
                assert(parse_i32_spec(s@) is None);
            }
            return None;
        }
        let r: i32 = acc as i32;
        assert(r == 1 * dv) by (nonlinear_arith)
            requires
                r == acc as int,
                acc == dv,
        ;
        assert(parse_i32_spec(s@) == Some(r));
        Some(r)
    }
}

proof fn lemma_digits_val_nonneg(s: Seq<u8>)
    requires
        all_digits(s),
    ensures
        digits_val(s) >= 0,
    decreases s.len(),
{
    if s.len() > 0 {
        let t = s.drop_last();
        assert forall|j: int| 0 <= j < t.len() implies is_digit(#[trigger] t[j]) by {
            assert(t[j] == s[j]);
        }
        lemma_digits_val_nonneg(t);
        assert(digits_val(t) * 10 >= 0) by (nonlinear_arith)
            requires
                digits_val(t) >= 0,
        ;
        assert(is_digit(s[s.len() - 1]));
    }
}

/// Splits on newline bytes; the text after the last newline is a line
/// too, so input ending in a newline yields a final empty line.
pub open spec fn split_lines(s: Seq<u8>) -> Seq<Seq<u8>>
    decreases s.len(),
    via split_lines_decreases
{
    let i = find_first(s, 10);
    if i == s.len() {
        seq![s]
    } else {
        seq![s.take(i)] + split_lines(s.skip(i + 1))
    }
}

#[via_fn]
proof fn split_lines_decreases(s: Seq<u8>) {
    lemma_find_first_le(s, 10);
}

/// The significant lines, in order: blank and comment lines are skipped.
pub open spec fn sig_filter(lines: Seq<Seq<u8>>) -> Seq<Seq<u8>>
    decreases lines.len(),
{
    if lines.len() == 0 {
        Seq::<Seq<u8>>::empty()
    } else {
        let rest = sig_filter(lines.drop_first());
        if significant(lines[0]) {
            seq![lines[0]] + rest
        } else {
            rest
        }
    }
}

pub proof fn lemma_sig_filter_push(lines: Seq<Seq<u8>>, l: Seq<u8>)
    ensures
        sig_filter(lines.push(l)) == sig_filter(lines) + (if significant(l) {
            seq![l]
        } else {
            Seq::<Seq<u8>>::empty()
        }),
    decreases lines.len(),
{
    if lines.len() == 0 {
        assert(lines.push(l).drop_first() =~= lines);
        assert(sig_filter(lines.push(l)) =~= sig_filter(lines) + (if significant(l) {
            seq![l]
        } else {
            Seq::<Seq<u8>>::empty()
        }));
    } else {
        assert(lines.push(l).drop_first() =~= lines.drop_first().push(l));
        lemma_sig_filter_push(lines.drop_first(), l);
        assert(sig_filter(lines.push(l)) =~= sig_filter(lines) + (if significant(l) {
            seq![l]
        } else {
            Seq::<Seq<u8>>::empty()
        }));
    }
}

/// The bytes of the `name` key that the first significant line produces.
pub open spec fn name_key() -> Seq<u8> {
    seq![110u8, 97u8, 109u8, 101u8]
}

/// The entry of the naming line: the token before the first space becomes
/// a text value under the `name` key; the remainder of the line is
/// discarded.
pub open spec fn name_entry(line: Seq<u8>) -> EntryView {
    let t = trim(line);
    EntryView { key: name_key(), value: ValueView::Text(t.take(find_first(t, 32))) }
}

/// The tagged value on the right of `=`: one optional trailing `;` is
/// dropped, blanks trimmed; empty becomes a flag, a 32-bit integer
/// literal an integer, anything else text.
pub open spec fn parse_value(raw: Seq<u8>) -> ValueView {
    let v0 = if raw.len() > 0 && raw[raw.len() - 1] == 59 {
        raw.drop_last()
    } else {
        raw
    };
    let v = trim(v0);
    if v.len() == 0 {
        ValueView::Flag
    } else {
        match parse_i32_spec(v) {
            Some(i) => ValueView::Integer(i),
            None => ValueView::Text(v),
        }
    }
}

/// The entry of a later significant line: split at the first `=`, both
/// sides trimmed; with no `=` the whole trimmed line is a flag key.
pub open spec fn line_entry(line: Seq<u8>) -> EntryView {
    let t = trim(line);
    let i = find_first(t, 61);
    if i == t.len() {
        EntryView { key: t, value: ValueView::Flag }
    } else {
        EntryView { key: trim(t.take(i)), value: parse_value(trim(t.skip(i + 1))) }
    }
}

/// The entry a significant line produces, by its position: the first line
/// names the sandbox, every later one is a key/value or flag line.
pub open spec fn entry_of_line(idx: int, line: Seq<u8>) -> EntryView {
    if idx == 0 {
        name_entry(line)
    } else {
        line_entry(line)
    }
}

pub open spec fn entries_of_lines(lines: Seq<Seq<u8>>) -> Seq<EntryView> {
    Seq::new(lines.len(), |i: int| entry_of_line(i, lines[i]))
}

/// The parse of a pre-split line sequence: entries of the significant
/// lines, with the final parsed entry dropped.
pub open spec fn parse_lines_spec(lines: Seq<Seq<u8>>) -> Seq<EntryView> {
    let es = entries_of_lines(sig_filter(lines));
    if es.len() == 0 {
        es
    } else {
        es.drop_last()
    }
}

/// The parse of a whole input.
pub open spec fn parse_config_spec(s: Seq<u8>) -> Seq<EntryView> {
    parse_lines_spec(split_lines(s))
}

proof fn lemma_insert_insignificant(lines: Seq<Seq<u8>>, i: int, l: Seq<u8>)
    requires
        0 <= i <= lines.len(),
        !significant(l),
    ensures
        sig_filter(lines.insert(i, l)) == sig_filter(lines),
    decreases i,
{
    let ext = lines.insert(i, l);
    if i == 0 {
        assert(ext[0] == l);
        assert(ext.drop_first() =~= lines);
    } else {
        assert(ext[0] == lines[0]);
        assert(ext.drop_first() =~= lines.drop_first().insert(i - 1, l));
        lemma_insert_insignificant(lines.drop_first(), i - 1, l);
        assert(sig_filter(ext) =~= sig_filter(lines));
    }
}

/// Comment and blank lines law: inserting a non-significant line — a
/// blank line, or one whose first non-blank byte is `#` — anywhere in the
/// line sequence leaves the parse unchanged; such lines never produce an
/// entry.
pub proof fn lemma_comment_blank_skipped(lines: Seq<Seq<u8>>, i: int, l: Seq<u8>)
    requires
        0 <= i <= lines.len(),
        !significant(l),
    ensures
        parse_lines_spec(lines.insert(i, l)) == parse_lines_spec(lines),
{
    lemma_insert_insignificant(lines, i, l);
}

/// No silent discard: every significant line but the last produces its
/// entry, in order; only the trailing parsed entry is dropped.
pub proof fn lemma_only_trailing_entry_dropped(lines: Seq<Seq<u8>>)
    ensures
        ({
            let sig = sig_filter(lines);
            let es = parse_lines_spec(lines);
            &&& (sig.len() == 0 ==> es.len() == 0)
            &&& (sig.len() > 0 ==> es.len() == sig.len() - 1)
            &&& forall|i: int| 0 <= i < es.len() ==> es[i] == entry_of_line(i, sig[i])
        }),
{
}

fn is_blank_byte(b: u8) -> (r: bool)
    ensures
        r == is_blank(b),
{
    b == 32 || b == 9 || b == 13
}

/// Copies `v` without leading and trailing blanks.
pub fn trim_vec(v: &Vec<u8>) -> (r: Vec<u8>)
    ensures
        r@ == trim(v@),
{
    let n = v.len();
    let mut a: usize = 0;
    while a < n
        invariant
            a <= n,
            n == v@.len(),
            forall|j: int| 0 <= j < a ==> is_blank(v@[j]),
        ensures
            a <= n,
            n == v@.len(),
            forall|j: int| 0 <= j < a ==> is_blank(v@[j]),
            a < n ==> !is_blank(v@[a as int]),
        decreases n - a,
    {
        if !is_blank_byte(v[a]) {
            break;
        }
        a += 1;
    }
    let mut b: usize = n;
    while b > a
        invariant
            a <= b <= n,
            n == v@.len(),
            forall|j: int| b <= j < n ==> is_blank(v@[j]),
        ensures
            a <= b <= n,
            n == v@.len(),
            forall|j: int| b <= j < n ==> is_blank(v@[j]),
            b > a ==> !is_blank(v@[b - 1]),
        decreases b,
    {
        if !is_blank_byte(v[b - 1]) {
            break;
        }
        b -= 1;
    }
    proof {
        if a == n {
            lemma_trim_start_skip(v@, a as int);
            assert(v@.skip(a as int).len() == 0);
            lemma_trim_end_take(v@.skip(a as int), 0);
            assert(v@.skip(a as int).take(0) =~= v@.subrange(a as int, b as int));
        } else {
            lemma_trim_start_skip(v@, a as int);
            let t = v@.skip(a as int);
            assert forall|j: int| b - a <= j < t.len() implies is_blank(t[j]) by {
                assert(t[j] == v@[j + a]);
            }
            assert(b > a ==> t[b - a - 1] == v@[b - 1]);
            assert(b - a > 0 ==> !is_blank(t[b - a - 1]));
            lemma_trim_end_take(t, b - a);
            assert(t.take(b - a) =~= v@.subrange(a as int, b as int));
        }
    }
    subvec(v, a, b)
}

/// The `name` key as bytes.
pub fn name_key_bytes() -> (r: Vec<u8>)
    ensures
        r@ == name_key(),
{
    let mut r: Vec<u8> = Vec::new();
    r.push(110);
    r.push(97);
    r.push(109);
    r.push(101);
    assert(r@ =~= name_key());
    r
}

/// Whether the line is significant: non-blank and not a comment.
pub fn significant_line(line: &Vec<u8>) -> (r: bool)
    ensures
        r == significant(line@),
{
    let t = trim_vec(line);
    t.len() > 0 && t[0] != 35
}

/// The entry of the naming line.
fn name_entry_exec(line: &Vec<u8>) -> (e: ParamEntry)
    ensures
        e@ == name_entry(line@),
{
    let t = trim_vec(line);
    let n = t.len();
    let sp: usize = match find_byte(&t, 0, n, 32) {
        Some(i) => {
            proof {
                lemma_find_first_at(t@, 32, i as int);
            }
            i
        },
        None => {
            proof {
                lemma_find_first_none(t@, 32);
            }
            n
        },
    };
    let val = subvec(&t, 0, sp);
    assert(val@ =~= t@.take(sp as int));
    ParamEntry { key: name_key_bytes(), value: ParamValue::Text(val) }
}

/// The tagged value on the right of `=`.
fn parse_value_exec(raw: Vec<u8>) -> (v: ParamValue)
    ensures
        v@ == parse_value(raw@),
{
    let n = raw.len();
    let v0: Vec<u8> = if n > 0 && raw[n - 1] == 59 {
        let w = subvec(&raw, 0, n - 1);
        assert(w@ =~= raw@.drop_last());
        w
    } else {
        raw
    };
    let v = trim_vec(&v0);
    if v.len() == 0 {
        return ParamValue::Flag;
    }
    match parse_i32(&v) {
        Some(i) => ParamValue::Integer(i),
        None => ParamValue::Text(v),
    }
}

/// The entry of a later significant line.
fn line_entry_exec(line: &Vec<u8>) -> (e: ParamEntry)
    ensures
        e@ == line_entry(line@),
{
    let t = trim_vec(line);
    let n = t.len();
    match find_byte(&t, 0, n, 61) {
        Some(i) => {
            proof {
                lemma_find_first_at(t@, 61, i as int);
            }
            let left = subvec(&t, 0, i);
            assert(left@ =~= t@.take(i as int));
            let key = trim_vec(&left);
            let right = subvec(&t, i + 1, n);
            assert(right@ =~= t@.skip(i + 1));
            let raw = trim_vec(&right);
            let value = parse_value_exec(raw);
            ParamEntry { key, value }
        },
        None => {
            proof {
                lemma_find_first_none(t@, 61);
            }
            ParamEntry { key: t, value: ParamValue::Flag }
        },
    }
}

/// Splits the input into its lines.
fn split_lines_exec(input: &Vec<u8>) -> (lines: Vec<Vec<u8>>)
    ensures
        lines@.map_values(|l: Vec<u8>| l@) == split_lines(input@),
{
    let n = input.len();
    let mut lines: Vec<Vec<u8>> = Vec::new();
    let mut pos: usize = 0;
    proof {
        assert(input@.skip(0) =~= input@);
        assert(lines@.map_values(|l: Vec<u8>| l@) =~= Seq::<Seq<u8>>::empty());
        assert(Seq::<Seq<u8>>::empty() + split_lines(input@) =~= split_lines(input@));
    }
    loop
        invariant_except_break
            split_lines(input@) == lines@.map_values(|l: Vec<u8>| l@) + split_lines(
                input@.skip(pos as int),
            ),
        invariant
            pos <= n,
            n == input@.len(),
        ensures
            lines@.map_values(|l: Vec<u8>| l@) == split_lines(input@),
        decreases n - pos,
    {
        let ghost pre = lines@.map_values(|l: Vec<u8>| l@);
        let ghost rem = input@.skip(pos as int);
        match find_byte(input, pos, n, 10) {
            Some(i) => {
                proof {
                    assert forall|j: int| 0 <= j < i - pos implies rem[j] != 10 by {
                        assert(rem[j] == input@[pos + j]);
                    }
                    assert(rem[i - pos] == input@[i as int]);
                    lemma_find_first_at(rem, 10, i - pos);
                }
                let line = subvec(input, pos, i);
                lines.push(line);
                proof {
                    assert(rem.take(i - pos) =~= input@.subrange(pos as int, i as int));
                    assert(rem.skip(i - pos + 1) =~= input@.skip(i + 1));
                    assert(lines@.map_values(|l: Vec<u8>| l@) =~= pre.push(
                        input@.subrange(pos as int, i as int),
                    ));
                    assert(split_lines(rem) == seq![input@.subrange(pos as int, i as int)]
                        + split_lines(input@.skip(i + 1)));
                    assert(pre + split_lines(rem) =~= pre.push(
                        input@.subrange(pos as int, i as int),
                    ) + split_lines(input@.skip(i + 1)));
                }
                pos = i + 1;
            },
            None => {
                proof {
                    assert forall|j: int| 0 <= j < rem.len() implies rem[j] != 10 by {
                        assert(rem[j] == input@[pos + j]);
                    }
                    lemma_find_first_none(rem, 10);
                }
                let line = subvec(input, pos, n);
                lines.push(line);
                proof {
                    assert(line@ =~= rem);
                    assert(split_lines(rem) == seq![rem]);
                    assert(lines@.map_values(|l: Vec<u8>| l@) =~= pre.push(rem));
                    assert(pre + seq![rem] =~= pre.push(rem));
                }
                break;
            },
        }
    }
    lines
}

/// Parses a whole sandbox-definition input into its parameter set.
///
/// The grammar is total over byte inputs: every significant line becomes
/// an entry, and the final parsed entry is dropped.
pub fn parse_config(input: &Vec<u8>) -> (r: ParameterSet)
    ensures
        r@ == parse_config_spec(input@),
{
    let lines = split_lines_exec(input);
    let ghost lviews = lines@.map_values(|l: Vec<u8>| l@);
    let mut ps = ParameterSet::new();
    let nl = lines.len();
    let mut sig_count: usize = 0;
    let mut k: usize = 0;
    while k < nl
        invariant
            k <= nl,
            nl == lines@.len(),
            lviews == lines@.map_values(|l: Vec<u8>| l@),
            sig_count <= k,
            sig_count == sig_filter(lviews.take(k as int)).len(),
            ps@ == entries_of_lines(sig_filter(lviews.take(k as int))),
        decreases nl - k,
    {
        let ghost sig0 = sig_filter(lviews.take(k as int));
        proof {
            assert(lviews.take(k as int + 1) =~= lviews.take(k as int).push(lviews[k as int]));
            lemma_sig_filter_push(lviews.take(k as int), lviews[k as int]);
            assert(lviews[k as int] == lines@[k as int]@);
        }
        let line = &lines[k];
        if significant_line(line) {
            let entry = if sig_count == 0 {
                name_entry_exec(line)
            } else {
                line_entry_exec(line)
            };
            assert(entry@ == entry_of_line(sig0.len() as int, lviews[k as int]));
            ps.push_entry(entry);
            proof {
                let sig1 = sig_filter(lviews.take(k as int + 1));
                assert(sig1 =~= sig0.push(lviews[k as int]));
                assert(entries_of_lines(sig1) =~= entries_of_lines(sig0).push(
                    entry_of_line(sig0.len() as int, lviews[k as int]),
                ));
            }
            sig_count += 1;
        } else {
            proof {
                let sig1 = sig_filter(lviews.take(k as int + 1));
                assert(sig1 =~= sig0);
            }
        }
        k += 1;
    }
    proof {
        assert(lviews.take(nl as int) =~= lviews);
    }
    ps.pop_entry();
    ps
}

} // verus!
