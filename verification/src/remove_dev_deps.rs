//! Removal of dev-dependency tables from manifest text.
//!
//! The transformation is pure and line-based: the text is walked line
//! by line; a line whose content (leading blanks, trailing blanks, a
//! carriage return and the line break stripped) starts with `[` opens a
//! new table.  A table named `dev-dependencies`, or a per-target table
//! `target.<..>.dev-dependencies`, is a dev-dependency table: its
//! header line and every line up to the next table header are dropped.
//! Every other byte of the input is kept unchanged, in order.

use crate::bytes::{push_range, range_matches};
use vstd::prelude::*;

verus! {

pub open spec fn is_blank(b: u8) -> bool {
    b == 32u8 || b == 9u8
}

pub open spec fn trim_start_spec(s: Seq<u8>) -> Seq<u8>
    decreases s.len(),
{
    if s.len() > 0 && is_blank(s[0]) {
        trim_start_spec(s.drop_first())
    } else {
        s
    }
}

pub open spec fn trim_end_spec(s: Seq<u8>) -> Seq<u8>
    decreases s.len(),
{
    if s.len() > 0 && (is_blank(s.last()) || s.last() == 13u8) {
        trim_end_spec(s.drop_last())
    } else {
        s
    }
}

pub open spec fn strip_newline(line: Seq<u8>) -> Seq<u8> {
    if line.len() > 0 && line.last() == 10u8 {
        line.drop_last()
    } else {
        line
    }
}

/// The content of a line: the line break, a carriage return and the
/// surrounding blanks stripped.
pub open spec fn line_content(line: Seq<u8>) -> Seq<u8> {
    trim_start_spec(trim_end_spec(strip_newline(line)))
}

/// The bytes of `[dev-dependencies]`.
pub open spec fn dev_deps_header() -> Seq<u8> {
    seq![91u8, 100u8, 101u8, 118u8, 45u8, 100u8, 101u8, 112u8, 101u8, 110u8, 100u8, 101u8, 110u8, 99u8, 105u8, 101u8, 115u8, 93u8]
}

/// The bytes of `[target.`.
pub open spec fn target_prefix() -> Seq<u8> {
    seq![91u8, 116u8, 97u8, 114u8, 103u8, 101u8, 116u8, 46u8]
}

/// The bytes of `.dev-dependencies]`.
pub open spec fn dev_deps_suffix() -> Seq<u8> {
    seq![46u8, 100u8, 101u8, 118u8, 45u8, 100u8, 101u8, 112u8, 101u8, 110u8, 100u8, 101u8, 110u8, 99u8, 105u8, 101u8, 115u8, 93u8]
}

/// Whether a line content opens a table (of any name): its first byte
/// is `[`.
pub open spec fn content_is_header(c: Seq<u8>) -> bool {
    c.len() > 0 && c[0] == 91u8
}

/// Whether a line content opens a dev-dependency table: either the
/// workspace-style table or the per-target variant.
pub open spec fn content_is_dev_table(c: Seq<u8>) -> bool {
    ||| c == dev_deps_header()
    ||| (c.len() >= 26 && c.subrange(0, 8) == target_prefix() && c.subrange(
        c.len() - 18,
        c.len() as int,
    ) == dev_deps_suffix())
}

pub open spec fn is_header_line(line: Seq<u8>) -> bool {
    content_is_header(line_content(line))
}

pub open spec fn is_dev_table_header(line: Seq<u8>) -> bool {
    content_is_dev_table(line_content(line))
}

/// Length of the first line of `s`, counting its line-break byte if
/// one is present.
pub open spec fn line_break(s: Seq<u8>) -> int
    decreases s.len(),
{
    if s.len() == 0 {
        0
    } else if s[0] == 10u8 {
        1
    } else {
        1 + line_break(s.drop_first())
    }
}

pub proof fn lemma_line_break_bounds(s: Seq<u8>)
    requires
        s.len() > 0,
    ensures
        1 <= line_break(s) <= s.len(),
        forall|m: int| 0 <= m < line_break(s) - 1 ==> s[m] != 10u8,
        line_break(s) < s.len() ==> s[line_break(s) - 1] == 10u8,
    decreases s.len(),
{
    if s[0] == 10u8 {
    } else {
        if s.len() > 1 {
            lemma_line_break_bounds(s.drop_first());
            assert forall|m: int| 0 <= m < line_break(s) - 1 implies s[m] != 10u8 by {
                if m > 0 {
                    assert(s.drop_first()[m - 1] == s[m]);
                }
            }
        } else {
            assert(s.drop_first().len() == 0);
            assert(line_break(s.drop_first()) == 0);
        }
    }
}

/// The first line of `s` ends exactly where the first line-break byte
/// stands (or at the end of `s` if there is none).
pub proof fn lemma_line_break_exact(s: Seq<u8>, k: int)
    requires
        0 <= k <= s.len(),
        forall|m: int| 0 <= m < k ==> s[m] != 10u8,
        k < s.len() ==> s[k] == 10u8,
    ensures
        line_break(s) == if k < s.len() {
            k + 1
        } else {
            k
        },
    decreases s.len(),
{
    if s.len() == 0 {
    } else if k == 0 {
    } else {
        assert(s[0] != 10u8);
        assert forall|m: int| 0 <= m < k - 1 implies s.drop_first()[m] != 10u8 by {
            assert(s.drop_first()[m] == s[m + 1]);
        }
        assert(k - 1 < s.drop_first().len() ==> s.drop_first()[k - 1] == 10u8);
        lemma_line_break_exact(s.drop_first(), k - 1);
    }
}

#[via_fn]
proof fn remove_from_decreases(s: Seq<u8>, in_dev: bool) {
    if s.len() > 0 {
        lemma_line_break_bounds(s);
    }
}

/// The transformation itself, one line at a time.  `in_dev` says
/// whether the walk currently stands inside a dev-dependency table.
pub open spec fn remove_from(s: Seq<u8>, in_dev: bool) -> Seq<u8>
    decreases s.len(),
    via remove_from_decreases
{
    if s.len() == 0 {
        Seq::<u8>::empty()
    } else {
        let n = line_break(s);
        let line = s.subrange(0, n);
        let rest = s.subrange(n, s.len() as int);
        if is_header_line(line) {
            if is_dev_table_header(line) {
                remove_from(rest, true)
            } else {
                line + remove_from(rest, false)
            }
        } else {
            if in_dev {
                remove_from(rest, true)
            } else {
                line + remove_from(rest, false)
            }
        }
    }
}

/// What `Manifest::remove_dev_deps` returns: the manifest text with
/// every dev-dependency table removed.
pub open spec fn remove_dev_deps_spec(s: Seq<u8>) -> Seq<u8> {
    remove_from(s, false)
}

pub proof fn lemma_trim_start_subrange(s: Seq<u8>, l: int)
    requires
        0 <= l <= s.len(),
        forall|k: int| 0 <= k < l ==> is_blank(s[k]),
        l < s.len() ==> !is_blank(s[l]),
    ensures
        trim_start_spec(s) == s.subrange(l, s.len() as int),
    decreases s.len(),
{
    if l == 0 {
        assert(s.subrange(0, s.len() as int) =~= s);
    } else {
        assert(is_blank(s[0]));
        let t = s.drop_first();
        assert forall|k: int| 0 <= k < l - 1 implies is_blank(t[k]) by {
            assert(t[k] == s[k + 1]);
        }
        lemma_trim_start_subrange(t, l - 1);
        assert(t.subrange(l - 1, t.len() as int) =~= s.subrange(l, s.len() as int));
    }
}

pub proof fn lemma_trim_end_subrange(s: Seq<u8>, h: int)
    requires
        0 <= h <= s.len(),
        forall|k: int| h <= k < s.len() ==> is_blank(s[k]) || s[k] == 13u8,
        h > 0 ==> !(is_blank(s[h - 1]) || s[h - 1] == 13u8),
    ensures
        trim_end_spec(s) == s.subrange(0, h),
    decreases s.len(),
{
    if h == s.len() {
        assert(s.subrange(0, s.len() as int) =~= s);
    } else {
        assert(is_blank(s.last()) || s.last() == 13u8);
        let t = s.drop_last();
        lemma_trim_end_subrange(t, h);
        assert(t.subrange(0, h) =~= s.subrange(0, h));
    }
}

/// Decomposition of a concatenation at the first line break: if `l` is
/// a single line (ending in a line break, or standing alone), the
/// first line of `l + x` is `l` and the remainder is `x`.
pub proof fn lemma_first_line_concat(l: Seq<u8>, x: Seq<u8>)
    requires
        l.len() > 0,
        forall|m: int| 0 <= m < l.len() - 1 ==> l[m] != 10u8,
        l.last() == 10u8 || x.len() == 0,
    ensures
        line_break(l + x) == l.len(),
        (l + x).subrange(0, l.len() as int) == l,
        (l + x).subrange(l.len() as int, (l + x).len() as int) == x,
{
    let s = l + x;
    if l.last() == 10u8 {
        assert forall|m: int| 0 <= m < l.len() - 1 implies s[m] != 10u8 by {
            assert(s[m] == l[m]);
        }
        assert(s[l.len() - 1] == l.last());
        lemma_line_break_exact(s, l.len() - 1);
    } else {
        assert(x.len() == 0);
        assert forall|m: int| 0 <= m < l.len() implies s[m] != 10u8 by {
            assert(s[m] == l[m]);
        }
        lemma_line_break_exact(s, l.len() as int);
    }
    assert(s.subrange(0, l.len() as int) =~= l);
    assert(s.subrange(l.len() as int, s.len() as int) =~= x);
}

#[via_fn]
proof fn has_no_dev_tables_decreases(s: Seq<u8>) {
    if s.len() > 0 {
        lemma_line_break_bounds(s);
    }
}

/// Whether no line of `s` opens a dev-dependency table.
pub open spec fn has_no_dev_tables(s: Seq<u8>) -> bool
    decreases s.len(),
    via has_no_dev_tables_decreases
{
    if s.len() == 0 {
        true
    } else {
        let n = line_break(s);
        &&& !is_dev_table_header(s.subrange(0, n))
        &&& has_no_dev_tables(s.subrange(n, s.len() as int))
    }
}

/// The removal is complete: its output holds no dev-dependency table.
pub proof fn lemma_remove_output_no_dev(s: Seq<u8>, in_dev: bool)
    ensures
        has_no_dev_tables(remove_from(s, in_dev)),
    decreases s.len(),
{
    if s.len() == 0 {
    } else {
        lemma_line_break_bounds(s);
        let n = line_break(s);
        let line = s.subrange(0, n);
        let rest = s.subrange(n, s.len() as int);
        let kept = if is_header_line(line) {
            !is_dev_table_header(line)
        } else {
            !in_dev
        };
        if kept {
            let flag = if is_header_line(line) {
                false
            } else {
                in_dev
            };
            assert(flag == false);
            lemma_remove_output_no_dev(rest, false);
            let x = remove_from(rest, false);
            assert forall|m: int| 0 <= m < line.len() - 1 implies line[m] != 10u8 by {
                assert(line[m] == s[m]);
            }
            if n < s.len() {
                assert(line.last() == s[n - 1]);
            } else {
                assert(rest.len() == 0);
                assert(x.len() == 0);
            }
            lemma_first_line_concat(line, x);
            assert(remove_from(s, in_dev) == line + x);
            assert((line + x).subrange(0, line.len() as int) == line);
            assert(has_no_dev_tables(line + x));
        } else {
            lemma_remove_output_no_dev(rest, true);
            assert(remove_from(s, in_dev) == remove_from(rest, true));
        }
    }
}

/// Text without dev-dependency tables passes through unchanged: the
/// removal touches only the targeted tables.
pub proof fn lemma_no_dev_unchanged(s: Seq<u8>)
    requires
        has_no_dev_tables(s),
    ensures
        remove_from(s, false) == s,
    decreases s.len(),
{
    if s.len() == 0 {
        assert(remove_from(s, false) =~= s);
    } else {
        lemma_line_break_bounds(s);
        let n = line_break(s);
        let line = s.subrange(0, n);
        let rest = s.subrange(n, s.len() as int);
        assert(!is_dev_table_header(line));
        lemma_no_dev_unchanged(rest);
        assert(remove_from(s, false) == line + rest);
        assert(line + rest =~= s);
    }
}

/// Running the removal on already-cleaned content changes nothing.
pub proof fn lemma_remove_dev_deps_idempotent(s: Seq<u8>)
    ensures
        remove_dev_deps_spec(remove_dev_deps_spec(s)) == remove_dev_deps_spec(s),
{
    lemma_remove_output_no_dev(s, false);
    lemma_no_dev_unchanged(remove_from(s, false));
}

fn make_dev_deps_header() -> (r: Vec<u8>)
    ensures
        r@ == dev_deps_header(),
{
    let mut v: Vec<u8> = Vec::new();
    v.push(91u8);
    v.push(100u8);
    v.push(101u8);
    v.push(118u8);
    v.push(45u8);
    v.push(100u8);
    v.push(101u8);
    v.push(112u8);
    v.push(101u8);
    v.push(110u8);
    v.push(100u8);
    v.push(101u8);
    v.push(110u8);
    v.push(99u8);
    v.push(105u8);
    v.push(101u8);
    v.push(115u8);
    v.push(93u8);
    proof {
        assert(v@ =~= dev_deps_header());
    }
    v
}

fn make_target_prefix() -> (r: Vec<u8>)
    ensures
        r@ == target_prefix(),
{
    let mut v: Vec<u8> = Vec::new();
    v.push(91u8);
    v.push(116u8);
    v.push(97u8);
    v.push(114u8);
    v.push(103u8);
    v.push(101u8);
    v.push(116u8);
    v.push(46u8);
    proof {
        assert(v@ =~= target_prefix());
    }
    v
}

fn make_dev_deps_suffix() -> (r: Vec<u8>)
    ensures
        r@ == dev_deps_suffix(),
{
    let mut v: Vec<u8> = Vec::new();
    v.push(46u8);
    v.push(100u8);
    v.push(101u8);
    v.push(118u8);
    v.push(45u8);
    v.push(100u8);
    v.push(101u8);
    v.push(112u8);
    v.push(101u8);
    v.push(110u8);
    v.push(100u8);
    v.push(101u8);
    v.push(110u8);
    v.push(99u8);
    v.push(105u8);
    v.push(101u8);
    v.push(115u8);
    v.push(93u8);
    proof {
        assert(v@ =~= dev_deps_suffix());
    }
    v
}

/// The bounds within `v` of the content of the line `v[lo..hi]`.
fn content_bounds(v: &Vec<u8>, lo: usize, hi: usize) -> (r: (usize, usize))
    requires
        lo <= hi <= v@.len(),
    ensures
        lo <= r.0 <= r.1 <= hi,
        v@.subrange(r.0 as int, r.1 as int) == line_content(v@.subrange(lo as int, hi as int)),
{
    let ghost line = v@.subrange(lo as int, hi as int);
    let mut h: usize = hi;
    if h > lo && v[h - 1] == 10u8 {
        h = h - 1;
    }
    let ghost h0 = h as int;
    proof {
        assert(v@.subrange(lo as int, h0) =~= strip_newline(line));
    }
    while h > lo && (v[h - 1] == 32u8 || v[h - 1] == 9u8 || v[h - 1] == 13u8)
        invariant
            lo <= h <= h0 <= hi <= v@.len(),
            forall|k: int| h <= k < h0 ==> is_blank(v@[k]) || v@[k] == 13u8,
        decreases h,
    {
        h = h - 1;
    }
    proof {
        let stripped = v@.subrange(lo as int, h0);
        assert forall|k: int| h - lo <= k < stripped.len() implies is_blank(stripped[k])
            || stripped[k] == 13u8 by {
            assert(stripped[k] == v@[lo + k]);
        }
        if h > lo {
            assert(stripped[h - lo - 1] == v@[h - 1]);
        }
        lemma_trim_end_subrange(stripped, h - lo);
        assert(stripped.subrange(0, h - lo) =~= v@.subrange(lo as int, h as int));
    }
    let mut l: usize = lo;
    while l < h && (v[l] == 32u8 || v[l] == 9u8)
        invariant
            lo <= l <= h <= v@.len(),
            forall|k: int| lo <= k < l ==> is_blank(v@[k]),
        decreases h - l,
    {
        l = l + 1;
    }
    proof {
        let trimmed = v@.subrange(lo as int, h as int);
        assert forall|k: int| 0 <= k < l - lo implies is_blank(trimmed[k]) by {
            assert(trimmed[k] == v@[lo + k]);
        }
        if l < h {
            assert(trimmed[l - lo] == v@[l as int]);
        }
        lemma_trim_start_subrange(trimmed, l - lo);
        assert(trimmed.subrange(l - lo, trimmed.len() as int) =~= v@.subrange(
            l as int,
            h as int,
        ));
    }
    (l, h)
}

/// Classification of the line `v[lo..hi]`: whether it opens a table,
/// and whether that table is a dev-dependency table.
fn classify_line(v: &Vec<u8>, lo: usize, hi: usize) -> (r: (bool, bool))
    requires
        lo <= hi <= v@.len(),
    ensures
        r.0 == is_header_line(v@.subrange(lo as int, hi as int)),
        r.1 == is_dev_table_header(v@.subrange(lo as int, hi as int)),
{
    let (clo, chi) = content_bounds(v, lo, hi);
    let ghost c = line_content(v@.subrange(lo as int, hi as int));
    let is_hdr = chi > clo && v[clo] == 91u8;
    let len: usize = chi - clo;
    let mut is_dev = false;
    if len == 18 {
        let pat = make_dev_deps_header();
        if range_matches(v, clo, &pat) {
            is_dev = true;
        }
        proof {
            assert(dev_deps_header().len() == 18);
            assert(is_dev == (c == dev_deps_header()));
        }
    } else {
        proof {
            assert(dev_deps_header().len() == 18);
            assert(c != dev_deps_header());
        }
    }
    if !is_dev && len >= 26 {
        let tpat = make_target_prefix();
        let spat = make_dev_deps_suffix();
        proof {
            assert(target_prefix().len() == 8);
            assert(dev_deps_suffix().len() == 18);
        }
        if range_matches(v, clo, &tpat) {
            if range_matches(v, chi - 18, &spat) {
                is_dev = true;
                proof {
                    assert(c.subrange(0, 8) =~= v@.subrange(clo as int, clo + 8));
                    assert(c.subrange(c.len() - 18, c.len() as int) =~= v@.subrange(
                        chi - 18,
                        chi as int,
                    ));
                }
            } else {
                proof {
                    assert(c.subrange(c.len() - 18, c.len() as int) =~= v@.subrange(
                        chi - 18,
                        chi as int,
                    ));
                }
            }
        } else {
            proof {
                assert(c.subrange(0, 8) =~= v@.subrange(clo as int, clo + 8));
            }
        }
    }
    proof {
        assert(is_hdr == content_is_header(c));
        assert(is_dev == content_is_dev_table(c));
    }
    (is_hdr, is_dev)
}

/// The manifest text with every dev-dependency table removed; all
/// other bytes are kept unchanged, in order.
pub fn remove_dev_deps(input: &Vec<u8>) -> (out: Vec<u8>)
    ensures
        out@ == remove_dev_deps_spec(input@),
{
    let n: usize = input.len();
    let mut out: Vec<u8> = Vec::new();
    let mut in_dev: bool = false;
    let mut i: usize = 0;
    proof {
        assert(input@.subrange(0, n as int) =~= input@);
        assert(out@ + remove_from(input@, false) =~= remove_from(input@, false));
    }
    while i < n
        invariant
            n == input@.len(),
            i <= n,
            out@ + remove_from(input@.subrange(i as int, n as int), in_dev) == remove_from(
                input@,
                false,
            ),
        decreases n - i,
    {
        let ghost sub = input@.subrange(i as int, n as int);
        let mut j: usize = i;
        while j < n && input[j] != 10u8
            invariant
                n == input@.len(),
                i <= j <= n,
                forall|k: int| i <= k < j ==> input@[k] != 10u8,
            decreases n - j,
        {
            j = j + 1;
        }
        let end: usize = if j < n {
            j + 1
        } else {
            j
        };
        proof {
            assert forall|m: int| 0 <= m < j - i implies sub[m] != 10u8 by {
                assert(sub[m] == input@[i + m]);
            }
            if j < n {
                assert(sub[j - i] == input@[j as int]);
            }
            lemma_line_break_exact(sub, j - i);
            assert(line_break(sub) == end - i);
        }
        let (is_hdr, is_dev_hdr) = classify_line(input, i, end);
        let ghost line = sub.subrange(0, end - i);
        let ghost rest = sub.subrange(end - i, sub.len() as int);
        proof {
            assert(line =~= input@.subrange(i as int, end as int));
            assert(rest =~= input@.subrange(end as int, n as int));
        }
        let keep: bool = if is_hdr {
            !is_dev_hdr
        } else {
            !in_dev
        };
        let ghost old_out = out@;
        let ghost old_in_dev = in_dev;
        if keep {
            push_range(&mut out, input, i, end);
        }
        if is_hdr {
            in_dev = is_dev_hdr;
        }
        i = end;
        proof {
            if keep {
                assert(remove_from(sub, old_in_dev) == line + remove_from(rest, in_dev));
                assert(out@ + remove_from(input@.subrange(i as int, n as int), in_dev) =~= old_out
                    + remove_from(sub, old_in_dev));
            } else {
                assert(remove_from(sub, old_in_dev) == remove_from(rest, in_dev));
                assert(out@ + remove_from(input@.subrange(i as int, n as int), in_dev) =~= old_out
                    + remove_from(sub, old_in_dev));
            }
        }
    }
    proof {
        assert(input@.subrange(n as int, n as int).len() == 0);
        assert(out@ + remove_from(input@.subrange(n as int, n as int), in_dev) =~= out@);
    }
    out
}

} // verus!
