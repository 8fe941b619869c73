//! The model driver's reading of shader source text.
//!
//! The driver model judges a source by two simple, fully specified rules that
//! stand in for the real compiler's front end:
//!
//! * a source compiles iff it opens with a version directive (`#version`);
//! * a program links iff every interface input declared by a fragment stage
//!   (a line starting `in `) is matched, character for character, by an
//!   interface output of a vertex stage (a line starting `out `).
//!
//! Sources are byte sequences; a line is a maximal newline-free stretch.

use vstd::prelude::*;

verus! {

/// A source is accepted by the model compiler iff its first eight bytes read
/// `#version`.
pub open spec fn spec_source_accepted(s: Seq<u8>) -> bool {
    &&& s.len() >= 8
    &&& s[0] == 35u8
    &&& s[1] == 118u8
    &&& s[2] == 101u8
    &&& s[3] == 114u8
    &&& s[4] == 115u8
    &&& s[5] == 105u8
    &&& s[6] == 111u8
    &&& s[7] == 110u8
}

/// Decides acceptance of a source by the model compiler.
pub fn source_accepted(src: &Vec<u8>) -> (r: bool)
    ensures
        r == spec_source_accepted(src@),
{
    src.len() >= 8 && src[0] == 35 && src[1] == 118 && src[2] == 101 && src[3] == 114
        && src[4] == 115 && src[5] == 105 && src[6] == 111 && src[7] == 110
}

/// Index of the first newline byte of `s`, or `s.len()` if there is none.
pub open spec fn spec_first_nl(s: Seq<u8>) -> int
    decreases s.len(),
{
    if s.len() == 0 {
        0
    } else if s[0] == 10u8 {
        0
    } else {
        1 + spec_first_nl(s.skip(1))
    }
}

pub proof fn lemma_first_nl(s: Seq<u8>)
    ensures
        0 <= spec_first_nl(s) <= s.len(),
        forall|k: int| 0 <= k < spec_first_nl(s) ==> s[k] != 10u8,
        spec_first_nl(s) < s.len() ==> s[spec_first_nl(s)] == 10u8,
    decreases s.len(),
{
    if s.len() == 0 || s[0] == 10u8 {
    } else {
        lemma_first_nl(s.skip(1));
        assert forall|k: int| 0 <= k < spec_first_nl(s) implies s[k] != 10u8 by {
            if k > 0 {
                assert(s.skip(1)[k - 1] == s[k]);
            }
        }
        if spec_first_nl(s) < s.len() {
            assert(s.skip(1)[spec_first_nl(s) - 1] == s[spec_first_nl(s)]);
        }
    }
}

/// The first newline is the only position with no newline before it that is
/// either a newline or the end.
pub proof fn lemma_first_nl_unique(s: Seq<u8>, j: int)
    requires
        0 <= j <= s.len(),
        forall|k: int| 0 <= k < j ==> s[k] != 10u8,
        j < s.len() ==> s[j] == 10u8,
    ensures
        spec_first_nl(s) == j,
    decreases s.len(),
{
    if s.len() == 0 {
    } else if s[0] == 10u8 {
        assert(j == 0);
    } else {
        assert(j >= 1);
        assert forall|k: int| 0 <= k < j - 1 implies s.skip(1)[k] != 10u8 by {
            assert(s.skip(1)[k] == s[k + 1]);
        }
        if j - 1 < s.skip(1).len() {
            assert(s.skip(1)[j - 1] == s[j]);
        }
        lemma_first_nl_unique(s.skip(1), j - 1);
    }
}

/// The lines of a source: maximal newline-free stretches, in order.  The
/// final line needs no terminating newline.
pub open spec fn spec_lines(s: Seq<u8>) -> Seq<Seq<u8>>
    decreases s.len(),
    via spec_lines_decreases
{
    if s.len() == 0 {
        Seq::empty()
    } else {
        let i = spec_first_nl(s);
        if i == s.len() {
            seq![s]
        } else {
            seq![s.take(i)] + spec_lines(s.skip(i + 1))
        }
    }
}

#[via_fn]
proof fn spec_lines_decreases(s: Seq<u8>) {
    lemma_first_nl(s);
}

/// Splits a source into its lines.
pub fn split_lines(src: &Vec<u8>) -> (lines: Vec<Vec<u8>>)
    ensures
        lines.deep_view() == spec_lines(src@),
{
    let n = src.len();
    let mut lines: Vec<Vec<u8>> = Vec::new();
    let mut pos: usize = 0;
    proof {
        assert(src@.skip(0) =~= src@);
        assert(lines.deep_view() =~= Seq::<Seq<u8>>::empty());
        assert(lines.deep_view() + spec_lines(src@) =~= spec_lines(src@));
    }
    while pos < n
        invariant
            pos <= n,
            n == src@.len(),
            spec_lines(src@) == lines.deep_view() + spec_lines(src@.skip(pos as int)),
        decreases n - pos,
    {
        let ghost entry_pos = pos as int;
        let mut line: Vec<u8> = Vec::new();
        let mut i: usize = pos;
        while i < n && src[i] != 10
            invariant
                pos <= i <= n,
                n == src@.len(),
                line@ == src@.subrange(pos as int, i as int),
                forall|k: int| pos <= k < i ==> src@[k] != 10u8,
            decreases n - i,
        {
            line.push(src[i]);
            i = i + 1;
        }
        proof {
            let rest = src@.skip(entry_pos);
            assert forall|k: int| 0 <= k < i - entry_pos implies rest[k] != 10u8 by {
                assert(rest[k] == src@[entry_pos + k]);
            }
            if i < n {
                assert(rest[i - entry_pos] == src@[i as int]);
            }
            lemma_first_nl_unique(rest, i - entry_pos);
            if i == n {
                assert(rest =~= line@);
                assert(spec_lines(rest) == seq![line@]);
            } else {
                assert(rest.take(i - entry_pos) =~= line@);
                assert(rest.skip(i - entry_pos + 1) =~= src@.skip(i + 1));
                assert(spec_lines(rest) == seq![line@] + spec_lines(src@.skip(i + 1)));
            }
        }
        let ghost pre_lines = lines.deep_view();
        let ghost line_v = line@;
        lines.push(line);
        proof {
            assert(lines.deep_view() =~~= pre_lines.push(line_v));
        }
        if i < n {
            pos = i + 1;
        } else {
            pos = n;
        }
        proof {
            if pos == n {
                assert(src@.skip(pos as int) =~= Seq::<u8>::empty());
                assert(spec_lines(src@.skip(pos as int)) == Seq::<Seq<u8>>::empty());
                assert(pre_lines.push(line_v) + Seq::<Seq<u8>>::empty() =~= pre_lines + seq![
                    line_v,
                ]);
            } else {
                assert(pre_lines.push(line_v) + spec_lines(src@.skip(pos as int)) =~= pre_lines + (
                seq![line_v] + spec_lines(src@.skip(pos as int))));
            }
        }
    }
    proof {
        assert(src@.skip(pos as int) =~= Seq::<u8>::empty());
        assert(spec_lines(src@.skip(pos as int)) == Seq::<Seq<u8>>::empty());
        assert(lines.deep_view() + Seq::<Seq<u8>>::empty() =~= lines.deep_view());
    }
    lines
}

/// `s` starts with `p`.
pub open spec fn spec_starts_with(s: Seq<u8>, p: Seq<u8>) -> bool {
    &&& s.len() >= p.len()
    &&& forall|k: int| 0 <= k < p.len() ==> s[k] == p[k]
}

fn starts_with(s: &Vec<u8>, p: &Vec<u8>) -> (r: bool)
    ensures
        r == spec_starts_with(s@, p@),
{
    if s.len() < p.len() {
        return false;
    }
    let mut k: usize = 0;
    while k < p.len()
        invariant
            k <= p.len() <= s.len(),
            forall|m: int| 0 <= m < k ==> s@[m] == p@[m],
        decreases p.len() - k,
    {
        if s[k] != p[k] {
            return false;
        }
        k = k + 1;
    }
    true
}

/// The keyword that opens an interface-output declaration line: `out `.
pub open spec fn spec_out_kw() -> Seq<u8> {
    seq![111u8, 117u8, 116u8, 32u8]
}

/// The keyword that opens an interface-input declaration line: `in `.
pub open spec fn spec_in_kw() -> Seq<u8> {
    seq![105u8, 110u8, 32u8]
}

fn out_keyword() -> (kw: Vec<u8>)
    ensures
        kw@ == spec_out_kw(),
{
    let mut kw: Vec<u8> = Vec::new();
    kw.push(111);
    kw.push(117);
    kw.push(116);
    kw.push(32);
    proof {
        assert(kw@ =~= spec_out_kw());
    }
    kw
}

fn in_keyword() -> (kw: Vec<u8>)
    ensures
        kw@ == spec_in_kw(),
{
    let mut kw: Vec<u8> = Vec::new();
    kw.push(105);
    kw.push(110);
    kw.push(32);
    proof {
        assert(kw@ =~= spec_in_kw());
    }
    kw
}

/// The declarations among `lines` that open with `kw`: the remainder of each
/// such line, in order.
pub open spec fn spec_decls_in_lines(lines: Seq<Seq<u8>>, kw: Seq<u8>) -> Seq<Seq<u8>>
    decreases lines.len(),
{
    if lines.len() == 0 {
        Seq::empty()
    } else {
        let rest = spec_decls_in_lines(lines.skip(1), kw);
        if spec_starts_with(lines[0], kw) {
            seq![lines[0].skip(kw.len() as int)] + rest
        } else {
            rest
        }
    }
}

/// The interface outputs a vertex stage declares.
pub open spec fn spec_out_decls(s: Seq<u8>) -> Seq<Seq<u8>> {
    spec_decls_in_lines(spec_lines(s), spec_out_kw())
}

/// The interface inputs a fragment stage expects.
pub open spec fn spec_in_decls(s: Seq<u8>) -> Seq<Seq<u8>> {
    spec_decls_in_lines(spec_lines(s), spec_in_kw())
}

/// Copy of `line` from byte `k` on.
fn tail_from(line: &Vec<u8>, k: usize) -> (t: Vec<u8>)
    requires
        k <= line@.len(),
    ensures
        t@ == line@.skip(k as int),
{
    let mut t: Vec<u8> = Vec::new();
    let mut i: usize = k;
    while i < line.len()
        invariant
            k <= i <= line@.len(),
            t@ == line@.subrange(k as int, i as int),
        decreases line@.len() - i,
    {
        t.push(line[i]);
        i = i + 1;
    }
    proof {
        assert(t@ =~= line@.skip(k as int));
    }
    t
}

fn decls(src: &Vec<u8>, kw: &Vec<u8>) -> (ds: Vec<Vec<u8>>)
    ensures
        ds.deep_view() == spec_decls_in_lines(spec_lines(src@), kw@),
{
    let lines = split_lines(src);
    let ghost all = lines.deep_view();
    let mut ds: Vec<Vec<u8>> = Vec::new();
    let mut idx: usize = 0;
    proof {
        assert(all.skip(0) =~= all);
        assert(ds.deep_view() =~= Seq::<Seq<u8>>::empty());
        assert(ds.deep_view() + spec_decls_in_lines(all, kw@) =~= spec_decls_in_lines(all, kw@));
    }
    while idx < lines.len()
        invariant
            idx <= lines@.len(),
            all == lines.deep_view(),
            spec_decls_in_lines(all, kw@) == ds.deep_view() + spec_decls_in_lines(
                all.skip(idx as int),
                kw@,
            ),
        decreases lines@.len() - idx,
    {
        proof {
            assert(all.skip(idx as int).skip(1) =~= all.skip(idx + 1));
            assert(all.skip(idx as int)[0] == all[idx as int]);
            assert(all[idx as int] == lines@[idx as int].deep_view());
            assert(lines@[idx as int].deep_view() =~= lines@[idx as int]@);
        }
        let line = &lines[idx];
        if starts_with(line, kw) {
            let d = tail_from(line, kw.len());
            let ghost pre = ds.deep_view();
            ds.push(d);
            proof {
                assert(ds.deep_view() =~~= pre.push(d@));
                assert(spec_decls_in_lines(all.skip(idx as int), kw@) == seq![d@]
                    + spec_decls_in_lines(all.skip(idx + 1), kw@));
                assert(pre.push(d@) + spec_decls_in_lines(all.skip(idx + 1), kw@) =~= pre + (seq![
                    d@,
                ] + spec_decls_in_lines(all.skip(idx + 1), kw@)));
            }
        } else {
            proof {
                assert(spec_decls_in_lines(all.skip(idx as int), kw@) == spec_decls_in_lines(
                    all.skip(idx + 1),
                    kw@,
                ));
            }
        }
        idx = idx + 1;
    }
    proof {
        assert(all.skip(idx as int) =~= Seq::<Seq<u8>>::empty());
        assert(spec_decls_in_lines(all.skip(idx as int), kw@) == Seq::<Seq<u8>>::empty());
        assert(ds.deep_view() + Seq::<Seq<u8>>::empty() =~= ds.deep_view());
    }
    ds
}

/// Collects the interface outputs of a vertex-stage source.
pub fn out_decls(src: &Vec<u8>) -> (ds: Vec<Vec<u8>>)
    ensures
        ds.deep_view() == spec_out_decls(src@),
{
    let kw = out_keyword();
    decls(src, &kw)
}

/// Collects the interface inputs of a fragment-stage source.
pub fn in_decls(src: &Vec<u8>) -> (ds: Vec<Vec<u8>>)
    ensures
        ds.deep_view() == spec_in_decls(src@),
{
    let kw = in_keyword();
    decls(src, &kw)
}

fn bytes_eq(a: &Vec<u8>, b: &Vec<u8>) -> (r: bool)
    ensures
        r == (a@ == b@),
{
    if a.len() != b.len() {
        return false;
    }
    let mut k: usize = 0;
    while k < a.len()
        invariant
            k <= a@.len(),
            a@.len() == b@.len(),
            forall|m: int| 0 <= m < k ==> a@[m] == b@[m],
        decreases a@.len() - k,
    {
        if a[k] != b[k] {
            return false;
        }
        k = k + 1;
    }
    proof {
        assert(a@ =~= b@);
    }
    true
}

/// Does the declaration list contain `d`?
pub fn contains_decl(ds: &Vec<Vec<u8>>, d: &Vec<u8>) -> (r: bool)
    ensures
        r == ds.deep_view().contains(d@),
{
    let mut i: usize = 0;
    while i < ds.len()
        invariant
            i <= ds@.len(),
            forall|k: int| 0 <= k < i ==> ds.deep_view()[k] != d@,
        decreases ds@.len() - i,
    {
        proof {
            assert(ds.deep_view()[i as int] =~= ds@[i as int]@);
        }
        if bytes_eq(&ds[i], d) {
            return true;
        }
        i = i + 1;
    }
    false
}

/// Is every declaration of `need` present in `have`?
pub fn decls_covered(need: &Vec<Vec<u8>>, have: &Vec<Vec<u8>>) -> (r: bool)
    ensures
        r == (forall|d: Seq<u8>|
            need.deep_view().contains(d) ==> #[trigger] have.deep_view().contains(d)),
{
    let mut i: usize = 0;
    while i < need.len()
        invariant
            i <= need@.len(),
            forall|k: int| 0 <= k < i ==> have.deep_view().contains(#[trigger] need.deep_view()[k]),
        decreases need@.len() - i,
    {
        proof {
            assert(need.deep_view()[i as int] =~= need@[i as int]@);
        }
        if !contains_decl(have, &need[i]) {
            proof {
                assert(need.deep_view().contains(need.deep_view()[i as int]));
            }
            return false;
        }
        i = i + 1;
    }
    proof {
        assert forall|d: Seq<u8>| need.deep_view().contains(d) implies #[trigger] have.deep_view()
            .contains(d) by {
            let k = choose|k: int| 0 <= k < need.deep_view().len() && need.deep_view()[k] == d;
            assert(have.deep_view().contains(need.deep_view()[k]));
        }
    }
    true
}

} // verus!
