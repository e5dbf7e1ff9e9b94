//! Root-filesystem probe: decides whether mount-policy enforcement is
//! supported in the current environment.
//!
//! The decision is made from the init process's mount-metadata listing: the
//! entry whose mount point is `/` is located, and its filesystem-kind field
//! (the field after the `-` separator of that line) is compared against the
//! one supported kind. Any read error, missing listing, missing root entry or
//! other filesystem kind yields `false`; the probe never fails.

use vstd::prelude::*;

verus! {

/// Index of the first occurrence of `sep` in `s`, or `s.len()` if `sep` does
/// not occur.
pub open spec fn first_sep(s: Seq<u8>, sep: u8) -> int
    decreases s.len(),
{
    if s.len() == 0 {
        0
    } else if s[0] == sep {
        0
    } else {
        1 + first_sep(s.drop_first(), sep)
    }
}

pub proof fn lemma_first_sep_bounds(s: Seq<u8>, sep: u8)
    ensures
        0 <= first_sep(s, sep) <= s.len(),
        forall|k: int| 0 <= k < first_sep(s, sep) ==> s[k] != sep,
        first_sep(s, sep) < s.len() ==> s[first_sep(s, sep)] == sep,
    decreases s.len(),
{
    if s.len() == 0 {
    } else if s[0] == sep {
    } else {
        lemma_first_sep_bounds(s.drop_first(), sep);
        assert forall|k: int| 0 <= k < first_sep(s, sep) implies s[k] != sep by {
            if k > 0 {
                assert(s.drop_first()[k - 1] == s[k]);
            }
        }
        if first_sep(s, sep) < s.len() {
            assert(s[first_sep(s, sep)] == s.drop_first()[first_sep(s.drop_first(), sep)]);
        }
    }
}

/// A forward scan that stops at `m` has found the first separator.
pub proof fn lemma_first_sep_is(s: Seq<u8>, sep: u8, m: int)
    requires
        0 <= m <= s.len(),
        forall|k: int| 0 <= k < m ==> s[k] != sep,
        m < s.len() ==> s[m] == sep,
    ensures
        first_sep(s, sep) == m,
    decreases s.len(),
{
    if s.len() == 0 {
    } else if s[0] == sep {
        assert(m == 0);
    } else {
        assert(s[0] != sep);
        assert(m > 0) by {
            if m == 0 {
                assert(s[0] == sep);
            }
        }
        assert forall|k: int| 0 <= k < m - 1 implies s.drop_first()[k] != sep by {
            assert(s.drop_first()[k] == s[k + 1]);
        }
        if m - 1 < s.drop_first().len() {
            assert(s.drop_first()[m - 1] == s[m]);
        }
        lemma_first_sep_is(s.drop_first(), sep, m - 1);
    }
}

/// The tokens of `s`, split on the byte `sep`; an empty input has one empty
/// token, and each separator ends a token.
pub open spec fn split_on(s: Seq<u8>, sep: u8) -> Seq<Seq<u8>>
    decreases s.len(),
{
    if s.len() == 0 {
        seq![Seq::<u8>::empty()]
    } else if s[0] == sep {
        seq![Seq::<u8>::empty()] + split_on(s.drop_first(), sep)
    } else {
        let rest = split_on(s.drop_first(), sep);
        seq![seq![s[0]] + rest[0]] + rest.drop_first()
    }
}

/// Splitting peels off the text up to the first separator as the first token.
pub proof fn lemma_split_on_peel(s: Seq<u8>, sep: u8)
    ensures
        first_sep(s, sep) == s.len() ==> split_on(s, sep) == seq![s],
        first_sep(s, sep) < s.len() ==> split_on(s, sep) == seq![s.take(first_sep(s, sep))]
            + split_on(s.skip(first_sep(s, sep) + 1), sep),
    decreases s.len(),
{
    lemma_first_sep_bounds(s, sep);
    let i = first_sep(s, sep);
    if s.len() == 0 {
        assert(s =~= Seq::<u8>::empty());
        assert(split_on(s, sep) =~= seq![s]);
    } else if s[0] == sep {
        assert(i == 0);
        assert(s.skip(1) =~= s.drop_first());
        assert(s.take(0) =~= Seq::<u8>::empty());
        assert(split_on(s, sep) =~= seq![s.take(0)] + split_on(s.skip(1), sep));
    } else {
        let d = s.drop_first();
        lemma_split_on_peel(d, sep);
        lemma_first_sep_bounds(d, sep);
        let rest = split_on(d, sep);
        assert(i == 1 + first_sep(d, sep));
        if first_sep(d, sep) == d.len() {
            assert(i == s.len());
            assert(rest == seq![d]);
            assert(seq![s[0]] + rest[0] =~= s);
            assert(split_on(s, sep) =~= seq![s]);
        } else {
            let j = first_sep(d, sep);
            assert(rest == seq![d.take(j)] + split_on(d.skip(j + 1), sep));
            assert(rest[0] == d.take(j));
            assert(seq![s[0]] + d.take(j) =~= s.take(i));
            assert(rest.drop_first() =~= split_on(d.skip(j + 1), sep));
            assert(d.skip(j + 1) =~= s.skip(i + 1));
            assert(split_on(s, sep) =~= seq![s.take(i)] + split_on(s.skip(i + 1), sep));
        }
    }
}

/// Copies `s[a..b]` into a fresh vector.
fn sub_vec(s: &Vec<u8>, a: usize, b: usize) -> (r: Vec<u8>)
    requires
        a <= b <= s@.len(),
    ensures
        r@ == s@.subrange(a as int, b as int),
{
    let mut r: Vec<u8> = Vec::new();
    let mut k: usize = a;
    while k < b
        invariant
            a <= k <= b <= s@.len(),
            r@ == s@.subrange(a as int, k as int),
        decreases b - k,
    {
        r.push(s[k]);
        proof {
            assert(s@.subrange(a as int, k + 1 as int) =~= s@.subrange(a as int, k as int).push(
                s@[k as int],
            ));
        }
        k = k + 1;
    }
    r
}

/// The views of a sequence of byte vectors.
pub open spec fn views_of(r: Seq<Vec<u8>>) -> Seq<Seq<u8>> {
    r.map_values(|v: Vec<u8>| v@)
}

/// Splits `s` into the tokens separated by the byte `sep`.
fn split_on_byte(s: &Vec<u8>, sep: u8) -> (r: Vec<Vec<u8>>)
    ensures
        views_of(r@) == split_on(s@, sep),
{
    let mut result: Vec<Vec<u8>> = Vec::new();
    let mut pos: usize = 0;
    let mut done: bool = false;
    proof {
        assert(s@.skip(0) =~= s@);
        assert(views_of(result@) =~= Seq::<Seq<u8>>::empty());
    }
    while !done
        invariant
            pos <= s@.len(),
            !done ==> split_on(s@, sep) == views_of(result@) + split_on(
                s@.skip(pos as int),
                sep,
            ),
            done ==> split_on(s@, sep) == views_of(result@),
        decreases s@.len() - pos + (if done { 0int } else { 1int }),
    {
        let mut j: usize = pos;
        while j < s.len() && s[j] != sep
            invariant
                pos <= j <= s@.len(),
                forall|k: int| pos <= k < j ==> s@[k] != sep,
            decreases s@.len() - j,
        {
            j = j + 1;
        }
        let ghost rest = s@.skip(pos as int);
        proof {
            assert forall|k: int| 0 <= k < j - pos implies rest[k] != sep by {
                assert(rest[k] == s@[pos + k]);
            }
            if j < s@.len() {
                assert(rest[j - pos] == s@[j as int]);
            }
            lemma_first_sep_is(rest, sep, j - pos);
            lemma_split_on_peel(rest, sep);
        }
        let token = sub_vec(s, pos, j);
        proof {
            assert(token@ =~= rest.take(j - pos));
        }
        result.push(token);
        if j == s.len() {
            done = true;
            proof {
                assert(rest =~= rest.take(j - pos));
                assert(views_of(result@) =~= views_of(result@.drop_last()) + seq![rest]);
            }
        } else {
            proof {
                assert(rest.skip(j - pos + 1) =~= s@.skip(j + 1 as int));
                assert(views_of(result@) =~= views_of(result@.drop_last()) + seq![
                    rest.take(j - pos),
                ]);
            }
            pos = j + 1;
        }
    }
    result
}

/// The lines of a mount-metadata listing.
pub open spec fn spec_lines(s: Seq<u8>) -> Seq<Seq<u8>> {
    split_on(s, 10u8)
}

/// The space-separated fields of one mount line.
pub open spec fn spec_fields(l: Seq<u8>) -> Seq<Seq<u8>> {
    split_on(l, 32u8)
}

/// The mount-point field of a mount line: `/` for the root mount entry.
pub open spec fn root_mount_point() -> Seq<u8> {
    seq![47u8]
}

/// The single token separating a mount line's optional fields from its
/// filesystem kind.
pub open spec fn field_separator() -> Seq<u8> {
    seq![45u8]
}

/// The one filesystem kind for which mount-policy enforcement is supported
/// (the bytes of `btrfs`).
pub open spec fn supported_fs_kind() -> Seq<u8> {
    seq![98u8, 116u8, 114u8, 102u8, 115u8]
}

/// A line describes the root mount entry when its mount-point field (the
/// fifth field) is `/`.
pub open spec fn is_root_line(l: Seq<u8>) -> bool {
    spec_fields(l).len() > 4 && spec_fields(l)[4] == root_mount_point()
}

/// Index of the first element of `fs` from position `i` on that equals `x`,
/// or `fs.len()` if there is none.
pub open spec fn first_match_from(fs: Seq<Seq<u8>>, i: int, x: Seq<u8>) -> int
    decreases fs.len() - i,
{
    if i >= fs.len() {
        fs.len() as int
    } else if fs[i] == x {
        i
    } else {
        first_match_from(fs, i + 1, x)
    }
}

pub proof fn lemma_first_match_from_is(fs: Seq<Seq<u8>>, i: int, x: Seq<u8>, m: int)
    requires
        0 <= i <= m <= fs.len(),
        forall|k: int| i <= k < m ==> fs[k] != x,
        m < fs.len() ==> fs[m] == x,
    ensures
        first_match_from(fs, i, x) == m,
    decreases fs.len() - i,
{
    if i >= fs.len() {
    } else if fs[i] == x {
        assert(m == i);
    } else {
        lemma_first_match_from_is(fs, i + 1, x, m);
    }
}

/// The filesystem-kind field of a mount line: the field after the first `-`
/// separator that follows the six mandatory fields, if any.
pub open spec fn line_fs_kind(l: Seq<u8>) -> Option<Seq<u8>> {
    let fs = spec_fields(l);
    let m = first_match_from(fs, 6, field_separator());
    if m + 1 < fs.len() {
        Some(fs[m + 1])
    } else {
        None
    }
}

/// Index of the first root mount entry among `ls` from position `i` on, or
/// `ls.len()` if there is none.
pub open spec fn root_line_from(ls: Seq<Seq<u8>>, i: int) -> int
    decreases ls.len() - i,
{
    if i >= ls.len() {
        ls.len() as int
    } else if is_root_line(ls[i]) {
        i
    } else {
        root_line_from(ls, i + 1)
    }
}

pub proof fn lemma_root_line_from_is(ls: Seq<Seq<u8>>, i: int, m: int)
    requires
        0 <= i <= m <= ls.len(),
        forall|k: int| i <= k < m ==> !is_root_line(ls[k]),
        m < ls.len() ==> is_root_line(ls[m]),
    ensures
        root_line_from(ls, i) == m,
    decreases ls.len() - i,
{
    if i >= ls.len() {
    } else if is_root_line(ls[i]) {
        assert(m == i);
    } else {
        lemma_root_line_from_is(ls, i + 1, m);
    }
}

/// Whether a readable mount-metadata listing supports mount policies: its
/// first root mount entry exists and names the supported filesystem kind.
pub open spec fn spec_listing_supported(s: Seq<u8>) -> bool {
    let ls = spec_lines(s);
    let i = root_line_from(ls, 0);
    i < ls.len() && line_fs_kind(ls[i]) == Some(supported_fs_kind())
}

/// Whether mount-policy enforcement is supported: `None` stands for a
/// missing or unreadable listing and never supports it.
pub open spec fn spec_mount_policy_supported(m: Option<Seq<u8>>) -> bool {
    match m {
        Some(s) => spec_listing_supported(s),
        None => false,
    }
}

/// True exactly when `v` is the root mount point `/`.
fn is_root_point(v: &Vec<u8>) -> (r: bool)
    ensures
        r == (v@ == root_mount_point()),
{
    let r = v.len() == 1 && v[0] == 47u8;
    proof {
        if r {
            assert(v@ =~= root_mount_point());
        }
    }
    r
}

/// True exactly when `v` is the `-` separator token.
fn is_separator(v: &Vec<u8>) -> (r: bool)
    ensures
        r == (v@ == field_separator()),
{
    let r = v.len() == 1 && v[0] == 45u8;
    proof {
        if r {
            assert(v@ =~= field_separator());
        }
    }
    r
}

/// True exactly when `v` names the supported filesystem kind.
fn is_supported_kind(v: &Vec<u8>) -> (r: bool)
    ensures
        r == (v@ == supported_fs_kind()),
{
    let r = v.len() == 5 && v[0] == 98u8 && v[1] == 116u8 && v[2] == 114u8 && v[3] == 102u8
        && v[4] == 115u8;
    proof {
        if r {
            assert(v@ =~= supported_fs_kind());
        }
    }
    r
}

/// True exactly when `l` is a root mount entry.
fn is_root_line_exec(l: &Vec<u8>) -> (r: bool)
    ensures
        r == is_root_line(l@),
{
    let fields = split_on_byte(l, 32u8);
    if fields.len() > 4 {
        proof {
            assert(views_of(fields@)[4] == fields@[4]@);
        }
        is_root_point(&fields[4])
    } else {
        false
    }
}

/// Reports whether the root mount entry of `l` names the supported
/// filesystem kind.
fn line_has_supported_kind(l: &Vec<u8>) -> (r: bool)
    ensures
        r == (line_fs_kind(l@) == Some(supported_fs_kind())),
{
    let fields = split_on_byte(l, 32u8);
    let ghost fsv = views_of(fields@);
    let n: usize = fields.len();
    let mut m: usize = 6;
    if n < 6 {
        proof {
            assert(first_match_from(fsv, 6, field_separator()) == fsv.len());
        }
        return false;
    }
    while m < n && !is_separator(&fields[m])
        invariant
            6 <= m <= n == fields@.len(),
            fsv == views_of(fields@),
            forall|k: int| 6 <= k < m ==> fsv[k] != field_separator(),
        decreases n - m,
    {
        proof {
            assert(fsv[m as int] == fields@[m as int]@);
        }
        m = m + 1;
    }
    proof {
        if m < n {
            assert(fsv[m as int] == fields@[m as int]@);
        }
        lemma_first_match_from_is(fsv, 6, field_separator(), m as int);
    }
    if n - m > 1 {
        proof {
            assert(fsv[m + 1 as int] == fields@[m + 1 as int]@);
        }
        is_supported_kind(&fields[m + 1])
    } else {
        false
    }
}

/// Decides whether mount-policy enforcement is supported, from the init
/// process's mount-metadata listing (`None` when it could not be read).
///
/// Returns `true` iff the listing's first root mount entry (mount point `/`)
/// names the supported filesystem kind in its filesystem-kind field; it
/// returns `false` for every other kind, for a missing listing and for a
/// listing without a root entry, and it never fails.
pub fn mount_policy_supported(mountinfo: &Option<Vec<u8>>) -> (r: bool)
    ensures
        r == spec_mount_policy_supported(mountinfo.deep_view()),
{
    match mountinfo {
        None => false,
        Some(data) => {
            proof {
                assert(data.deep_view() =~= data@);
            }
            let lines = split_on_byte(data, 10u8);
            let ghost lsv = views_of(lines@);
            let n: usize = lines.len();
            let mut i: usize = 0;
            while i < n && !is_root_line_exec(&lines[i])
                invariant
                    0 <= i <= n == lines@.len(),
                    lsv == views_of(lines@),
                    forall|k: int| 0 <= k < i ==> !is_root_line(lsv[k]),
                decreases n - i,
            {
                proof {
                    assert(lsv[i as int] == lines@[i as int]@);
                }
                i = i + 1;
            }
            proof {
                if i < n {
                    assert(lsv[i as int] == lines@[i as int]@);
                }
                lemma_root_line_from_is(lsv, 0, i as int);
            }
            if i < n {
                proof {
                    assert(lsv[i as int] == lines@[i as int]@);
                }
                line_has_supported_kind(&lines[i])
            } else {
                false
            }
        },
    }
}

} // verus!
