//! Release-tag and version handling: splitting a tag into its non-numeric
//! prefix and version suffix, comparing version strings through the
//! `version-compare` crate, and ordering a list of versions newest first.

use vstd::prelude::*;
use vstd::string::StrSliceExecFns;

verus! {

/// An ASCII decimal digit.
pub open spec fn is_ascii_digit(c: char) -> bool {
    '0' <= c && c <= '9'
}

/// Index of the first ASCII digit of `s`; `s.len()` when there is none.
pub open spec fn first_digit_idx(s: Seq<char>) -> int
    decreases s.len(),
{
    if s.len() == 0 {
        0
    } else if is_ascii_digit(s[0]) {
        0
    } else {
        1 + first_digit_idx(s.skip(1))
    }
}

/// Where a release tag splits into its non-numeric prefix and its version
/// suffix: at the first digit when there is one, else before the final
/// character, so that the suffix is never empty. An empty tag has no split.
pub open spec fn spec_split_point(s: Seq<char>) -> int {
    if first_digit_idx(s) < s.len() {
        first_digit_idx(s)
    } else {
        s.len() - 1
    }
}

/// Split a release tag into its non-numeric prefix and the version suffix,
/// e.g. `v0.1.0` into `v` and `0.1.0`, `azure-cli-21.1.3` into `azure-cli-`
/// and `21.1.3`. Only the empty tag fails to split.
pub fn version_token(s: &str) -> (r: Option<(String, String)>)
    ensures
        r is Some <==> s@.len() >= 1,
        r matches Some(t) ==> {
            &&& t.0@ == s@.take(spec_split_point(s@))
            &&& t.1@ == s@.skip(spec_split_point(s@))
        },
{
    let slen = s.unicode_len();
    if slen == 0 {
        return None;
    }
    let mut i: usize = 0;
    proof {
        assert(s@.skip(0) =~= s@);
    }
    while i < slen && !('0' <= s.get_char(i) && s.get_char(i) <= '9')
        invariant
            0 <= i <= slen,
            slen == s@.len(),
            first_digit_idx(s@) == i + first_digit_idx(s@.skip(i as int)),
        decreases slen - i,
    {
        proof {
            let suf = s@.skip(i as int);
            assert(suf[0] == s@[i as int]);
            assert(suf.skip(1) =~= s@.skip(i + 1));
        }
        i = i + 1;
    }
    proof {
        let suf = s@.skip(i as int);
        if i < slen {
            assert(suf[0] == s@[i as int]);
            assert(first_digit_idx(suf) == 0);
        } else {
            assert(suf.len() == 0);
        }
    }
    let d: usize = if i < slen {
        i
    } else {
        slen - 1
    };
    let prefix = s.substring_char(0, d);
    let suffix = s.substring_char(d, slen);
    proof {
        assert(prefix@ =~= s@.take(d as int));
        assert(suffix@ =~= s@.skip(d as int));
    }
    Some((prefix.to_owned(), suffix.to_owned()))
}

/// A separator character inside a purely numeric version string.
pub open spec fn is_version_sep(c: char) -> bool {
    c == '.' || c == '-' || c == '_' || c == '+'
}

/// The number read from a sequence of ASCII digits.
pub open spec fn digits_val(s: Seq<char>) -> int
    decreases s.len(),
{
    if s.len() == 0 {
        0
    } else {
        digits_val(s.drop_last()) * 10 + (s.last() as u32 - '0' as u32)
    }
}

/// Length of the run of ASCII digits at the front of `s`.
pub open spec fn digit_run_len(s: Seq<char>) -> int
    decreases s.len(),
{
    if s.len() == 0 {
        0
    } else if is_ascii_digit(s[0]) {
        1 + digit_run_len(s.skip(1))
    } else {
        0
    }
}

/// The numeric segments of a version string, in order: the value of each
/// maximal run of ASCII digits.
pub open spec fn num_parts(s: Seq<char>) -> Seq<int>
    decreases s.len(),
{
    if s.len() == 0 {
        Seq::empty()
    } else if !is_ascii_digit(s[0]) {
        num_parts(s.skip(1))
    } else {
        let r = digit_run_len(s);
        if 1 <= r <= s.len() {
            seq![digits_val(s.take(r))] + num_parts(s.skip(r))
        } else {
            Seq::empty()
        }
    }
}

/// A purely numeric version string: ASCII digits and separators only, at
/// least one digit, and every numeric segment small enough for the version
/// comparison crate to parse.
pub open spec fn all_numeric_version(s: Seq<char>) -> bool {
    &&& forall|i: int| 0 <= i < s.len() ==> is_ascii_digit(s[i]) || is_version_sep(s[i])
    &&& exists|i: int| 0 <= i < s.len() && is_ascii_digit(s[i])
    &&& forall|k: int| 0 <= k < num_parts(s).len() ==> #[trigger] num_parts(s)[k] <= 0x7fffffff
}

/// The `i`-th numeric segment of a version, a missing segment reading as
/// zero.
pub open spec fn part_at(a: Seq<int>, i: int) -> int {
    if 0 <= i < a.len() {
        a[i]
    } else {
        0
    }
}

/// Segment-wise numeric comparison of two versions from segment `i` on:
/// -1, 0 or 1 as the first is older, the same, or newer. A missing segment
/// reads as zero, so `1.2` and `1.2.0` compare equal.
pub open spec fn cmp_parts_from(a: Seq<int>, b: Seq<int>, i: int) -> int
    decreases a.len() + b.len() - i,
{
    if i >= a.len() && i >= b.len() {
        0
    } else if part_at(a, i) < part_at(b, i) {
        -1
    } else if part_at(a, i) > part_at(b, i) {
        1
    } else {
        cmp_parts_from(a, b, i + 1)
    }
}

/// Numeric version comparison: -1, 0 or 1 as `a` is older than, the same
/// as, or newer than `b`.
pub open spec fn cmp_num_versions(a: Seq<char>, b: Seq<char>) -> int {
    cmp_parts_from(num_parts(a), num_parts(b), 0)
}

/// `a` is at least as new as `b`, both read as numeric versions.
pub open spec fn num_ge(a: Seq<char>, b: Seq<char>) -> bool {
    cmp_num_versions(a, b) >= 0
}

pub proof fn lemma_cmp_parts_range(a: Seq<int>, b: Seq<int>, i: int)
    ensures
        -1 <= cmp_parts_from(a, b, i) <= 1,
    decreases a.len() + b.len() - i,
{
    if !(i >= a.len() && i >= b.len()) && part_at(a, i) == part_at(b, i) {
        lemma_cmp_parts_range(a, b, i + 1);
    }
}

pub proof fn lemma_cmp_parts_refl(a: Seq<int>, i: int)
    ensures
        cmp_parts_from(a, a, i) == 0,
    decreases a.len() + a.len() - i,
{
    if i < a.len() {
        lemma_cmp_parts_refl(a, i + 1);
    }
}

pub proof fn lemma_cmp_parts_antisym(a: Seq<int>, b: Seq<int>, i: int)
    ensures
        cmp_parts_from(b, a, i) == -cmp_parts_from(a, b, i),
    decreases a.len() + b.len() - i,
{
    if !(i >= a.len() && i >= b.len()) && part_at(a, i) == part_at(b, i) {
        lemma_cmp_parts_antisym(a, b, i + 1);
    }
}

pub proof fn lemma_cmp_parts_trans(a: Seq<int>, b: Seq<int>, c: Seq<int>, i: int)
    requires
        cmp_parts_from(a, b, i) >= 0,
        cmp_parts_from(b, c, i) >= 0,
    ensures
        cmp_parts_from(a, c, i) >= 0,
    decreases a.len() + b.len() + c.len() - i,
{
    if i >= a.len() && i >= b.len() && i >= c.len() {
    } else if part_at(a, i) == part_at(b, i) && part_at(b, i) == part_at(c, i) {
        lemma_cmp_parts_trans(a, b, c, i + 1);
    }
}

/// Transitivity of `num_ge`, the descending order the version sorter
/// establishes.
pub proof fn lemma_num_ge_trans(a: Seq<char>, b: Seq<char>, c: Seq<char>)
    requires
        num_ge(a, b),
        num_ge(b, c),
    ensures
        num_ge(a, c),
{
    lemma_cmp_parts_trans(num_parts(a), num_parts(b), num_parts(c), 0);
}

/// Totality of `num_ge`: two numeric versions always compare.
pub proof fn lemma_num_ge_total(a: Seq<char>, b: Seq<char>)
    ensures
        num_ge(a, b) || num_ge(b, a),
{
    lemma_cmp_parts_antisym(num_parts(a), num_parts(b), 0);
    lemma_cmp_parts_range(num_parts(a), num_parts(b), 0);
}

/// How one version string orders against another.
#[derive(Debug, PartialEq, Eq, Structural, Clone, Copy)]
pub enum VersionOrdering {
    Older,
    Same,
    Newer,
}

/// The `VersionOrdering` named by a comparison value.
pub open spec fn ordering_of(c: int) -> VersionOrdering {
    if c < 0 {
        VersionOrdering::Older
    } else if c == 0 {
        VersionOrdering::Same
    } else {
        VersionOrdering::Newer
    }
}

/// Relies on version-compare's `VersionCompare::compare`: each string is cut
/// into its alphanumeric segments and the two segment lists are compared in
/// order. On purely numeric version strings every segment parses as a
/// number, a missing segment reads as zero, and the result is exactly the
/// segment-wise numeric comparison; `None` reports a string the crate could
/// not parse, which a purely numeric version never is.
#[verifier::external_body]
fn compare_version_strs(a: &str, b: &str) -> (r: Option<VersionOrdering>)
    ensures
        all_numeric_version(a@) && all_numeric_version(b@) ==> r == Some(
            ordering_of(cmp_num_versions(a@, b@)),
        ),
{
    match version_compare::VersionCompare::compare(a, b) {
        Ok(version_compare::CompOp::Lt) => Some(VersionOrdering::Older),
        Ok(version_compare::CompOp::Eq) => Some(VersionOrdering::Same),
        Ok(version_compare::CompOp::Gt) => Some(VersionOrdering::Newer),
        Ok(version_compare::CompOp::Ne) => None,
        Ok(version_compare::CompOp::Le) => None,
        Ok(version_compare::CompOp::Ge) => None,
        Err(()) => None,
    }
}

/// Compare two version strings; `None` when one of them cannot be parsed by
/// the version comparison crate.
pub fn compare_versions(a: &String, b: &String) -> (r: Option<VersionOrdering>)
    ensures
        all_numeric_version(a@) && all_numeric_version(b@) ==> r == Some(
            ordering_of(cmp_num_versions(a@, b@)),
        ),
{
    compare_version_strs(a.as_str(), b.as_str())
}

/// Is `a` strictly older than `b`? Unparseable strings count as not older.
pub fn version_older(a: &String, b: &String) -> (r: bool)
    ensures
        all_numeric_version(a@) && all_numeric_version(b@) ==> r == (cmp_num_versions(a@, b@) < 0),
{
    match compare_versions(a, b) {
        Some(VersionOrdering::Older) => true,
        _ => false,
    }
}

/// Every string in the list is a purely numeric version.
pub open spec fn all_numeric_list(v: Seq<String>) -> bool {
    forall|i: int| 0 <= i < v.len() ==> all_numeric_version(v[i]@)
}

/// Newest-first ordering of a list of numeric version strings.
pub open spec fn sorted_desc(v: Seq<String>) -> bool {
    forall|i: int, j: int| 0 <= i < j < v.len() ==> num_ge(v[i]@, v[j]@)
}

/// Sort version strings newest first: the order the release-selection stage
/// scans candidate releases in. The result holds exactly the input strings;
/// on purely numeric versions it is descending under the segment-wise
/// numeric comparison.
pub fn sort_versions_desc(v: Vec<String>) -> (r: Vec<String>)
    ensures
        r@.to_multiset() == v@.to_multiset(),
        r@.len() == v@.len(),
        all_numeric_list(v@) ==> sorted_desc(r@),
{
    broadcast use vstd::seq_lib::to_multiset_insert, vstd::seq_lib::to_multiset_remove, vstd::multiset::group_multiset_axioms;

    let ghost h = all_numeric_list(v@);
    let n = v.len();
    let mut out = v;
    if n <= 1 {
        return out;
    }
    let mut i: usize = 1;
    while i < n
        invariant
            1 <= i <= n,
            out@.len() == n,
            out@.to_multiset() == v@.to_multiset(),
            h == all_numeric_list(v@),
            h ==> all_numeric_list(out@),
            h ==> sorted_desc(out@.subrange(0, i as int)),
        decreases n - i,
    {
        let mut j: usize = i;
        while j > 0 && version_older(&out[j - 1], &out[j])
            invariant
                0 <= j <= i < n,
                out@.len() == n,
                out@.to_multiset() == v@.to_multiset(),
                h == all_numeric_list(v@),
                h ==> all_numeric_list(out@),
                h ==> sorted_desc(out@.subrange(0, j as int)),
                h ==> sorted_desc(out@.subrange(j + 1, i + 1)),
                h ==> forall|p: int, q: int|
                    0 <= p < j && j < q <= i ==> num_ge(out@[p]@, out@[q]@),
                h ==> forall|q: int| j < q <= i ==> num_ge(out@[j as int]@, out@[q]@),
            decreases j,
        {
            let ghost before = out@;
            let x = out.remove(j - 1);
            out.insert(j, x);
            proof {
                assert(out@ =~= before.remove(j - 1).insert(j as int, before[j - 1]));
                assert forall|p: int| 0 <= p < n implies out@[p] == (if p == j - 1 {
                    before[j as int]
                } else if p == j {
                    before[j - 1]
                } else {
                    before[p]
                }) by {
                    assert(out@[p] == before.remove(j - 1).insert(j as int, before[j - 1])[p]);
                }
                assert(out@.to_multiset() =~= before.to_multiset()) by {
                    let x = before[j - 1];
                    let m0 = before.to_multiset();
                    assert(out@ == before.remove(j - 1).insert(j as int, x));
                    vstd::seq_lib::to_multiset_insert::<String>(before.remove(j - 1), j as int, x);
                    vstd::seq_lib::to_multiset_remove::<String>(before, j - 1);
                    assert(before.remove(j - 1).insert(j as int, x).to_multiset()
                        == before.remove(j - 1).to_multiset().insert(x));
                    assert(before.remove(j - 1).to_multiset() == m0.remove(x));
                    before.to_multiset_ensures();
                    assert(before.contains(x));
                    assert(m0.count(x) > 0);
                    assert(m0.remove(x).insert(x) =~= m0);
                }
                if h {
                    assert(all_numeric_list(out@));
                    // the comparison that triggered the swap orders the pair
                    lemma_cmp_parts_antisym(num_parts(before[j - 1]@), num_parts(before[j as int]@), 0);
                    assert(num_ge(out@[j - 1]@, out@[j as int]@));
                    let s1 = out@.subrange(0, j - 1);
                    assert forall|p: int, q: int| #![trigger s1[p], s1[q]] 0 <= p < q < s1.len() implies num_ge(
                        s1[p]@,
                        s1[q]@,
                    ) by {
                        assert(s1[p] == before[p]);
                        assert(s1[q] == before[q]);
                        assert(before.subrange(0, j as int)[p] == before[p]);
                        assert(before.subrange(0, j as int)[q] == before[q]);
                    }
                    assert(sorted_desc(s1));
                    let s2 = out@.subrange(j as int, i + 1);
                    assert forall|p: int, q: int| #![trigger s2[p], s2[q]] 0 <= p < q < s2.len() implies num_ge(
                        s2[p]@,
                        s2[q]@,
                    ) by {
                        let pp = p + j;
                        let qq = q + j;
                        assert(s2[q] == out@[qq]);
                        assert(out@[qq] == before[qq]);
                        if pp == j {
                            // out[j] is the old prefix element just swapped down
                            assert(s2[p] == out@[j as int]);
                            assert(num_ge(before[j - 1]@, before[qq]@));
                        } else {
                            assert(s2[p] == out@[pp]);
                            assert(before.subrange(j + 1, i + 1)[pp - j - 1] == before[pp]);
                            assert(before.subrange(j + 1, i + 1)[qq - j - 1] == before[qq]);
                        }
                    }
                    assert(sorted_desc(s2));
                    assert forall|p: int, q: int| #![trigger out@[p], out@[q]] 0 <= p < j - 1 && j - 1 < q <= i implies num_ge(
                        out@[p]@,
                        out@[q]@,
                    ) by {
                        if q == j {
                            assert(before.subrange(0, j as int)[p] == before[p]);
                            assert(before.subrange(0, j as int)[j - 1] == before[j - 1]);
                            assert(num_ge(before[p]@, before[j - 1]@));
                        } else {
                            assert(num_ge(before[p]@, before[q]@));
                        }
                    }
                    assert forall|q: int| #![trigger out@[q]] j - 1 < q <= i implies num_ge(
                        out@[j - 1]@,
                        out@[q]@,
                    ) by {
                        if q == j {
                            assert(num_ge(before[j as int]@, before[j - 1]@));
                        } else {
                            assert(num_ge(before[j as int]@, before[q]@));
                        }
                    }
                }
            }
            j = j - 1;
        }
        proof {
            if h {
                let pre = out@.subrange(0, i + 1);
                assert forall|p: int, q: int| #![trigger out@[p], out@[q]] 0 <= p < q <= i implies num_ge(
                    out@[p]@,
                    out@[q]@,
                ) by {
                    if j == 0 {
                        if p == 0 {
                            if q > 0 {
                                assert(num_ge(out@[0]@, out@[q]@));
                            }
                        } else {
                            assert(out@.subrange(1, i + 1)[p - 1] == out@[p]);
                            assert(out@.subrange(1, i + 1)[q - 1] == out@[q]);
                        }
                    } else {
                        // the scan stopped: out[j-1] is at least out[j]
                        assert(num_ge(out@[j - 1]@, out@[j as int]@));
                        if q < j {
                            assert(out@.subrange(0, j as int)[p] == out@[p]);
                            assert(out@.subrange(0, j as int)[q] == out@[q]);
                        } else if p > j {
                            assert(out@.subrange(j + 1, i + 1)[p - j - 1] == out@[p]);
                            assert(out@.subrange(j + 1, i + 1)[q - j - 1] == out@[q]);
                        } else if p < j && q > j {
                            assert(num_ge(out@[p]@, out@[q]@));
                        } else if p == j {
                            assert(num_ge(out@[j as int]@, out@[q]@));
                        } else {
                            // p < j, q == j: chain through out[j-1]
                            if p < j - 1 {
                                assert(out@.subrange(0, j as int)[p] == out@[p]);
                                assert(out@.subrange(0, j as int)[j - 1] == out@[j - 1]);
                                assert(num_ge(out@[p]@, out@[j - 1]@));
                                lemma_num_ge_trans(out@[p]@, out@[j - 1]@, out@[j as int]@);
                            }
                        }
                    }
                }
                let s3 = out@.subrange(0, i + 1);
                assert forall|p: int, q: int| #![trigger s3[p], s3[q]] 0 <= p < q < s3.len() implies num_ge(
                    s3[p]@,
                    s3[q]@,
                ) by {
                    assert(s3[p] == out@[p]);
                    assert(s3[q] == out@[q]);
                }
                assert(sorted_desc(s3));
            }
        }
        i = i + 1;
    }
    proof {
        assert(out@.subrange(0, n as int) =~= out@);
    }
    out
}

} // verus!
