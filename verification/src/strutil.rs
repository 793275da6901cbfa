//! Verified string utilities: occurrence predicates, character-level string
//! comparison and matching, and the two templating passes (marker
//! substitution and documentation-annotation handling) that the renderer is
//! built on.

use vstd::prelude::*;
use vstd::string::StrSliceExecFns;
use vstd::string::StringExecFns;

verus! {

/// `pat` occurs in `s` starting at index `i`.
pub open spec fn occurs_at(s: Seq<char>, pat: Seq<char>, i: int) -> bool {
    0 <= i && i + pat.len() <= s.len() && s.subrange(i, i + pat.len()) == pat
}

/// `pre` is a prefix of `s`.
pub open spec fn is_prefix_of(pre: Seq<char>, s: Seq<char>) -> bool {
    pre.len() <= s.len() && s.subrange(0, pre.len() as int) == pre
}

/// No character of `s` is `c`.
pub open spec fn free_of(s: Seq<char>, c: char) -> bool {
    forall|i: int| 0 <= i < s.len() ==> s[i] != c
}

/// Character-by-character equality of two string slices.
pub fn str_eq(a: &str, b: &str) -> (r: bool)
    ensures
        r == (a@ == b@),
{
    let alen = a.unicode_len();
    let blen = b.unicode_len();
    if alen != blen {
        return false;
    }
    let mut i: usize = 0;
    while i < alen
        invariant
            i <= alen,
            alen == a@.len(),
            blen == b@.len(),
            alen == blen,
            forall|j: int| 0 <= j < i ==> a@[j] == b@[j],
        decreases alen - i,
    {
        if a.get_char(i) != b.get_char(i) {
            return false;
        }
        i = i + 1;
    }
    proof {
        assert(a@ =~= b@);
    }
    true
}

/// Whether `pat` occurs in `s` at position `i`.
pub fn match_at(s: &str, i: usize, pat: &str) -> (r: bool)
    requires
        i <= s@.len(),
    ensures
        r == occurs_at(s@, pat@, i as int),
{
    let slen = s.unicode_len();
    let plen = pat.unicode_len();
    if plen > slen - i {
        return false;
    }
    let mut j: usize = 0;
    while j < plen
        invariant
            j <= plen,
            i + plen <= slen,
            slen == s@.len(),
            plen == pat@.len(),
            forall|k: int| 0 <= k < j ==> s@[i + k] == pat@[k],
        decreases plen - j,
    {
        if s.get_char(i + j) != pat.get_char(j) {
            proof {
                if occurs_at(s@, pat@, i as int) {
                    assert(s@.subrange(i as int, i + plen as int)[j as int] == pat@[j as int]);
                }
            }
            return false;
        }
        j = j + 1;
    }
    proof {
        assert(s@.subrange(i as int, i + plen as int) =~= pat@);
    }
    true
}

/// Strip every repetition of the prefix `p` from the front of `s`, as
/// `str::trim_start_matches` does.
pub open spec fn strip_prefix_all(s: Seq<char>, p: Seq<char>) -> Seq<char>
    decreases s.len(),
{
    if p.len() >= 1 && p.len() <= s.len() && is_prefix_of(p, s) {
        strip_prefix_all(s.skip(p.len() as int), p)
    } else {
        s
    }
}

/// Remove every leading copy of `p` from `s`.
pub fn trim_start_matches<'a>(s: &'a str, p: &str) -> (r: &'a str)
    ensures
        r@ == strip_prefix_all(s@, p@),
{
    let plen = p.unicode_len();
    let mut cur: &str = s;
    let mut curlen = s.unicode_len();
    if plen == 0 {
        return s;
    }
    while curlen >= plen && match_at(cur, 0, p)
        invariant
            curlen == cur@.len(),
            plen == p@.len(),
            plen >= 1,
            strip_prefix_all(s@, p@) == strip_prefix_all(cur@, p@),
        decreases curlen,
    {
        proof {
            assert(cur@.subrange(0, plen as int) == p@);
            assert(is_prefix_of(p@, cur@));
        }
        cur = cur.substring_char(plen, curlen);
        curlen = curlen - plen;
    }
    proof {
        if plen <= cur@.len() && is_prefix_of(p@, cur@) {
            assert(occurs_at(cur@, p@, 0)) by {
                assert(cur@.subrange(0, plen as int) == p@);
            }
        }
    }
    cur
}

/// The marker/value view of a substitution table.
pub open spec fn subs_view(subs: Seq<(String, String)>) -> Seq<(Seq<char>, Seq<char>)> {
    Seq::new(subs.len(), |i: int| (subs[i].0@, subs[i].1@))
}

/// Index of the first substitution pair, at or after `k`, whose (nonempty)
/// marker is a prefix of `s`; -1 when none matches.
pub open spec fn match_from(s: Seq<char>, subs: Seq<(Seq<char>, Seq<char>)>, k: int) -> int
    decreases subs.len() - k,
{
    if k < 0 || k >= subs.len() {
        -1
    } else if subs[k].0.len() >= 1 && is_prefix_of(subs[k].0, s) {
        k
    } else {
        match_from(s, subs, k + 1)
    }
}

proof fn lemma_match_from_value(s: Seq<char>, subs: Seq<(Seq<char>, Seq<char>)>, st: int, k: int)
    requires
        0 <= st <= k <= subs.len(),
        forall|j: int| st <= j < k ==> !(subs[j].0.len() >= 1 && is_prefix_of(subs[j].0, s)),
    ensures
        k < subs.len() && subs[k].0.len() >= 1 && is_prefix_of(subs[k].0, s) ==> match_from(
            s,
            subs,
            st,
        ) == k,
        k == subs.len() ==> match_from(s, subs, st) == -1,
    decreases k - st,
{
    if st < k {
        lemma_match_from_value(s, subs, st + 1, k);
    }
}

/// One left-to-right pass over `s`, replacing each occurrence of a marker
/// with its pair's value. When several markers match at the same position the
/// earliest pair wins. Replacement text is not rescanned.
pub open spec fn subst_seq(s: Seq<char>, subs: Seq<(Seq<char>, Seq<char>)>) -> Seq<char>
    decreases s.len(),
{
    if s.len() == 0 {
        s
    } else {
        let k = match_from(s, subs, 0);
        if k >= 0 {
            let m = subs[k].0;
            if 1 <= m.len() <= s.len() {
                subs[k].1 + subst_seq(s.skip(m.len() as int), subs)
            } else {
                s
            }
        } else {
            seq![s[0]] + subst_seq(s.skip(1), subs)
        }
    }
}

/// Find the first substitution pair whose marker occurs in `s` at position
/// `i`; the result is the pair's index.
fn find_marker_at(s: &str, i: usize, subs: &Vec<(String, String)>) -> (hit: Option<usize>)
    requires
        i <= s@.len(),
    ensures
        match hit {
            Some(k) => {
                &&& match_from(s@.skip(i as int), subs_view(subs@), 0) == k as int
                &&& k < subs@.len()
                &&& subs@[k as int].0@.len() >= 1
                &&& i + subs@[k as int].0@.len() <= s@.len()
            },
            None => match_from(s@.skip(i as int), subs_view(subs@), 0) == -1,
        },
{
    let ghost suffix = s@.skip(i as int);
    let ghost sv = subs_view(subs@);
    let n = subs.len();
    let mut k: usize = 0;
    while k < n
        invariant
            k <= n,
            n == subs@.len(),
            sv == subs_view(subs@),
            i <= s@.len(),
            suffix == s@.skip(i as int),
            forall|j: int| 0 <= j < k ==> !(sv[j].0.len() >= 1 && is_prefix_of(sv[j].0, suffix)),
        decreases n - k,
    {
        let marker: &str = subs[k].0.as_str();
        let mlen = marker.unicode_len();
        proof {
            assert(sv[k as int].0 == marker@);
        }
        if mlen >= 1 && match_at(s, i, marker) {
            proof {
                assert(s@.subrange(i as int, i + mlen as int) == marker@);
                assert(suffix.subrange(0, mlen as int) =~= s@.subrange(i as int, i + mlen as int));
                assert(is_prefix_of(marker@, suffix));
                lemma_match_from_value(suffix, sv, 0, k as int);
            }
            return Some(k);
        }
        proof {
            if sv[k as int].0.len() >= 1 && is_prefix_of(sv[k as int].0, suffix) {
                assert(suffix.subrange(0, marker@.len() as int) == marker@);
                assert(s@.subrange(i as int, i + marker@.len()) =~= suffix.subrange(
                    0,
                    marker@.len() as int,
                ));
                assert(occurs_at(s@, marker@, i as int));
            }
        }
        k = k + 1;
    }
    proof {
        lemma_match_from_value(suffix, sv, 0, n as int);
    }
    None
}

/// Apply one marker-substitution pass over `s`.
pub fn apply_substitutions(s: &str, subs: &Vec<(String, String)>) -> (r: String)
    ensures
        r@ == subst_seq(s@, subs_view(subs@)),
{
    let ghost sv = subs_view(subs@);
    let slen = s.unicode_len();
    let mut out = String::new();
    let mut i: usize = 0;
    proof {
        assert(s@.skip(0) =~= s@);
        assert(Seq::<char>::empty() + subst_seq(s@, sv) =~= subst_seq(s@, sv));
    }
    while i < slen
        invariant
            i <= slen,
            slen == s@.len(),
            sv == subs_view(subs@),
            subst_seq(s@, sv) == out@ + subst_seq(s@.skip(i as int), sv),
        decreases slen - i,
    {
        let ghost suffix = s@.skip(i as int);
        let ghost out0 = out@;
        let hit = find_marker_at(s, i, subs);
        match hit {
            Some(k) => {
                let marker: &str = subs[k].0.as_str();
                let mlen = marker.unicode_len();
                out.append(subs[k].1.as_str());
                proof {
                    assert(suffix.len() > 0);
                    assert(sv[k as int].0 == subs@[k as int].0@);
                    assert(sv[k as int].1 == subs@[k as int].1@);
                    assert(subst_seq(suffix, sv) == sv[k as int].1 + subst_seq(
                        suffix.skip(mlen as int),
                        sv,
                    ));
                    assert(suffix.skip(mlen as int) =~= s@.skip(i + mlen as int));
                    assert((out0 + sv[k as int].1) + subst_seq(s@.skip(i + mlen), sv) =~= out0 + (
                    sv[k as int].1 + subst_seq(s@.skip(i + mlen), sv)));
                }
                i = i + mlen;
            },
            None => {
                let c = s.substring_char(i, i + 1);
                proof {
                    assert(suffix.len() > 0);
                    assert(suffix[0] == s@[i as int]);
                    assert(subst_seq(suffix, sv) == seq![suffix[0]] + subst_seq(suffix.skip(1), sv));
                    assert(suffix.skip(1) =~= s@.skip(i + 1));
                    assert(c@ =~= seq![s@[i as int]]);
                    assert((out0 + c@) + subst_seq(s@.skip(i + 1), sv) =~= out0 + (seq![
                        suffix[0],
                    ] + subst_seq(s@.skip(i + 1), sv)));
                }
                out.append(c);
                i = i + 1;
            },
        }
    }
    proof {
        assert(s@.skip(slen as int) =~= Seq::<char>::empty());
        assert(subst_seq(Seq::<char>::empty(), sv) =~= Seq::<char>::empty());
        assert(out@ + Seq::<char>::empty() =~= out@);
    }
    out
}

/// Index of the first occurrence of `c` in `s`; `s.len()` when there is
/// none.
pub open spec fn first_idx_of(s: Seq<char>, c: char) -> int
    decreases s.len(),
{
    if s.len() == 0 {
        0
    } else if s[0] == c {
        0
    } else {
        1 + first_idx_of(s.skip(1), c)
    }
}

/// First position at or after `from` where `c` occurs in `s` (or the end).
pub fn find_char(s: &str, from: usize, c: char) -> (e: usize)
    requires
        from <= s@.len(),
    ensures
        from <= e <= s@.len(),
        e - from == first_idx_of(s@.skip(from as int), c),
        forall|k: int| from <= k < e ==> s@[k] != c,
        e < s@.len() ==> s@[e as int] == c,
{
    let slen = s.unicode_len();
    let mut j: usize = from;
    while j < slen && s.get_char(j) != c
        invariant
            from <= j <= slen,
            slen == s@.len(),
            first_idx_of(s@.skip(from as int), c) == j - from + first_idx_of(s@.skip(j as int), c),
            forall|k: int| from <= k < j ==> s@[k] != c,
        decreases slen - j,
    {
        proof {
            let suf = s@.skip(j as int);
            assert(suf[0] == s@[j as int]);
            assert(suf.skip(1) =~= s@.skip(j + 1));
        }
        j = j + 1;
    }
    proof {
        let suf = s@.skip(j as int);
        if j < slen {
            assert(suf[0] == s@[j as int]);
            assert(first_idx_of(suf, c) == 0);
        } else {
            assert(suf.len() == 0);
        }
    }
    j
}

/// An ASCII whitespace character.
pub open spec fn is_ascii_ws(c: char) -> bool {
    c == ' ' || c == '\n' || c == '\t' || c == '\r'
}

/// `s` with leading whitespace removed.
pub open spec fn trim_front_ws(s: Seq<char>) -> Seq<char>
    decreases s.len(),
{
    if s.len() > 0 && is_ascii_ws(s[0]) {
        trim_front_ws(s.skip(1))
    } else {
        s
    }
}

/// `s` with trailing whitespace removed.
pub open spec fn trim_back_ws(s: Seq<char>) -> Seq<char>
    decreases s.len(),
{
    if s.len() > 0 && is_ascii_ws(s.last()) {
        trim_back_ws(s.drop_last())
    } else {
        s
    }
}

/// `s` with whitespace removed from both ends.
pub open spec fn spec_trim_ws(s: Seq<char>) -> Seq<char> {
    trim_back_ws(trim_front_ws(s))
}

/// Decide `is_ascii_ws`.
fn is_ws_char(c: char) -> (r: bool)
    ensures
        r == is_ascii_ws(c),
{
    c == ' ' || c == '\n' || c == '\t' || c == '\r'
}

/// Remove ASCII whitespace from both ends of `s`.
pub fn trim_ascii_ws<'a>(s: &'a str) -> (r: &'a str)
    ensures
        r@ == spec_trim_ws(s@),
{
    let slen = s.unicode_len();
    let mut b: usize = 0;
    proof {
        assert(s@.skip(0) =~= s@);
    }
    while b < slen && is_ws_char(s.get_char(b))
        invariant
            0 <= b <= slen,
            slen == s@.len(),
            trim_front_ws(s@) == trim_front_ws(s@.skip(b as int)),
        decreases slen - b,
    {
        proof {
            let suf = s@.skip(b as int);
            assert(suf[0] == s@[b as int]);
            assert(suf.skip(1) =~= s@.skip(b + 1));
        }
        b = b + 1;
    }
    let ghost front = s@.skip(b as int);
    proof {
        if b < slen {
            assert(front[0] == s@[b as int]);
        }
        assert(trim_front_ws(front) == front);
    }
    let mut e: usize = slen;
    proof {
        assert(front.take(front.len() as int) =~= front);
    }
    while e > b && is_ws_char(s.get_char(e - 1))
        invariant
            b <= e <= slen,
            slen == s@.len(),
            front == s@.skip(b as int),
            trim_back_ws(front) == trim_back_ws(front.take(e - b)),
        decreases e,
    {
        proof {
            let t = front.take(e - b);
            assert(t.last() == s@[e - 1]);
            assert(t.drop_last() =~= front.take(e - 1 - b));
        }
        e = e - 1;
    }
    proof {
        let t = front.take(e - b);
        if e > b {
            assert(t.last() == s@[e - 1]);
        }
        assert(trim_back_ws(t) == t);
        assert(front.take(e - b) =~= s@.subrange(b as int, e as int));
    }
    s.substring_char(b, e)
}

/// `s` with every trailing copy of `c` removed.
pub open spec fn trim_trailing_char_seq(s: Seq<char>, c: char) -> Seq<char>
    decreases s.len(),
{
    if s.len() > 0 && s.last() == c {
        trim_trailing_char_seq(s.drop_last(), c)
    } else {
        s
    }
}

/// Remove every trailing copy of `c` from `s`.
pub fn trim_trailing_char<'a>(s: &'a str, c: char) -> (r: &'a str)
    ensures
        r@ == trim_trailing_char_seq(s@, c),
{
    let slen = s.unicode_len();
    let mut e: usize = slen;
    proof {
        assert(s@.take(slen as int) =~= s@);
    }
    while e > 0 && s.get_char(e - 1) == c
        invariant
            0 <= e <= slen,
            slen == s@.len(),
            trim_trailing_char_seq(s@, c) == trim_trailing_char_seq(s@.take(e as int), c),
        decreases e,
    {
        proof {
            let t = s@.take(e as int);
            assert(t.last() == s@[e - 1]);
            assert(t.drop_last() =~= s@.take(e - 1));
        }
        e = e - 1;
    }
    proof {
        let t = s@.take(e as int);
        if e > 0 {
            assert(t.last() == s@[e - 1]);
        }
        assert(trim_trailing_char_seq(t, c) == t);
    }
    s.substring_char(0, e)
}

/// A documentation-annotation key character: ASCII letter, digit or
/// underscore.
pub open spec fn is_word_char(c: char) -> bool {
    ('a' <= c && c <= 'z') || ('A' <= c && c <= 'Z') || ('0' <= c && c <= '9') || c == '_'
}

/// Length of the run of word characters at the front of `s`.
pub open spec fn word_run_len(s: Seq<char>) -> int
    decreases s.len(),
{
    if s.len() == 0 {
        0
    } else if is_word_char(s[0]) {
        1 + word_run_len(s.skip(1))
    } else {
        0
    }
}

proof fn lemma_word_run_len(s: Seq<char>)
    ensures
        0 <= word_run_len(s) <= s.len(),
    decreases s.len(),
{
    if s.len() > 0 && is_word_char(s[0]) {
        lemma_word_run_len(s.skip(1));
    }
}

/// Decide `is_word_char` on a character.
fn is_word_char_exec(c: char) -> (r: bool)
    ensures
        r == is_word_char(c),
{
    ('a' <= c && c <= 'z') || ('A' <= c && c <= 'Z') || ('0' <= c && c <= '9') || c == '_'
}

/// First position at or after `i` holding a non-word character (or the end
/// of `s`).
fn word_run_end(s: &str, i: usize) -> (e: usize)
    requires
        i <= s@.len(),
    ensures
        i <= e <= s@.len(),
        e - i == word_run_len(s@.skip(i as int)),
{
    let slen = s.unicode_len();
    let mut j: usize = i;
    while j < slen && is_word_char_exec(s.get_char(j))
        invariant
            i <= j <= slen,
            slen == s@.len(),
            word_run_len(s@.skip(i as int)) == j - i + word_run_len(s@.skip(j as int)),
        decreases slen - j,
    {
        proof {
            let suf = s@.skip(j as int);
            assert(suf[0] == s@[j as int]);
            assert(suf.skip(1) =~= s@.skip(j + 1));
        }
        j = j + 1;
    }
    proof {
        let suf = s@.skip(j as int);
        if j < slen {
            assert(suf[0] == s@[j as int]);
            assert(word_run_len(suf) == 0);
        } else {
            assert(suf.len() == 0);
        }
        lemma_word_run_len(s@.skip(i as int));
    }
    j
}

/// The canned reference URL for a documentation topic; empty for unknown
/// topics.
pub open spec fn spec_doc_url(key: Seq<char>) -> Seq<char> {
    if key == "buildDependencies"@ {
        "https://nixos.org/nixpkgs/manual/#ssec-stdenv-dependencies\n  "@
    } else if key == "fetcher"@ {
        "https://nixos.org/nixpkgs/manual/#chap-pkgs-fetchers\n  "@
    } else if key == "meta"@ {
        "https://nixos.org/nixpkgs/manual/#chap-meta\n  "@
    } else if key == "stdenvMkDerivation"@ {
        "https://nixos.org/nixpkgs/manual/#sec-using-stdenv\n  "@
    } else {
        Seq::<char>::empty()
    }
}

/// The comment line a documentation marker expands to.
pub open spec fn spec_doc_comment(key: Seq<char>) -> Seq<char> {
    "# See the guide for more information: "@ + spec_doc_url(key)
}

/// A complete documentation marker `@doc:<key>@` stands at the front of `s`.
pub open spec fn doc_marker_at_front(s: Seq<char>) -> bool {
    &&& s.len() > 5
    &&& s[0] == '@'
    &&& s[1] == 'd'
    &&& s[2] == 'o'
    &&& s[3] == 'c'
    &&& s[4] == ':'
    &&& word_run_len(s.skip(5)) >= 1
    &&& 5 + word_run_len(s.skip(5)) < s.len()
    &&& s[5 + word_run_len(s.skip(5))] == '@'
}

/// One pass over `s` handling documentation markers: when `links` is set
/// each marker becomes a reference comment, otherwise it is deleted. Text
/// outside markers is kept; inserted comments are not rescanned.
pub open spec fn doc_pass_seq(s: Seq<char>, links: bool) -> Seq<char>
    decreases s.len(),
{
    if s.len() == 0 {
        s
    } else if doc_marker_at_front(s) {
        let w = word_run_len(s.skip(5));
        if 1 <= w && 5 + w < s.len() {
            let key = s.subrange(5, 5 + w);
            let rep = if links {
                spec_doc_comment(key)
            } else {
                Seq::<char>::empty()
            };
            rep + doc_pass_seq(s.skip(6 + w), links)
        } else {
            s
        }
    } else {
        seq![s[0]] + doc_pass_seq(s.skip(1), links)
    }
}

/// Every at sign of `s` lies inside a complete documentation marker.
pub open spec fn well_marked(s: Seq<char>) -> bool
    decreases s.len(),
{
    if s.len() == 0 {
        true
    } else if s[0] == '@' {
        doc_marker_at_front(s) && ({
            let w = word_run_len(s.skip(5));
            1 <= w && 5 + w < s.len() && well_marked(s.skip(6 + w))
        })
    } else {
        well_marked(s.skip(1))
    }
}

/// The documentation pass leaves no marker behind: whichever way the flag
/// is set, when every at sign of the input lies inside a complete
/// `@doc:<topic>@` marker, the output holds no at sign at all, and so no
/// marker syntax. Deletion removes the whole marker; insertion replaces it
/// with a reference comment, which holds no at sign.
pub proof fn lemma_doc_pass_removes_markers(s: Seq<char>, links: bool)
    requires
        well_marked(s),
    ensures
        free_of(doc_pass_seq(s, links), '@'),
    decreases s.len(),
{
    if s.len() == 0 {
    } else if s[0] == '@' {
        let w = word_run_len(s.skip(5));
        let key = s.subrange(5, 5 + w);
        let rest = s.skip(6 + w);
        lemma_doc_pass_removes_markers(rest, links);
        let rep = if links {
            spec_doc_comment(key)
        } else {
            Seq::<char>::empty()
        };
        assert(free_of(rep, '@')) by {
            if links {
                lemma_doc_comment_free_of_at(key);
            }
        }
        assert(doc_pass_seq(s, links) == rep + doc_pass_seq(rest, links));
        assert forall|i: int| 0 <= i < doc_pass_seq(s, links).len() implies doc_pass_seq(s, links)[i]
            != '@' by {
            if i < rep.len() {
                assert(doc_pass_seq(s, links)[i] == rep[i]);
            } else {
                assert(doc_pass_seq(s, links)[i] == doc_pass_seq(rest, links)[i - rep.len()]);
            }
        }
    } else {
        lemma_doc_pass_removes_markers(s.skip(1), links);
        assert(doc_pass_seq(s, links) == seq![s[0]] + doc_pass_seq(s.skip(1), links));
        assert forall|i: int| 0 <= i < doc_pass_seq(s, links).len() implies doc_pass_seq(s, links)[i]
            != '@' by {
            if i == 0 {
                assert(doc_pass_seq(s, links)[0] == s[0]);
            } else {
                assert(doc_pass_seq(s, links)[i] == doc_pass_seq(s.skip(1), links)[i - 1]);
            }
        }
    }
}

/// With links enabled a marker always expands to a non-empty comment
/// line: whatever the topic, the comment prefix itself is there.
pub proof fn lemma_doc_comment_nonempty(key: Seq<char>)
    ensures
        spec_doc_comment(key).len() > 0,
{
    reveal_strlit("# See the guide for more information: ");
}

/// The comment a known or unknown topic expands to holds no at sign.
proof fn lemma_doc_comment_free_of_at(key: Seq<char>)
    ensures
        free_of(spec_doc_comment(key), '@'),
{
    reveal_strlit("# See the guide for more information: ");
    reveal_strlit("https://nixos.org/nixpkgs/manual/#ssec-stdenv-dependencies\n  ");
    reveal_strlit("https://nixos.org/nixpkgs/manual/#chap-pkgs-fetchers\n  ");
    reveal_strlit("https://nixos.org/nixpkgs/manual/#chap-meta\n  ");
    reveal_strlit("https://nixos.org/nixpkgs/manual/#sec-using-stdenv\n  ");
    let pre = "# See the guide for more information: "@;
    let url = spec_doc_url(key);
    assert(free_of(pre, '@'));
    assert(free_of(url, '@'));
    assert forall|i: int| 0 <= i < spec_doc_comment(key).len() implies spec_doc_comment(key)[i]
        != '@' by {
        if i < pre.len() {
            assert(spec_doc_comment(key)[i] == pre[i]);
        } else {
            assert(spec_doc_comment(key)[i] == url[i - pre.len()]);
        }
    }
}

/// The reference URL for a documentation topic key.
fn doc_url(key: &str) -> (r: &'static str)
    ensures
        r@ == spec_doc_url(key@),
{
    if str_eq(key, "buildDependencies") {
        "https://nixos.org/nixpkgs/manual/#ssec-stdenv-dependencies\n  "
    } else if str_eq(key, "fetcher") {
        "https://nixos.org/nixpkgs/manual/#chap-pkgs-fetchers\n  "
    } else if str_eq(key, "meta") {
        "https://nixos.org/nixpkgs/manual/#chap-meta\n  "
    } else if str_eq(key, "stdenvMkDerivation") {
        "https://nixos.org/nixpkgs/manual/#sec-using-stdenv\n  "
    } else {
        proof {
            reveal_strlit("");
        }
        ""
    }
}

/// Expand or delete every documentation marker in `s`.
#[verifier::rlimit(60)]
pub fn apply_doc_pass(s: &str, links: bool) -> (r: String)
    ensures
        r@ == doc_pass_seq(s@, links),
{
    let slen = s.unicode_len();
    let mut out = String::new();
    let mut i: usize = 0;
    proof {
        assert(s@.skip(0) =~= s@);
        assert(Seq::<char>::empty() + doc_pass_seq(s@, links) =~= doc_pass_seq(s@, links));
    }
    while i < slen
        invariant
            i <= slen,
            slen == s@.len(),
            doc_pass_seq(s@, links) == out@ + doc_pass_seq(s@.skip(i as int), links),
        decreases slen - i,
    {
        let ghost suffix = s@.skip(i as int);
        let ghost out0 = out@;
        proof {
            reveal_strlit("@doc:");
        }
        let mut matched = false;
        if match_at(s, i, "@doc:") {
            let e = word_run_end(s, i + 5);
            let ghost w = word_run_len(s@.skip(i + 5));
            proof {
                assert(suffix.skip(5) =~= s@.skip(i + 5));
            }
            if e - (i + 5) >= 1 && e < slen && s.get_char(e) == '@' {
                matched = true;
                proof {
                    assert forall|k: int| 0 <= k < 5 implies s@[i + k] == "@doc:"@[k] by {
                        assert(s@.subrange(i as int, i + 5)[k] == s@[i + k]);
                    }
                    assert(suffix[0] == '@' && suffix[1] == 'd' && suffix[2] == 'o' && suffix[3]
                        == 'c' && suffix[4] == ':');
                    assert(suffix[5 + w] == s@[e as int]);
                    assert(doc_marker_at_front(suffix));
                    assert(suffix.subrange(5, 5 + w) =~= s@.subrange(i + 5, e as int));
                    assert(suffix.skip(6 + w) =~= s@.skip(e + 1));
                }
                let key = s.substring_char(i + 5, e);
                let ghost keyv = key@;
                if links {
                    out.append("# See the guide for more information: ");
                    out.append(doc_url(key));
                    proof {
                        assert(out@ =~= out0 + spec_doc_comment(keyv));
                    }
                }
                proof {
                    let rep = if links {
                        spec_doc_comment(keyv)
                    } else {
                        Seq::<char>::empty()
                    };
                    assert(doc_pass_seq(suffix, links) == rep + doc_pass_seq(
                        s@.skip(e + 1),
                        links,
                    ));
                    assert(out0 + (rep + doc_pass_seq(s@.skip(e + 1), links)) =~= (out0 + rep)
                        + doc_pass_seq(s@.skip(e + 1), links));
                    assert(out@ =~= out0 + rep);
                }
                i = e + 1;
            }
        }
        if !matched {
            proof {
                if doc_marker_at_front(suffix) {
                    assert(suffix.subrange(0, 5) =~= s@.subrange(i as int, i + 5));
                    assert forall|k: int| 0 <= k < 5 implies suffix.subrange(0, 5)[k] == "@doc:"@[k]
                    by {
                        reveal_strlit("@doc:");
                    }
                    assert(suffix.subrange(0, 5) =~= "@doc:"@);
                    assert(occurs_at(s@, "@doc:"@, i as int));
                    lemma_word_run_len(suffix.skip(5));
                }
                assert(!doc_marker_at_front(suffix));
                assert(doc_pass_seq(suffix, links) == seq![suffix[0]] + doc_pass_seq(
                    suffix.skip(1),
                    links,
                ));
                assert(suffix.skip(1) =~= s@.skip(i + 1));
                assert(suffix[0] == s@[i as int]);
            }
            let c = s.substring_char(i, i + 1);
            proof {
                assert(c@ =~= seq![s@[i as int]]);
                assert((out0 + c@) + doc_pass_seq(s@.skip(i + 1), links) =~= out0 + (seq![
                    suffix[0],
                ] + doc_pass_seq(s@.skip(i + 1), links)));
            }
            out.append(c);
            i = i + 1;
        }
    }
    proof {
        assert(s@.skip(slen as int) =~= Seq::<char>::empty());
        assert(out@ + Seq::<char>::empty() =~= out@);
    }
    out
}

} // verus!
