//! Remote-identifier classification and metadata enrichment: recognizing a
//! source-host or package-index URL, selecting the newest release, and
//! filling the expression fields from registry metadata. The network calls
//! themselves stay with the caller, which hands in the fetched, already
//! decoded responses as plain values.

use crate::gh_release_response::GhReleaseResponseElement;
use crate::gh_repo_response::GhRepoResponse;
use crate::license::{github_license_to_nixpkgs, spec_github_license};
use crate::strutil::{first_idx_of, find_char, is_prefix_of, match_at, occurs_at, str_eq, strip_prefix_all, trim_start_matches};
use crate::pypi::{Digests, PypiResponse, Url};
use crate::types::{ExpressionInfo, GithubRepo, PypiRepo, Repo, TemplateError};
use crate::version::{all_numeric_version, lemma_cmp_parts_antisym, num_ge, sort_versions_desc, spec_split_point, version_older, version_token};
use vstd::prelude::*;
use vstd::string::StrSliceExecFns;
use vstd::string::StringExecFns;

verus! {

/// The url names the source host: it begins `github.com`.
pub open spec fn is_github_host(u: Seq<char>) -> bool {
    is_prefix_of("github.com"@, u)
}

/// The url names the package index: it begins `pypi.org`.
pub open spec fn is_pypi_host(u: Seq<char>) -> bool {
    is_prefix_of("pypi.org"@, u)
}

/// A well-shaped source-host url `github.com/<owner>/<repo>`: after the
/// host prefix of eleven characters, a slash terminates the owner segment.
pub open spec fn github_url_ok(u: Seq<char>) -> bool {
    is_prefix_of("github.com/"@, u) && 11 + first_idx_of(u.skip(11), '/') < u.len()
}

/// The owner segment of a well-shaped source-host url.
pub open spec fn spec_github_owner(u: Seq<char>) -> Seq<char> {
    u.subrange(11, 11 + first_idx_of(u.skip(11), '/'))
}

/// The repository segment of a well-shaped source-host url: from after the
/// owner's slash to the next slash or the end.
pub open spec fn spec_github_repo(u: Seq<char>) -> Seq<char> {
    let a = 12 + first_idx_of(u.skip(11), '/');
    u.subrange(a, a + first_idx_of(u.skip(a), '/'))
}

/// A well-shaped package-index url `pypi.org/project/<project>`: the
/// seventeen-character project prefix is present.
pub open spec fn pypi_url_ok(u: Seq<char>) -> bool {
    is_prefix_of("pypi.org/project/"@, u)
}

/// The project segment of a well-shaped package-index url.
pub open spec fn spec_pypi_project(u: Seq<char>) -> Seq<char> {
    u.subrange(17, 17 + first_idx_of(u.skip(17), '/'))
}

/// Classify a protocol-less url into a remote identifier. A url on the
/// source host must name `github.com/<owner>/<repo>`; one on the package
/// index must name `pypi.org/project/<project>`; any other host is
/// unsupported.
pub fn validate_and_parse_url(url: &str) -> (r: Result<Repo, TemplateError>)
    ensures
        match r {
            Ok(rep) => match rep {
                Repo::Github(g) => {
                    &&& is_github_host(url@)
                    &&& github_url_ok(url@)
                    &&& g.owner@ == spec_github_owner(url@)
                    &&& g.repo@ == spec_github_repo(url@)
                },
                Repo::Pypi(p) => {
                    &&& !is_github_host(url@)
                    &&& is_pypi_host(url@)
                    &&& pypi_url_ok(url@)
                    &&& p.project@ == spec_pypi_project(url@)
                },
            },
            Err(TemplateError::MalformedGithubUrl) => is_github_host(url@) && !github_url_ok(url@),
            Err(TemplateError::MalformedPypiUrl) => !is_github_host(url@) && is_pypi_host(url@)
                && !pypi_url_ok(url@),
            Err(TemplateError::UnsupportedUrl) => !is_github_host(url@) && !is_pypi_host(url@),
            Err(_) => false,
        },
{
    let slen = url.unicode_len();
    proof {
        reveal_strlit("github.com");
        reveal_strlit("github.com/");
        reveal_strlit("pypi.org");
        reveal_strlit("pypi.org/project/");
    }
    if match_at(url, 0, "github.com") {
        proof {
            assert(url@.subrange(0, 10) == "github.com"@);
            assert(is_prefix_of("github.com"@, url@));
        }
        if !match_at(url, 0, "github.com/") {
            proof {
                if is_prefix_of("github.com/"@, url@) {
                    assert(occurs_at(url@, "github.com/"@, 0));
                }
            }
            return Err(TemplateError::MalformedGithubUrl);
        }
        proof {
            assert(url@.subrange(0, 11) == "github.com/"@);
            assert(is_prefix_of("github.com/"@, url@));
        }
        let owner_end = find_char(url, 11, '/');
        proof {
            assert(url@.skip(11).len() == slen - 11);
        }
        if owner_end >= slen {
            proof {
                assert(owner_end - 11 == first_idx_of(url@.skip(11), '/'));
            }
            return Err(TemplateError::MalformedGithubUrl);
        }
        let repo_start = owner_end + 1;
        let repo_end = find_char(url, repo_start, '/');
        let owner = url.substring_char(11, owner_end);
        let repo = url.substring_char(repo_start, repo_end);
        proof {
            assert(owner@ == spec_github_owner(url@));
            assert(repo@ == spec_github_repo(url@));
        }
        Ok(Repo::Github(GithubRepo { owner: owner.to_owned(), repo: repo.to_owned() }))
    } else {
        proof {
            if is_prefix_of("github.com"@, url@) {
                assert(occurs_at(url@, "github.com"@, 0));
            }
        }
        if match_at(url, 0, "pypi.org") {
            proof {
                assert(url@.subrange(0, 8) == "pypi.org"@);
                assert(is_prefix_of("pypi.org"@, url@));
            }
            if !match_at(url, 0, "pypi.org/project/") {
                proof {
                    if is_prefix_of("pypi.org/project/"@, url@) {
                        assert(occurs_at(url@, "pypi.org/project/"@, 0));
                    }
                }
                return Err(TemplateError::MalformedPypiUrl);
            }
            proof {
                assert(url@.subrange(0, 17) == "pypi.org/project/"@);
                assert(is_prefix_of("pypi.org/project/"@, url@));
            }
            let proj_end = find_char(url, 17, '/');
            let project = url.substring_char(17, proj_end);
            proof {
                assert(project@ == spec_pypi_project(url@));
            }
            Ok(Repo::Pypi(PypiRepo { project: project.to_owned() }))
        } else {
            proof {
                if is_prefix_of("pypi.org"@, url@) {
                    assert(occurs_at(url@, "pypi.org"@, 0));
                }
            }
            Err(TemplateError::UnsupportedUrl)
        }
    }
}

/// The url with its `http://` or `https://` protocol prefix removed.
pub open spec fn spec_trim_protocol(u: Seq<char>) -> Seq<char> {
    strip_prefix_all(strip_prefix_all(u, "http://"@), "https://"@)
}

/// Remove the protocol prefix from a url.
pub fn trim_url_protocol(url: &str) -> (r: &str)
    ensures
        r@ == spec_trim_protocol(url@),
{
    trim_start_matches(trim_start_matches(url, "http://"), "https://")
}

/// Classify a user-supplied url: strip the protocol, then parse the host
/// and path into a remote identifier.
pub fn parse_remote_url(url: &str) -> (r: Result<Repo, TemplateError>)
    ensures
        ({
            let u = spec_trim_protocol(url@);
            match r {
                Ok(rep) => match rep {
                    Repo::Github(g) => {
                        &&& is_github_host(u)
                        &&& github_url_ok(u)
                        &&& g.owner@ == spec_github_owner(u)
                        &&& g.repo@ == spec_github_repo(u)
                    },
                    Repo::Pypi(p) => {
                        &&& !is_github_host(u)
                        &&& is_pypi_host(u)
                        &&& pypi_url_ok(u)
                        &&& p.project@ == spec_pypi_project(u)
                    },
                },
                Err(TemplateError::MalformedGithubUrl) => is_github_host(u) && !github_url_ok(u),
                Err(TemplateError::MalformedPypiUrl) => !is_github_host(u) && is_pypi_host(u)
                    && !pypi_url_ok(u),
                Err(TemplateError::UnsupportedUrl) => !is_github_host(u) && !is_pypi_host(u),
                Err(_) => false,
            }
        }),
{
    validate_and_parse_url(trim_url_protocol(url))
}

/// Every release tag in the list is a purely numeric version.
pub open spec fn all_numeric_tags(rels: Seq<GhReleaseResponseElement>) -> bool {
    forall|i: int| 0 <= i < rels.len() ==> all_numeric_version(rels[i].tag_name@)
}

/// The releases are ordered newest tag first.
pub open spec fn tags_sorted_desc(rels: Seq<GhReleaseResponseElement>) -> bool {
    forall|i: int, j: int|
        0 <= i < j < rels.len() ==> num_ge(rels[i].tag_name@, rels[j].tag_name@)
}

/// Copy one release entry.
fn clone_release(e: &GhReleaseResponseElement) -> (r: GhReleaseResponseElement)
    ensures
        r == *e,
{
    GhReleaseResponseElement { tag_name: e.tag_name.clone(), prerelease: e.prerelease }
}

/// Sort releases newest tag first, with the same ordering the version
/// sorter uses.
fn sort_github_releases_desc(v: Vec<GhReleaseResponseElement>) -> (r: Vec<
    GhReleaseResponseElement,
>)
    ensures
        r@.to_multiset() == v@.to_multiset(),
        r@.len() == v@.len(),
        all_numeric_tags(v@) ==> tags_sorted_desc(r@),
{
    let ghost h = all_numeric_tags(v@);
    let n = v.len();
    let mut out = v;
    if n <= 1 {
        return out;
    }
    let mut i: usize = 1;
    while i < n
        invariant
            1 <= i <= n,
            out@.len() == n,
            out@.to_multiset() == v@.to_multiset(),
            h == all_numeric_tags(v@),
            h ==> all_numeric_tags(out@),
            h ==> tags_sorted_desc(out@.subrange(0, i as int)),
        decreases n - i,
    {
        let mut j: usize = i;
        while j > 0 && version_older(&out[j - 1].tag_name, &out[j].tag_name)
            invariant
                0 <= j <= i < n,
                out@.len() == n,
                out@.to_multiset() == v@.to_multiset(),
                h == all_numeric_tags(v@),
                h ==> all_numeric_tags(out@),
                h ==> tags_sorted_desc(out@.subrange(0, j as int)),
                h ==> tags_sorted_desc(out@.subrange(j + 1, i + 1)),
                h ==> forall|p: int, q: int|
                    0 <= p < j && j < q <= i ==> num_ge(out@[p].tag_name@, out@[q].tag_name@),
                h ==> forall|q: int|
                    j < q <= i ==> num_ge(out@[j as int].tag_name@, out@[q].tag_name@),
            decreases j,
        {
            let ghost before = out@;
            let x = out.remove(j - 1);
            out.insert(j, x);
            proof {
                assert(out@ =~= before.remove(j - 1).insert(j as int, before[j - 1]));
                assert forall|p: int| 0 <= p < n implies out@[p] == (if p == j - 1 {
                    before[j as int]
                } else if p == j {
                    before[j - 1]
                } else {
                    before[p]
                }) by {
                    assert(out@[p] == before.remove(j - 1).insert(j as int, before[j - 1])[p]);
                }
                assert(out@.to_multiset() =~= before.to_multiset()) by {
                    let y = before[j - 1];
                    let m0 = before.to_multiset();
                    assert(out@ == before.remove(j - 1).insert(j as int, y));
                    vstd::seq_lib::to_multiset_insert::<GhReleaseResponseElement>(
                        before.remove(j - 1),
                        j as int,
                        y,
                    );
                    vstd::seq_lib::to_multiset_remove::<GhReleaseResponseElement>(before, j - 1);
                    before.to_multiset_ensures();
                    assert(before.contains(y));
                    assert(m0.count(y) > 0);
                    assert(m0.remove(y).insert(y) =~= m0);
                }
                if h {
                    assert(all_numeric_tags(out@));
                    lemma_cmp_parts_antisym(
                        crate::version::num_parts(before[j - 1].tag_name@),
                        crate::version::num_parts(before[j as int].tag_name@),
                        0,
                    );
                    assert(num_ge(out@[j - 1].tag_name@, out@[j as int].tag_name@));
                    let s1 = out@.subrange(0, j - 1);
                    assert forall|p: int, q: int| #![trigger s1[p], s1[q]] 0 <= p < q < s1.len()
                        implies num_ge(s1[p].tag_name@, s1[q].tag_name@) by {
                        assert(s1[p] == before[p]);
                        assert(s1[q] == before[q]);
                        assert(before.subrange(0, j as int)[p] == before[p]);
                        assert(before.subrange(0, j as int)[q] == before[q]);
                    }
                    assert(tags_sorted_desc(s1));
                    let s2 = out@.subrange(j as int, i + 1);
                    assert forall|p: int, q: int| #![trigger s2[p], s2[q]] 0 <= p < q < s2.len()
                        implies num_ge(s2[p].tag_name@, s2[q].tag_name@) by {
                        let pp = p + j;
                        let qq = q + j;
                        assert(s2[q] == out@[qq]);
                        assert(out@[qq] == before[qq]);
                        if pp == j {
                            assert(s2[p] == out@[j as int]);
                            assert(num_ge(before[j - 1].tag_name@, before[qq].tag_name@));
                        } else {
                            assert(s2[p] == out@[pp]);
                            assert(before.subrange(j + 1, i + 1)[pp - j - 1] == before[pp]);
                            assert(before.subrange(j + 1, i + 1)[qq - j - 1] == before[qq]);
                        }
                    }
                    assert(tags_sorted_desc(s2));
                    assert forall|p: int, q: int| #![trigger out@[p], out@[q]] 0 <= p < j - 1 && j
                        - 1 < q <= i implies num_ge(out@[p].tag_name@, out@[q].tag_name@) by {
                        if q == j {
                            assert(before.subrange(0, j as int)[p] == before[p]);
                            assert(before.subrange(0, j as int)[j - 1] == before[j - 1]);
                            assert(num_ge(before[p].tag_name@, before[j - 1].tag_name@));
                        } else {
                            assert(num_ge(before[p].tag_name@, before[q].tag_name@));
                        }
                    }
                    assert forall|q: int| #![trigger out@[q]] j - 1 < q <= i implies num_ge(
                        out@[j - 1].tag_name@,
                        out@[q].tag_name@,
                    ) by {
                        if q == j {
                            assert(num_ge(before[j as int].tag_name@, before[j - 1].tag_name@));
                        } else {
                            assert(num_ge(before[j as int].tag_name@, before[q].tag_name@));
                        }
                    }
                }
            }
            j = j - 1;
        }
        proof {
            if h {
                assert forall|p: int, q: int| #![trigger out@[p], out@[q]] 0 <= p < q <= i
                    implies num_ge(out@[p].tag_name@, out@[q].tag_name@) by {
                    if j == 0 {
                        if p == 0 {
                            assert(num_ge(out@[0].tag_name@, out@[q].tag_name@));
                        } else {
                            assert(out@.subrange(1, i + 1)[p - 1] == out@[p]);
                            assert(out@.subrange(1, i + 1)[q - 1] == out@[q]);
                        }
                    } else {
                        assert(num_ge(out@[j - 1].tag_name@, out@[j as int].tag_name@));
                        if q < j {
                            assert(out@.subrange(0, j as int)[p] == out@[p]);
                            assert(out@.subrange(0, j as int)[q] == out@[q]);
                        } else if p > j {
                            assert(out@.subrange(j + 1, i + 1)[p - j - 1] == out@[p]);
                            assert(out@.subrange(j + 1, i + 1)[q - j - 1] == out@[q]);
                        } else if p < j && q > j {
                            assert(num_ge(out@[p].tag_name@, out@[q].tag_name@));
                        } else if p == j {
                            assert(num_ge(out@[j as int].tag_name@, out@[q].tag_name@));
                        } else {
                            if p < j - 1 {
                                assert(out@.subrange(0, j as int)[p] == out@[p]);
                                assert(out@.subrange(0, j as int)[j - 1] == out@[j - 1]);
                                assert(num_ge(out@[p].tag_name@, out@[j - 1].tag_name@));
                                crate::version::lemma_num_ge_trans(
                                    out@[p].tag_name@,
                                    out@[j - 1].tag_name@,
                                    out@[j as int].tag_name@,
                                );
                            }
                        }
                    }
                }
                let s3 = out@.subrange(0, i + 1);
                assert forall|p: int, q: int| #![trigger s3[p], s3[q]] 0 <= p < q < s3.len()
                    implies num_ge(s3[p].tag_name@, s3[q].tag_name@) by {
                    assert(s3[p] == out@[p]);
                    assert(s3[q] == out@[q]);
                }
                assert(tags_sorted_desc(s3));
            }
        }
        i = i + 1;
    }
    proof {
        assert(out@.subrange(0, n as int) =~= out@);
    }
    out
}

/// The source-archive url of a tagged release on the source host.
pub open spec fn spec_github_archive_url(
    owner: Seq<char>,
    repo: Seq<char>,
    tag_prefix: Seq<char>,
    version: Seq<char>,
) -> Seq<char> {
    "https://github.com/"@ + owner + "/"@ + repo + "/archive/refs/tags/"@ + tag_prefix + version
        + ".tar.gz"@
}

/// Build the source-archive url the checksum tool downloads.
pub fn github_archive_url(repo: &GithubRepo, tag_prefix: &str, version: &str) -> (r: String)
    ensures
        r@ == spec_github_archive_url(repo.owner@, repo.repo@, tag_prefix@, version@),
{
    let mut r = "https://github.com/".to_owned();
    r.append(repo.owner.as_str());
    r.append("/");
    r.append(repo.repo.as_str());
    r.append("/archive/refs/tags/");
    r.append(tag_prefix);
    r.append(version);
    r.append(".tar.gz");
    r
}

/// Select the newest release of the repository and record it in `info`:
/// order the releases newest tag first, drop prereleases, and split the
/// first remaining tag into `tag_prefix` and `version`. The result is the
/// archive url to compute the source checksum from; it is `None`, and
/// `info` is untouched, exactly when no stable release exists.
pub fn apply_github_releases(
    info: &mut ExpressionInfo,
    repo: &GithubRepo,
    releases: &Vec<GhReleaseResponseElement>,
) -> (r: Option<String>)
    requires
        forall|i: int| 0 <= i < releases@.len() ==> releases@[i].tag_name@.len() >= 1,
    ensures
        r is Some <==> exists|i: int| 0 <= i < releases@.len() && !releases@[i].prerelease,
        r is None ==> *final(info) == *old(info),
        *final(info) == (ExpressionInfo {
            tag_prefix: final(info).tag_prefix,
            version: final(info).version,
            ..*old(info)
        }),
        r matches Some(u) ==> exists|rel: GhReleaseResponseElement|
            {
                &&& #[trigger] releases@.to_multiset().count(rel) > 0
                &&& !rel.prerelease
                &&& final(info).tag_prefix@ == rel.tag_name@.take(spec_split_point(rel.tag_name@))
                &&& final(info).version@ == rel.tag_name@.skip(spec_split_point(rel.tag_name@))
                &&& u@ == spec_github_archive_url(
                    repo.owner@,
                    repo.repo@,
                    final(info).tag_prefix@,
                    final(info).version@,
                )
                &&& (all_numeric_tags(releases@) ==> forall|j: int|
                    0 <= j < releases@.len() && !releases@[j].prerelease ==> num_ge(
                        rel.tag_name@,
                        releases@[j].tag_name@,
                    ))
            },
{
    let n = releases.len();
    let mut work: Vec<GhReleaseResponseElement> = Vec::new();
    let mut i: usize = 0;
    while i < n
        invariant
            0 <= i <= n,
            n == releases@.len(),
            work@ == releases@.take(i as int),
        decreases n - i,
    {
        work.push(clone_release(&releases[i]));
        proof {
            assert(work@ =~= releases@.take(i + 1));
        }
        i = i + 1;
    }
    proof {
        assert(releases@.take(n as int) =~= releases@);
    }
    let sorted = sort_github_releases_desc(work);
    let remaining = stable_releases(&sorted);
    proof {
        lemma_stable_releases(sorted@);
        sorted@.to_multiset_ensures();
        releases@.to_multiset_ensures();
    }
    if remaining.len() == 0 {
        proof {
            assert forall|i2: int| 0 <= i2 < releases@.len() implies releases@[i2].prerelease by {
                assert(releases@.to_multiset().count(releases@[i2]) > 0) by {
                    assert(releases@.contains(releases@[i2]));
                }
                assert(sorted@.to_multiset().count(releases@[i2]) > 0);
                assert(sorted@.contains(releases@[i2]));
                let m = choose|m: int| 0 <= m < sorted@.len() && sorted@[m] == releases@[i2];
                assert(sorted@[m].prerelease);
            };
        }
        return None;
    }
    let ghost chosen = remaining@[0];
    proof {
        let k = choose|k: int|
            {
                &&& 0 <= k < sorted@.len()
                &&& sorted@[k] == spec_stable_releases(sorted@)[0]
                &&& !sorted@[k].prerelease
                &&& forall|m: int| 0 <= m < k ==> sorted@[m].prerelease
            };
        assert(sorted@.contains(chosen));
        assert(sorted@.to_multiset().count(chosen) > 0);
        assert(releases@.to_multiset().count(chosen) > 0);
        assert(releases@.contains(chosen));
        let i0 = choose|i0: int| 0 <= i0 < releases@.len() && releases@[i0] == chosen;
        assert(!releases@[i0].prerelease);
    }
    let tag: &String = &remaining[0].tag_name;
    proof {
        assert(tag@ == chosen.tag_name@);
        assert(chosen.tag_name@.len() >= 1) by {
            let i0 = choose|i0: int| 0 <= i0 < releases@.len() && releases@[i0] == chosen;
            assert(releases@[i0].tag_name@.len() >= 1);
        }
    }
    match version_token(tag.as_str()) {
        Some(pv) => {
            info.tag_prefix = pv.0;
            info.version = pv.1;
            let u = github_archive_url(repo, info.tag_prefix.as_str(), info.version.as_str());
            proof {
                let k = choose|k: int|
                    {
                        &&& 0 <= k < sorted@.len()
                        &&& sorted@[k] == spec_stable_releases(sorted@)[0]
                        &&& !sorted@[k].prerelease
                        &&& forall|m: int| 0 <= m < k ==> sorted@[m].prerelease
                    };
                if all_numeric_tags(releases@) {
                    assert(all_numeric_tags(sorted@)) by {
                        assert forall|t: int| 0 <= t < sorted@.len() implies all_numeric_version(
                            sorted@[t].tag_name@,
                        ) by {
                            assert(sorted@.contains(sorted@[t]));
                            assert(sorted@.to_multiset().count(sorted@[t]) > 0);
                            assert(releases@.to_multiset().count(sorted@[t]) > 0);
                            assert(releases@.contains(sorted@[t]));
                            let w = choose|w: int|
                                0 <= w < releases@.len() && releases@[w] == sorted@[t];
                            assert(all_numeric_version(releases@[w].tag_name@));
                        }
                    }
                    assert forall|j: int|
                        0 <= j < releases@.len() && !releases@[j].prerelease implies num_ge(
                        chosen.tag_name@,
                        releases@[j].tag_name@,
                    ) by {
                        assert(releases@.contains(releases@[j]));
                        assert(releases@.to_multiset().count(releases@[j]) > 0);
                        assert(sorted@.to_multiset().count(releases@[j]) > 0);
                        assert(sorted@.contains(releases@[j]));
                        let m = choose|m: int| 0 <= m < sorted@.len() && sorted@[m] == releases@[j];
                        if m == k {
                            crate::version::lemma_cmp_parts_refl(
                                crate::version::num_parts(chosen.tag_name@),
                                0,
                            );
                        } else if m < k {
                            assert(sorted@[m].prerelease);
                        } else {
                            assert(num_ge(sorted@[k].tag_name@, sorted@[m].tag_name@));
                        }
                    }
                }
                assert(releases@.to_multiset().count(chosen) > 0);
            }
            Some(u)
        },
        None => {
            proof {
                assert(false);
            }
            None
        },
    }
}

/// Record the checksum the external tool printed: its output with
/// surrounding whitespace removed becomes the source hash.
pub fn set_src_sha(info: &mut ExpressionInfo, raw: &str)
    ensures
        final(info).src_sha@ == crate::strutil::spec_trim_ws(raw@),
        *final(info) == (ExpressionInfo { src_sha: final(info).src_sha, ..*old(info) }),
{
    info.src_sha = crate::strutil::trim_ascii_ws(raw).to_owned();
}

/// Record the repository metadata in `info`: the license key maps through
/// the license table unless the host reports it as `other`; the
/// description falls back to the sentinel; the package name and owner are
/// filled from the parsed identifier only while still at the sentinel.
pub fn apply_github_repo_meta(
    info: &mut ExpressionInfo,
    repo: &GithubRepo,
    repo_info: &GhRepoResponse,
)
    ensures
        final(info).license@ == if repo_info.license.key@ == "other"@ {
            old(info).license@
        } else {
            spec_github_license(repo_info.license.key@)
        },
        final(info).description@ == match repo_info.description {
            Some(d) => d@,
            None => "CHANGE"@,
        },
        final(info).pname@ == if old(info).pname@ == "CHANGE"@ {
            repo.repo@
        } else {
            old(info).pname@
        },
        final(info).owner@ == if old(info).owner@ == "CHANGE"@ {
            repo.owner@
        } else {
            old(info).owner@
        },
        *final(info) == (ExpressionInfo {
            license: final(info).license,
            description: final(info).description,
            pname: final(info).pname,
            owner: final(info).owner,
            ..*old(info)
        }),
{
    if !str_eq(repo_info.license.key.as_str(), "other") {
        info.license = github_license_to_nixpkgs(repo_info.license.key.as_str());
    }
    info.description = match &repo_info.description {
        Some(d) => d.clone(),
        None => "CHANGE".to_owned(),
    };
    if str_eq(info.pname.as_str(), "CHANGE") {
        info.pname = repo.repo.clone();
    }
    if str_eq(info.owner.as_str(), "CHANGE") {
        info.owner = repo.owner.clone();
    }
}

/// The releases that are not prereleases, in their given order.
pub open spec fn spec_stable_releases(rels: Seq<GhReleaseResponseElement>) -> Seq<
    GhReleaseResponseElement,
>
    decreases rels.len(),
{
    if rels.len() == 0 {
        rels
    } else if !rels[0].prerelease {
        seq![rels[0]] + spec_stable_releases(rels.skip(1))
    } else {
        spec_stable_releases(rels.skip(1))
    }
}

proof fn lemma_stable_releases(rels: Seq<GhReleaseResponseElement>)
    ensures
        spec_stable_releases(rels).len() == 0 <==> (forall|i: int|
            0 <= i < rels.len() ==> rels[i].prerelease),
        spec_stable_releases(rels).len() > 0 ==> exists|k: int|
            {
                &&& 0 <= k < rels.len()
                &&& rels[k] == spec_stable_releases(rels)[0]
                &&& !rels[k].prerelease
                &&& forall|m: int| 0 <= m < k ==> rels[m].prerelease
            },
    decreases rels.len(),
{
    if rels.len() > 0 {
        lemma_stable_releases(rels.skip(1));
        if !rels[0].prerelease {
            assert(spec_stable_releases(rels)[0] == rels[0]);
        } else {
            if spec_stable_releases(rels).len() > 0 {
                let k0 = choose|k: int|
                    {
                        &&& 0 <= k < rels.skip(1).len()
                        &&& rels.skip(1)[k] == spec_stable_releases(rels.skip(1))[0]
                        &&& !rels.skip(1)[k].prerelease
                        &&& forall|m: int| 0 <= m < k ==> rels.skip(1)[m].prerelease
                    };
                assert(rels.skip(1)[k0] == rels[k0 + 1]);
                assert forall|m: int| 0 <= m < k0 + 1 implies rels[m].prerelease by {
                    if m > 0 {
                        assert(rels.skip(1)[m - 1] == rels[m]);
                    }
                }
                assert({
                    &&& 0 <= k0 + 1 < rels.len()
                    &&& rels[k0 + 1] == spec_stable_releases(rels)[0]
                    &&& !rels[k0 + 1].prerelease
                    &&& forall|m: int| 0 <= m < k0 + 1 ==> rels[m].prerelease
                });
            } else {
                assert forall|i: int| 0 <= i < rels.len() implies rels[i].prerelease by {
                    if i > 0 {
                        assert(rels.skip(1)[i - 1] == rels[i]);
                    }
                }
            }
        }
    }
}

/// Keep the releases that are not prereleases.
fn stable_releases(v: &Vec<GhReleaseResponseElement>) -> (r: Vec<GhReleaseResponseElement>)
    ensures
        r@ == spec_stable_releases(v@),
{
    let n = v.len();
    let mut out: Vec<GhReleaseResponseElement> = Vec::new();
    let mut i: usize = 0;
    proof {
        assert(v@.skip(0) =~= v@);
    }
    while i < n
        invariant
            0 <= i <= n,
            n == v@.len(),
            spec_stable_releases(v@) == out@ + spec_stable_releases(v@.skip(i as int)),
        decreases n - i,
    {
        let ghost suffix = v@.skip(i as int);
        let ghost out0 = out@;
        proof {
            assert(suffix[0] == v@[i as int]);
            assert(suffix.skip(1) =~= v@.skip(i + 1));
        }
        if !v[i].prerelease {
            out.push(clone_release(&v[i]));
            proof {
                assert(out@ =~= out0 + seq![v@[i as int]]);
                assert((out0 + seq![v@[i as int]]) + spec_stable_releases(v@.skip(i + 1)) =~= out0
                    + (seq![v@[i as int]] + spec_stable_releases(v@.skip(i + 1))));
            }
        }
        i = i + 1;
    }
    proof {
        assert(spec_stable_releases(v@.skip(n as int)) =~= Seq::<
            GhReleaseResponseElement,
        >::empty());
        assert(out@ + Seq::<GhReleaseResponseElement>::empty() =~= out@);
    }
    out
}

/// The version names of a release list, in order.
pub open spec fn spec_release_keys(rels: Seq<(String, Vec<Url>)>) -> Seq<String> {
    rels.map_values(|p: (String, Vec<Url>)| p.0)
}

/// The files of the first release entry named `key`.
pub open spec fn spec_release_files(rels: Seq<(String, Vec<Url>)>, key: Seq<char>) -> Option<
    Vec<Url>,
>
    decreases rels.len(),
{
    if rels.len() == 0 {
        None
    } else if rels[0].0@ == key {
        Some(rels[0].1)
    } else {
        spec_release_files(rels.skip(1), key)
    }
}

proof fn lemma_release_files_some(rels: Seq<(String, Vec<Url>)>, key: Seq<char>, i: int)
    requires
        0 <= i < rels.len(),
        rels[i].0@ == key,
    ensures
        spec_release_files(rels, key) is Some,
    decreases rels.len(),
{
    if rels.len() > 0 && rels[0].0@ != key {
        assert(rels.skip(1)[i - 1] == rels[i]);
        lemma_release_files_some(rels.skip(1), key, i - 1);
    }
}

/// Look up the files of the first release entry named `key`.
fn release_files<'a>(rels: &'a Vec<(String, Vec<Url>)>, key: &str) -> (r: Option<&'a Vec<Url>>)
    ensures
        match r {
            Some(f) => spec_release_files(rels@, key@) == Some(*f),
            None => spec_release_files(rels@, key@) is None,
        },
{
    let n = rels.len();
    let mut i: usize = 0;
    proof {
        assert(rels@.skip(0) =~= rels@);
    }
    while i < n
        invariant
            0 <= i <= n,
            n == rels@.len(),
            spec_release_files(rels@, key@) == spec_release_files(rels@.skip(i as int), key@),
        decreases n - i,
    {
        proof {
            let suf = rels@.skip(i as int);
            assert(suf[0] == rels@[i as int]);
            assert(suf.skip(1) =~= rels@.skip(i + 1));
        }
        if str_eq(rels[i].0.as_str(), key) {
            return Some(&rels[i].1);
        }
        i = i + 1;
    }
    proof {
        assert(rels@.skip(n as int).len() == 0);
    }
    None
}

/// The first distribution file in `files` whose package type marks a
/// source distribution.
pub open spec fn spec_first_sdist(files: Seq<Url>) -> Option<Url>
    decreases files.len(),
{
    if files.len() == 0 {
        None
    } else if files[0].packagetype@ == "sdist"@ {
        Some(files[0])
    } else {
        spec_first_sdist(files.skip(1))
    }
}

/// Copy one distribution file record.
fn clone_url(u: &Url) -> (r: Url)
    ensures
        r == *u,
{
    Url {
        digests: Digests { md5: u.digests.md5.clone(), sha256: u.digests.sha256.clone() },
        filename: u.filename.clone(),
        packagetype: u.packagetype.clone(),
        url: u.url.clone(),
    }
}

/// Find the source distribution among a version's files.
fn first_sdist(files: &Vec<Url>) -> (r: Option<Url>)
    ensures
        match r {
            Some(d) => spec_first_sdist(files@) == Some(d),
            None => spec_first_sdist(files@) is None,
        },
{
    let n = files.len();
    let mut i: usize = 0;
    proof {
        assert(files@.skip(0) =~= files@);
    }
    while i < n
        invariant
            0 <= i <= n,
            n == files@.len(),
            spec_first_sdist(files@) == spec_first_sdist(files@.skip(i as int)),
        decreases n - i,
    {
        proof {
            let suf = files@.skip(i as int);
            assert(suf[0] == files@[i as int]);
            assert(suf.skip(1) =~= files@.skip(i + 1));
        }
        if str_eq(files[i].packagetype.as_str(), "sdist") {
            return Some(clone_url(&files[i]));
        }
        i = i + 1;
    }
    proof {
        assert(files@.skip(n as int).len() == 0);
    }
    None
}

/// How filling from the package index ended: the project had no releases
/// at all (nothing is changed), the newest release had no source
/// distribution (metadata is filled, the fetcher and checksum stay), or
/// everything was filled.
#[derive(Debug, PartialEq, Eq, Structural, Clone, Copy)]
pub enum PypiOutcome {
    NoReleases,
    NoSdist,
    Filled,
}

/// Fill `info` from a package-index project record: pick the newest of the
/// released versions, set name, version, homepage, trimmed description and
/// normalized license from the record, and, when the newest release has a
/// source distribution, switch the fetcher to the package index and take
/// the distribution's checksum.
pub fn fill_pypi_info(pypi_repo: &PypiRepo, resp: &PypiResponse, info: &mut ExpressionInfo) -> (r:
    PypiOutcome)
    ensures
        r == PypiOutcome::NoReleases <==> resp.releases@.len() == 0,
        r == PypiOutcome::NoReleases ==> *final(info) == *old(info),
        r != PypiOutcome::NoReleases ==> {
            &&& final(info).pname == pypi_repo.project
            &&& final(info).homepage == resp.info.home_page
            &&& final(info).description@ == crate::strutil::trim_trailing_char_seq(
                resp.info.summary@,
                '.',
            )
            &&& final(info).license@ == crate::license::spec_pypi_license(resp.info.license@)
        },
        r != PypiOutcome::NoReleases ==> exists|latest: String|
            {
                &&& #[trigger] spec_release_keys(resp.releases@).to_multiset().count(latest) > 0
                &&& final(info).version == latest
                &&& (crate::version::all_numeric_list(spec_release_keys(resp.releases@))
                    ==> forall|j: int|
                    0 <= j < resp.releases@.len() ==> num_ge(latest@, resp.releases@[j].0@))
                &&& spec_release_files(resp.releases@, latest@) matches Some(files) && (match spec_first_sdist(
                    files@,
                ) {
                    Some(d) => r == PypiOutcome::Filled && final(info).fetcher
                        == crate::types::Fetcher::pypi && final(info).src_sha == d.digests.sha256,
                    None => r == PypiOutcome::NoSdist && final(info).fetcher == old(info).fetcher
                        && final(info).src_sha == old(info).src_sha,
                })
            },
        *final(info) == (ExpressionInfo {
            pname: final(info).pname,
            version: final(info).version,
            homepage: final(info).homepage,
            description: final(info).description,
            license: final(info).license,
            fetcher: final(info).fetcher,
            src_sha: final(info).src_sha,
            ..*old(info)
        }),
{
    let n = resp.releases.len();
    if n == 0 {
        return PypiOutcome::NoReleases;
    }
    let mut keys: Vec<String> = Vec::new();
    let mut i: usize = 0;
    while i < n
        invariant
            0 <= i <= n,
            n == resp.releases@.len(),
            keys@ == spec_release_keys(resp.releases@.take(i as int)),
        decreases n - i,
    {
        keys.push(resp.releases[i].0.clone());
        proof {
            assert(keys@ =~= spec_release_keys(resp.releases@.take(i + 1)));
        }
        i = i + 1;
    }
    proof {
        assert(resp.releases@.take(n as int) =~= resp.releases@);
    }
    let ghost all_keys = spec_release_keys(resp.releases@);
    let sorted = sort_versions_desc(keys);
    proof {
        sorted@.to_multiset_ensures();
        all_keys.to_multiset_ensures();
    }
    let latest: String = sorted[0].clone();
    let ghost latest_g = sorted@[0];
    proof {
        assert(sorted@.contains(latest_g));
        assert(all_keys.to_multiset().count(latest_g) > 0);
        assert(all_keys.contains(latest_g));
        let w = choose|w: int| 0 <= w < all_keys.len() && all_keys[w] == latest_g;
        assert(resp.releases@[w].0 == latest_g);
        lemma_release_files_some(resp.releases@, latest_g@, w);
    }
    let files = match release_files(&resp.releases, latest.as_str()) {
        Some(f) => f,
        None => {
            proof {
                assert(false);
            }
            return PypiOutcome::NoReleases;
        },
    };
    let sdist = first_sdist(files);
    info.pname = pypi_repo.project.clone();
    info.version = latest;
    info.homepage = resp.info.home_page.clone();
    info.description = crate::strutil::trim_trailing_char(resp.info.summary.as_str(), '.')
        .to_owned();
    info.license = crate::license::pypi_license_to_nixpkgs(resp.info.license.as_str());
    let outcome: PypiOutcome = match sdist {
        Some(d) => {
            info.fetcher = crate::types::Fetcher::pypi;
            info.src_sha = d.digests.sha256;
            PypiOutcome::Filled
        },
        None => PypiOutcome::NoSdist,
    };
    proof {
        if crate::version::all_numeric_list(all_keys) {
            assert forall|j: int| 0 <= j < resp.releases@.len() implies num_ge(
                latest_g@,
                resp.releases@[j].0@,
            ) by {
                assert(all_keys[j] == resp.releases@[j].0);
                assert(all_keys.contains(all_keys[j]));
                assert(all_keys.to_multiset().count(all_keys[j]) > 0);
                assert(sorted@.to_multiset().count(all_keys[j]) > 0);
                assert(sorted@.contains(all_keys[j]));
                let m = choose|m: int| 0 <= m < sorted@.len() && sorted@[m] == all_keys[j];
                if m == 0 {
                    crate::version::lemma_cmp_parts_refl(
                        crate::version::num_parts(latest_g@),
                        0,
                    );
                } else {
                    assert(num_ge(sorted@[0]@, sorted@[m]@));
                }
            }
        }
        assert(all_keys.to_multiset().count(latest_g) > 0);
    }
    outcome
}

} // verus!
