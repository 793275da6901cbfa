//! Path resolution: where a generated expression is written inside a
//! nixpkgs-style tree, and which path the central index file should
//! reference. Paths are plain strings with `/` separators.

use crate::strutil::{match_at, occurs_at, str_eq};
use crate::types::{Template, TemplateError};
use vstd::prelude::*;
use vstd::string::StrSliceExecFns;
use vstd::string::StringExecFns;

verus! {

/// `s` with every trailing slash removed.
pub open spec fn trim_trailing_slashes(s: Seq<char>) -> Seq<char>
    decreases s.len(),
{
    if s.len() > 0 && s.last() == '/' {
        trim_trailing_slashes(s.drop_last())
    } else {
        s
    }
}

/// Index right after the last slash of `s`; 0 when `s` holds none.
pub open spec fn after_last_slash(s: Seq<char>) -> int
    decreases s.len(),
{
    if s.len() == 0 {
        0
    } else if s.last() == '/' {
        s.len() as int
    } else {
        after_last_slash(s.drop_last())
    }
}

/// The final path component of `s`, ignoring trailing slashes.
pub open spec fn last_component(s: Seq<char>) -> Seq<char> {
    let t = trim_trailing_slashes(s);
    t.skip(after_last_slash(t))
}

/// The final path component of `s`.
fn last_component_str<'a>(s: &'a str) -> (r: &'a str)
    ensures
        r@ == last_component(s@),
{
    let slen = s.unicode_len();
    let mut e: usize = slen;
    proof {
        assert(s@.take(slen as int) =~= s@);
    }
    while e > 0 && s.get_char(e - 1) == '/'
        invariant
            0 <= e <= slen,
            slen == s@.len(),
            trim_trailing_slashes(s@) == trim_trailing_slashes(s@.take(e as int)),
        decreases e,
    {
        proof {
            let t = s@.take(e as int);
            assert(t.last() == s@[e - 1]);
            assert(t.drop_last() =~= s@.take(e - 1));
        }
        e = e - 1;
    }
    proof {
        let t = s@.take(e as int);
        if e > 0 {
            assert(t.last() == s@[e - 1]);
        }
        assert(trim_trailing_slashes(t) == t);
    }
    let mut b: usize = e;
    while b > 0 && s.get_char(b - 1) != '/'
        invariant
            0 <= b <= e <= slen,
            slen == s@.len(),
            after_last_slash(s@.take(e as int)) == after_last_slash(s@.take(b as int)),
            forall|k: int| b <= k < e ==> s@[k] != '/',
        decreases b,
    {
        proof {
            let t = s@.take(b as int);
            assert(t.last() == s@[b - 1]);
            assert(t.drop_last() =~= s@.take(b - 1));
        }
        b = b - 1;
    }
    proof {
        let t = s@.take(b as int);
        if b > 0 {
            assert(t.last() == s@[b - 1]);
            assert(after_last_slash(t) == b);
        } else {
            assert(t.len() == 0);
        }
        assert(s@.take(e as int).skip(b as int) =~= s@.subrange(b as int, e as int));
    }
    s.substring_char(b, e)
}

/// Does the final path component of `s` equal `name`?
fn ends_with_component(s: &str, name: &str) -> (r: bool)
    ensures
        r == (last_component(s@) == name@),
{
    str_eq(last_component_str(s), name)
}

/// Does `s` name a `.nix` file: is there a final component of at least five
/// characters ending in `.nix`?
pub open spec fn spec_has_nix_ext(s: Seq<char>) -> bool {
    let c = last_component(s);
    &&& c.len() >= 5
    &&& c[c.len() - 4] == '.'
    &&& c[c.len() - 3] == 'n'
    &&& c[c.len() - 2] == 'i'
    &&& c[c.len() - 1] == 'x'
}

/// Decide `spec_has_nix_ext`.
fn has_nix_ext(s: &str) -> (r: bool)
    ensures
        r == spec_has_nix_ext(s@),
{
    let c = last_component_str(s);
    let l = c.unicode_len();
    l >= 5 && c.get_char(l - 4) == '.' && c.get_char(l - 3) == 'n' && c.get_char(l - 2) == 'i'
        && c.get_char(l - 1) == 'x'
}

/// Join a path and a further component the way paths are pushed: an
/// absolute right side replaces the left side, an empty left side
/// disappears, and exactly one slash separates the two parts.
pub open spec fn spec_join_path(a: Seq<char>, b: Seq<char>) -> Seq<char> {
    if b.len() > 0 && b[0] == '/' {
        b
    } else if a.len() == 0 {
        b
    } else if a.last() == '/' {
        a + b
    } else {
        a + seq!['/'] + b
    }
}

/// Join a path and a further component.
pub fn join_path(a: &str, b: &str) -> (r: String)
    ensures
        r@ == spec_join_path(a@, b@),
{
    let alen = a.unicode_len();
    let blen = b.unicode_len();
    if blen > 0 && b.get_char(0) == '/' {
        b.to_owned()
    } else if alen == 0 {
        b.to_owned()
    } else if a.get_char(alen - 1) == '/' {
        let mut r = a.to_owned();
        r.append(b);
        r
    } else {
        let mut r = a.to_owned();
        r.append("/");
        r.append(b);
        proof {
            reveal_strlit("/");
            assert("/"@ =~= seq!['/']);
        }
        r
    }
}

/// `s` with the leading path component `p` removed: `p` alone becomes
/// empty, `p/rest` becomes `rest`, anything else is unchanged.
pub open spec fn spec_strip_component_prefix(s: Seq<char>, p: Seq<char>) -> Seq<char> {
    if s == p {
        Seq::empty()
    } else if p.len() + 1 <= s.len() && s.subrange(0, p.len() as int) == p && s[p.len() as int]
        == '/' {
        s.skip(p.len() + 1 as int)
    } else {
        s
    }
}

/// Remove the leading path component `p` from `s`.
fn strip_component_prefix<'a>(s: &'a str, p: &str) -> (r: &'a str)
    ensures
        r@ == spec_strip_component_prefix(s@, p@),
{
    let slen = s.unicode_len();
    let plen = p.unicode_len();
    if str_eq(s, p) {
        let r = s.substring_char(0, 0);
        proof {
            assert(r@ =~= Seq::<char>::empty());
        }
        return r;
    }
    if slen > plen && match_at(s, 0, p) && s.get_char(plen) == '/' {
        proof {
            assert(s@.subrange(0, plen as int) == p@);
        }
        s.substring_char(plen + 1, slen)
    } else {
        proof {
            if p@.len() + 1 <= s@.len() && s@.subrange(0, p@.len() as int) == p@ && s@[p@.len() as int] == '/' {
                assert(occurs_at(s@, p@, 0));
            }
        }
        s
    }
}

/// `s` with one leading slash removed.
pub open spec fn spec_strip_leading_slash(s: Seq<char>) -> Seq<char> {
    if s.len() > 0 && s[0] == '/' {
        s.skip(1)
    } else {
        s
    }
}

/// Remove one leading slash from `s`.
fn strip_leading_slash<'a>(s: &'a str) -> (r: &'a str)
    ensures
        r@ == spec_strip_leading_slash(s@),
{
    let slen = s.unicode_len();
    if slen > 0 && s.get_char(0) == '/' {
        s.substring_char(1, slen)
    } else {
        s
    }
}

/// The outcome of path resolution: the file path to write, the path to
/// register in the central index (empty outside the nixpkgs mode), and
/// whether the write path still names a `.nix` file that could turn out to
/// be a directory on disk, in which case the caller appends the default
/// filename with `append_default_filename` after probing.
#[derive(Debug)]
pub struct ResolvedPaths {
    pub write_path: String,
    pub index_path: String,
    pub needs_dir_probe: bool,
}

/// Where resolution puts the write path, the index path, and whether the
/// single directory-vs-file probe is still owed.
pub open spec fn spec_nix_file_paths(
    template: Template,
    path: Seq<char>,
    path_given: bool,
    pname: Seq<char>,
    root: Seq<char>,
    in_nixpkgs: bool,
) -> Result<(Seq<char>, Seq<char>, bool), TemplateError> {
    if !in_nixpkgs {
        Ok((path, Seq::empty(), false))
    } else if !path_given && template == Template::test {
        Ok(("nixos/tests/"@ + pname + ".nix"@, "./"@ + pname + ".nix"@, false))
    } else if !path_given && template == Template::module {
        Err(TemplateError::MissingPath)
    } else if template == Template::module {
        let stripped = spec_strip_component_prefix(
            spec_strip_leading_slash(spec_strip_component_prefix(path, "."@)),
            "nixos/modules"@,
        );
        Ok(
            (
                spec_join_path(
                    spec_join_path(spec_join_path(root, "nixos"@), "modules"@),
                    stripped,
                ),
                spec_join_path("./"@, stripped),
                false,
            ),
        )
    } else {
        let radix0 = if !path_given {
            if template == Template::python {
                "development/python-modules/"@
            } else {
                "applications/misc"@
            }
        } else {
            spec_strip_component_prefix(path, "pkgs"@)
        };
        let radix = if last_component(radix0) == pname || spec_has_nix_ext(radix0) {
            radix0
        } else {
            spec_join_path(radix0, pname)
        };
        let index = spec_join_path(".."@, radix);
        let write = spec_join_path(spec_join_path(root, "pkgs"@), radix);
        if spec_has_nix_ext(write) {
            Ok((write, index, true))
        } else {
            Ok((spec_join_path(write, "default.nix"@), index, false))
        }
    }
}

/// Resolve where the generated file is written and which path the central
/// index references, from the template kind, the user-supplied path (with
/// whether one was given at all), the package name, the tree root, and
/// whether the nixpkgs mode is active. The one filesystem question
/// resolution depends on, whether an existing directory sits at the write
/// path, is left to the caller through `needs_dir_probe`.
pub fn nix_file_paths(
    template: &Template,
    path: &str,
    path_given: bool,
    pname: &str,
    nixpkgs_root: &str,
    in_nixpkgs: bool,
) -> (r: Result<ResolvedPaths, TemplateError>)
    ensures
        match r {
            Ok(rp) => {
                &&& spec_nix_file_paths(*template, path@, path_given, pname@, nixpkgs_root@, in_nixpkgs)
                    matches Ok(t)
                &&& rp.write_path@ == t.0
                &&& rp.index_path@ == t.1
                &&& rp.needs_dir_probe == t.2
            },
            Err(e) => spec_nix_file_paths(
                *template,
                path@,
                path_given,
                pname@,
                nixpkgs_root@,
                in_nixpkgs,
            ) == Err::<(Seq<char>, Seq<char>, bool), TemplateError>(e),
        },
{
    if !in_nixpkgs {
        proof {
            reveal_strlit("");
            assert(""@ =~= Seq::<char>::empty());
        }
        return Ok(
            ResolvedPaths {
                write_path: path.to_owned(),
                index_path: "".to_owned(),
                needs_dir_probe: false,
            },
        );
    }
    if !path_given && *template == Template::test {
        let mut write = "nixos/tests/".to_owned();
        write.append(pname);
        write.append(".nix");
        let mut index = "./".to_owned();
        index.append(pname);
        index.append(".nix");
        return Ok(ResolvedPaths { write_path: write, index_path: index, needs_dir_probe: false });
    }
    if !path_given && *template == Template::module {
        return Err(TemplateError::MissingPath);
    }
    if *template == Template::module {
        let stripped = strip_component_prefix(
            strip_leading_slash(strip_component_prefix(path, ".")),
            "nixos/modules",
        );
        let write = join_path(join_path(join_path(nixpkgs_root, "nixos").as_str(), "modules").as_str(), stripped);
        let index = join_path("./", stripped);
        return Ok(ResolvedPaths { write_path: write, index_path: index, needs_dir_probe: false });
    }
    let radix: String = if !path_given {
        if *template == Template::python {
            "development/python-modules/".to_owned()
        } else {
            "applications/misc".to_owned()
        }
    } else {
        strip_component_prefix(path, "pkgs").to_owned()
    };
    let radix: String = if ends_with_component(radix.as_str(), pname) || has_nix_ext(
        radix.as_str(),
    ) {
        radix
    } else {
        join_path(radix.as_str(), pname)
    };
    let index = join_path("..", radix.as_str());
    let write = join_path(join_path(nixpkgs_root, "pkgs").as_str(), radix.as_str());
    if has_nix_ext(write.as_str()) {
        Ok(ResolvedPaths { write_path: write, index_path: index, needs_dir_probe: true })
    } else {
        Ok(
            ResolvedPaths {
                write_path: join_path(write.as_str(), "default.nix"),
                index_path: index,
                needs_dir_probe: false,
            },
        )
    }
}

/// Resolve the conventional default filename against a write path that
/// turned out to name a directory on disk.
pub fn append_default_filename(path: &str) -> (r: String)
    ensures
        r@ == spec_join_path(path@, "default.nix"@),
{
    join_path(path, "default.nix")
}

} // verus!
