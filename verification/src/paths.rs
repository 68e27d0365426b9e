//! Which local paths the executing model may touch: the user's authorised
//! files and directories, resolved to canonical form.

use vstd::prelude::*;
use crate::text::{push_str, trim, views};

verus! {

broadcast use vstd::string::group_string_axioms;

// ---------------------------------------------------------------------------
// Path operations of `std::path`
// ---------------------------------------------------------------------------

/// Whether `Path::new(a) == Path::new(b)` (equal component by component).
pub uninterp spec fn path_eq(a: Seq<char>, b: Seq<char>) -> bool;

/// Whether `Path::new(p).starts_with(base)` (whole components).
pub uninterp spec fn path_has_prefix(p: Seq<char>, base: Seq<char>) -> bool;

/// `Path::new(p).file_name()`, when it is there.
pub uninterp spec fn path_file_name(p: Seq<char>) -> Option<Seq<char>>;

/// `Path::new(p).parent()`, when it is there.
pub uninterp spec fn path_parent(p: Seq<char>) -> Option<Seq<char>>;

/// `Path::new(base).join(name)`, as text.
pub uninterp spec fn path_join(base: Seq<char>, name: Seq<char>) -> Seq<char>;

/// `Path::eq`: the result is named `path_eq` of the two paths.
#[verifier::external_body]
pub(crate) fn paths_equal(a: &str, b: &str) -> (r: bool)
    ensures
        r == path_eq(a@, b@),
{
    std::path::Path::new(a) == std::path::Path::new(b)
}

/// `Path::starts_with`: the result is named `path_has_prefix` of the two
/// paths.
#[verifier::external_body]
pub(crate) fn path_starts_with(p: &str, base: &str) -> (r: bool)
    ensures
        r == path_has_prefix(p@, base@),
{
    std::path::Path::new(p).starts_with(base)
}

/// `Path::file_name`: the last component, named `path_file_name`.
#[verifier::external_body]
pub(crate) fn file_name_of(p: &str) -> (r: Option<String>)
    ensures
        r matches Some(s) ==> path_file_name(p@) == Some(s@),
        r is None ==> path_file_name(p@) is None,
{
    std::path::Path::new(p).file_name().map(|n| n.to_string_lossy().into_owned())
}

/// `Path::parent`: the path without its last component, named
/// `path_parent`.
#[verifier::external_body]
pub(crate) fn parent_of(p: &str) -> (r: Option<String>)
    ensures
        r matches Some(s) ==> path_parent(p@) == Some(s@),
        r is None ==> path_parent(p@) is None,
{
    std::path::Path::new(p).parent().map(|d| d.to_string_lossy().into_owned())
}

/// `Path::join`: `name` appended to `base`, named `path_join`.
#[verifier::external_body]
pub(crate) fn join_path(base: &str, name: &str) -> (r: String)
    ensures
        r@ == path_join(base@, name@),
{
    std::path::Path::new(base).join(name).to_string_lossy().into_owned()
}

// ---------------------------------------------------------------------------
// Skipped directories
// ---------------------------------------------------------------------------

/// Directories that searches do not enter.
pub open spec fn skipped_name(name: Seq<char>) -> bool {
    name == ".git"@ || name == "node_modules"@ || name == "target"@ || name == "dist"@
}

/// Whether a search skips `path`: its last component is `.git`,
/// `node_modules`, `target` or `dist`.
pub fn should_skip_dir(path: &str) -> (b: bool)
    ensures
        b == (path_file_name(path@) matches Some(n) && skipped_name(n)),
{
    match file_name_of(path) {
        Some(n) => {
            n == String::from_str(".git") || n == String::from_str("node_modules") || n
                == String::from_str("target") || n == String::from_str("dist")
        },
        None => false,
    }
}

// ---------------------------------------------------------------------------
// Authorised paths
// ---------------------------------------------------------------------------

/// An authorised path in canonical form, and whether it is a file.
#[derive(Clone, Debug)]
pub struct AllowedPath {
    pub path: String,
    pub is_file: bool,
}

/// `target` is an authorised file, or lies inside an authorised directory.
pub open spec fn allowed_by(target: Seq<char>, a: AllowedPath) -> bool {
    if a.is_file {
        path_eq(target, a.path@)
    } else {
        path_has_prefix(target, a.path@)
    }
}

/// `target` may be touched.
pub open spec fn path_allowed(target: Seq<char>, allowed: Seq<AllowedPath>) -> bool {
    exists|i: int| 0 <= i < allowed.len() && allowed_by(target, #[trigger] allowed[i])
}

/// Whether `target` is an authorised file or lies inside an authorised
/// directory.
pub fn is_path_allowed(target: &str, allowed: &[AllowedPath]) -> (b: bool)
    ensures
        b == path_allowed(target@, allowed@),
{
    let mut i: usize = 0;
    while i < allowed.len()
        invariant
            i <= allowed.len(),
            forall|j: int| 0 <= j < i ==> !allowed_by(target@, #[trigger] allowed@[j]),
        decreases allowed.len() - i,
    {
        let ok = if allowed[i].is_file {
            paths_equal(target, allowed[i].path.as_str())
        } else {
            path_starts_with(target, allowed[i].path.as_str())
        };
        if ok {
            assert(allowed_by(target@, allowed@[i as int]));
            return true;
        }
        i += 1;
    }
    false
}

/// The configured paths, trimmed, without the blank ones.
pub open spec fn path_inputs(paths: Seq<String>) -> Seq<Seq<char>>
    decreases paths.len(),
{
    if paths.len() == 0 {
        Seq::empty()
    } else if trim(paths.last()@).len() == 0 {
        path_inputs(paths.drop_last())
    } else {
        path_inputs(paths.drop_last()).push(trim(paths.last()@))
    }
}

/// The configured paths to resolve: each trimmed, blank ones left out.
pub fn allowed_path_inputs(paths: &[String]) -> (r: Vec<String>)
    ensures
        views(r@) == path_inputs(paths@),
{
    let mut r: Vec<String> = Vec::new();
    let mut i: usize = 0;
    while i < paths.len()
        invariant
            i <= paths.len(),
            views(r@) == path_inputs(paths@.take(i as int)),
        decreases paths.len() - i,
    {
        proof {
            assert(paths@.take(i + 1).drop_last() == paths@.take(i as int));
        }
        let t = crate::text::trim_str(paths[i].as_str());
        if !t.as_str().is_empty() {
            let ghost before = r@;
            r.push(t);
            assert(views(r@) == views(before).push(trim(paths@[i as int]@)));
        }
        i += 1;
    }
    assert(paths@.take(paths.len() as int) == paths@);
    r
}

/// The resolved authorised paths, or the first resolution error.
pub open spec fn first_error(results: Seq<Result<String, String>>) -> Option<int>
    decreases results.len(),
{
    if results.len() == 0 {
        None
    } else {
        match first_error(results.drop_last()) {
            Some(i) => Some(i),
            None => if results.last() is Err {
                Some(results.len() - 1)
            } else {
                None
            },
        }
    }
}

/// The resolved authorised paths: all of them when every one resolved, the
/// first error otherwise.
pub fn normalize_allowed_paths(results: &[Result<String, String>]) -> (r: Result<Vec<String>, String>)
    ensures
        match first_error(results@) {
            Some(i) => r matches Err(e) && results@[i] == Err::<String, String>(e),
            None => r matches Ok(v) && v@.len() == results@.len() && forall|k: int|
                0 <= k < v@.len() ==> results@[k] == Ok::<String, String>(#[trigger] v@[k]),
        },
{
    let mut out: Vec<String> = Vec::new();
    let mut k: usize = 0;
    while k < results.len()
        invariant
            k <= results.len(),
            first_error(results@.take(k as int)) is None,
            out@.len() == k,
            forall|j: int| 0 <= j < k ==> results@[j] == Ok::<String, String>(#[trigger] out@[j]),
        decreases results.len() - k,
    {
        proof {
            assert(results@.take(k + 1).drop_last() == results@.take(k as int));
        }
        match &results[k] {
            Ok(p) => {
                out.push(p.clone());
            },
            Err(e) => {
                proof {
                    lemma_first_error_prefix(results@, k as int, results@.len() as int);
                    assert(results@.take(results@.len() as int) == results@);
                }
                return Err(e.clone());
            },
        }
        k += 1;
    }
    assert(results@.take(results@.len() as int) == results@);
    Ok(out)
}

proof fn lemma_first_error_prefix(all: Seq<Result<String, String>>, k: int, n: int)
    requires
        0 <= k < n <= all.len(),
        first_error(all.take(k)) is None,
        all[k] is Err,
    ensures
        first_error(all.take(n)) == Some(k),
    decreases n - k,
{
    if n == k + 1 {
        assert(all.take(k + 1).drop_last() == all.take(k));
    } else {
        lemma_first_error_prefix(all, k, n - 1);
        assert(all.take(n).drop_last() == all.take(n - 1));
    }
}

/// Which path to resolve when normalising `path`: the path itself when it
/// exists, otherwise its parent, if it has one.
pub fn canonicalize_target(path: &str, exists: bool) -> (r: Option<String>)
    ensures
        exists ==> (r matches Some(s) && s@ == path@),
        !exists ==> (r matches Some(s) ==> path_parent(path@) == Some(s@)),
        !exists ==> (r is None <==> path_parent(path@) is None),
{
    if exists {
        Some(String::from_str(path))
    } else {
        parent_of(path)
    }
}

/// How `path` resolves to canonical form: the path itself, canonicalized,
/// when it exists; otherwise its canonicalized parent joined with its last
/// component. `exists` says whether the path exists and `canonical` is the
/// outcome of canonicalizing what `canonicalize_target` named (nothing when
/// it named nothing).
pub open spec fn normalized(path: Seq<char>, exists: bool, canonical: Option<Result<Seq<char>, Seq<char>>>) -> Result<
    Seq<char>,
    Seq<char>,
> {
    if exists {
        match canonical {
            Some(Ok(c)) => Ok(c),
            Some(Err(e)) => Err("解析路径失败 "@ + path + ": "@ + e),
            None => Err("路径无效: "@ + path),
        }
    } else {
        match path_parent(path) {
            None => Err("路径无效: "@ + path),
            Some(parent) => match canonical {
                Some(Ok(c)) => match path_file_name(path) {
                    Some(name) => Ok(path_join(c, name)),
                    None => Err("路径无效: "@ + path),
                },
                Some(Err(e)) => Err("解析父目录失败 "@ + parent + ": "@ + e),
                None => Err("路径无效: "@ + path),
            },
        }
    }
}

/// The views of a resolution outcome.
pub open spec fn outcome_view(o: Option<Result<String, String>>) -> Option<Result<Seq<char>, Seq<char>>> {
    match o {
        Some(Ok(c)) => Some(Ok(c@)),
        Some(Err(e)) => Some(Err(e@)),
        None => None,
    }
}

/// The views of a result.
pub open spec fn result_view(r: Result<String, String>) -> Result<Seq<char>, Seq<char>> {
    match r {
        Ok(s) => Ok(s@),
        Err(e) => Err(e@),
    }
}

/// Resolves `path` to canonical form from what the file system said.
pub fn normalize_path(path: &str, exists: bool, canonical: Option<Result<String, String>>) -> (r: Result<
    String,
    String,
>)
    ensures
        result_view(r) == normalized(path@, exists, outcome_view(canonical)),
{
    let invalid = {
        let mut e = String::from_str("路径无效: ");
        push_str(&mut e, path);
        e
    };
    if exists {
        match canonical {
            Some(Ok(c)) => Ok(c),
            Some(Err(err)) => {
                let mut e = String::from_str("解析路径失败 ");
                push_str(&mut e, path);
                push_str(&mut e, ": ");
                push_str(&mut e, err.as_str());
                Err(e)
            },
            None => Err(invalid),
        }
    } else {
        match parent_of(path) {
            None => Err(invalid),
            Some(parent) => match canonical {
                Some(Ok(c)) => match file_name_of(path) {
                    Some(name) => Ok(join_path(c.as_str(), name.as_str())),
                    None => Err(invalid),
                },
                Some(Err(err)) => {
                    let mut e = String::from_str("解析父目录失败 ");
                    push_str(&mut e, parent.as_str());
                    push_str(&mut e, ": ");
                    push_str(&mut e, err.as_str());
                    Err(e)
                },
                None => Err(invalid),
            },
        }
    }
}

/// A resolved path that must be authorised and exist.
pub open spec fn checked_existing(normalized: Result<Seq<char>, Seq<char>>, exists: bool, allowed: Seq<AllowedPath>) -> Result<
    Seq<char>,
    Seq<char>,
> {
    match normalized {
        Err(e) => Err(e),
        Ok(p) => if !path_allowed(p, allowed) {
            Err("未授权路径: "@ + p)
        } else if !exists {
            Err("路径不存在: "@ + p)
        } else {
            Ok(p)
        },
    }
}

/// A resolved path that must be authorised.
pub open spec fn checked_target(normalized: Result<Seq<char>, Seq<char>>, allowed: Seq<AllowedPath>) -> Result<
    Seq<char>,
    Seq<char>,
> {
    match normalized {
        Err(e) => Err(e),
        Ok(p) => if !path_allowed(p, allowed) {
            Err("未授权路径: "@ + p)
        } else {
            Ok(p)
        },
    }
}

/// The resolved path if it is authorised and exists (`exists` says whether
/// it does), else the reason it is refused.
pub fn checked_existing_path(normalized: Result<String, String>, exists: bool, allowed: &[AllowedPath]) -> (r:
    Result<String, String>)
    ensures
        result_view(r) == checked_existing(result_view(normalized), exists, allowed@),
{
    match normalized {
        Err(e) => Err(e),
        Ok(p) => {
            if !is_path_allowed(p.as_str(), allowed) {
                let mut e = String::from_str("未授权路径: ");
                push_str(&mut e, p.as_str());
                Err(e)
            } else if !exists {
                let mut e = String::from_str("路径不存在: ");
                push_str(&mut e, p.as_str());
                Err(e)
            } else {
                Ok(p)
            }
        },
    }
}

/// The resolved path if it is authorised, else the reason it is refused.
pub fn checked_target_path(normalized: Result<String, String>, allowed: &[AllowedPath]) -> (r: Result<
    String,
    String,
>)
    ensures
        result_view(r) == checked_target(result_view(normalized), allowed@),
{
    match normalized {
        Err(e) => Err(e),
        Ok(p) => {
            if !is_path_allowed(p.as_str(), allowed) {
                let mut e = String::from_str("未授权路径: ");
                push_str(&mut e, p.as_str());
                Err(e)
            } else {
                Ok(p)
            }
        },
    }
}

} // verus!
