//! Discovery of the environment file: building the prioritized candidate
//! list, selecting the first candidate that exists, and loading the chosen
//! file's bindings into the environment additively.
//!
//! Filesystem access itself is the caller's concern: the caller reports which
//! candidates exist and hands over the chosen file's contents, and every
//! decision taken on those reports is verified here.

use vstd::prelude::*;
use vstd::string::*;
use crate::text::{concat3, parent_dir, parent_dir_spec, str_eq};
use crate::envfile::{
    first_bad_line, lines_entries, lines_ok, parse_env_content, split_lines_spec,
};
use crate::envmap::{merge_entries, EnvMap};

verus! {

/// View of an optional owned string.
pub open spec fn view_opt(o: Option<String>) -> Option<Seq<char>> {
    match o {
        Some(s) => Some(s@),
        None => None,
    }
}

/// The two candidate files under a root directory: `config/.env` first,
/// `.env` second.
pub open spec fn candidates_under(root: Seq<char>) -> Seq<Seq<char>> {
    seq![root + "/"@ + "config/.env"@, root + "/"@ + ".env"@]
}

pub open spec fn opt_root_candidates(root: Option<Seq<char>>) -> Seq<Seq<char>> {
    match root {
        Some(r) => candidates_under(r),
        None => Seq::empty(),
    }
}

pub open spec fn opt_parent(root: Option<Seq<char>>) -> Option<Seq<char>> {
    match root {
        Some(r) => parent_dir_spec(r),
        None => None,
    }
}

pub open spec fn opt_single(o: Option<Seq<char>>) -> Seq<Seq<char>> {
    match o {
        Some(p) => seq![p],
        None => Seq::empty(),
    }
}

/// The full ordered candidate list: explicit override, override taken from
/// the designated environment variable, then `config/.env` and `.env` under
/// the working directory, the executable's directory, its parent and its
/// grandparent. A root that cannot be determined contributes no candidates.
pub open spec fn candidate_paths(
    explicit: Option<Seq<char>>,
    env_override: Option<Seq<char>>,
    cwd: Option<Seq<char>>,
    exe_dir: Option<Seq<char>>,
) -> Seq<Seq<char>> {
    opt_single(explicit) + opt_single(env_override) + opt_root_candidates(cwd)
        + opt_root_candidates(exe_dir) + opt_root_candidates(opt_parent(exe_dir))
        + opt_root_candidates(opt_parent(opt_parent(exe_dir)))
}

/// Appends `config/.env` and `.env` under `root` to the candidate vector.
fn push_candidates_under(v: &mut Vec<String>, root: &str)
    ensures
        final(v).deep_view() == old(v).deep_view() + candidates_under(root@),
{
    let c1 = concat3(root, "/", "config/.env");
    let c2 = concat3(root, "/", ".env");
    let ghost pre = v.deep_view();
    v.push(c1);
    v.push(c2);
    proof {
        assert(v.deep_view() =~= pre + candidates_under(root@));
    }
}

/// Builds the prioritized candidate list from the optional explicit override,
/// the optional override read from the environment, and the optional working
/// and executable directories.
pub fn build_candidates(
    explicit: Option<String>,
    env_override: Option<String>,
    cwd: Option<String>,
    exe_dir: Option<String>,
) -> (r: Vec<String>)
    ensures
        r.deep_view() == candidate_paths(
            view_opt(explicit),
            view_opt(env_override),
            view_opt(cwd),
            view_opt(exe_dir),
        ),
{
    let ghost ex = view_opt(explicit);
    let ghost ev = view_opt(env_override);
    let ghost cw = view_opt(cwd);
    let ghost xd = view_opt(exe_dir);
    let mut v: Vec<String> = Vec::new();
    match explicit {
        Some(p) => {
            v.push(p);
        },
        None => {},
    }
    proof {
        assert(v.deep_view() =~= opt_single(ex));
    }
    match env_override {
        Some(p) => {
            v.push(p);
        },
        None => {},
    }
    proof {
        assert(v.deep_view() =~= opt_single(ex) + opt_single(ev));
    }
    match cwd {
        Some(root) => {
            push_candidates_under(&mut v, root.as_str());
        },
        None => {},
    }
    proof {
        assert(v.deep_view() =~= opt_single(ex) + opt_single(ev) + opt_root_candidates(cw));
    }
    match exe_dir {
        Some(root) => {
            push_candidates_under(&mut v, root.as_str());
            match parent_dir(root.as_str()) {
                Some(par) => {
                    push_candidates_under(&mut v, par.as_str());
                    match parent_dir(par.as_str()) {
                        Some(gp) => {
                            push_candidates_under(&mut v, gp.as_str());
                        },
                        None => {},
                    }
                },
                None => {},
            }
        },
        None => {},
    }
    proof {
        assert(v.deep_view() =~= candidate_paths(ex, ev, cw, xd));
    }
    v
}

/// The index of the first `true` in `s`, or `-1` if there is none.
pub open spec fn first_true(s: Seq<bool>) -> int
    decreases s.len(),
{
    if s.len() == 0 {
        -1
    } else if s[0] {
        0
    } else {
        let r = first_true(s.drop_first());
        if r < 0 {
            -1
        } else {
            1 + r
        }
    }
}

pub proof fn lemma_first_true_at(s: Seq<bool>, k: int)
    requires
        0 <= k < s.len(),
        s[k],
        forall|j: int| 0 <= j < k ==> !s[j],
    ensures
        first_true(s) == k,
    decreases s.len(),
{
    if k > 0 {
        assert(forall|j: int| 0 <= j < k - 1 ==> !s.drop_first()[j]);
        lemma_first_true_at(s.drop_first(), k - 1);
    }
}

pub proof fn lemma_first_true_none(s: Seq<bool>)
    requires
        forall|j: int| 0 <= j < s.len() ==> !s[j],
    ensures
        first_true(s) == -1,
    decreases s.len(),
{
    if s.len() > 0 {
        lemma_first_true_none(s.drop_first());
    }
}

pub proof fn lemma_first_true_props(s: Seq<bool>)
    ensures
        -1 <= first_true(s) < s.len(),
        first_true(s) >= 0 ==> s[first_true(s)],
        forall|j: int| 0 <= j < first_true(s) ==> !s[j],
        first_true(s) == -1 ==> forall|j: int| 0 <= j < s.len() ==> !s[j],
    decreases s.len(),
{
    if s.len() > 0 && !s[0] {
        lemma_first_true_props(s.drop_first());
        assert forall|j: int| 0 <= j < first_true(s) implies !s[j] by {
            if j > 0 {
                assert(!s.drop_first()[j - 1]);
            }
        }
        if first_true(s) == -1 {
            assert forall|j: int| 0 <= j < s.len() implies !s[j] by {
                if j > 0 {
                    assert(!s.drop_first()[j - 1]);
                }
            }
        }
    }
}

/// Law: where exactly one candidate exists, it is the one selected, whatever
/// its position in the list.
pub proof fn lemma_sole_existing_is_selected(s: Seq<bool>, k: int)
    requires
        0 <= k < s.len(),
        s[k],
        forall|j: int| 0 <= j < s.len() && j != k ==> !s[j],
    ensures
        first_true(s) == k,
{
    lemma_first_true_at(s, k);
}

/// Law: where several candidates exist, the selected one is the earliest:
/// no existing candidate precedes it.
pub proof fn lemma_earliest_existing_is_selected(s: Seq<bool>, k: int)
    requires
        0 <= k < s.len(),
        s[k],
    ensures
        0 <= first_true(s) <= k,
        s[first_true(s)],
{
    lemma_first_true_props(s);
}

/// The index of the first existing candidate, given one existence report per
/// candidate.
pub fn first_existing(exists: &Vec<bool>) -> (r: Option<usize>)
    ensures
        r matches Some(i) ==> i == first_true(exists@),
        r is None ==> first_true(exists@) == -1,
{
    let n = exists.len();
    let mut i: usize = 0;
    while i < n
        invariant
            n == exists@.len(),
            i <= n,
            forall|j: int| 0 <= j < i ==> !exists@[j],
        decreases n - i,
    {
        if exists[i] {
            proof {
                lemma_first_true_at(exists@, i as int);
            }
            return Some(i);
        }
        i += 1;
    }
    proof {
        lemma_first_true_none(exists@);
    }
    None
}

/// Why no environment file could be loaded.
#[derive(Debug)]
pub enum DiscoveryError {
    /// No candidate file exists; carries the full ordered candidate list
    /// that was tried.
    NotFound { tried: Vec<String> },
    /// The chosen file exists but its contents do not parse; carries the
    /// chosen path and the index of the offending line.
    LoadFailed { path: String, line: usize },
}

/// A fresh copy of a path list.
fn clone_paths(v: &Vec<String>) -> (r: Vec<String>)
    ensures
        r@ == v@,
{
    let mut r: Vec<String> = Vec::new();
    let n = v.len();
    let mut i: usize = 0;
    while i < n
        invariant
            n == v@.len(),
            i <= n,
            r@ == v@.take(i as int),
        decreases n - i,
    {
        r.push(v[i].clone());
        proof {
            assert(v@.take(i + 1) =~= v@.take(i as int).push(v@[i as int]));
        }
        i += 1;
    }
    proof {
        assert(v@.take(n as int) =~= v@);
    }
    r
}

/// Scans the candidate list in priority order and loads the first candidate
/// that exists into `env`, additively. The caller reports, for each
/// candidate, whether it exists (`exists`), and hands over the contents of
/// the first existing candidate (`contents`).
///
/// Returns the chosen path; or a `NotFound` error carrying every candidate
/// tried, where none exists; or a `LoadFailed` error carrying the chosen
/// path and offending line, where the contents do not parse. The environment
/// is changed only on success.
pub fn load_env_robust(
    env: &mut EnvMap,
    candidates: &Vec<String>,
    exists: &Vec<bool>,
    contents: &Option<String>,
) -> (r: Result<String, DiscoveryError>)
    requires
        exists@.len() == candidates@.len(),
        (contents is Some) <==> first_true(exists@) >= 0,
    ensures
        first_true(exists@) < 0 ==> (final(env)@ == old(env)@ && (r matches Err(
            DiscoveryError::NotFound { tried },
        ) && tried@ == candidates@)),
        (first_true(exists@) >= 0 && lines_ok(split_lines_spec(contents.unwrap()@))) ==> (r
            matches Ok(p) && p@ == candidates@[first_true(exists@)]@ && final(env)@
            == merge_entries(
            old(env)@,
            lines_entries(split_lines_spec(contents.unwrap()@)),
        )),
        (first_true(exists@) >= 0 && !lines_ok(split_lines_spec(contents.unwrap()@))) ==> (
        final(env)@ == old(env)@ && (r matches Err(DiscoveryError::LoadFailed { path, line })
            && path@ == candidates@[first_true(exists@)]@ && line == first_bad_line(
            split_lines_spec(contents.unwrap()@),
        ))),
{
    match first_existing(exists) {
        None => Err(DiscoveryError::NotFound { tried: clone_paths(candidates) }),
        Some(i) => {
            proof {
                lemma_first_true_props(exists@);
            }
            let text = match contents {
                Some(c) => c,
                None => {
                    proof {
                        assert(false);
                    }
                    return Err(DiscoveryError::NotFound { tried: Vec::new() });
                },
            };
            match parse_env_content(text.as_str()) {
                Ok(entries) => {
                    env.merge_additive(&entries);
                    Ok(candidates[i].clone())
                },
                Err(line) => Err(
                    DiscoveryError::LoadFailed { path: candidates[i].clone(), line },
                ),
            }
        },
    }
}

/// Whether a file name is exactly `.env`.
pub fn is_dotenv_name(name: &str) -> (r: bool)
    ensures
        r == (name@ == ".env"@),
{
    str_eq(name, ".env")
}

} // verus!
