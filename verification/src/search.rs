//! What a search shows: the hits of a text or name search that the policy lets a reader
//! see, as paths of the mount.
use vstd::prelude::*;

use crate::errors::ApiError;
use crate::fsops::{FindResult, GrepHit, GrepMatch};
use crate::mount::{Mount, PolicyModel};
use crate::path::{relative_path_result, MountPath, RelativePath};
use crate::policy::{
    cache_after_compile, check_read_path, compiled_policy, lemma_read_outcome_ok, read_allowed,
    PolicyEngine,
};
use crate::text::opt_text;

verus! {

/// A line found by a text search, with where its path canonicalises on disk (`None` when
/// it does not resolve).
#[derive(Debug)]
pub struct GrepCandidate {
    pub hit: GrepHit,
    pub canonical: Option<String>,
}

/// What the daemon read of a path's metadata. Times are nanoseconds since the Unix epoch.
#[derive(Debug)]
pub struct EntryMeta {
    pub is_file: bool,
    pub len: u64,
    pub modified_at: i128,
}

/// A path found by a name search (relative to the mount root), with where it canonicalises
/// on disk and what reading its metadata gave (the message of the I/O error when it
/// failed).
#[derive(Debug)]
pub struct FindCandidate {
    pub relative_path: String,
    pub canonical: Option<String>,
    pub meta: Result<EntryMeta, String>,
}

/// Whether `policy` lets a reader see the path `relative` (as found by a search) under the
/// canonical root `root`, given where it canonicalises.
pub open spec fn search_visible(
    p: PolicyModel,
    root: Seq<char>,
    relative: Seq<char>,
    canonical: Option<String>,
) -> bool {
    read_allowed(p, relative, root, opt_text(canonical), None)
}

/// The text-search hits a reader sees, in order; `None` when a hit's path is not a valid
/// relative path, which stops the search.
pub open spec fn grep_outcome(p: PolicyModel, root: Seq<char>, cs: Seq<GrepCandidate>) -> Option<
    Seq<GrepCandidate>,
>
    decreases cs.len(),
{
    if cs.len() == 0 {
        Some(Seq::empty())
    } else {
        match grep_outcome(p, root, cs.drop_last()) {
            None => None,
            Some(shown) => {
                let c = cs.last();
                match relative_path_result(c.hit.relative_path@) {
                    None => None,
                    Some(rel) => if search_visible(p, root, rel, c.canonical) {
                        Some(shown.push(c))
                    } else {
                        Some(shown)
                    },
                }
            },
        }
    }
}

/// The name-search hits a reader sees, in order; `Err(None)` when a hit's path is not a
/// valid relative path, `Err(Some(m))` when the metadata of a visible hit could not be read
/// (with the reason). The first such hit stops the search.
pub open spec fn find_outcome(p: PolicyModel, root: Seq<char>, cs: Seq<FindCandidate>) -> Result<
    Seq<FindCandidate>,
    Option<Seq<char>>,
>
    decreases cs.len(),
{
    if cs.len() == 0 {
        Ok(Seq::empty())
    } else {
        match find_outcome(p, root, cs.drop_last()) {
            Err(e) => Err(e),
            Ok(shown) => {
                let c = cs.last();
                match relative_path_result(c.relative_path@) {
                    None => Err(None),
                    Some(rel) => if !search_visible(p, root, rel, c.canonical) {
                        Ok(shown)
                    } else {
                        match c.meta {
                            Err(m) => Err(Some(m@)),
                            Ok(_) => Ok(shown.push(c)),
                        }
                    },
                }
            },
        }
    }
}

/// What a match shows: its mount path, line number and line.
pub open spec fn grep_match_view(m: GrepMatch) -> ((Seq<char>, Seq<char>), u64, Seq<char>) {
    (m.path@, m.line, m.content@)
}

/// The match a visible text-search hit becomes in mount `mount`: the hit's path normalised.
pub open spec fn grep_candidate_view(mount: Seq<char>, c: GrepCandidate) -> (
    (Seq<char>, Seq<char>),
    u64,
    Seq<char>,
) {
    ((mount, relative_path_result(c.hit.relative_path@)->Some_0), c.hit.line, c.hit.content@)
}

/// What a found path shows: its mount path, size and modification time.
pub open spec fn find_result_view(f: FindResult) -> ((Seq<char>, Seq<char>), Option<u64>, i128) {
    (f.path@, f.size, f.modified_at)
}

/// The result a visible name-search hit becomes in mount `mount`: its normalised path, the
/// length of a regular file, and the modification time.
pub open spec fn find_candidate_view(mount: Seq<char>, c: FindCandidate) -> (
    (Seq<char>, Seq<char>),
    Option<u64>,
    i128,
) {
    let m = c.meta->Ok_0;
    (
        (mount, relative_path_result(c.relative_path@)->Some_0),
        if m.is_file {
            Some(m.len)
        } else {
            None
        },
        m.modified_at,
    )
}

/// Once a prefix of the hits stops a text search, the whole search stops the same way.
pub proof fn lemma_grep_stop_persists(p: PolicyModel, root: Seq<char>, cs: Seq<GrepCandidate>, k: int)
    requires
        0 <= k <= cs.len(),
        grep_outcome(p, root, cs.take(k)) is None,
    ensures
        grep_outcome(p, root, cs) is None,
    decreases cs.len() - k,
{
    if k == cs.len() {
        assert(cs.take(k) =~= cs);
    } else {
        assert(cs.take(k + 1).drop_last() =~= cs.take(k));
        lemma_grep_stop_persists(p, root, cs, k + 1);
    }
}

/// Once a prefix of the hits stops a name search, the whole search stops the same way.
pub proof fn lemma_find_stop_persists(p: PolicyModel, root: Seq<char>, cs: Seq<FindCandidate>, k: int)
    requires
        0 <= k <= cs.len(),
        find_outcome(p, root, cs.take(k)) is Err,
    ensures
        find_outcome(p, root, cs) == find_outcome(p, root, cs.take(k)),
    decreases cs.len() - k,
{
    if k == cs.len() {
        assert(cs.take(k) =~= cs);
    } else {
        assert(cs.take(k + 1).drop_last() =~= cs.take(k));
        lemma_find_stop_persists(p, root, cs, k + 1);
    }
}

/// Every hit a text search shows is one of its candidates, and its path is a valid relative
/// path that the policy lets a reader read (hide, deny-read, bounds and symlink rules
/// together).
pub proof fn lemma_grep_shown_readable(p: PolicyModel, root: Seq<char>, cs: Seq<GrepCandidate>)
    ensures
        grep_outcome(p, root, cs) matches Some(shown) ==> forall|k: int|
            #![trigger shown[k]]
            0 <= k < shown.len() ==> (exists|j: int|
                #![trigger cs[j]]
                0 <= j < cs.len() && cs[j] == shown[k]) && relative_path_result(
                shown[k].hit.relative_path@,
            ) is Some && read_allowed(
                p,
                relative_path_result(shown[k].hit.relative_path@)->Some_0,
                root,
                opt_text(shown[k].canonical),
                None,
            ),
    decreases cs.len(),
{
    if cs.len() > 0 {
        let init = cs.drop_last();
        lemma_grep_shown_readable(p, root, init);
        if let Some(shown) = grep_outcome(p, root, cs) {
            let prev = grep_outcome(p, root, init)->Some_0;
            assert forall|k: int| #![trigger shown[k]] 0 <= k < shown.len() implies (exists|j: int|
                #![trigger cs[j]]
                0 <= j < cs.len() && cs[j] == shown[k]) && relative_path_result(
                shown[k].hit.relative_path@,
            ) is Some && read_allowed(
                p,
                relative_path_result(shown[k].hit.relative_path@)->Some_0,
                root,
                opt_text(shown[k].canonical),
                None,
            ) by {
                if k < prev.len() {
                    assert(shown[k] == prev[k]);
                    let j = choose|j: int| 0 <= j < init.len() && init[j] == prev[k];
                    assert(cs[j] == init[j]);
                } else {
                    assert(shown[k] == cs.last());
                    assert(cs[cs.len() - 1] == cs.last());
                }
            }
        }
    }
}

/// Every match a text search returns comes from one of its candidates, with that
/// candidate's line number and text, in mount `mount`, at a path that the policy lets a
/// reader read: a hidden or deny-read file never shows in the results.
pub proof fn lemma_grep_matches_readable(
    p: PolicyModel,
    root: Seq<char>,
    mount: Seq<char>,
    cs: Seq<GrepCandidate>,
    v: Seq<GrepMatch>,
)
    requires
        grep_outcome(p, root, cs) matches Some(shown) && v.map_values(
            |g: GrepMatch| grep_match_view(g),
        ) == shown.map_values(|c: GrepCandidate| grep_candidate_view(mount, c)),
    ensures
        forall|k: int|
            #![trigger v[k]]
            0 <= k < v.len() ==> v[k].path@.0 == mount && exists|j: int|
                #![trigger cs[j]]
                0 <= j < cs.len() && relative_path_result(cs[j].hit.relative_path@) == Some(
                    v[k].path@.1,
                ) && v[k].line == cs[j].hit.line && v[k].content@ == cs[j].hit.content@
                    && read_allowed(p, v[k].path@.1, root, opt_text(cs[j].canonical), None),
{
    let shown = grep_outcome(p, root, cs)->Some_0;
    lemma_grep_shown_readable(p, root, cs);
    assert forall|k: int| #![trigger v[k]] 0 <= k < v.len() implies v[k].path@.0 == mount
        && exists|j: int|
        #![trigger cs[j]]
        0 <= j < cs.len() && relative_path_result(cs[j].hit.relative_path@) == Some(v[k].path@.1)
            && v[k].line == cs[j].hit.line && v[k].content@ == cs[j].hit.content@ && read_allowed(
            p,
            v[k].path@.1,
            root,
            opt_text(cs[j].canonical),
            None,
        ) by {
        assert(v.map_values(|g: GrepMatch| grep_match_view(g)).len() == v.len());
        assert(shown.map_values(|c: GrepCandidate| grep_candidate_view(mount, c)).len()
            == shown.len());
        assert(k < shown.len());
        assert(v.map_values(|g: GrepMatch| grep_match_view(g))[k] == grep_match_view(v[k]));
        assert(shown.map_values(|c: GrepCandidate| grep_candidate_view(mount, c))[k]
            == grep_candidate_view(mount, shown[k]));
        assert(grep_match_view(v[k]) == grep_candidate_view(mount, shown[k]));
        let j = choose|j: int| 0 <= j < cs.len() && cs[j] == shown[k];
        assert(cs[j] == shown[k]);
    }
}

/// The matches of a text search in `mount` that a reader may see, in the order found.
/// `root` is the canonical mount root. A hit whose path is not a valid relative path stops
/// the search with an invalid-path error.
pub fn grep_matches(
    engine: &mut PolicyEngine,
    mount: &Mount,
    root: &str,
    candidates: Vec<GrepCandidate>,
) -> (r: Result<Vec<GrepMatch>, ApiError>)
    ensures
        final(engine).cache() == cache_after_compile(
            old(engine).cache(),
            mount.name@,
            mount.policy@,
        ),
        match grep_outcome(
            compiled_policy(old(engine).cache(), mount.name@, mount.policy@),
            root@,
            candidates@,
        ) {
            None => r matches Err(ApiError::InvalidPath(m)) && m@ == "invalid path"@,
            Some(shown) => r matches Ok(v) && v@.map_values(|g: GrepMatch| grep_match_view(g))
                == shown.map_values(|c: GrepCandidate| grep_candidate_view(mount.name@, c)),
        },
        r matches Ok(v) ==> forall|k: int|
            #![trigger v@[k]]
            0 <= k < v@.len() ==> v@[k].path@.0 == mount.name@ && exists|j: int|
                #![trigger candidates@[j]]
                0 <= j < candidates@.len() && relative_path_result(
                    candidates@[j].hit.relative_path@,
                ) == Some(v@[k].path@.1) && v@[k].line == candidates@[j].hit.line
                    && v@[k].content@ == candidates@[j].hit.content@ && read_allowed(
                    compiled_policy(old(engine).cache(), mount.name@, mount.policy@),
                    v@[k].path@.1,
                    root@,
                    opt_text(candidates@[j].canonical),
                    None,
                ),
{
    let compiled = engine.policy_for(mount);
    let ghost p = compiled.policy@;
    let ghost all = candidates@;
    let ghost shown_view = |c: GrepCandidate| grep_candidate_view(mount.name@, c);
    let mut out: Vec<GrepMatch> = Vec::new();
    let mut rest = candidates;
    let n: usize = rest.len();
    let mut i: usize = 0;
    proof {
        assert(all.take(0) =~= Seq::<GrepCandidate>::empty());
        assert(rest@ =~= all.skip(0));
        assert(out@.map_values(|g: GrepMatch| grep_match_view(g)) =~= Seq::<
            GrepCandidate,
        >::empty().map_values(shown_view));
    }
    while i < n
        invariant
            p == compiled.policy@,
            engine.cache() == cache_after_compile(old(engine).cache(), mount.name@, mount.policy@),
            p == compiled_policy(old(engine).cache(), mount.name@, mount.policy@),
            shown_view == (|c: GrepCandidate| grep_candidate_view(mount.name@, c)),
            0 <= i <= n,
            all == candidates@,
            all.len() == n,
            rest@ == all.skip(i as int),
            grep_outcome(p, root@, all.take(i as int)) matches Some(shown) && out@.map_values(
                |g: GrepMatch| grep_match_view(g),
            ) == shown.map_values(shown_view),
        decreases n - i,
    {
        let c = rest.remove(0);
        let ghost gc = c;
        let ghost shown = grep_outcome(p, root@, all.take(i as int))->Some_0;
        proof {
            assert(gc == all[i as int]);
            assert(all.take(i + 1).drop_last() =~= all.take(i as int));
            assert(all.take(i + 1).last() == gc);
            assert(rest@ =~= all.skip(i + 1));
        }
        let relative = match RelativePath::new(c.hit.relative_path.as_str()) {
            Ok(rp) => rp,
            Err(_) => {
                proof {
                    assert(grep_outcome(p, root@, all.take(i + 1)) is None);
                    lemma_grep_stop_persists(p, root@, all, i + 1);
                }
                return Err(ApiError::InvalidPath("invalid path".to_owned()));
            },
        };
        let outcome = check_read_path(&compiled.policy, &relative, root, c.canonical, None);
        proof {
            lemma_read_outcome_ok(p, relative@, root@, opt_text(gc.canonical), None, outcome);
        }
        if outcome.is_ok() {
            let found = GrepMatch {
                path: MountPath::new(mount.name.clone(), relative),
                line: c.hit.line,
                content: c.hit.content,
            };
            let ghost before = out@;
            out.push(found);
            proof {
                assert(grep_match_view(found) == shown_view(gc));
                assert(out@.map_values(|g: GrepMatch| grep_match_view(g)) =~= before.map_values(
                    |g: GrepMatch| grep_match_view(g),
                ).push(grep_match_view(found)));
                assert(shown.push(gc).map_values(shown_view) =~= shown.map_values(shown_view).push(
                    shown_view(gc),
                ));
            }
        }
        i = i + 1;
    }
    proof {
        assert(all.take(n as int) =~= all);
        lemma_grep_matches_readable(p, root@, mount.name@, all, out@);
    }
    Ok(out)
}

/// Every hit a name search shows is one of its candidates whose metadata was read, and its
/// path is a valid relative path that the policy lets a reader read (hide, deny-read,
/// bounds and symlink rules together).
pub proof fn lemma_find_shown_readable(p: PolicyModel, root: Seq<char>, cs: Seq<FindCandidate>)
    ensures
        find_outcome(p, root, cs) matches Ok(shown) ==> forall|k: int|
            #![trigger shown[k]]
            0 <= k < shown.len() ==> (exists|j: int|
                #![trigger cs[j]]
                0 <= j < cs.len() && cs[j] == shown[k]) && shown[k].meta is Ok
                && relative_path_result(shown[k].relative_path@) is Some && read_allowed(
                p,
                relative_path_result(shown[k].relative_path@)->Some_0,
                root,
                opt_text(shown[k].canonical),
                None,
            ),
    decreases cs.len(),
{
    if cs.len() > 0 {
        let init = cs.drop_last();
        lemma_find_shown_readable(p, root, init);
        if let Ok(shown) = find_outcome(p, root, cs) {
            let prev = find_outcome(p, root, init)->Ok_0;
            assert forall|k: int| #![trigger shown[k]] 0 <= k < shown.len() implies (exists|j: int|
                #![trigger cs[j]]
                0 <= j < cs.len() && cs[j] == shown[k]) && shown[k].meta is Ok
                && relative_path_result(shown[k].relative_path@) is Some && read_allowed(
                p,
                relative_path_result(shown[k].relative_path@)->Some_0,
                root,
                opt_text(shown[k].canonical),
                None,
            ) by {
                if k < prev.len() {
                    assert(shown[k] == prev[k]);
                    let j = choose|j: int| 0 <= j < init.len() && init[j] == prev[k];
                    assert(cs[j] == init[j]);
                } else {
                    assert(shown[k] == cs.last());
                    assert(cs[cs.len() - 1] == cs.last());
                }
            }
        }
    }
}

/// Every path a name search returns comes from one of its candidates, in mount `mount`,
/// with the size and time read from that candidate's metadata, at a path that the policy
/// lets a reader read: a hidden or deny-read file is never found.
pub proof fn lemma_find_results_readable(
    p: PolicyModel,
    root: Seq<char>,
    mount: Seq<char>,
    cs: Seq<FindCandidate>,
    v: Seq<FindResult>,
)
    requires
        find_outcome(p, root, cs) matches Ok(shown) && v.map_values(
            |f: FindResult| find_result_view(f),
        ) == shown.map_values(|c: FindCandidate| find_candidate_view(mount, c)),
    ensures
        forall|k: int|
            #![trigger v[k]]
            0 <= k < v.len() ==> v[k].path@.0 == mount && exists|j: int|
                #![trigger cs[j]]
                0 <= j < cs.len() && relative_path_result(cs[j].relative_path@) == Some(
                    v[k].path@.1,
                ) && cs[j].meta is Ok && v[k].size == (if cs[j].meta->Ok_0.is_file {
                    Some(cs[j].meta->Ok_0.len)
                } else {
                    None
                }) && v[k].modified_at == cs[j].meta->Ok_0.modified_at && read_allowed(
                    p,
                    v[k].path@.1,
                    root,
                    opt_text(cs[j].canonical),
                    None,
                ),
{
    let shown = find_outcome(p, root, cs)->Ok_0;
    lemma_find_shown_readable(p, root, cs);
    assert forall|k: int| #![trigger v[k]] 0 <= k < v.len() implies v[k].path@.0 == mount
        && exists|j: int|
        #![trigger cs[j]]
        0 <= j < cs.len() && relative_path_result(cs[j].relative_path@) == Some(v[k].path@.1)
            && cs[j].meta is Ok && v[k].size == (if cs[j].meta->Ok_0.is_file {
            Some(cs[j].meta->Ok_0.len)
        } else {
            None
        }) && v[k].modified_at == cs[j].meta->Ok_0.modified_at && read_allowed(
            p,
            v[k].path@.1,
            root,
            opt_text(cs[j].canonical),
            None,
        ) by {
        assert(v.map_values(|f: FindResult| find_result_view(f)).len() == v.len());
        assert(shown.map_values(|c: FindCandidate| find_candidate_view(mount, c)).len()
            == shown.len());
        assert(k < shown.len());
        assert(v.map_values(|f: FindResult| find_result_view(f))[k] == find_result_view(v[k]));
        assert(shown.map_values(|c: FindCandidate| find_candidate_view(mount, c))[k]
            == find_candidate_view(mount, shown[k]));
        assert(find_result_view(v[k]) == find_candidate_view(mount, shown[k]));
        let j = choose|j: int| 0 <= j < cs.len() && cs[j] == shown[k];
        assert(cs[j] == shown[k]);
    }
}

/// The paths found by a name search in `mount` that a reader may see, in the order found.
/// `root` is the canonical mount root. A hit whose path is not a valid relative path stops
/// the search with an invalid-path error; a visible hit whose metadata could not be read
/// stops it with an internal error carrying the reason.
pub fn find_results(
    engine: &mut PolicyEngine,
    mount: &Mount,
    root: &str,
    candidates: Vec<FindCandidate>,
) -> (r: Result<Vec<FindResult>, ApiError>)
    ensures
        final(engine).cache() == cache_after_compile(
            old(engine).cache(),
            mount.name@,
            mount.policy@,
        ),
        match find_outcome(
            compiled_policy(old(engine).cache(), mount.name@, mount.policy@),
            root@,
            candidates@,
        ) {
            Err(None) => r matches Err(ApiError::InvalidPath(m)) && m@ == "invalid path"@,
            Err(Some(reason)) => r matches Err(ApiError::Internal(m)) && m@ == reason,
            Ok(shown) => r matches Ok(v) && v@.map_values(|f: FindResult| find_result_view(f))
                == shown.map_values(|c: FindCandidate| find_candidate_view(mount.name@, c)),
        },
        r matches Ok(v) ==> forall|k: int|
            #![trigger v@[k]]
            0 <= k < v@.len() ==> v@[k].path@.0 == mount.name@ && exists|j: int|
                #![trigger candidates@[j]]
                0 <= j < candidates@.len() && relative_path_result(candidates@[j].relative_path@)
                    == Some(v@[k].path@.1) && candidates@[j].meta is Ok && v@[k].size == (
                if candidates@[j].meta->Ok_0.is_file {
                    Some(candidates@[j].meta->Ok_0.len)
                } else {
                    None
                }) && v@[k].modified_at == candidates@[j].meta->Ok_0.modified_at && read_allowed(
                    compiled_policy(old(engine).cache(), mount.name@, mount.policy@),
                    v@[k].path@.1,
                    root@,
                    opt_text(candidates@[j].canonical),
                    None,
                ),
{
    let compiled = engine.policy_for(mount);
    let ghost p = compiled.policy@;
    let ghost all = candidates@;
    let ghost shown_view = |c: FindCandidate| find_candidate_view(mount.name@, c);
    let mut out: Vec<FindResult> = Vec::new();
    let mut rest = candidates;
    let n: usize = rest.len();
    let mut i: usize = 0;
    proof {
        assert(all.take(0) =~= Seq::<FindCandidate>::empty());
        assert(rest@ =~= all.skip(0));
        assert(out@.map_values(|f: FindResult| find_result_view(f)) =~= Seq::<
            FindCandidate,
        >::empty().map_values(shown_view));
    }
    while i < n
        invariant
            p == compiled.policy@,
            engine.cache() == cache_after_compile(old(engine).cache(), mount.name@, mount.policy@),
            p == compiled_policy(old(engine).cache(), mount.name@, mount.policy@),
            shown_view == (|c: FindCandidate| find_candidate_view(mount.name@, c)),
            0 <= i <= n,
            all == candidates@,
            all.len() == n,
            rest@ == all.skip(i as int),
            find_outcome(p, root@, all.take(i as int)) matches Ok(shown) && out@.map_values(
                |f: FindResult| find_result_view(f),
            ) == shown.map_values(shown_view),
        decreases n - i,
    {
        let c = rest.remove(0);
        let ghost gc = c;
        let ghost shown = find_outcome(p, root@, all.take(i as int))->Ok_0;
        proof {
            assert(gc == all[i as int]);
            assert(all.take(i + 1).drop_last() =~= all.take(i as int));
            assert(all.take(i + 1).last() == gc);
            assert(rest@ =~= all.skip(i + 1));
        }
        let relative = match RelativePath::new(c.relative_path.as_str()) {
            Ok(rp) => rp,
            Err(_) => {
                proof {
                    assert(find_outcome(p, root@, all.take(i + 1)) == Err::<
                        Seq<FindCandidate>,
                        Option<Seq<char>>,
                    >(None));
                    lemma_find_stop_persists(p, root@, all, i + 1);
                }
                return Err(ApiError::InvalidPath("invalid path".to_owned()));
            },
        };
        let outcome = check_read_path(&compiled.policy, &relative, root, c.canonical, None);
        proof {
            lemma_read_outcome_ok(p, relative@, root@, opt_text(gc.canonical), None, outcome);
        }
        if outcome.is_ok() {
            match c.meta {
                Err(reason) => {
                    proof {
                        assert(find_outcome(p, root@, all.take(i + 1)) == Err::<
                            Seq<FindCandidate>,
                            Option<Seq<char>>,
                        >(Some(reason@)));
                        lemma_find_stop_persists(p, root@, all, i + 1);
                    }
                    return Err(ApiError::Internal(reason));
                },
                Ok(meta) => {
                    let found = FindResult {
                        path: MountPath::new(mount.name.clone(), relative),
                        size: if meta.is_file {
                            Some(meta.len)
                        } else {
                            None
                        },
                        modified_at: meta.modified_at,
                    };
                    let ghost before = out@;
                    out.push(found);
                    proof {
                        assert(find_result_view(found) == shown_view(gc));
                        assert(out@.map_values(|f: FindResult| find_result_view(f))
                            =~= before.map_values(|f: FindResult| find_result_view(f)).push(
                            find_result_view(found),
                        ));
                        assert(shown.push(gc).map_values(shown_view) =~= shown.map_values(
                            shown_view,
                        ).push(shown_view(gc)));
                    }
                },
            }
        }
        i = i + 1;
    }
    proof {
        assert(all.take(n as int) =~= all);
        lemma_find_results_readable(p, root@, mount.name@, all, out@);
    }
    Ok(out)
}

} // verus!
