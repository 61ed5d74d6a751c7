//! Lexical path normalisation, the cache of compiled mount policies, and the checks that
//! guard every read and write inside a mount.
use vstd::prelude::*;

use crate::errors::PolicyError;
use crate::glob::{glob_matches, views_of};
use crate::mount::{
    check_after_globs, glob_outcome, join_root, read_size_check, write_size_check, GlobOutcome,
    Mount, MountName, MountPolicy, PolicyModel,
};
use crate::path::{kept_filter, kept_segments, parent_segment, relative_path_result, RelativePath};
use crate::text::{chars_of, chars_range_eq, join_with, opt_text, split_on, split_spans, str_eq};

verus! {

broadcast use vstd::string::group_string_axioms;

/// The component that stands for the root directory.
pub open spec fn root_component() -> Seq<char> {
    seq!['/']
}

/// The component that stands for a leading current directory.
pub open spec fn current_component() -> Seq<char> {
    seq!['.']
}

/// The first component of a Unix path, as `Path::components` yields it, when that is the
/// root directory or a leading current directory.
pub open spec fn path_lead(s: Seq<char>) -> Seq<Seq<char>> {
    if s.len() > 0 && s[0] == '/' {
        seq![root_component()]
    } else if s == current_component() || (s.len() > 1 && s[0] == '.' && s[1] == '/') {
        seq![current_component()]
    } else {
        Seq::empty()
    }
}

/// The components of a Unix path, as `Path::components` yields them: the root or a leading
/// `.`, then every segment between slashes other than empty ones and `.`.
pub open spec fn path_components(s: Seq<char>) -> Seq<Seq<char>> {
    path_lead(s) + kept_segments(s)
}

/// Whether `p` lies under `base`, comparing whole components as `Path::starts_with` does.
pub open spec fn path_starts_with(p: Seq<char>, base: Seq<char>) -> bool {
    &&& path_components(base).len() <= path_components(p).len()
    &&& path_components(p).take(path_components(base).len() as int) == path_components(base)
}

/// Lexical normalisation of components: `.` is dropped, and `..` removes the component
/// before it unless there is none or it is the root.
pub open spec fn normalize_components(cs: Seq<Seq<char>>) -> Seq<Seq<char>>
    decreases cs.len(),
{
    if cs.len() == 0 {
        Seq::empty()
    } else {
        let prev = normalize_components(cs.drop_last());
        let c = cs.last();
        if c == current_component() {
            prev
        } else if c == parent_segment() {
            if prev.len() > 0 && prev.last() != root_component() {
                prev.drop_last()
            } else {
                prev
            }
        } else {
            prev.push(c)
        }
    }
}

/// The components of `root` joined with the segments `segments` of a relative path.
pub open spec fn joined_components(root: Seq<char>, segments: Seq<Seq<char>>) -> Seq<
    Seq<char>,
> {
    path_components(root) + segments
}

/// `r` without the value it carries on success.
pub open spec fn unit_of(r: Result<String, PolicyError>) -> Result<(), PolicyError> {
    match r {
        Ok(_) => Ok(()),
        Err(e) => Err(e),
    }
}

/// The read rules of a policy: a hidden path is not found; otherwise the deny-read patterns
/// and the read size limit apply.
pub open spec fn read_rules(
    p: PolicyModel,
    path: Seq<char>,
    size: Option<u64>,
    r: Result<(), PolicyError>,
) -> bool {
    &&& check_after_globs(glob_outcome(p.hide_globs, path), PolicyError::NotFound, r, r)
    &&& glob_outcome(p.hide_globs, path) == GlobOutcome::Matched(false) ==> check_after_globs(
        glob_outcome(p.deny_read_globs, path),
        PolicyError::PermissionDenied,
        read_size_check(p.max_read_bytes, size),
        r,
    )
}

/// The write rules of a policy: hidden and deny-write paths are refused; otherwise the
/// write size limit applies.
pub open spec fn write_rules(p: PolicyModel, path: Seq<char>, size: u64, r: Result<(), PolicyError>) -> bool {
    &&& check_after_globs(glob_outcome(p.hide_globs, path), PolicyError::PermissionDenied, r, r)
    &&& glob_outcome(p.hide_globs, path) == GlobOutcome::Matched(false) ==> check_after_globs(
        glob_outcome(p.deny_write_globs, path),
        PolicyError::PermissionDenied,
        write_size_check(p.max_write_bytes, size),
        r,
    )
}

/// The decision on a read of `relative` under the canonical root `root`, given where the
/// lexical path canonicalises to (`None` when it does not exist): it must lie under the
/// root, be reached without symbolic links, and pass the read rules; the canonical path is
/// returned.
pub open spec fn read_path_outcome(
    p: PolicyModel,
    relative: Seq<char>,
    root: Seq<char>,
    canonical: Option<Seq<char>>,
    size: Option<u64>,
    r: Result<String, PolicyError>,
) -> bool {
    match canonical {
        None => r == Err::<String, PolicyError>(PolicyError::NotFound),
        Some(c) => if !path_starts_with(c, root) {
            r == Err::<String, PolicyError>(PolicyError::OutOfBounds)
        } else if normalize_components(joined_components(root, kept_segments(relative)))
            != path_components(c) {
            r == Err::<String, PolicyError>(PolicyError::SymlinkDenied)
        } else {
            &&& read_rules(p, relative, size, unit_of(r))
            &&& r matches Ok(q) ==> q@ == c
        },
    }
}

/// The decision on a write of `relative` under the canonical root `root`, given where the
/// parent directory of the lexical path canonicalises to (`None` when it does not exist):
/// the root itself is not a write target; the parent must lie under the root and be
/// reached without symbolic links; the write rules apply; the target is the file name under
/// the canonical parent.
pub open spec fn write_path_outcome(
    p: PolicyModel,
    relative: Seq<char>,
    root: Seq<char>,
    canonical_parent: Option<Seq<char>>,
    size: u64,
    r: Result<String, PolicyError>,
) -> bool {
    let segments = kept_segments(relative);
    if relative.len() == 0 {
        r == Err::<String, PolicyError>(PolicyError::InvalidPath)
    } else {
        match canonical_parent {
            None => r == Err::<String, PolicyError>(PolicyError::InvalidPath),
            Some(c) => if !path_starts_with(c, root) {
                r == Err::<String, PolicyError>(PolicyError::OutOfBounds)
            } else if normalize_components(joined_components(root, segments.drop_last()))
                != path_components(c) {
                r == Err::<String, PolicyError>(PolicyError::SymlinkDenied)
            } else {
                &&& write_rules(p, relative, size, unit_of(r))
                &&& r matches Ok(q) ==> q@ == join_root(c, segments.last())
            },
        }
    }
}

/// Appends copies of `more` to `out`.
fn append_strings(out: &mut Vec<String>, more: &Vec<String>)
    ensures
        views_of(final(out)@) == views_of(old(out)@) + views_of(more@),
{
    let ghost start = views_of(out@);
    let mut i: usize = 0;
    while i < more.len()
        invariant
            0 <= i <= more.len(),
            views_of(out@) == start + views_of(more@.take(i as int)),
        decreases more.len() - i,
    {
        let c = more[i].clone();
        let ghost before = out@;
        out.push(c);
        proof {
            assert(views_of(out@) =~= views_of(before).push(more@[i as int]@));
            assert(views_of(more@.take(i + 1)) =~= views_of(more@.take(i as int)).push(
                more@[i as int]@,
            ));
        }
        i = i + 1;
    }
    proof {
        assert(more@.take(more.len() as int) =~= more@);
    }
}

/// The segments of `s` between slashes, other than empty ones and `.`.
pub fn segments_of(s: &str) -> (r: Vec<String>)
    ensures
        views_of(r@) == kept_segments(s@),
{
    let v = chars_of(s);
    let spans = split_spans(&v, '/');
    let ghost pieces = split_on(s@, '/');
    let ghost kept = kept_filter();
    let mut out: Vec<String> = Vec::new();
    let mut k: usize = 0;
    proof {
        reveal(Seq::filter);
        assert(pieces.take(0) =~= Seq::<Seq<char>>::empty());
        assert(views_of(out@) =~= Seq::<Seq<char>>::empty());
    }
    while k < spans.len()
        invariant
            v@ == s@,
            pieces == split_on(s@, '/'),
            kept == kept_filter(),
            spans@.len() == pieces.len(),
            forall|j: int|
                0 <= j < spans@.len() ==> {
                    &&& (#[trigger] spans@[j]).0 <= spans@[j].1 <= v@.len()
                    &&& v@.subrange(spans@[j].0 as int, spans@[j].1 as int) == pieces[j]
                },
            0 <= k <= spans.len(),
            views_of(out@) == pieces.take(k as int).filter(kept),
        decreases spans.len() - k,
    {
        let (a, b) = spans[k];
        proof {
            assert(spans@[k as int].0 <= spans@[k as int].1);
            assert(pieces.take(k + 1) =~= pieces.take(k as int).push(pieces[k as int]));
            pieces.take(k as int).lemma_filter_push(pieces[k as int], kept);
        }
        let is_dot = chars_range_eq(&v, a, b, ".");
        proof {
            reveal_strlit(".");
            assert("."@ =~= seq!['.']);
        }
        if !(a == b || is_dot) {
            let piece = s.substring_char(a, b);
            let ghost before = out@;
            out.push(piece.to_owned());
            proof {
                assert(views_of(out@) =~= views_of(before).push(pieces[k as int]));
            }
        }
        k = k + 1;
    }
    proof {
        assert(pieces.take(spans.len() as int) =~= pieces);
    }
    out
}

/// The components of the Unix path `s`.
pub fn components_of(s: &str) -> (r: Vec<String>)
    ensures
        views_of(r@) == path_components(s@),
{
    let v = chars_of(s);
    let mut out: Vec<String> = Vec::new();
    proof {
        reveal_strlit("/");
        reveal_strlit(".");
        assert(views_of(out@) =~= Seq::<Seq<char>>::empty());
    }
    if v.len() > 0 && v[0] == '/' {
        out.push("/".to_owned());
        proof {
            assert("/"@ =~= root_component());
            assert(views_of(out@)[0] == "/"@);
            assert(views_of(out@) =~= seq![root_component()]);
        }
    } else if (v.len() == 1 && v[0] == '.') || (v.len() > 1 && v[0] == '.' && v[1] == '/') {
        out.push(".".to_owned());
        proof {
            assert("."@ =~= current_component());
            assert(views_of(out@)[0] == "."@);
            assert(views_of(out@) =~= seq![current_component()]);
        }
    }
    proof {
        if v@.len() == 1 && v@[0] == '.' {
            assert(s@ =~= current_component());
        }
        assert(views_of(out@) == path_lead(s@));
    }
    let segments = segments_of(s);
    append_strings(&mut out, &segments);
    out
}

/// Normalises components lexically.
pub fn normalize(cs: &Vec<String>) -> (r: Vec<String>)
    ensures
        views_of(r@) == normalize_components(views_of(cs@)),
{
    let ghost all = views_of(cs@);
    let mut out: Vec<String> = Vec::new();
    let mut i: usize = 0;
    proof {
        assert(all.take(0) =~= Seq::<Seq<char>>::empty());
        assert(views_of(out@) =~= Seq::<Seq<char>>::empty());
    }
    while i < cs.len()
        invariant
            all == views_of(cs@),
            0 <= i <= cs.len(),
            views_of(out@) == normalize_components(all.take(i as int)),
        decreases cs.len() - i,
    {
        proof {
            assert(all.take(i + 1).drop_last() =~= all.take(i as int));
            assert(all.take(i + 1).last() == cs@[i as int]@);
            reveal_strlit(".");
            reveal_strlit("..");
            reveal_strlit("/");
            assert("."@ =~= current_component());
            assert(".."@ =~= parent_segment());
            assert("/"@ =~= root_component());
        }
        let c = cs[i].as_str();
        if str_eq(c, ".") {
        } else if str_eq(c, "..") {
            if out.len() > 0 && !str_eq(out[out.len() - 1].as_str(), "/") {
                let ghost before = out@;
                let _ = out.pop();
                proof {
                    assert(views_of(out@) =~= views_of(before).drop_last());
                }
            }
        } else {
            let ghost before = out@;
            out.push(cs[i].clone());
            proof {
                assert(views_of(out@) =~= views_of(before).push(cs@[i as int]@));
            }
        }
        i = i + 1;
    }
    proof {
        assert(all.take(cs.len() as int) =~= all);
    }
    out
}

/// Whether two component lists are the same.
fn same_components(a: &Vec<String>, b: &Vec<String>) -> (r: bool)
    ensures
        r == (views_of(a@) == views_of(b@)),
{
    if a.len() != b.len() {
        proof {
            assert(views_of(a@).len() != views_of(b@).len());
        }
        return false;
    }
    let mut i: usize = 0;
    while i < a.len()
        invariant
            a.len() == b.len(),
            0 <= i <= a.len(),
            forall|j: int| 0 <= j < i ==> a@[j]@ == b@[j]@,
        decreases a.len() - i,
    {
        if !str_eq(a[i].as_str(), b[i].as_str()) {
            proof {
                assert(views_of(a@)[i as int] != views_of(b@)[i as int]);
            }
            return false;
        }
        i = i + 1;
    }
    proof {
        assert(views_of(a@) =~= views_of(b@));
    }
    true
}

/// Whether `base` is a prefix of `a`.
fn starts_with_components(a: &Vec<String>, base: &Vec<String>) -> (r: bool)
    ensures
        r == (views_of(base@).len() <= views_of(a@).len() && views_of(a@).take(
            views_of(base@).len() as int,
        ) == views_of(base@)),
{
    if base.len() > a.len() {
        return false;
    }
    let mut i: usize = 0;
    while i < base.len()
        invariant
            base.len() <= a.len(),
            0 <= i <= base.len(),
            forall|j: int| 0 <= j < i ==> a@[j]@ == base@[j]@,
        decreases base.len() - i,
    {
        if !str_eq(a[i].as_str(), base[i].as_str()) {
            proof {
                assert(views_of(a@).take(base.len() as int)[i as int] != views_of(base@)[i as int]);
            }
            return false;
        }
        i = i + 1;
    }
    proof {
        assert(views_of(a@).take(base.len() as int) =~= views_of(base@));
    }
    true
}

/// Whether `p` lies under `base`, component by component.
pub fn path_has_prefix(p: &str, base: &str) -> (r: bool)
    ensures
        r == path_starts_with(p@, base@),
{
    let pc = components_of(p);
    let bc = components_of(base);
    starts_with_components(&pc, &bc)
}

/// The read rules of `policy` for `path`.
fn check_read_rules(policy: &MountPolicy, path: &RelativePath, file_size: Option<u64>) -> (r: Result<
    (),
    PolicyError,
>)
    ensures
        read_rules(policy@, path@, file_size, r),
{
    match policy.is_hidden(path) {
        Err(e) => return Err(e),
        Ok(true) => return Err(PolicyError::NotFound),
        Ok(false) => {},
    }
    policy.check_read(path, file_size)
}

/// The write rules of `policy` for `path`.
fn check_write_rules(policy: &MountPolicy, path: &RelativePath, write_size: u64) -> (r: Result<
    (),
    PolicyError,
>)
    ensures
        write_rules(policy@, path@, write_size, r),
{
    match policy.is_hidden(path) {
        Err(e) => return Err(e),
        Ok(true) => return Err(PolicyError::PermissionDenied),
        Ok(false) => {},
    }
    policy.check_write(path, write_size)
}

/// A relative path that is not the root has at least one segment.
proof fn lemma_nonroot_has_segments(s: Seq<char>)
    requires
        relative_path_result(s) == Some(s),
        s.len() > 0,
    ensures
        kept_segments(s).len() > 0,
{
    assert(join_with(kept_segments(s), '/') == s);
}

/// A mount's policy, ready to be checked against.
#[derive(Debug)]
pub struct CompiledMount {
    pub policy: MountPolicy,
}

impl CompiledMount {
    /// Compiles `policy`.
    pub fn from_policy(policy: &MountPolicy) -> (c: CompiledMount)
        ensures
            c.policy@ == policy@,
    {
        CompiledMount { policy: policy.clone() }
    }
}

/// The policy compiled for mount `name` given the cache's contents: the cached one if
/// there is one, else `policy`.
pub open spec fn compiled_policy(
    cache: Map<Seq<char>, PolicyModel>,
    name: Seq<char>,
    policy: PolicyModel,
) -> PolicyModel {
    if cache.contains_key(name) {
        cache[name]
    } else {
        policy
    }
}

/// The cache's contents after the policy for `name` was asked for.
pub open spec fn cache_after_compile(
    cache: Map<Seq<char>, PolicyModel>,
    name: Seq<char>,
    policy: PolicyModel,
) -> Map<Seq<char>, PolicyModel> {
    cache.insert(name, compiled_policy(cache, name, policy))
}

/// Compiled policies by mount name.
#[derive(Debug)]
pub struct PolicyCache {
    entries: Vec<(String, CompiledMount)>,
}

impl View for PolicyCache {
    type V = Map<Seq<char>, PolicyModel>;

    closed spec fn view(&self) -> Map<Seq<char>, PolicyModel> {
        Map::new(
            |k: Seq<char>| exists|i: int| 0 <= i < self.entries@.len() && self.entries@[i].0@ == k,
            |k: Seq<char>|
                self.entries@[choose|i: int|
                    0 <= i < self.entries@.len() && self.entries@[i].0@ == k].1.policy@,
        )
    }
}

impl PolicyCache {
    #[verifier::type_invariant]
    closed spec fn distinct_names(self) -> bool {
        forall|i: int, j: int|
            0 <= i < j < self.entries@.len() ==> (#[trigger] self.entries@[i]).0@
                != (#[trigger] self.entries@[j]).0@
    }

    /// An empty cache.
    pub fn new() -> (c: PolicyCache)
        ensures
            c@ == Map::<Seq<char>, PolicyModel>::empty(),
    {
        let c = PolicyCache { entries: Vec::new() };
        assert(c@ =~= Map::<Seq<char>, PolicyModel>::empty());
        c
    }

    /// The position of the entry for `name`, if there is one.
    fn find(&self, name: &str) -> (r: Option<usize>)
        ensures
            match r {
                Some(i) => i < self.entries@.len() && self.entries@[i as int].0@ == name@,
                None => forall|i: int|
                    0 <= i < self.entries@.len() ==> self.entries@[i].0@ != name@,
            },
    {
        let mut i: usize = 0;
        while i < self.entries.len()
            invariant
                0 <= i <= self.entries@.len(),
                forall|j: int| 0 <= j < i ==> self.entries@[j].0@ != name@,
            decreases self.entries@.len() - i,
        {
            if str_eq(self.entries[i].0.as_str(), name) {
                return Some(i);
            }
            i = i + 1;
        }
        None
    }

    /// The policy compiled for `mount`: the cached one, or else the mount's own, which is
    /// then cached.
    pub fn get_or_compile(&mut self, mount: &Mount) -> (c: CompiledMount)
        ensures
            c.policy@ == compiled_policy(old(self)@, mount.name@, mount.policy@),
            final(self)@ == cache_after_compile(old(self)@, mount.name@, mount.policy@),
    {
        proof {
            use_type_invariant(&*self);
        }
        let name = mount.name.as_str();
        match self.find(name) {
            Some(i) => {
                let ghost k = self.entries@[i as int].0@;
                proof {
                    let w = choose|j: int| 0 <= j < self.entries@.len() && self.entries@[j].0@ == k;
                    assert(self.entries@[i as int].0@ == k);
                    if w != i {
                        if w < i {
                            assert(self.entries@[w].0@ != self.entries@[i as int].0@);
                        } else {
                            assert(self.entries@[i as int].0@ != self.entries@[w].0@);
                        }
                    }
                    assert(self@.contains_key(k));
                    assert(self@[k] == self.entries@[i as int].1.policy@);
                    assert(self@.insert(k, self@[k]) =~= self@);
                }
                CompiledMount::from_policy(&self.entries[i].1.policy)
            },
            None => {
                let ghost before = self@;
                proof {
                    assert(!before.contains_key(name@));
                }
                let compiled = CompiledMount::from_policy(&mount.policy);
                let cached = CompiledMount::from_policy(&mount.policy);
                let mut entries: Vec<(String, CompiledMount)> = Vec::new();
                std::mem::swap(&mut entries, &mut self.entries);
                let ghost old_entries = entries@;
                entries.push((name.to_owned(), cached));
                proof {
                    assert forall|i: int, j: int| 0 <= i < j < entries@.len() implies (
                    #[trigger] entries@[i]).0@ != (#[trigger] entries@[j]).0@ by {
                        if j == old_entries.len() {
                            assert(entries@[i] == old_entries[i]);
                        } else {
                            assert(entries@[i] == old_entries[i]);
                            assert(entries@[j] == old_entries[j]);
                        }
                    }
                }
                self.entries = entries;
                proof {
                    let m = before.insert(name@, mount.policy@);
                    assert forall|k: Seq<char>| #[trigger] self@.contains_key(k) == m.contains_key(k)
                        by {
                        if m.contains_key(k) && k != name@ {
                            let w = choose|j: int|
                                0 <= j < old_entries.len() && old_entries[j].0@ == k;
                            assert(self.entries@[w] == old_entries[w]);
                        }
                        if k == name@ {
                            assert(self.entries@[old_entries.len() as int].0@ == k);
                        }
                        if self@.contains_key(k) && k != name@ {
                            let w = choose|j: int|
                                0 <= j < self.entries@.len() && self.entries@[j].0@ == k;
                            assert(w < old_entries.len());
                            assert(old_entries[w] == self.entries@[w]);
                        }
                    }
                    assert forall|k: Seq<char>| #[trigger] m.contains_key(k) implies self@[k]
                        == m[k] by {
                        let w = choose|j: int|
                            0 <= j < self.entries@.len() && self.entries@[j].0@ == k;
                        assert(0 <= w < self.entries@.len() && self.entries@[w].0@ == k) by {
                            if k == name@ {
                                assert(self.entries@[old_entries.len() as int].0@ == k);
                            } else {
                                let v = choose|j: int|
                                    0 <= j < old_entries.len() && old_entries[j].0@ == k;
                                assert(self.entries@[v] == old_entries[v]);
                            }
                        }
                        if k == name@ {
                            if w != old_entries.len() {
                                assert(self.entries@[w].0@ != self.entries@[old_entries.len() as int].0@);
                            }
                        } else {
                            let v = choose|j: int|
                                0 <= j < old_entries.len() && old_entries[j].0@ == k;
                            assert(self.entries@[v] == old_entries[v]);
                            assert(w < old_entries.len());
                            if w != v {
                                if w < v {
                                    assert(self.entries@[w].0@ != self.entries@[v].0@);
                                } else {
                                    assert(self.entries@[v].0@ != self.entries@[w].0@);
                                }
                            }
                            assert(self.entries@[w] == old_entries[w]);
                        }
                    }
                    assert(self@ =~= m);
                }
                compiled
            },
        }
    }

    /// Forgets the compiled policy of mount `name`, so that the next request compiles the
    /// mount's current policy.
    pub fn invalidate_mount(&mut self, name: &MountName)
        ensures
            final(self)@ == old(self)@.remove(name@),
    {
        proof {
            use_type_invariant(&*self);
        }
        match self.find(name.as_str()) {
            None => {
                proof {
                    assert(!self@.contains_key(name@));
                    assert(self@.remove(name@) =~= self@);
                }
            },
            Some(i) => {
                let ghost before = self@;
                let mut entries: Vec<(String, CompiledMount)> = Vec::new();
                std::mem::swap(&mut entries, &mut self.entries);
                let ghost old_entries = entries@;
                let _ = entries.remove(i);
                proof {
                    assert forall|a: int, b: int| 0 <= a < b < entries@.len() implies (
                    #[trigger] entries@[a]).0@ != (#[trigger] entries@[b]).0@ by {
                        let oa = if a < i { a } else { a + 1 };
                        let ob = if b < i { b } else { b + 1 };
                        assert(entries@[a] == old_entries[oa]);
                        assert(entries@[b] == old_entries[ob]);
                    }
                }
                self.entries = entries;
                proof {
                    let m = before.remove(name@);
                    assert forall|k: Seq<char>| #[trigger] self@.contains_key(k) == m.contains_key(k)
                        by {
                        if m.contains_key(k) {
                            let w = choose|j: int|
                                0 <= j < old_entries.len() && old_entries[j].0@ == k;
                            assert(w != i);
                            let nw = if w < i { w } else { w - 1 };
                            assert(self.entries@[nw] == old_entries[w]);
                        }
                        if self@.contains_key(k) {
                            let w = choose|j: int|
                                0 <= j < self.entries@.len() && self.entries@[j].0@ == k;
                            let ow = if w < i { w } else { w + 1 };
                            assert(self.entries@[w] == old_entries[ow]);
                            if k == name@ {
                                assert(old_entries[ow].0@ == old_entries[i as int].0@);
                                if ow < i {
                                    assert(old_entries[ow].0@ != old_entries[i as int].0@);
                                } else {
                                    assert(old_entries[i as int].0@ != old_entries[ow].0@);
                                }
                            }
                        }
                    }
                    assert forall|k: Seq<char>| #[trigger] m.contains_key(k) implies self@[k]
                        == m[k] by {
                        let v = choose|j: int|
                            0 <= j < old_entries.len() && old_entries[j].0@ == k;
                        assert(v != i);
                        let nv = if v < i { v } else { v - 1 };
                        assert(self.entries@[nv] == old_entries[v]);
                        let w = choose|j: int|
                            0 <= j < self.entries@.len() && self.entries@[j].0@ == k;
                        if w != nv {
                            if w < nv {
                                assert(self.entries@[w].0@ != self.entries@[nv].0@);
                            } else {
                                assert(self.entries@[nv].0@ != self.entries@[w].0@);
                            }
                        }
                    }
                    assert(self@ =~= m);
                }
            },
        }
    }
}

/// After a mount's entry is invalidated, the next request compiles the policy the mount
/// has then.
pub proof fn lemma_invalidate_then_compile(
    cache: Map<Seq<char>, PolicyModel>,
    name: Seq<char>,
    current: PolicyModel,
)
    ensures
        compiled_policy(cache.remove(name), name, current) == current,
{
}

/// Until it is invalidated, a mount's compiled policy stays what it was first compiled
/// from, whatever policy the mount has by then.
pub proof fn lemma_compiled_policy_is_kept(
    cache: Map<Seq<char>, PolicyModel>,
    name: Seq<char>,
    first: PolicyModel,
    later: PolicyModel,
)
    ensures
        compiled_policy(cache_after_compile(cache, name, first), name, later) == compiled_policy(
            cache,
            name,
            first,
        ),
{
}

/// Invalidating one mount leaves the compiled policies of the others as they were.
pub proof fn lemma_invalidate_is_per_mount(
    cache: Map<Seq<char>, PolicyModel>,
    removed: Seq<char>,
    name: Seq<char>,
    policy: PolicyModel,
)
    requires
        removed != name,
    ensures
        compiled_policy(cache.remove(removed), name, policy) == compiled_policy(cache, name, policy),
{
}

/// Validates a read of `relative` under `policy`: see `read_path_outcome`.
pub fn check_read_path(
    policy: &MountPolicy,
    relative: &RelativePath,
    root_canonical: &str,
    canonical: Option<String>,
    file_size: Option<u64>,
) -> (r: Result<String, PolicyError>)
    ensures
        read_path_outcome(policy@, relative@, root_canonical@, opt_text(canonical), file_size, r),
{
    let canonical_path = match canonical {
        Some(c) => c,
        None => return Err(PolicyError::NotFound),
    };
    let root_components = components_of(root_canonical);
    let canonical_components = components_of(canonical_path.as_str());
    if !starts_with_components(&canonical_components, &root_components) {
        return Err(PolicyError::OutOfBounds);
    }
    let mut joined = root_components;
    let segments = segments_of(relative.as_str());
    append_strings(&mut joined, &segments);
    let normalized = normalize(&joined);
    if !same_components(&normalized, &canonical_components) {
        return Err(PolicyError::SymlinkDenied);
    }
    match check_read_rules(policy, relative, file_size) {
        Err(e) => Err(e),
        Ok(()) => Ok(canonical_path),
    }
}

/// Whether a read passes: the path exists, lies under the root, is reached without
/// symbolic links and passes the read rules.
pub open spec fn read_allowed(
    p: PolicyModel,
    relative: Seq<char>,
    root: Seq<char>,
    canonical: Option<Seq<char>>,
    size: Option<u64>,
) -> bool {
    &&& canonical matches Some(c)
    &&& path_starts_with(c, root)
    &&& normalize_components(joined_components(root, kept_segments(relative))) == path_components(c)
    &&& read_rules(p, relative, size, Ok(()))
}

/// A read is accepted exactly when it is allowed.
pub proof fn lemma_read_outcome_ok(
    p: PolicyModel,
    relative: Seq<char>,
    root: Seq<char>,
    canonical: Option<Seq<char>>,
    size: Option<u64>,
    r: Result<String, PolicyError>,
)
    requires
        read_path_outcome(p, relative, root, canonical, size, r),
    ensures
        r is Ok <==> read_allowed(p, relative, root, canonical, size),
{
    if r is Err && read_allowed(p, relative, root, canonical, size) {
        let e = r->Err_0;
        assert(read_rules(p, relative, size, Err(e)));
    }
}

/// A read is allowed only for a path that exists under the root, that no hide pattern and
/// no deny-read pattern matches, and whose size (when known) is within the read limit.
pub proof fn lemma_read_allowed_only_if(
    p: PolicyModel,
    relative: Seq<char>,
    root: Seq<char>,
    canonical: Option<Seq<char>>,
    size: Option<u64>,
)
    requires
        read_allowed(p, relative, root, canonical, size),
    ensures
        canonical is Some,
        path_starts_with(canonical->Some_0, root),
        forall|i: int|
            0 <= i < p.hide_globs.len() ==> !glob_matches(#[trigger] p.hide_globs[i], relative),
        forall|i: int|
            0 <= i < p.deny_read_globs.len() ==> !glob_matches(
                #[trigger] p.deny_read_globs[i],
                relative,
            ),
        p.max_read_bytes is Some && size is Some ==> size->Some_0 <= p.max_read_bytes->Some_0,
{
    assert(glob_outcome(p.hide_globs, relative) == GlobOutcome::Matched(false));
    assert(glob_outcome(p.deny_read_globs, relative) == GlobOutcome::Matched(false));
}

/// A write is accepted only for a path that no hide pattern and no deny-write pattern
/// matches, and whose size is within the write limit.
pub proof fn lemma_write_accepted_only_if(
    p: PolicyModel,
    relative: Seq<char>,
    root: Seq<char>,
    canonical_parent: Option<Seq<char>>,
    size: u64,
    r: Result<String, PolicyError>,
)
    requires
        write_path_outcome(p, relative, root, canonical_parent, size, r),
        r is Ok,
    ensures
        relative.len() > 0,
        canonical_parent is Some,
        path_starts_with(canonical_parent->Some_0, root),
        forall|i: int|
            0 <= i < p.hide_globs.len() ==> !glob_matches(#[trigger] p.hide_globs[i], relative),
        forall|i: int|
            0 <= i < p.deny_write_globs.len() ==> !glob_matches(
                #[trigger] p.deny_write_globs[i],
                relative,
            ),
        p.max_write_bytes is Some ==> size <= p.max_write_bytes->Some_0,
{
    assert(unit_of(r) == Ok::<(), PolicyError>(()));
    assert(glob_outcome(p.hide_globs, relative) == GlobOutcome::Matched(false));
    assert(glob_outcome(p.deny_write_globs, relative) == GlobOutcome::Matched(false));
}

/// A path that the hide patterns match is missing to a reader: once it lies inside the
/// root and is reached without symbolic links, its read is refused as not found.
pub proof fn lemma_hidden_path_reads_as_missing(
    p: PolicyModel,
    relative: Seq<char>,
    root: Seq<char>,
    canonical: Seq<char>,
    size: Option<u64>,
    r: Result<String, PolicyError>,
)
    requires
        glob_outcome(p.hide_globs, relative) == GlobOutcome::Matched(true),
        path_starts_with(canonical, root),
        normalize_components(joined_components(root, kept_segments(relative))) == path_components(
            canonical,
        ),
        read_path_outcome(p, relative, root, Some(canonical), size, r),
    ensures
        r == Err::<String, PolicyError>(PolicyError::NotFound),
{
}

/// A path that the hide patterns match cannot be written: once its parent lies inside the
/// root and is reached without symbolic links, its write is refused as not permitted.
pub proof fn lemma_hidden_path_refuses_writes(
    p: PolicyModel,
    relative: Seq<char>,
    root: Seq<char>,
    canonical_parent: Seq<char>,
    size: u64,
    r: Result<String, PolicyError>,
)
    requires
        relative.len() > 0,
        glob_outcome(p.hide_globs, relative) == GlobOutcome::Matched(true),
        path_starts_with(canonical_parent, root),
        normalize_components(joined_components(root, kept_segments(relative).drop_last()))
            == path_components(canonical_parent),
        write_path_outcome(p, relative, root, Some(canonical_parent), size, r),
    ensures
        r == Err::<String, PolicyError>(PolicyError::PermissionDenied),
{
}

/// Resolves paths inside mounts against their compiled policies.
#[derive(Debug)]
pub struct PolicyEngine {
    policy_cache: PolicyCache,
}

impl PolicyEngine {
    /// An engine over `policy_cache`.
    pub fn new(policy_cache: PolicyCache) -> (e: PolicyEngine)
        ensures
            e.cache() == policy_cache@,
    {
        PolicyEngine { policy_cache }
    }

    /// The compiled policies the engine holds.
    pub closed spec fn cache(&self) -> Map<Seq<char>, PolicyModel> {
        self.policy_cache@
    }

    /// Forgets the compiled policy of mount `name`.
    pub fn invalidate_mount(&mut self, name: &MountName)
        ensures
            final(self).cache() == old(self).cache().remove(name@),
    {
        self.policy_cache.invalidate_mount(name);
    }

    /// Validates a read of `relative` in `mount`. `root_canonical` is the canonical form of
    /// the mount root and `canonical` that of the lexical path, or `None` when it cannot be
    /// resolved on disk.
    pub fn resolve_read_path(
        &mut self,
        mount: &Mount,
        relative: &RelativePath,
        root_canonical: &str,
        canonical: Option<String>,
        file_size: Option<u64>,
    ) -> (r: Result<String, PolicyError>)
        ensures
            final(self).cache() == cache_after_compile(
                old(self).cache(),
                mount.name@,
                mount.policy@,
            ),
            read_path_outcome(
                compiled_policy(old(self).cache(), mount.name@, mount.policy@),
                relative@,
                root_canonical@,
                opt_text(canonical),
                file_size,
                r,
            ),
    {
        let compiled = self.policy_cache.get_or_compile(mount);
        check_read_path(&compiled.policy, relative, root_canonical, canonical, file_size)
    }

    /// The compiled policy of `mount`, compiling and caching it if needed.
    pub fn policy_for(&mut self, mount: &Mount) -> (c: CompiledMount)
        ensures
            c.policy@ == compiled_policy(old(self).cache(), mount.name@, mount.policy@),
            final(self).cache() == cache_after_compile(
                old(self).cache(),
                mount.name@,
                mount.policy@,
            ),
    {
        self.policy_cache.get_or_compile(mount)
    }

    /// Validates a write of `relative` in `mount`. `root_canonical` is the canonical form of
    /// the mount root and `canonical_parent` that of the lexical path's parent directory, or
    /// `None` when it cannot be resolved on disk. Returns the path to write.
    pub fn resolve_write_path(
        &mut self,
        mount: &Mount,
        relative: &RelativePath,
        root_canonical: &str,
        canonical_parent: Option<String>,
        write_size: u64,
    ) -> (r: Result<String, PolicyError>)
        ensures
            final(self).cache() == cache_after_compile(
                old(self).cache(),
                mount.name@,
                mount.policy@,
            ),
            write_path_outcome(
                compiled_policy(old(self).cache(), mount.name@, mount.policy@),
                relative@,
                root_canonical@,
                opt_text(canonical_parent),
                write_size,
                r,
            ),
    {
        let compiled = self.policy_cache.get_or_compile(mount);
        if relative.is_root() {
            return Err(PolicyError::InvalidPath);
        }
        let parent = match canonical_parent {
            Some(c) => c,
            None => return Err(PolicyError::InvalidPath),
        };
        let root_components = components_of(root_canonical);
        let parent_components = components_of(parent.as_str());
        if !starts_with_components(&parent_components, &root_components) {
            return Err(PolicyError::OutOfBounds);
        }
        let mut segments = segments_of(relative.as_str());
        let normalized_input = relative.is_normalized();
        proof {
            lemma_nonroot_has_segments(relative@);
        }
        let ghost all_segments = views_of(segments@);
        let file_name = match segments.pop() {
            Some(name) => name,
            None => return Err(PolicyError::InvalidPath),
        };
        proof {
            assert(views_of(segments@) =~= all_segments.drop_last());
            assert(file_name@ == all_segments.last());
        }
        let mut joined = root_components;
        append_strings(&mut joined, &segments);
        let normalized = normalize(&joined);
        if !same_components(&normalized, &parent_components) {
            return Err(PolicyError::SymlinkDenied);
        }
        let resolved = join_path(parent.as_str(), file_name.as_str());
        match check_write_rules(&compiled.policy, relative, write_size) {
            Err(e) => Err(e),
            Ok(()) => Ok(resolved),
        }
    }
}

/// `base` joined with a relative `name`, as `Path::join` does for a non-empty name; an
/// empty `name` leaves `base` as it is.
pub fn join_path(base: &str, name: &str) -> (p: String)
    ensures
        p@ == join_root(base@, name@),
{
    let n = chars_of(name);
    if n.len() == 0 {
        return base.to_owned();
    }
    let v = chars_of(base);
    let mut out = base.to_owned();
    if !(v.len() > 0 && v[v.len() - 1] == '/') {
        out.append("/");
        proof {
            reveal_strlit("/");
        }
    }
    out.append(name);
    out
}

} // verus!
