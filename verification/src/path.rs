//! Relative paths inside a mount, and `<mount>:/<path>` addresses.
use vstd::prelude::*;

use crate::errors::PolicyError;
use crate::mount::{lemma_mount_name_valid_is_ascii, valid_mount_name, MountName};
use crate::text::{
    chars_contain, chars_of, chars_range_eq, find_pair, join_with, lemma_push_contains, pair_at, lemma_join_with_push, lemma_split_join,
    lemma_split_on_len, lemma_split_on_step, split_on,
};

verus! {

broadcast use vstd::string::group_string_axioms;

/// A path segment that survives normalisation: neither empty nor `.`.
pub open spec fn kept_segment(g: Seq<char>) -> bool {
    g.len() > 0 && g != seq!['.']
}

/// The parent-directory segment.
pub open spec fn parent_segment() -> Seq<char> {
    seq!['.', '.']
}

/// `kept_segment` as a filter predicate.
pub open spec fn kept_filter() -> spec_fn(Seq<char>) -> bool {
    |g: Seq<char>| kept_segment(g)
}

/// The kept segments of `s`.
pub open spec fn kept_segments(s: Seq<char>) -> Seq<Seq<char>> {
    split_on(s, '/').filter(kept_filter())
}

/// Normalises a relative path: refused when it holds a NUL, is absolute, or has a `..`
/// segment; otherwise its non-empty, non-`.` segments joined by `/`.
pub open spec fn relative_path_result(s: Seq<char>) -> Option<Seq<char>> {
    if s.contains('\0') {
        None
    } else if s.len() > 0 && s[0] == '/' {
        None
    } else if split_on(s, '/').contains(parent_segment()) {
        None
    } else {
        Some(join_with(kept_segments(s), '/'))
    }
}

/// A normalised path relative to a mount root; the root itself is the empty path.
#[derive(Debug, PartialEq, Eq, Hash)]
pub struct RelativePath(String);

impl View for RelativePath {
    type V = Seq<char>;

    closed spec fn view(&self) -> Seq<char> {
        self.0@
    }
}

/// Every piece of a split is separator-free and made of characters of the input.
pub proof fn lemma_split_pieces(s: Seq<char>, sep: char)
    ensures
        forall|k: int, j: int|
            0 <= k < split_on(s, sep).len() && 0 <= j < split_on(s, sep)[k].len() ==> {
                &&& split_on(s, sep)[k][j] != sep
                &&& s.contains(#[trigger] split_on(s, sep)[k][j])
            },
    decreases s.len(),
{
    if s.len() > 0 {
        let t = s.drop_last();
        lemma_split_pieces(t, sep);
        lemma_split_on_len(t, sep);
        let prev = split_on(t, sep);
        assert forall|k: int, j: int|
            0 <= k < split_on(s, sep).len() && 0 <= j < split_on(s, sep)[k].len() implies {
                &&& split_on(s, sep)[k][j] != sep
                &&& s.contains(#[trigger] split_on(s, sep)[k][j])
            } by {
            if s.last() == sep {
                assert(split_on(s, sep) == prev.push(Seq::<char>::empty()));
                let c = prev[k][j];
                assert(t.contains(c));
                let w = choose|w: int| 0 <= w < t.len() && t[w] == c;
                assert(s[w] == c);
            } else {
                if k == prev.len() - 1 && j == prev.last().len() {
                    assert(s[s.len() - 1] == s.last());
                } else {
                    let c = prev[k][j];
                    assert(t.contains(c));
                    let w = choose|w: int| 0 <= w < t.len() && t[w] == c;
                    assert(s[w] == c);
                }
            }
        }
    }
}

/// Every character of a join is a separator or a character of a part.
pub proof fn lemma_join_chars(parts: Seq<Seq<char>>, sep: char, c: char)
    requires
        join_with(parts, sep).contains(c),
        c != sep,
    ensures
        exists|k: int| 0 <= k < parts.len() && (#[trigger] parts[k]).contains(c),
    decreases parts.len(),
{
    if parts.len() == 1 {
        assert(parts[0].contains(c));
    } else if parts.len() > 1 {
        let init = parts.drop_last();
        let a = join_with(init, sep);
        let j = choose|j: int| 0 <= j < join_with(parts, sep).len() && join_with(parts, sep)[j]
            == c;
        if j < a.len() {
            assert(a[j] == c);
            lemma_join_chars(init, sep, c);
            let k = choose|k: int| 0 <= k < init.len() && (#[trigger] init[k]).contains(c);
            assert(parts[k] == init[k]);
        } else if j > a.len() {
            assert(parts.last()[j - a.len() - 1] == c);
            assert(parts[parts.len() - 1].contains(c));
        }
    }
}

/// Filtering by a predicate that every element satisfies changes nothing.
pub proof fn lemma_filter_all(xs: Seq<Seq<char>>, p: spec_fn(Seq<char>) -> bool)
    requires
        forall|i: int| 0 <= i < xs.len() ==> p(#[trigger] xs[i]),
    ensures
        xs.filter(p) == xs,
    decreases xs.len(),
{
    reveal(Seq::filter);
    if xs.len() > 0 {
        let init = xs.drop_last();
        assert forall|i: int| 0 <= i < init.len() implies p(#[trigger] init[i]) by {
            assert(init[i] == xs[i]);
        }
        lemma_filter_all(init, p);
        assert(p(xs[xs.len() - 1]));
        assert(init.push(xs.last()) =~= xs);
    }
}

/// Normalisation is idempotent: a normalised path normalises to itself.
pub proof fn lemma_relative_path_idempotent(s: Seq<char>)
    requires
        relative_path_result(s) is Some,
    ensures
        relative_path_result(relative_path_result(s)->0) == relative_path_result(s),
{
    let pieces = split_on(s, '/');
    let ks = kept_segments(s);
    let p = join_with(ks, '/');
    lemma_split_pieces(s, '/');
    assert forall|i: int| 0 <= i < ks.len() implies {
        &&& kept_segment(#[trigger] ks[i])
        &&& ks[i] != parent_segment()
        &&& !ks[i].contains('/')
        &&& !ks[i].contains('\0')
        &&& ks[i].len() > 0
    } by {
        pieces.lemma_filter_pred(kept_filter(), i);
        assert(ks.contains(ks[i]));
        pieces.lemma_filter_contains_rev(kept_filter(), ks[i]);
        let k = choose|k: int| 0 <= k < pieces.len() && pieces[k] == ks[i];
        if ks[i].contains('/') {
            let j = choose|j: int| 0 <= j < ks[i].len() && ks[i][j] == '/';
            assert(pieces[k][j] != '/');
        }
        if ks[i].contains('\0') {
            let j = choose|j: int| 0 <= j < ks[i].len() && ks[i][j] == '\0';
            assert(s.contains(pieces[k][j]));
        }
        if ks[i] == parent_segment() {
            assert(pieces.contains(parent_segment()));
        }
    }
    if ks.len() == 0 {
        assert(p == Seq::<char>::empty());
        assert(split_on(p, '/') =~= seq![Seq::<char>::empty()]);
        reveal_with_fuel(Seq::filter, 2);
        assert(kept_segments(p) =~= Seq::<Seq<char>>::empty());
        assert(!split_on(p, '/').contains(parent_segment())) by {
            if split_on(p, '/').contains(parent_segment()) {
                assert(split_on(p, '/')[0] == Seq::<char>::empty());
            }
        }
    } else {
        lemma_split_join(ks, '/');
        lemma_filter_all(ks, kept_filter());
        assert(!split_on(p, '/').contains(parent_segment())) by {
            if split_on(p, '/').contains(parent_segment()) {
                let k = choose|k: int| 0 <= k < ks.len() && ks[k] == parent_segment();
            }
        }
        assert(!p.contains('\0')) by {
            if p.contains('\0') {
                lemma_join_chars(ks, '/', '\0');
                let k = choose|k: int| 0 <= k < ks.len() && (#[trigger] ks[k]).contains('\0');
            }
        }
        assert(!(p.len() > 0 && p[0] == '/')) by {
            lemma_join_first(ks, '/');
            assert(ks[0].len() > 0);
            assert(!ks[0].contains('/'));
            assert(ks[0][0] != '/') by {
                if ks[0][0] == '/' {
                    assert(ks[0].contains('/'));
                }
            }
        }
    }
}

/// A normalised relative path never leaves its mount: it holds no NUL, does not start at
/// the root, and has no `..` segment.
pub proof fn lemma_relative_path_stays_inside(s: Seq<char>)
    requires
        relative_path_result(s) is Some,
    ensures
        !relative_path_result(s)->0.contains('\0'),
        !(relative_path_result(s)->0.len() > 0 && relative_path_result(s)->0[0] == '/'),
        !split_on(relative_path_result(s)->0, '/').contains(parent_segment()),
{
    lemma_relative_path_idempotent(s);
}

/// A join of parts whose first part is non-empty starts with that part's first character.
pub proof fn lemma_join_first(parts: Seq<Seq<char>>, sep: char)
    requires
        parts.len() > 0,
        parts[0].len() > 0,
    ensures
        join_with(parts, sep).len() > 0,
        join_with(parts, sep)[0] == parts[0][0],
    decreases parts.len(),
{
    if parts.len() > 1 {
        let init = parts.drop_last();
        assert(init[0] == parts[0]);
        lemma_join_first(init, sep);
    }
}

impl RelativePath {
    #[verifier::type_invariant]
    closed spec fn inv(self) -> bool {
        relative_path_result(self.0@) == Some(self.0@)
    }

    /// Normalises `input` into a relative path; absolute paths, parent segments and NUL
    /// characters are refused.
    pub fn new(input: &str) -> (r: Result<RelativePath, PolicyError>)
        ensures
            match relative_path_result(input@) {
                None => r == Err::<RelativePath, PolicyError>(PolicyError::InvalidPath),
                Some(p) => r matches Ok(rp) && rp@ == p,
            },
    {
        let v = chars_of(input);
        if chars_contain(&v, '\0') {
            return Err(PolicyError::InvalidPath);
        }
        if v.len() > 0 && v[0] == '/' {
            return Err(PolicyError::InvalidPath);
        }
        let ghost s = input@;
        let ghost kept = kept_filter();
        let mut out = String::new();
        let mut first = true;
        let mut bad = false;
        let mut start: usize = 0;
        let mut i: usize = 0;
        let ghost mut done: Seq<Seq<char>> = Seq::empty();
        proof {
            assert(s.take(0) =~= Seq::<char>::empty());
            assert(s.subrange(0, 0) =~= Seq::<char>::empty());
            assert(split_on(s.take(0), '/') =~= done.push(s.subrange(0, 0)));
            reveal(Seq::filter);
        }
        while i < v.len()
            invariant
                v@ == s,
                s == input@,
                kept == kept_filter(),
                0 <= start <= i <= v.len(),
                split_on(s.take(i as int), '/') == done.push(s.subrange(start as int, i as int)),
                bad == done.contains(parent_segment()),
                out@ == join_with(done.filter(kept), '/'),
                first == (done.filter(kept).len() == 0),
            decreases v.len() - i,
        {
            proof {
                lemma_split_on_step(s, '/', i as int);
            }
            if v[i] == '/' {
                let seg_ghost = Ghost(s.subrange(start as int, i as int));
                let is_parent = chars_range_eq(&v, start, i, "..");
                let is_dot = chars_range_eq(&v, start, i, ".");
                proof {
                    reveal_strlit("..");
                    reveal_strlit(".");
                    assert(".."@ =~= parent_segment());
                    assert("."@ =~= seq!['.']);
                }
                if is_parent {
                    bad = true;
                }
                if !(i == start || is_dot) {
                    proof {
                        lemma_join_with_push(done.filter(kept), seg_ghost@, '/');
                    }
                    if !first {
                        out.append("/");
                        proof {
                            reveal_strlit("/");
                        }
                    }
                    out.append(input.substring_char(start, i));
                    first = false;
                }
                proof {
                    done.lemma_filter_push(seg_ghost@, kept);
                    lemma_push_contains(done, seg_ghost@, parent_segment());
                    done = done.push(seg_ghost@);
                    assert(s.subrange(i + 1, i + 1) =~= Seq::<char>::empty());
                }
                start = i + 1;
            } else {
                proof {
                    assert(s.subrange(start as int, i as int).push(s[i as int]) =~= s.subrange(
                        start as int,
                        i + 1,
                    ));
                }
            }
            i = i + 1;
        }
        let n = v.len();
        let seg_ghost = Ghost(s.subrange(start as int, n as int));
        proof {
            assert(s.take(n as int) =~= s);
        }
        let is_parent = chars_range_eq(&v, start, n, "..");
        let is_dot = chars_range_eq(&v, start, n, ".");
        proof {
            reveal_strlit("..");
            reveal_strlit(".");
            assert(".."@ =~= parent_segment());
            assert("."@ =~= seq!['.']);
            done.lemma_filter_push(seg_ghost@, kept);
        }
        if is_parent {
            bad = true;
        }
        if !(n == start || is_dot) {
            proof {
                lemma_join_with_push(done.filter(kept), seg_ghost@, '/');
            }
            if !first {
                out.append("/");
                proof {
                    reveal_strlit("/");
                }
            }
            out.append(input.substring_char(start, n));
        }
        proof {
            assert(split_on(s, '/') == done.push(seg_ghost@));
            lemma_push_contains(done, seg_ghost@, parent_segment());
        }
        if bad || is_parent {
            return Err(PolicyError::InvalidPath);
        }
        proof {
            assert(out@ == join_with(kept_segments(s), '/'));
            lemma_relative_path_idempotent(s);
        }
        Ok(RelativePath(out))
    }

    /// The mount root.
    pub fn root() -> (r: RelativePath)
        ensures
            r@ == Seq::<char>::empty(),
    {
        proof {
            let e = Seq::<char>::empty();
            assert(split_on(e, '/') =~= seq![e]);
            reveal_with_fuel(Seq::filter, 2);
            assert(split_on(e, '/').filter(|g: Seq<char>| kept_segment(g)) =~= Seq::<
                Seq<char>,
            >::empty());
            assert(!split_on(e, '/').contains(parent_segment())) by {
                if split_on(e, '/').contains(parent_segment()) {
                    assert(split_on(e, '/')[0] == e);
                }
            }
        }
        RelativePath(String::new())
    }

    /// The normalised text; empty for the root.
    pub fn as_str(&self) -> (s: &str)
        ensures
            s@ == self@,
    {
        self.0.as_str()
    }

    /// Whether this is the mount root.
    pub fn is_root(&self) -> (r: bool)
        ensures
            r == (self@.len() == 0),
    {
        self.0.as_str().is_empty()
    }

    /// The displayed form: `/` for the root, the path otherwise.
    pub fn to_string(&self) -> (s: String)
        ensures
            s@ == (if self@.len() == 0 {
                "/"@
            } else {
                self@
            }),
    {
        if self.is_root() {
            "/".to_owned()
        } else {
            self.0.clone()
        }
    }

    /// Every relative path is its own normal form.
    pub fn is_normalized(&self) -> (r: bool)
        ensures
            r,
            relative_path_result(self@) == Some(self@),
    {
        proof {
            use_type_invariant(self);
        }
        true
    }

    /// Whether two paths are the same.
    pub fn same_as(&self, other: &RelativePath) -> (r: bool)
        ensures
            r == (self@ == other@),
    {
        self.0 == other.0
    }
}

impl Clone for RelativePath {
    fn clone(&self) -> (r: RelativePath)
        ensures
            r@ == self@,
    {
        proof {
            use_type_invariant(self);
        }
        RelativePath(self.0.clone())
    }
}

impl core::str::FromStr for RelativePath {
    type Err = PolicyError;

    fn from_str(input: &str) -> (r: Result<RelativePath, PolicyError>)
        ensures
            match relative_path_result(input@) {
                None => r == Err::<RelativePath, PolicyError>(PolicyError::InvalidPath),
                Some(p) => r matches Ok(rp) && rp@ == p,
            },
    {
        RelativePath::new(input)
    }
}

/// Whether `s` has `:/` starting at `i`.
pub open spec fn colon_slash_at(s: Seq<char>, i: int) -> bool {
    pair_at(s, i, ':', '/')
}

/// Whether `i` is the first place where `s` has `:/`.
pub open spec fn first_colon_slash_at(s: Seq<char>, i: int) -> bool {
    colon_slash_at(s, i) && forall|j: int| 0 <= j < i ==> !colon_slash_at(s, j)
}

/// Splits `<mount>:/<path>` at the first `:/`; refused when there is none, when the mount
/// part is not a valid name, or when the path part does not normalise.
pub open spec fn mount_path_result(s: Seq<char>) -> Option<(Seq<char>, Seq<char>)> {
    if exists|i: int| first_colon_slash_at(s, i) {
        let i = choose|i: int| first_colon_slash_at(s, i);
        let m = s.take(i);
        if !valid_mount_name(m) {
            None
        } else {
            match relative_path_result(s.skip(i + 2)) {
                None => None,
                Some(p) => Some((m, p)),
            }
        }
    } else {
        None
    }
}

/// The displayed form of a mount path.
pub open spec fn mount_path_text(mount: Seq<char>, relative: Seq<char>) -> Seq<char> {
    mount + seq![':', '/'] + relative
}

/// A path inside a named mount.
#[derive(Debug, Clone, PartialEq, Eq, Hash)]
pub struct MountPath {
    mount: MountName,
    relative: RelativePath,
}

impl View for MountPath {
    type V = (Seq<char>, Seq<char>);

    closed spec fn view(&self) -> (Seq<char>, Seq<char>) {
        (self.mount@, self.relative@)
    }
}

impl MountPath {
    /// Combines a mount name and a relative path.
    pub fn new(mount: MountName, relative: RelativePath) -> (p: MountPath)
        ensures
            p@ == (mount@, relative@),
    {
        MountPath { mount, relative }
    }

    /// Parses `<MountName>:/relative/path`.
    pub fn parse(input: &str) -> (r: Result<MountPath, PolicyError>)
        ensures
            match mount_path_result(input@) {
                None => r == Err::<MountPath, PolicyError>(PolicyError::InvalidPath),
                Some(p) => r matches Ok(mp) && mp@ == p,
            },
    {
        let v = chars_of(input);
        let ghost s = input@;
        let i = match find_pair(&v, ':', '/') {
            Some(i) => i,
            None => {
                proof {
                    assert forall|k: int| !first_colon_slash_at(s, k) by {
                        if first_colon_slash_at(s, k) {
                            assert(colon_slash_at(s, k));
                        }
                    }
                }
                return Err(PolicyError::InvalidPath);
            },
        };
        proof {
            assert(first_colon_slash_at(s, i as int));
            let c = choose|k: int| first_colon_slash_at(s, k);
            if c < i {
                assert(!colon_slash_at(s, c));
            }
            if c > i {
                assert(!colon_slash_at(s, i as int));
            }
            assert(c == i);
            assert(pair_at(v@, i as int, ':', '/'));
            assert(i + 2 <= v.len());
        }
        let mount_text = input.substring_char(0, i);
        let rest = input.substring_char(i + 2, v.len());
        proof {
            assert(s.subrange(0, i as int) =~= s.take(i as int));
            assert(s.subrange(i + 2, s.len() as int) =~= s.skip(i + 2));
        }
        let mount = match MountName::new(mount_text) {
            Ok(m) => m,
            Err(_) => {
                return Err(PolicyError::InvalidPath);
            },
        };
        let relative = RelativePath::new(rest)?;
        Ok(MountPath { mount, relative })
    }

    /// The mount part.
    pub fn mount(&self) -> (m: &MountName)
        ensures
            m@ == self@.0,
    {
        &self.mount
    }

    /// The path part.
    pub fn relative(&self) -> (r: &RelativePath)
        ensures
            r@ == self@.1,
    {
        &self.relative
    }

    /// The protocol form `<mount>:/<path>`.
    pub fn to_string(&self) -> (s: String)
        ensures
            s@ == mount_path_text(self@.0, self@.1),
    {
        let mut s = self.mount.to_string();
        s.append(":/");
        s.append(self.relative.as_str());
        proof {
            reveal_strlit(":/");
            assert(":/"@ =~= seq![':', '/']);
        }
        s
    }

    /// Whether two mount paths are the same.
    pub fn same_as(&self, other: &MountPath) -> (r: bool)
        ensures
            r == (self@ == other@),
    {
        self.mount.same_as(&other.mount) && self.relative.same_as(&other.relative)
    }

    /// The parts of every mount path are a valid name and a normalised path.
    pub fn is_well_formed(&self) -> (r: bool)
        ensures
            r,
            valid_mount_name(self@.0),
            relative_path_result(self@.1) == Some(self@.1),
    {
        self.mount.is_valid() && self.relative.is_normalized()
    }
}

impl core::str::FromStr for MountPath {
    type Err = PolicyError;

    fn from_str(input: &str) -> (r: Result<MountPath, PolicyError>)
        ensures
            match mount_path_result(input@) {
                None => r == Err::<MountPath, PolicyError>(PolicyError::InvalidPath),
                Some(p) => r matches Ok(mp) && mp@ == p,
            },
    {
        MountPath::parse(input)
    }
}

/// Parsing the displayed form of a mount path gives the same mount path back.
pub proof fn lemma_mount_path_round_trip(mount: Seq<char>, relative: Seq<char>)
    requires
        valid_mount_name(mount),
        relative_path_result(relative) == Some(relative),
    ensures
        mount_path_result(mount_path_text(mount, relative)) == Some((mount, relative)),
{
    let s = mount_path_text(mount, relative);
    let i = mount.len() as int;
    lemma_mount_name_valid_is_ascii(mount);
    assert(colon_slash_at(s, i));
    assert forall|j: int| 0 <= j < i implies !colon_slash_at(s, j) by {
        if s[j] == ':' {
            assert(mount[j] == ':');
            assert(mount.contains(':'));
        }
    }
    assert(first_colon_slash_at(s, i));
    let c = choose|k: int| first_colon_slash_at(s, k);
    if c < i {
        assert(!colon_slash_at(s, c));
    }
    if c > i {
        assert(!colon_slash_at(s, i));
    }
    assert(s.take(i) =~= mount);
    assert(s.skip(i + 2) =~= relative);
}

} // verus!
