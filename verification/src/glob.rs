//! Glob matching through `globset`, as mount policies and name searches use it: single
//! patterns, and sets of patterns that match when one of them does.
use vstd::prelude::*;

verus! {

/// `globset::Glob`, a parsed pattern.
#[verifier::external_type_specification]
#[verifier::external_body]
pub struct ExGlob(globset::Glob);

/// `globset::GlobSetBuilder`, patterns gathered for a set.
#[verifier::external_type_specification]
#[verifier::external_body]
pub struct ExGlobSetBuilder(globset::GlobSetBuilder);

/// `globset::GlobSet`, a set of patterns compiled together.
#[verifier::external_type_specification]
#[verifier::external_body]
pub struct ExGlobSet(globset::GlobSet);

/// The message of the error with which `globset` refuses `glob` as a pattern
/// (`Glob::new(glob)`), if it refuses it.
pub uninterp spec fn glob_parse_error(glob: Seq<char>) -> Option<Seq<char>>;

/// Whether `globset` accepts `glob` as a pattern.
pub open spec fn glob_parses(glob: Seq<char>) -> bool {
    glob_parse_error(glob) is None
}

/// Whether the pattern `glob`, compiled by `globset`, matches `path`.
pub uninterp spec fn glob_matches(glob: Seq<char>, path: Seq<char>) -> bool;

/// The message of the error with which `GlobSetBuilder::build` refuses the patterns `globs`,
/// if it refuses them.
pub uninterp spec fn glob_set_build_error(globs: Seq<Seq<char>>) -> Option<Seq<char>>;

/// The characters of each string.
pub open spec fn views_of(v: Seq<String>) -> Seq<Seq<char>> {
    v.map_values(|s: String| s@)
}

/// Whether any of `globs` matches `path`.
pub open spec fn any_glob_matches(globs: Seq<Seq<char>>, path: Seq<char>) -> bool {
    exists|i: int| 0 <= i < globs.len() && glob_matches(#[trigger] globs[i], path)
}

/// `Glob::new` from `globset`: the parsed pattern, or the message of the error with which
/// it refuses the text.
#[verifier::external_body]
fn parse_glob(pattern: &str) -> (r: Result<globset::Glob, String>)
    ensures
        match glob_parse_error(pattern@) {
            Some(m) => r matches Err(e) && e@ == m,
            None => r is Ok,
        },
{
    globset::Glob::new(pattern).map_err(|error| error.to_string())
}

/// `GlobSetBuilder::new` from `globset`; nothing is stated of the builder here (see
/// `build_glob_set`).
#[verifier::external_body]
fn new_glob_set_builder() -> globset::GlobSetBuilder {
    globset::GlobSetBuilder::new()
}

/// `GlobSetBuilder::add` from `globset`; nothing is stated of the builder here (see
/// `build_glob_set`).
#[verifier::external_body]
fn add_to_glob_set_builder(builder: &mut globset::GlobSetBuilder, glob: globset::Glob) {
    builder.add(glob);
}

/// A pattern that `globset` parsed.
#[derive(Debug)]
pub struct GlobPattern {
    pattern: String,
    glob: globset::Glob,
}

/// A pattern compiled for matching single paths: a set of that one pattern.
#[derive(Debug)]
pub struct GlobNameMatcher {
    pattern: String,
    set: GlobPatternSet,
}

/// Patterns gathered, in order, to be compiled into a set.
#[derive(Debug)]
pub struct GlobList {
    patterns: Vec<String>,
    builder: globset::GlobSetBuilder,
}

/// A set of patterns compiled together.
#[derive(Debug)]
pub struct GlobPatternSet {
    patterns: Vec<String>,
    set: globset::GlobSet,
}

/// `GlobSetBuilder::build` from `globset`, on the builder to which `GlobList::add` added
/// the list's patterns in order (the only way patterns reach it): the set, or the message
/// of the error with which it refuses those patterns.
#[verifier::external_body]
fn build_glob_set(list: &GlobList) -> (r: Result<globset::GlobSet, String>)
    ensures
        match glob_set_build_error(list.patterns()) {
            Some(m) => r matches Err(e) && e@ == m,
            None => r is Ok,
        },
{
    list.builder.build().map_err(|error| error.to_string())
}

/// `GlobSet::is_match` from `globset`, on the set that `GlobList::build` compiled from the
/// set's patterns (the only way a `GlobPatternSet` is made): as `globset` documents it, the
/// set matches `path` when one of its patterns does.
#[verifier::external_body]
fn set_is_match(s: &GlobPatternSet, path: &str) -> (r: bool)
    ensures
        r == (exists|i: int| 0 <= i < s.patterns().len() && glob_matches(#[trigger] s.patterns()[i], path@)),
{
    s.set.is_match(path)
}

impl GlobPattern {
    /// The pattern's text.
    pub closed spec fn pattern(&self) -> Seq<char> {
        self.pattern@
    }

    /// Parses `pattern`; a pattern that `globset` refuses is reported with the reason.
    pub fn new(pattern: &str) -> (r: Result<GlobPattern, String>)
        ensures
            match glob_parse_error(pattern@) {
                Some(m) => r matches Err(e) && e@ == m,
                None => r matches Ok(g) && g.pattern() == pattern@,
            },
    {
        match parse_glob(pattern) {
            Ok(glob) => Ok(GlobPattern { pattern: pattern.to_owned(), glob }),
            Err(message) => Err(message),
        }
    }

    /// The pattern compiled for matching single paths. Compiling can fail where parsing did
    /// not (the compiled form of a long pattern can exceed `globset`'s size limit); such a
    /// pattern is reported with the reason.
    pub fn matcher(self) -> (r: Result<GlobNameMatcher, String>)
        ensures
            match glob_set_build_error(seq![self.pattern()]) {
                Some(m) => r matches Err(e) && e@ == m,
                None => r matches Ok(g) && g.pattern() == self.pattern(),
            },
    {
        let pattern = self.pattern.clone();
        let ghost p = self.pattern();
        let mut list = GlobList::new();
        list.add(self);
        proof {
            assert(list.patterns() =~= seq![p]);
        }
        match list.build() {
            Ok(set) => Ok(GlobNameMatcher { pattern, set }),
            Err(message) => Err(message),
        }
    }
}

impl GlobNameMatcher {
    #[verifier::type_invariant]
    closed spec fn holds_its_pattern(self) -> bool {
        self.set.patterns() == seq![self.pattern@]
    }

    /// The pattern's text.
    pub closed spec fn pattern(&self) -> Seq<char> {
        self.pattern@
    }

    /// Whether the pattern matches `path`.
    pub fn is_match(&self, path: &str) -> (r: bool)
        ensures
            r == glob_matches(self.pattern(), path@),
    {
        proof {
            use_type_invariant(self);
        }
        let r = self.set.is_match(path);
        proof {
            let ps = self.set.patterns();
            if glob_matches(self.pattern(), path@) {
                assert(glob_matches(ps[0], path@));
            }
        }
        r
    }
}

impl GlobList {
    /// The patterns gathered, in order.
    pub closed spec fn patterns(&self) -> Seq<Seq<char>> {
        views_of(self.patterns@)
    }

    /// A list with no patterns.
    pub fn new() -> (l: GlobList)
        ensures
            l.patterns() == Seq::<Seq<char>>::empty(),
    {
        let l = GlobList { patterns: Vec::new(), builder: new_glob_set_builder() };
        proof {
            assert(l.patterns() =~= Seq::<Seq<char>>::empty());
        }
        l
    }

    /// Adds a pattern at the end.
    pub fn add(&mut self, glob: GlobPattern)
        ensures
            final(self).patterns() == old(self).patterns().push(glob.pattern()),
    {
        add_to_glob_set_builder(&mut self.builder, glob.glob);
        let ghost before = self.patterns@;
        self.patterns.push(glob.pattern);
        proof {
            assert(views_of(self.patterns@) =~= views_of(before).push(glob.pattern()));
        }
    }

    /// Compiles the patterns into a set; a refused set is reported with the reason.
    pub fn build(self) -> (r: Result<GlobPatternSet, String>)
        ensures
            match glob_set_build_error(self.patterns()) {
                Some(m) => r matches Err(e) && e@ == m,
                None => r matches Ok(s) && s.patterns() == self.patterns(),
            },
    {
        match build_glob_set(&self) {
            Ok(set) => Ok(GlobPatternSet { patterns: self.patterns, set }),
            Err(message) => Err(message),
        }
    }
}

impl GlobPatternSet {
    /// The patterns of the set, in order.
    pub closed spec fn patterns(&self) -> Seq<Seq<char>> {
        views_of(self.patterns@)
    }

    /// Whether one of the patterns matches `path`.
    pub fn is_match(&self, path: &str) -> (r: bool)
        ensures
            r == any_glob_matches(self.patterns(), path@),
    {
        set_is_match(self, path)
    }
}

} // verus!
