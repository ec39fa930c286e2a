use vstd::prelude::*;

use crate::cli::Cli;
use crate::filetypes::{law_excluded_types_are_negated_includes, type_globs, type_to_globs};
use crate::text::{lemma_strs_push, lemma_strs_take_all, lemma_strs_take_push, strs};

verus! {

/// `globset::Glob`, a compiled glob, opaque here.
#[verifier::external_type_specification]
#[verifier::external_body]
pub struct ExGlob(globset::Glob);

/// `globset::GlobSet`; what it holds is named by `set_globs`.
#[verifier::external_type_specification]
#[verifier::external_body]
pub struct ExGlobSet(globset::GlobSet);

/// `globset::GlobSetBuilder`; what it holds is named by `builder_globs`.
#[verifier::external_type_specification]
#[verifier::external_body]
pub struct ExGlobSetBuilder(globset::GlobSetBuilder);

/// Whether `globset::Glob::new` accepts a glob pattern.
pub uninterp spec fn glob_accepts(glob: Seq<char>) -> bool;

/// The message (`Display`) of the error `globset::Glob::new` gives for a
/// glob pattern it rejects.
pub uninterp spec fn glob_error_text(glob: Seq<char>) -> Seq<char>;

/// The message (`Display`) of the error `GlobSetBuilder::build` gives for
/// patterns it cannot build a set from.
pub uninterp spec fn globs_build_error_text(globs: Seq<Seq<char>>) -> Seq<char>;

/// Whether the glob pattern `glob`, compiled with the default options of
/// `globset::Glob::new`, matches `path` as `GlobSet::is_match` is handed it.
/// This is globset's behaviour on the target the crate is built for: on
/// Unix the path is matched as given and `\` in a pattern escapes; on
/// Windows globset first turns each `\` of the path into `/`, and `\` in a
/// pattern is a separator.
pub uninterp spec fn glob_matches(glob: Seq<char>, path: Seq<char>) -> bool;

/// The glob patterns added to a builder, in order.
pub uninterp spec fn builder_globs(b: globset::GlobSetBuilder) -> Seq<Seq<char>>;

/// The glob patterns a set was built from, in order.
pub uninterp spec fn set_globs(s: globset::GlobSet) -> Seq<Seq<char>>;

/// Whether `GlobSetBuilder::build` succeeds for these patterns (it fails
/// when the combined matcher exceeds the regex size limits).
pub uninterp spec fn globs_build(globs: Seq<Seq<char>>) -> bool;

/// A compiled glob together with the pattern text it was compiled from.
/// Values are only made by `GlobPattern::new`, which keeps the two in step.
pub struct GlobPattern {
    text: String,
    glob: globset::Glob,
}

impl GlobPattern {
    /// The pattern text this glob was compiled from.
    pub closed spec fn source(&self) -> Seq<char> {
        self.text@
    }

    /// Compiles `pattern` with `globset::Glob::new`, its error turned into
    /// its message.
    /// Claimed: it succeeds exactly when `glob_accepts(pattern)`, the glob it
    /// gives has `pattern` as its source, and the message is
    /// `glob_error_text(pattern)`.
    #[verifier::external_body]
    fn new(pattern: &str) -> (r: Result<GlobPattern, String>)
        ensures
            r is Ok <==> glob_accepts(pattern@),
            r matches Ok(g) ==> g.source() == pattern@,
            r matches Err(msg) ==> msg@ == glob_error_text(pattern@),
    {
        match globset::Glob::new(pattern) {
            Ok(glob) => Ok(GlobPattern { text: pattern.to_string(), glob }),
            Err(e) => Err(e.to_string()),
        }
    }
}

/// A `globset::GlobSet` built by `build_set` from globs compiled by
/// `GlobPattern::new`, that is with `Glob::new`'s default options.  Values
/// are only made by `build_set`, so every set held here is of that kind.
pub struct GlobMatcher {
    set: globset::GlobSet,
}

impl GlobMatcher {
    /// The glob patterns this set was built from, in order.
    pub closed spec fn globs(&self) -> Seq<Seq<char>> {
        set_globs(self.set)
    }

    /// Whether the set holds no glob.
    pub fn is_empty(&self) -> (r: bool)
        ensures
            r == (self.globs().len() == 0),
    {
        set_is_empty(self)
    }
}

/// An empty builder, by `globset::GlobSetBuilder::new`.
/// Claimed: it holds no pattern.
#[verifier::external_body]
fn new_builder() -> (b: globset::GlobSetBuilder)
    ensures
        builder_globs(b) == Seq::<Seq<char>>::empty(),
{
    globset::GlobSetBuilder::new()
}

/// Adds a glob to a builder, by `GlobSetBuilder::add`.
/// Claimed: the glob's pattern is appended to the builder's patterns.
#[verifier::external_body]
fn add_glob(b: &mut globset::GlobSetBuilder, g: GlobPattern)
    ensures
        builder_globs(*final(b)) == builder_globs(*old(b)).push(g.source()),
{
    b.add(g.glob);
}

/// Builds a set from a builder, by `GlobSetBuilder::build`, its error
/// turned into its message.
/// Claimed: it succeeds exactly when `globs_build` of the builder's
/// patterns, the set holds those patterns in order, and the message is
/// `globs_build_error_text` of the patterns.
#[verifier::external_body]
fn build_set(b: &globset::GlobSetBuilder) -> (r: Result<GlobMatcher, String>)
    ensures
        r is Ok <==> globs_build(builder_globs(*b)),
        r matches Ok(m) ==> set_globs(m.set) == builder_globs(*b),
        r matches Err(msg) ==> msg@ == globs_build_error_text(builder_globs(*b)),
{
    match b.build() {
        Ok(set) => Ok(GlobMatcher { set }),
        Err(e) => Err(e.to_string()),
    }
}

/// Whether a set holds no pattern, by `GlobSet::is_empty`.
/// Claimed: true exactly when its pattern list is empty.
#[verifier::external_body]
fn set_is_empty(m: &GlobMatcher) -> (r: bool)
    ensures
        r == (set_globs(m.set).len() == 0),
{
    m.set.is_empty()
}

/// Whether some glob of the set matches `path`, by `GlobSet::is_match`.
/// Claimed: true exactly when some pattern of the set matches the path, in
/// the sense of `glob_matches` (which takes in globset's handling of path
/// separators on the build target).
#[verifier::external_body]
fn set_is_match(m: &GlobMatcher, path: &str) -> (r: bool)
    ensures
        r == (exists|i: int| 0 <= i < set_globs(m.set).len() && glob_matches(#[trigger] set_globs(m.set)[i], path@)),
{
    m.set.is_match(path)
}

/// Whether some glob of `globs` matches `path`.
pub open spec fn any_glob_matches(globs: Seq<Seq<char>>, path: Seq<char>) -> bool {
    exists|i: int| 0 <= i < globs.len() && glob_matches(#[trigger] globs[i], path)
}

/// Whether a glob argument is an exclusion (it starts with `!`).
pub open spec fn is_negated(g: Seq<char>) -> bool {
    g.len() > 0 && g[0] == '!'
}

/// The glob text an argument stands for: without its `!` if negated.
pub open spec fn glob_text(g: Seq<char>) -> Seq<char> {
    if is_negated(g) {
        g.drop_first()
    } else {
        g
    }
}

/// The globs that select files, in order: the arguments without `!`.
pub open spec fn positive_globs(globs: Seq<Seq<char>>) -> Seq<Seq<char>>
    decreases globs.len(),
{
    if globs.len() == 0 {
        seq![]
    } else if is_negated(globs.last()) {
        positive_globs(globs.drop_last())
    } else {
        positive_globs(globs.drop_last()).push(globs.last())
    }
}

/// The globs that exclude files, in order: the arguments with `!`, without it.
pub open spec fn negated_globs(globs: Seq<Seq<char>>) -> Seq<Seq<char>>
    decreases globs.len(),
{
    if globs.len() == 0 {
        seq![]
    } else if is_negated(globs.last()) {
        negated_globs(globs.drop_last()).push(globs.last().drop_first())
    } else {
        negated_globs(globs.drop_last())
    }
}

/// Whether `build_glob_set` succeeds for these arguments: every glob text
/// compiles, and both sets build.
pub open spec fn glob_sets_ok(globs: Seq<Seq<char>>) -> bool {
    &&& forall|i: int| 0 <= i < globs.len() ==> glob_accepts(glob_text(#[trigger] globs[i]))
    &&& globs_build(positive_globs(globs))
    &&& globs_build(negated_globs(globs))
}

proof fn lemma_split_step(globs: Seq<Seq<char>>, i: int)
    requires
        0 <= i < globs.len(),
    ensures
        positive_globs(globs.take(i + 1)) == if is_negated(globs[i]) {
            positive_globs(globs.take(i))
        } else {
            positive_globs(globs.take(i)).push(globs[i])
        },
        negated_globs(globs.take(i + 1)) == if is_negated(globs[i]) {
            negated_globs(globs.take(i)).push(globs[i].drop_first())
        } else {
            negated_globs(globs.take(i))
        },
{
    assert(globs.take(i + 1).drop_last() =~= globs.take(i));
}

/// The message `build_glob_set` fails with, when it fails: that of the first
/// glob that does not compile, else that of the selecting set if it does
/// not build, else that of the excluding set.
pub open spec fn glob_sets_error(globs: Seq<Seq<char>>, msg: Seq<char>) -> bool {
    ||| exists|j: int|
        0 <= j < globs.len() && !glob_accepts(glob_text(#[trigger] globs[j])) && (forall|k: int|
            0 <= k < j ==> glob_accepts(glob_text(globs[k]))) && msg == glob_error_text(glob_text(globs[j]))
    ||| (forall|k: int| 0 <= k < globs.len() ==> glob_accepts(glob_text(#[trigger] globs[k])))
        && !globs_build(positive_globs(globs)) && msg == globs_build_error_text(positive_globs(globs))
    ||| (forall|k: int| 0 <= k < globs.len() ==> glob_accepts(glob_text(#[trigger] globs[k])))
        && globs_build(positive_globs(globs)) && !globs_build(negated_globs(globs)) && msg
        == globs_build_error_text(negated_globs(globs))
}

/// Compiles the glob arguments into two sets: the globs that select files,
/// and the globs (given with a leading `!`) that exclude them.  Fails with
/// the library's message for the first glob that does not compile, or for a
/// set that does not build (see `glob_sets_error`).
pub fn build_glob_set(globs: &[String]) -> (r: Result<(GlobMatcher, GlobMatcher), String>)
    ensures
        r is Ok <==> glob_sets_ok(strs(globs@)),
        r matches Err(msg) ==> glob_sets_error(strs(globs@), msg@),
        r matches Ok(sets) ==> sets.0.globs() == positive_globs(strs(globs@)) && sets.1.globs()
            == negated_globs(strs(globs@)),
{
    let ghost all = strs(globs@);
    let mut wanted = new_builder();
    let mut unwanted = new_builder();
    let mut i: usize = 0;
    while i < globs.len()
        invariant
            i <= globs.len(),
            all == strs(globs@),
            forall|k: int| 0 <= k < i ==> glob_accepts(glob_text(#[trigger] all[k])),
            builder_globs(wanted) == positive_globs(all.take(i as int)),
            builder_globs(unwanted) == negated_globs(all.take(i as int)),
        decreases globs.len() - i,
    {
        proof {
            lemma_split_step(all, i as int);
            assert(all[i as int] == globs@[i as int]@);
        }
        let g = globs[i].as_str();
        let n = g.unicode_len();
        if n > 0 && g.get_char(0) == '!' {
            let stripped = g.substring_char(1, n);
            assert(stripped@ =~= all[i as int].drop_first());
            match GlobPattern::new(stripped) {
                Ok(pattern) => add_glob(&mut unwanted, pattern),
                Err(msg) => {
                    assert(!glob_accepts(glob_text(all[i as int])));
                    return Err(msg);
                },
            }
        } else {
            match GlobPattern::new(g) {
                Ok(pattern) => add_glob(&mut wanted, pattern),
                Err(msg) => {
                    assert(!glob_accepts(glob_text(all[i as int])));
                    return Err(msg);
                },
            }
        }
        i = i + 1;
    }
    proof {
        assert(all.take(globs.len() as int) =~= all);
    }
    let wanted_set = match build_set(&wanted) {
        Ok(s) => s,
        Err(msg) => {
            return Err(msg);
        },
    };
    let unwanted_set = match build_set(&unwanted) {
        Ok(s) => s,
        Err(msg) => {
            return Err(msg);
        },
    };
    Ok((wanted_set, unwanted_set))
}

/// Whether a path gets past the glob filters: no exclusion glob matches it,
/// and, if there are selecting globs, one of them matches it.
pub open spec fn globs_admit(path: Seq<char>, wanted: Seq<Seq<char>>, unwanted: Seq<Seq<char>>) -> bool {
    &&& !(unwanted.len() > 0 && any_glob_matches(unwanted, path))
    &&& !(wanted.len() > 0 && !any_glob_matches(wanted, path))
}

/// Whether `path` gets past the glob sets built by `build_glob_set`, if any
/// (see `globs_admit`).
pub fn path_passes_globs(path: &str, sets: &Option<(GlobMatcher, GlobMatcher)>) -> (r: bool)
    ensures
        r == match sets {
            Some(s) => globs_admit(path@, s.0.globs(), s.1.globs()),
            None => true,
        },
{
    match sets {
        Some((wanted, unwanted)) => {
            if !set_is_empty(unwanted) && set_is_match(unwanted, path) {
                return false;
            }
            if !set_is_empty(wanted) && !set_is_match(wanted, path) {
                return false;
            }
            true
        },
        None => true,
    }
}

/// All glob arguments of a search: the `--glob` values, then the globs of
/// the `--type` names, then the negated globs of the `--type-not` names.
pub open spec fn all_globs(cli: Cli) -> Seq<Seq<char>> {
    strs(cli.globs@) + type_globs(strs(cli.types@), true) + type_globs(strs(cli.types_not@), false)
}

fn append_strings(out: &mut Vec<String>, more: Vec<String>)
    ensures
        strs(final(out)@) == strs(old(out)@) + strs(more@),
{
    let ghost start = strs(out@);
    let mut i: usize = 0;
    while i < more.len()
        invariant
            i <= more.len(),
            strs(out@) == start + strs(more@.take(i as int)),
        decreases more.len() - i,
    {
        proof {
            lemma_strs_take_push(more@, i as int);
            lemma_strs_push(out@, more@[i as int]);
        }
        out.push(more[i].clone());
        i = i + 1;
    }
    proof {
        lemma_strs_take_all(more@);
    }
}

/// Gathers all glob arguments of a search (see `all_globs`).
pub fn collect_globs(cli: &Cli) -> (r: Vec<String>)
    ensures
        strs(r@) == all_globs(*cli),
{
    let mut out: Vec<String> = Vec::new();
    append_strings(&mut out, cli.globs.clone());
    append_strings(&mut out, type_to_globs(cli.types.as_slice(), true));
    append_strings(&mut out, type_to_globs(cli.types_not.as_slice(), false));
    assert(strs(out@) =~= all_globs(*cli));
    out
}


proof fn lemma_bang_globs_split(g: Seq<Seq<char>>)
    ensures
        positive_globs(g.map_values(|x: Seq<char>| "!"@ + x)) == Seq::<Seq<char>>::empty(),
        negated_globs(g.map_values(|x: Seq<char>| "!"@ + x)) == g,
    decreases g.len(),
{
    reveal_strlit("!");
    let m = g.map_values(|x: Seq<char>| "!"@ + x);
    if g.len() > 0 {
        lemma_bang_globs_split(g.drop_last());
        assert(m.drop_last() =~= g.drop_last().map_values(|x: Seq<char>| "!"@ + x));
        assert(m.last() == "!"@ + g.last());
        assert(("!"@ + g.last())[0] == '!');
        assert(("!"@ + g.last()).drop_first() =~= g.last());
        assert(negated_globs(m) =~= g);
    } else {
        assert(negated_globs(m) =~= g);
    }
}

/// Every glob that `--type-not` contributes is an exclusion: among the
/// arguments `type_to_globs(types, false)`, none selects files, and the
/// excluding globs are exactly the globs of those types.
pub proof fn law_type_not_globs_only_exclude(types: Seq<Seq<char>>)
    ensures
        positive_globs(type_globs(types, false)) == Seq::<Seq<char>>::empty(),
        negated_globs(type_globs(types, false)) == type_globs(types, true),
{
    law_excluded_types_are_negated_includes(types);
    lemma_bang_globs_split(type_globs(types, true));
}


/// Exclusion wins: a path that some exclusion glob matches is never let
/// through, whatever the selecting globs say.
pub proof fn law_exclusion_wins(path: Seq<char>, wanted: Seq<Seq<char>>, unwanted: Seq<Seq<char>>)
    requires
        any_glob_matches(unwanted, path),
    ensures
        !globs_admit(path, wanted, unwanted),
{
}

/// With no glob at all, every path is let through.
pub proof fn law_no_globs_admit_all(path: Seq<char>)
    ensures
        globs_admit(path, Seq::<Seq<char>>::empty(), Seq::<Seq<char>>::empty()),
{
}

} // verus!
