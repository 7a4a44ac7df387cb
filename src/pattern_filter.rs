use vstd::prelude::*;

use crate::source_file::SourceFile;

verus! {

/// Whether `glob::Pattern::new` accepts `pattern`.
pub uninterp spec fn glob_valid(pattern: Seq<char>) -> bool;

/// Whether the glob compiled from `pattern` matches `text` under the default
/// options (`glob::Pattern::matches`).
pub uninterp spec fn glob_match(pattern: Seq<char>, text: Seq<char>) -> bool;

#[verifier::external_type_specification]
#[verifier::external_body]
pub struct ExPattern(glob::Pattern);

#[verifier::external_type_specification]
#[verifier::external_body]
pub struct ExPatternError(glob::PatternError);

/// A compiled glob pattern. Only `compile_glob` builds one, so `compiled` is
/// always the compiled form of `text`.
pub struct Glob {
    text: String,
    compiled: glob::Pattern,
}

impl Glob {
    /// The pattern text this glob was compiled from.
    pub closed spec fn source(&self) -> Seq<char> {
        self.text@
    }
}

/// Relies on `glob::Pattern::new`: it succeeds exactly on the patterns it
/// accepts.
#[verifier::external_body]
fn compile_glob(pattern: &str) -> (r: Result<Glob, glob::PatternError>)
    ensures
        r is Ok <==> glob_valid(pattern@),
        r matches Ok(g) ==> g.source() == pattern@,
{
    match glob::Pattern::new(pattern) {
        Ok(compiled) => Ok(Glob { text: pattern.to_string(), compiled }),
        Err(e) => Err(e),
    }
}

/// Relies on `glob::Pattern::matches`: whether the glob matches `text`.
#[verifier::external_body]
fn glob_matches(g: &Glob, text: &str) -> (r: bool)
    ensures
        r == glob_match(g.source(), text@),
{
    g.compiled.matches(text)
}

/// What a glob is matched against: the whole path, or its file name only.
#[derive(Clone, Copy, Debug, PartialEq, Eq, Structural)]
pub enum GlobTarget {
    FullPath,
    FileName,
}

/// A configuration error of the pattern filter.
#[derive(Debug, PartialEq, Eq)]
pub enum FilterError {
    /// The glob pattern is not valid.
    InvalidPattern(String),
}

/// Where the file name of `path` starts: just after its last `'/'`, or at 0.
pub open spec fn name_start(path: Seq<char>) -> int
    decreases path.len(),
{
    if path.len() == 0 {
        0
    } else if path.last() == '/' {
        path.len() as int
    } else {
        name_start(path.drop_last())
    }
}

proof fn lemma_name_start_bounds(path: Seq<char>)
    ensures
        0 <= name_start(path) <= path.len(),
    decreases path.len(),
{
    if path.len() > 0 {
        lemma_name_start_bounds(path.drop_last());
    }
}

/// The file name of `path`: the text after its last `'/'`.
pub open spec fn file_name(path: Seq<char>) -> Seq<char> {
    path.subrange(name_start(path), path.len() as int)
}

/// The text that a glob is matched against.
pub open spec fn target_text(target: GlobTarget, path: Seq<char>) -> Seq<char> {
    match target {
        GlobTarget::FullPath => path,
        GlobTarget::FileName => file_name(path),
    }
}

/// The texts of a list of patterns.
pub open spec fn pattern_texts(patterns: Seq<String>) -> Seq<Seq<char>> {
    patterns.map_values(|p: String| p@)
}

/// The patterns that an optional list resolves to: none where it is absent.
pub open spec fn resolved(patterns: Option<Vec<String>>) -> Seq<Seq<char>> {
    match patterns {
        Some(v) => pattern_texts(v@),
        None => seq![],
    }
}

/// For each pattern, whether it matches `text`.
pub open spec fn match_hits(patterns: Seq<Seq<char>>, text: Seq<char>) -> Seq<bool> {
    patterns.map_values(|p: Seq<char>| glob_match(p, text))
}

/// The filter's rule on the outcome of each pattern: a file is kept where
/// some inclusion pattern matched it (any file is, where there is none) and
/// no exclusion pattern did.
pub open spec fn rule_keeps(inclusion_hits: Seq<bool>, exclusion_hits: Seq<bool>) -> bool {
    (inclusion_hits.len() == 0 || inclusion_hits.contains(true)) && !exclusion_hits.contains(
        true,
    )
}

/// Whether a file is kept: it matches at least one inclusion pattern (any
/// file does where there is none) and no exclusion pattern.
pub open spec fn selected(
    inclusions: Seq<Seq<char>>,
    exclusions: Seq<Seq<char>>,
    target: GlobTarget,
    path: Seq<char>,
) -> bool {
    let t = target_text(target, path);
    rule_keeps(match_hits(inclusions, t), match_hits(exclusions, t))
}

/// The paths that are kept, in their order.
pub open spec fn selected_paths(
    inclusions: Seq<Seq<char>>,
    exclusions: Seq<Seq<char>>,
    target: GlobTarget,
    paths: Seq<String>,
) -> Seq<String>
    decreases paths.len(),
{
    if paths.len() == 0 {
        seq![]
    } else {
        let rest = selected_paths(inclusions, exclusions, target, paths.drop_last());
        if selected(inclusions, exclusions, target, paths.last()@) {
            rest.push(paths.last())
        } else {
            rest
        }
    }
}

/// The files whose paths are kept, in their order.
pub open spec fn selected_files(
    inclusions: Seq<Seq<char>>,
    exclusions: Seq<Seq<char>>,
    target: GlobTarget,
    files: Seq<SourceFile>,
) -> Seq<SourceFile>
    decreases files.len(),
{
    if files.len() == 0 {
        seq![]
    } else {
        let rest = selected_files(inclusions, exclusions, target, files.drop_last());
        if selected(inclusions, exclusions, target, files.last().path@) {
            rest.push(files.last())
        } else {
            rest
        }
    }
}

/// The index of the first pattern that does not compile, if any.
#[verifier::opaque]
pub open spec fn first_invalid(patterns: Seq<Seq<char>>) -> Option<int> {
    if exists|i: int| 0 <= i < patterns.len() && !glob_valid(#[trigger] patterns[i]) {
        Some(
            choose|i: int|
                0 <= i < patterns.len() && !glob_valid(#[trigger] patterns[i]) && forall|j: int|
                    0 <= j < i ==> glob_valid(#[trigger] patterns[j]),
        )
    } else {
        None
    }
}

proof fn lemma_first_invalid(patterns: Seq<Seq<char>>)
    ensures
        first_invalid(patterns) matches Some(k) ==> 0 <= k < patterns.len() && !glob_valid(
            patterns[k],
        ) && forall|j: int| 0 <= j < k ==> glob_valid(#[trigger] patterns[j]),
        first_invalid(patterns) is None ==> forall|j: int|
            0 <= j < patterns.len() ==> glob_valid(#[trigger] patterns[j]),
{
    reveal(first_invalid);
    if exists|i: int| 0 <= i < patterns.len() && !glob_valid(#[trigger] patterns[i]) {
        let i = choose|i: int| 0 <= i < patterns.len() && !glob_valid(#[trigger] patterns[i]);
        lemma_least_invalid(patterns, i);
    }
}

proof fn lemma_least_invalid(patterns: Seq<Seq<char>>, i: int)
    requires
        0 <= i < patterns.len(),
        !glob_valid(patterns[i]),
    ensures
        exists|k: int|
            0 <= k < patterns.len() && !glob_valid(#[trigger] patterns[k]) && forall|j: int|
                0 <= j < k ==> glob_valid(#[trigger] patterns[j]),
    decreases i,
{
    if forall|j: int| 0 <= j < i ==> glob_valid(#[trigger] patterns[j]) {
        assert(!glob_valid(patterns[i]));
    } else {
        let j = choose|j: int| 0 <= j < i && !glob_valid(#[trigger] patterns[j]);
        lemma_least_invalid(patterns, j);
    }
}

proof fn lemma_first_invalid_is(patterns: Seq<Seq<char>>, k: int)
    requires
        0 <= k < patterns.len(),
        !glob_valid(patterns[k]),
        forall|j: int| 0 <= j < k ==> glob_valid(#[trigger] patterns[j]),
    ensures
        first_invalid(patterns) == Some(k),
{
    lemma_first_invalid(patterns);
    let f = first_invalid(patterns)->Some_0;
    if f < k {
        assert(glob_valid(patterns[f]));
    }
    if f > k {
        assert(!glob_valid(patterns[k]));
    }
}

proof fn lemma_first_invalid_concat(a: Seq<Seq<char>>, b: Seq<Seq<char>>)
    ensures
        first_invalid(a + b) == match first_invalid(a) {
            Some(i) => Some(i),
            None => match first_invalid(b) {
                Some(j) => Some(a.len() + j),
                None => None,
            },
        },
{
    lemma_first_invalid(a);
    lemma_first_invalid(b);
    let ab = a + b;
    if let Some(i) = first_invalid(a) {
        assert forall|j: int| 0 <= j < i implies glob_valid(#[trigger] ab[j]) by {
            assert(ab[j] == a[j]);
        }
        assert(ab[i] == a[i]);
        lemma_first_invalid_is(ab, i);
    } else if let Some(j) = first_invalid(b) {
        assert forall|m: int| 0 <= m < a.len() + j implies glob_valid(#[trigger] ab[m]) by {
            if m < a.len() {
                assert(ab[m] == a[m]);
            } else {
                assert(ab[m] == b[m - a.len()]);
            }
        }
        assert(ab[a.len() + j] == b[j]);
        lemma_first_invalid_is(ab, a.len() + j);
    } else {
        lemma_first_invalid(ab);
        if let Some(k) = first_invalid(ab) {
            if k < a.len() {
                assert(ab[k] == a[k]);
            } else {
                assert(ab[k] == b[k - a.len()]);
            }
        }
    }
}

/// The sources of a list of compiled globs.
pub open spec fn glob_sources(globs: Seq<Glob>) -> Seq<Seq<char>> {
    globs.map_values(|g: Glob| g.source())
}

/// Compiles every pattern, or names the first one that is not valid.
fn compile_all(patterns: &Vec<String>) -> (r: Result<Vec<Glob>, String>)
    ensures
        r is Ok <==> first_invalid(pattern_texts(patterns@)) is None,
        r matches Ok(gs) ==> glob_sources(gs@) == pattern_texts(patterns@),
        r matches Err(p) ==> first_invalid(pattern_texts(patterns@)) matches Some(i) && p
            == patterns@[i],
{
    let ghost texts = pattern_texts(patterns@);
    proof {
        lemma_first_invalid(texts);
    }
    let mut globs: Vec<Glob> = Vec::new();
    for i in 0..patterns.len()
        invariant
            texts == pattern_texts(patterns@),
            texts.len() == patterns@.len(),
            globs@.len() == i,
            glob_sources(globs@) == texts.take(i as int),
            forall|j: int| 0 <= j < i ==> glob_valid(#[trigger] texts[j]),
    {
        match compile_glob(patterns[i].as_str()) {
            Ok(g) => {
                let ghost before = globs@;
                assert(texts[i as int] == patterns@[i as int]@);
                globs.push(g);
                assert(globs@ == before.push(g));
                assert(glob_sources(globs@) =~= texts.take(i + 1)) by {
                    assert(glob_sources(before) =~= texts.take(i as int));
                    assert forall|j: int| 0 <= j < i + 1 implies #[trigger] glob_sources(globs@)[j]
                        == texts.take(i + 1)[j] by {
                        if j < i {
                            assert(globs@[j] == before[j]);
                            assert(glob_sources(before)[j] == texts.take(i as int)[j]);
                        }
                    }
                }
            },
            Err(_) => {
                proof {
                    lemma_first_invalid_is(texts, i as int);
                }
                return Err(patterns[i].clone());
            },
        }
    }
    assert(texts.take(patterns.len() as int) == texts);
    Ok(globs)
}

/// Compiles an optional list of patterns, which may be absent.
fn compile_list(patterns: Option<Vec<String>>) -> (r: Result<Vec<Glob>, String>)
    ensures
        r is Ok <==> first_invalid(resolved(patterns)) is None,
        r matches Ok(gs) ==> glob_sources(gs@) == resolved(patterns),
        r matches Err(p) ==> first_invalid(resolved(patterns)) matches Some(i) && p@ == resolved(
            patterns,
        )[i],
{
    match patterns {
        Some(v) => {
            proof {
                lemma_first_invalid(pattern_texts(v@));
            }
            compile_all(&v)
        },
        None => {
            let gs: Vec<Glob> = Vec::new();
            assert(glob_sources(gs@) =~= seq![]);
            proof {
                lemma_first_invalid(seq![]);
                if first_invalid(seq![]) is Some {
                    assert(false);
                }
            }
            Ok(gs)
        },
    }
}

/// For each glob of `globs`, whether it matches `text`.
fn glob_hits(globs: &Vec<Glob>, text: &str) -> (r: Vec<bool>)
    ensures
        r@ == match_hits(glob_sources(globs@), text@),
{
    let mut hits: Vec<bool> = Vec::new();
    for i in 0..globs.len()
        invariant
            hits@ == match_hits(glob_sources(globs@), text@).take(i as int),
    {
        let hit = glob_matches(&globs[i], text);
        hits.push(hit);
        assert(hits@ =~= match_hits(glob_sources(globs@), text@).take(i + 1));
    }
    assert(match_hits(glob_sources(globs@), text@).take(globs.len() as int) =~= match_hits(
        glob_sources(globs@),
        text@,
    ));
    hits
}

fn any_hit(hits: &Vec<bool>) -> (r: bool)
    ensures
        r == hits@.contains(true),
{
    for i in 0..hits.len()
        invariant
            forall|j: int| 0 <= j < i ==> !hits@[j],
    {
        if hits[i] {
            assert(hits@[i as int] == true);
            return true;
        }
    }
    false
}

/// The filter's rule, applied to whether each inclusion pattern and each
/// exclusion pattern matched a file.
pub fn keeps_by_matches(inclusion_hits: &Vec<bool>, exclusion_hits: &Vec<bool>) -> (r: bool)
    ensures
        r == rule_keeps(inclusion_hits@, exclusion_hits@),
{
    (inclusion_hits.len() == 0 || any_hit(inclusion_hits)) && !any_hit(exclusion_hits)
}

/// The file name of `path`.
fn path_file_name(path: &str) -> (r: &str)
    ensures
        r@ == file_name(path@),
{
    let n = path.unicode_len();
    let mut start: usize = 0;
    let mut i: usize = 0;
    while i < n
        invariant
            n == path@.len(),
            i <= n,
            start == name_start(path@.take(i as int)),
        decreases n - i,
    {
        proof {
            assert(path@.take(i + 1).drop_last() == path@.take(i as int));
        }
        if path.get_char(i) == '/' {
            start = i + 1;
        }
        i = i + 1;
    }
    assert(path@.take(n as int) == path@);
    proof {
        lemma_name_start_bounds(path@);
    }
    path.substring_char(start, n)
}

/// A resolved, compiled set of glob rules.
pub struct GlobRules {
    inclusions: Vec<Glob>,
    exclusions: Vec<Glob>,
}

impl GlobRules {
    /// The inclusion patterns; none means that every file is included.
    pub closed spec fn inclusion_texts(&self) -> Seq<Seq<char>> {
        glob_sources(self.inclusions@)
    }

    /// The exclusion patterns.
    pub closed spec fn exclusion_texts(&self) -> Seq<Seq<char>> {
        glob_sources(self.exclusions@)
    }

    /// Resolves and compiles the rules. An absent or empty list of inclusion
    /// patterns includes every file; an absent list of exclusion patterns
    /// excludes none. The first pattern that is not valid, inclusions
    /// before exclusions, is an error.
    pub fn new(inclusions: Option<Vec<String>>, exclusions: Option<Vec<String>>) -> (r: Result<
        GlobRules,
        FilterError,
    >)
        ensures
            r is Ok <==> first_invalid(resolved(inclusions) + resolved(exclusions)) is None,
            r matches Ok(rules) ==> rules.inclusion_texts() == resolved(inclusions)
                && rules.exclusion_texts() == resolved(exclusions),
            r matches Err(FilterError::InvalidPattern(p)) ==> first_invalid(
                resolved(inclusions) + resolved(exclusions),
            ) matches Some(i) && p@ == (resolved(inclusions) + resolved(exclusions))[i],
    {
        proof {
            lemma_first_invalid(resolved(inclusions));
            lemma_first_invalid(resolved(exclusions));
            lemma_first_invalid_concat(resolved(inclusions), resolved(exclusions));
        }
        let inc_globs = match compile_list(inclusions) {
            Ok(gs) => gs,
            Err(p) => {
                let ghost a = resolved(inclusions);
                let ghost b = resolved(exclusions);
                assert((a + b)[first_invalid(a)->Some_0] == a[first_invalid(a)->Some_0]);
                return Err(FilterError::InvalidPattern(p));
            },
        };
        let exc_globs = match compile_list(exclusions) {
            Ok(gs) => gs,
            Err(p) => {
                let ghost a = resolved(inclusions);
                let ghost b = resolved(exclusions);
                assert((a + b)[a.len() + first_invalid(b)->Some_0] == b[first_invalid(b)->Some_0]);
                return Err(FilterError::InvalidPattern(p));
            },
        };
        Ok(GlobRules { inclusions: inc_globs, exclusions: exc_globs })
    }

    /// Whether the file at `path` is kept.
    pub fn keeps(&self, target: GlobTarget, path: &str) -> (r: bool)
        ensures
            r == selected(self.inclusion_texts(), self.exclusion_texts(), target, path@),
    {
        let text = match target {
            GlobTarget::FullPath => path,
            GlobTarget::FileName => path_file_name(path),
        };
        keeps_by_matches(&glob_hits(&self.inclusions, text), &glob_hits(&self.exclusions, text))
    }

    /// The paths that are kept, in their order.
    pub fn select_paths(&self, target: GlobTarget, paths: Vec<String>) -> (r: Vec<String>)
        ensures
            r@ == selected_paths(self.inclusion_texts(), self.exclusion_texts(), target, paths@),
    {
        let mut out: Vec<String> = Vec::new();
        for i in 0..paths.len()
            invariant
                out@ == selected_paths(
                    self.inclusion_texts(),
                    self.exclusion_texts(),
                    target,
                    paths@.take(i as int),
                ),
        {
            proof {
                assert(paths@.take(i + 1).drop_last() == paths@.take(i as int));
            }
            if self.keeps(target, paths[i].as_str()) {
                out.push(paths[i].clone());
            }
        }
        assert(paths@.take(paths.len() as int) == paths@);
        out
    }

    /// The files whose paths are kept, in their order.
    pub fn select_files(&self, target: GlobTarget, files: &Vec<SourceFile>) -> (r: Vec<SourceFile>)
        ensures
            r@ == selected_files(self.inclusion_texts(), self.exclusion_texts(), target, files@),
    {
        let mut out: Vec<SourceFile> = Vec::new();
        for i in 0..files.len()
            invariant
                out@ == selected_files(
                    self.inclusion_texts(),
                    self.exclusion_texts(),
                    target,
                    files@.take(i as int),
                ),
        {
            proof {
                assert(files@.take(i + 1).drop_last() == files@.take(i as int));
            }
            if self.keeps(target, files[i].path.as_str()) {
                out.push(files[i].duplicate());
            }
        }
        assert(files@.take(files.len() as int) == files@);
        out
    }
}

/// The outcome of filtering `paths` with the given patterns, each glob
/// matched against `target`.
pub open spec fn filter_outcome(
    inclusions: Option<Vec<String>>,
    exclusions: Option<Vec<String>>,
    target: GlobTarget,
    paths: Seq<String>,
    r: Result<Vec<String>, FilterError>,
) -> bool {
    let all = resolved(inclusions) + resolved(exclusions);
    &&& r is Ok <==> first_invalid(all) is None
    &&& r matches Ok(kept) ==> kept@ == selected_paths(
        resolved(inclusions),
        resolved(exclusions),
        target,
        paths,
    )
    &&& r matches Err(FilterError::InvalidPattern(p)) ==> first_invalid(all) matches Some(i) && p@
        == all[i]
}

fn filter_paths(
    paths: Vec<String>,
    inclusions: Option<Vec<String>>,
    exclusions: Option<Vec<String>>,
    target: GlobTarget,
) -> (r: Result<Vec<String>, FilterError>)
    ensures
        filter_outcome(inclusions, exclusions, target, paths@, r),
{
    match GlobRules::new(inclusions, exclusions) {
        Ok(rules) => Ok(rules.select_paths(target, paths)),
        Err(e) => Err(e),
    }
}

/// The paths that the patterns keep, each glob matched against the whole
/// path. A path is kept where it matches some inclusion pattern (every path
/// does where there is none) and no exclusion pattern; the order of `paths`
/// is kept. A pattern that is not valid is an error.
pub fn matching_files(
    paths: Vec<String>,
    inclusions: Option<Vec<String>>,
    exclusions: Option<Vec<String>>,
) -> (r: Result<Vec<String>, FilterError>)
    ensures
        filter_outcome(inclusions, exclusions, GlobTarget::FullPath, paths@, r),
{
    filter_paths(paths, inclusions, exclusions, GlobTarget::FullPath)
}

/// As `matching_files`, with each glob matched against the file name alone.
pub fn files_matching_patterns(
    paths: Vec<String>,
    inclusions: Option<Vec<String>>,
    exclusions: Option<Vec<String>>,
) -> (r: Result<Vec<String>, FilterError>)
    ensures
        filter_outcome(inclusions, exclusions, GlobTarget::FileName, paths@, r),
{
    filter_paths(paths, inclusions, exclusions, GlobTarget::FileName)
}

/// With empty (or absent) inclusion and exclusion patterns, the filter
/// succeeds and keeps every path, in order.
pub proof fn lemma_no_rules_keep_every_path(
    inclusions: Option<Vec<String>>,
    exclusions: Option<Vec<String>>,
    target: GlobTarget,
    paths: Seq<String>,
)
    requires
        resolved(inclusions).len() == 0,
        resolved(exclusions).len() == 0,
    ensures
        first_invalid(resolved(inclusions) + resolved(exclusions)) is None,
        selected_paths(resolved(inclusions), resolved(exclusions), target, paths) == paths,
    decreases paths.len(),
{
    let all = resolved(inclusions) + resolved(exclusions);
    lemma_first_invalid(all);
    if let Some(k) = first_invalid(all) {
        assert(0 <= k < all.len());
    }
    if paths.len() > 0 {
        lemma_no_rules_keep_every_path(inclusions, exclusions, target, paths.drop_last());
        assert(paths.drop_last().push(paths.last()) == paths);
    } else {
        assert(paths =~= seq![]);
    }
}

} // verus!
