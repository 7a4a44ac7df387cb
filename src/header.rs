use vstd::prelude::*;

use crate::source_file::SourceFile;

verus! {

/// Whether `regex::Regex::new` accepts `"(?m)"` followed by `spec`, that is,
/// `spec` compiled in multi-line mode.
pub uninterp spec fn multiline_valid(spec: Seq<char>) -> bool;

/// Whether the regex compiled from `"(?m)"` followed by `spec` finds a match
/// anywhere in `text` (`regex::Regex::is_match`).
pub uninterp spec fn multiline_finds(spec: Seq<char>, text: Seq<char>) -> bool;

#[verifier::external_type_specification]
#[verifier::external_body]
pub struct ExRegex(regex::Regex);

#[verifier::external_type_specification]
#[verifier::external_body]
pub struct ExRegexError(regex::Error);

/// A header specification compiled in multi-line mode, where `^` and `$`
/// anchor at the start and end of every line. Only `compile_header` builds
/// one, so `compiled` is always the compiled form of `spec`.
pub struct HeaderRegex {
    spec: String,
    compiled: regex::Regex,
}

impl HeaderRegex {
    /// The specification text this regex was compiled from.
    pub closed spec fn source(&self) -> Seq<char> {
        self.spec@
    }
}

/// Relies on `regex::Regex::new`: it succeeds exactly on the patterns it
/// accepts, here `spec` behind the multi-line flag `(?m)`.
#[verifier::external_body]
fn compile_header(spec: &str) -> (r: Result<HeaderRegex, regex::Error>)
    ensures
        r is Ok <==> multiline_valid(spec@),
        r matches Ok(h) ==> h.source() == spec@,
{
    match regex::Regex::new(&format!("(?m){}", spec)) {
        Ok(compiled) => Ok(HeaderRegex { spec: spec.to_string(), compiled }),
        Err(e) => Err(e),
    }
}

/// Relies on `regex::Regex::is_match`: whether the regex matches somewhere
/// in `text`.
#[verifier::external_body]
fn header_found(h: &HeaderRegex, text: &str) -> (r: bool)
    ensures
        r == multiline_finds(h.source(), text@),
{
    h.compiled.is_match(text)
}

/// Whether `content` satisfies the header specification `spec`: the
/// specification is not empty, compiles in multi-line mode, and its regex
/// finds a match somewhere in the whole content. An empty specification
/// states no header, and one that does not compile cannot confirm one: with
/// either, no content complies.
pub open spec fn header_compliant(spec: Seq<char>, content: Seq<char>) -> bool {
    spec.len() > 0 && multiline_valid(spec) && multiline_finds(spec, content)
}

/// How a header specification is matched against a file.
#[derive(Clone, Copy, Debug, PartialEq, Eq, Structural)]
pub enum MatchMode {
    /// The whole specification is one regex that must match somewhere in
    /// the content.
    WholeContent,
    /// Each line of the specification is a regex of its own, and every one
    /// must match somewhere in the content, in any order.
    EveryLine,
}

/// The lines of `s`: the pieces between its `'\n'` characters (a final
/// `'\n'` leaves an empty last line).
pub open spec fn spec_lines(s: Seq<char>) -> Seq<Seq<char>>
    decreases s.len(),
{
    if s.len() == 0 {
        seq![seq![]]
    } else {
        let p = spec_lines(s.drop_last());
        if s.last() == '\n' {
            p.push(seq![])
        } else {
            p.update(p.len() - 1, p.last().push(s.last()))
        }
    }
}

proof fn lemma_spec_lines_not_empty(s: Seq<char>)
    ensures
        spec_lines(s).len() >= 1,
    decreases s.len(),
{
    if s.len() > 0 {
        lemma_spec_lines_not_empty(s.drop_last());
    }
}

/// Whether every line of `spec` compiles in multi-line mode.
pub open spec fn lines_valid(spec: Seq<char>) -> bool {
    forall|i: int| 0 <= i < spec_lines(spec).len() ==> multiline_valid(#[trigger] spec_lines(spec)[i])
}

/// Whether `content` satisfies `spec` line by line: the specification is
/// not empty, each of its lines compiles in multi-line mode, and each finds
/// a match somewhere in the content.
pub open spec fn every_line_compliant(spec: Seq<char>, content: Seq<char>) -> bool {
    spec.len() > 0 && lines_valid(spec) && forall|i: int|
        0 <= i < spec_lines(spec).len() ==> multiline_finds(#[trigger] spec_lines(spec)[i], content)
}

/// Whether `content` satisfies `spec` in the given mode.
pub open spec fn complies(mode: MatchMode, spec: Seq<char>, content: Seq<char>) -> bool {
    match mode {
        MatchMode::WholeContent => header_compliant(spec, content),
        MatchMode::EveryLine => every_line_compliant(spec, content),
    }
}

/// The paths of the readable files whose content does not satisfy `spec`
/// in the given mode, in their order; unreadable files are left out.
pub open spec fn failing_files(mode: MatchMode, spec: Seq<char>, files: Seq<SourceFile>) -> Seq<
    String,
>
    decreases files.len(),
{
    if files.len() == 0 {
        seq![]
    } else {
        let rest = failing_files(mode, spec, files.drop_last());
        let f = files.last();
        if f.content is Some && !complies(mode, spec, f.content->Some_0@) {
            rest.push(f.path)
        } else {
            rest
        }
    }
}

/// The paths of the readable files whose content does not satisfy `spec`
/// matched as a whole, in their order.
pub open spec fn failing_header(spec: Seq<char>, files: Seq<SourceFile>) -> Seq<String> {
    failing_files(MatchMode::WholeContent, spec, files)
}

/// Splits `s` into its lines.
fn split_lines(s: &str) -> (r: Vec<&str>)
    ensures
        r@.len() == spec_lines(s@).len(),
        forall|i: int| 0 <= i < r@.len() ==> (#[trigger] r@[i])@ == spec_lines(s@)[i],
{
    let n = s.unicode_len();
    let mut lines: Vec<&str> = Vec::new();
    let mut start: usize = 0;
    let mut i: usize = 0;
    while i < n
        invariant
            n == s@.len(),
            start <= i <= n,
            lines@.len() + 1 == spec_lines(s@.take(i as int)).len(),
            forall|j: int|
                0 <= j < lines@.len() ==> (#[trigger] lines@[j])@ == spec_lines(
                    s@.take(i as int),
                )[j],
            spec_lines(s@.take(i as int)).last() == s@.subrange(start as int, i as int),
        decreases n - i,
    {
        proof {
            assert(s@.take(i + 1).drop_last() == s@.take(i as int));
            lemma_spec_lines_not_empty(s@.take(i as int));
        }
        if s.get_char(i) == '\n' {
            lines.push(s.substring_char(start, i));
            start = i + 1;
            assert(s@.subrange(start as int, i + 1) =~= seq![]);
        } else {
            assert(s@.subrange(start as int, i + 1) =~= s@.subrange(start as int, i as int).push(
                s@[i as int],
            ));
        }
        i = i + 1;
    }
    assert(s@.take(n as int) == s@);
    proof {
        lemma_spec_lines_not_empty(s@);
    }
    lines.push(s.substring_char(start, n));
    lines
}

/// A header specification compiled for one mode.
enum CompiledSpec {
    /// The specification is empty or does not compile: no content complies.
    Unusable,
    Whole(HeaderRegex),
    Lines(Vec<HeaderRegex>),
}

/// `c` is `spec` compiled for `mode`.
spec fn compiled_for(c: CompiledSpec, mode: MatchMode, spec: Seq<char>) -> bool {
    match c {
        CompiledSpec::Unusable => match mode {
            MatchMode::WholeContent => !(spec.len() > 0 && multiline_valid(spec)),
            MatchMode::EveryLine => !(spec.len() > 0 && lines_valid(spec)),
        },
        CompiledSpec::Whole(h) => mode == MatchMode::WholeContent && spec.len() > 0
            && multiline_valid(spec) && h.source() == spec,
        CompiledSpec::Lines(hs) => mode == MatchMode::EveryLine && spec.len() > 0 && lines_valid(
            spec,
        ) && hs@.len() == spec_lines(spec).len() && forall|i: int|
            0 <= i < hs@.len() ==> (#[trigger] hs@[i]).source() == spec_lines(spec)[i],
    }
}

/// Compiles every line of `spec`, or gives `None` where one does not
/// compile.
fn compile_lines(spec: &str) -> (r: Option<Vec<HeaderRegex>>)
    ensures
        r is Some <==> lines_valid(spec@),
        r matches Some(hs) ==> hs@.len() == spec_lines(spec@).len() && forall|i: int|
            0 <= i < hs@.len() ==> (#[trigger] hs@[i]).source() == spec_lines(spec@)[i],
{
    let lines = split_lines(spec);
    let mut out: Vec<HeaderRegex> = Vec::new();
    for i in 0..lines.len()
        invariant
            lines@.len() == spec_lines(spec@).len(),
            forall|j: int| 0 <= j < lines@.len() ==> (#[trigger] lines@[j])@ == spec_lines(spec@)[j],
            out@.len() == i,
            forall|j: int| 0 <= j < i ==> (#[trigger] out@[j]).source() == spec_lines(spec@)[j],
            forall|j: int| 0 <= j < i ==> multiline_valid(#[trigger] spec_lines(spec@)[j]),
    {
        match compile_header(lines[i]) {
            Ok(h) => out.push(h),
            Err(_) => {
                assert(!multiline_valid(spec_lines(spec@)[i as int]));
                return None;
            },
        }
    }
    Some(out)
}

/// Compiles `spec` for `mode`.
fn compile_for(mode: MatchMode, spec: &str) -> (r: CompiledSpec)
    ensures
        compiled_for(r, mode, spec@),
{
    if spec.unicode_len() == 0 {
        return CompiledSpec::Unusable;
    }
    match mode {
        MatchMode::WholeContent => match compile_header(spec) {
            Ok(h) => CompiledSpec::Whole(h),
            Err(_) => CompiledSpec::Unusable,
        },
        MatchMode::EveryLine => match compile_lines(spec) {
            Some(hs) => CompiledSpec::Lines(hs),
            None => CompiledSpec::Unusable,
        },
    }
}

/// Whether `content` satisfies the specification that `c` was compiled
/// from.
fn compiled_complies(
    c: &CompiledSpec,
    Ghost(mode): Ghost<MatchMode>,
    Ghost(spec): Ghost<Seq<char>>,
    content: &str,
) -> (r: bool)
    requires
        compiled_for(*c, mode, spec),
    ensures
        r == complies(mode, spec, content@),
{
    match c {
        CompiledSpec::Unusable => false,
        CompiledSpec::Whole(h) => header_found(h, content),
        CompiledSpec::Lines(hs) => {
            for i in 0..hs.len()
                invariant
                    compiled_for(*c, mode, spec),
                    *c == CompiledSpec::Lines(*hs),
                    forall|j: int|
                        0 <= j < i ==> multiline_finds(#[trigger] spec_lines(spec)[j], content@),
            {
                if !header_found(&hs[i], content) {
                    return false;
                }
            }
            true
        },
    }
}

/// Whether `spec` can confirm compliance in `mode`: it is not empty and
/// compiles (each of its lines does, line by line). Where it cannot, every
/// readable file is reported.
pub fn specification_usable(mode: MatchMode, spec: &str) -> (r: bool)
    ensures
        r == (spec@.len() > 0 && match mode {
            MatchMode::WholeContent => multiline_valid(spec@),
            MatchMode::EveryLine => lines_valid(spec@),
        }),
{
    match compile_for(mode, spec) {
        CompiledSpec::Unusable => false,
        _ => true,
    }
}

/// Whether `file` satisfies the header specification `regex`, matched in
/// multi-line mode against the whole content.
pub fn check_matching(file: &str, regex: &str) -> (r: bool)
    ensures
        r == header_compliant(regex@, file@),
{
    let c = compile_for(MatchMode::WholeContent, regex);
    compiled_complies(&c, Ghost(MatchMode::WholeContent), Ghost(regex@), file)
}

/// Whether `file` satisfies the header specification `spec` line by line:
/// each line of `spec`, compiled in multi-line mode, matches somewhere in
/// the content.
pub fn check_every_line(file: &str, spec: &str) -> (r: bool)
    ensures
        r == every_line_compliant(spec@, file@),
{
    let c = compile_for(MatchMode::EveryLine, spec);
    compiled_complies(&c, Ghost(MatchMode::EveryLine), Ghost(spec@), file)
}

/// The paths of the files that fail the header specification `spec`
/// matched in `mode`. Without a specification (it could not be read)
/// nothing is reported; a file whose content could not be read is skipped.
pub fn nonmatching_files_in_mode(
    mode: MatchMode,
    spec: Option<String>,
    files: Vec<SourceFile>,
) -> (r: Vec<String>)
    ensures
        spec is None ==> r@ == Seq::<String>::empty(),
        spec matches Some(s) ==> r@ == failing_files(mode, s@, files@),
{
    let s = match spec {
        Some(s) => s,
        None => return Vec::new(),
    };
    let compiled = compile_for(mode, s.as_str());
    let mut out: Vec<String> = Vec::new();
    for i in 0..files.len()
        invariant
            compiled_for(compiled, mode, s@),
            out@ == failing_files(mode, s@, files@.take(i as int)),
    {
        proof {
            assert(files@.take(i + 1).drop_last() == files@.take(i as int));
        }
        let f = &files[i];
        if let Some(c) = &f.content {
            if !compiled_complies(&compiled, Ghost(mode), Ghost(s@), c.as_str()) {
                out.push(f.path.clone());
            }
        }
    }
    assert(files@.take(files.len() as int) == files@);
    out
}

/// The paths of the files that fail the header specification `spec`,
/// matched as a whole. Without a specification (it could not be read)
/// nothing is reported; a file whose content could not be read is skipped.
pub fn nonmatching_files(spec: Option<String>, files: Vec<SourceFile>) -> (r: Vec<String>)
    ensures
        spec is None ==> r@ == Seq::<String>::empty(),
        spec matches Some(s) ==> r@ == failing_header(s@, files@),
{
    nonmatching_files_in_mode(MatchMode::WholeContent, spec, files)
}

/// The same check as `nonmatching_files`, on a list of files already
/// selected.
pub fn nonmatching_files_from_list(spec: Option<String>, files: Vec<SourceFile>) -> (r: Vec<
    String,
>)
    ensures
        spec is None ==> r@ == Seq::<String>::empty(),
        spec matches Some(s) ==> r@ == failing_header(s@, files@),
{
    nonmatching_files(spec, files)
}

/// The paths of the readable files, in their order.
pub open spec fn readable_paths(files: Seq<SourceFile>) -> Seq<String>
    decreases files.len(),
{
    if files.len() == 0 {
        seq![]
    } else {
        let rest = readable_paths(files.drop_last());
        if files.last().content is Some {
            rest.push(files.last().path)
        } else {
            rest
        }
    }
}

/// An empty header specification states no header: every file whose
/// content could be read is reported.
pub proof fn lemma_empty_spec_reports_every_file(spec: Seq<char>, files: Seq<SourceFile>)
    requires
        spec.len() == 0,
    ensures
        failing_header(spec, files) == readable_paths(files),
        failing_files(MatchMode::EveryLine, spec, files) == readable_paths(files),
    decreases files.len(),
{
    if files.len() > 0 {
        lemma_empty_spec_reports_every_file(spec, files.drop_last());
    }
}

} // verus!
