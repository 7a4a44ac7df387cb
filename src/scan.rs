use vstd::prelude::*;

use crate::empty_line::{lacking_blank_line, no_empty_line};
use crate::header::{failing_files, nonmatching_files_from_list, nonmatching_files_in_mode, MatchMode};
use crate::pattern_filter::{
    first_invalid,
    resolved,
    selected_files,
    FilterError,
    GlobRules,
    GlobTarget,
};
use crate::source_file::SourceFile;

verus! {

/// The files that fail the header specification `spec` matched in `mode`,
/// among those that the patterns keep (each glob matched against the whole
/// path).
pub open spec fn header_report(
    mode: MatchMode,
    spec: Option<String>,
    inclusions: Seq<Seq<char>>,
    exclusions: Seq<Seq<char>>,
    files: Seq<SourceFile>,
) -> Seq<String> {
    match spec {
        Some(s) => failing_files(
            mode,
            s@,
            selected_files(inclusions, exclusions, GlobTarget::FullPath, files),
        ),
        None => seq![],
    }
}

/// Keeps the files that the patterns select, each glob matched against the
/// whole path, and reports those of them that fail the header
/// specification `spec`. Without a specification nothing is reported. A
/// pattern that is not valid is an error, and no file is checked.
pub fn separate_regex_matching_files(
    spec: Option<String>,
    files: Vec<SourceFile>,
    inclusions: Option<Vec<String>>,
    exclusions: Option<Vec<String>>,
) -> (r: Result<Vec<String>, FilterError>)
    ensures
        r is Ok <==> first_invalid(resolved(inclusions) + resolved(exclusions)) is None,
        r matches Ok(v) ==> v@ == header_report(
            MatchMode::WholeContent,
            spec,
            resolved(inclusions),
            resolved(exclusions),
            files@,
        ),
        r matches Err(FilterError::InvalidPattern(p)) ==> first_invalid(
            resolved(inclusions) + resolved(exclusions),
        ) matches Some(i) && p@ == (resolved(inclusions) + resolved(exclusions))[i],
{
    let rules = match GlobRules::new(inclusions, exclusions) {
        Ok(rules) => rules,
        Err(e) => return Err(e),
    };
    let kept = rules.select_files(GlobTarget::FullPath, &files);
    Ok(nonmatching_files_from_list(spec, kept))
}

/// The outcome of a scan: the files that fail each check.
pub struct ScanReport {
    /// Files whose content does not satisfy the header specification.
    pub missing_header: Vec<String>,
    /// Files whose content does not end in a blank line.
    pub missing_blank_line: Vec<String>,
}

impl ScanReport {
    /// Whether no file failed any check.
    pub fn is_clean(&self) -> (r: bool)
        ensures
            r == (self.missing_header@.len() == 0 && self.missing_blank_line@.len() == 0),
    {
        self.missing_header.len() == 0 && self.missing_blank_line.len() == 0
    }
}

/// What `scan` returns on the given inputs.
pub open spec fn scan_outcome(
    mode: MatchMode,
    spec: Option<String>,
    files: Seq<SourceFile>,
    inclusions: Option<Vec<String>>,
    exclusions: Option<Vec<String>>,
    r: Result<ScanReport, FilterError>,
) -> bool {
    let inc = resolved(inclusions);
    let exc = resolved(exclusions);
    &&& r is Ok <==> first_invalid(inc + exc) is None
    &&& r matches Ok(rep) ==> {
        &&& rep.missing_header@ == header_report(mode, spec, inc, exc, files)
        &&& rep.missing_blank_line@ == lacking_blank_line(
            selected_files(inc, exc, GlobTarget::FullPath, files),
        )
    }
    &&& r matches Err(FilterError::InvalidPattern(p)) ==> first_invalid(inc + exc) matches Some(i)
        && p@ == (inc + exc)[i]
}

/// The whole check: keeps the files that the patterns select (each glob
/// matched against the whole path), then reports those of them that fail
/// the header specification, matched in `mode`, and those that do not end
/// in a blank line.
pub fn scan(
    mode: MatchMode,
    spec: Option<String>,
    files: Vec<SourceFile>,
    inclusions: Option<Vec<String>>,
    exclusions: Option<Vec<String>>,
) -> (r: Result<ScanReport, FilterError>)
    ensures
        scan_outcome(mode, spec, files@, inclusions, exclusions, r),
{
    let rules = match GlobRules::new(inclusions, exclusions) {
        Ok(rules) => rules,
        Err(e) => return Err(e),
    };
    let kept = rules.select_files(GlobTarget::FullPath, &files);
    let copies = duplicate_all(&kept);
    let missing_header = nonmatching_files_in_mode(mode, spec, kept);
    let missing_blank_line = no_empty_line(copies);
    Ok(ScanReport { missing_header, missing_blank_line })
}

fn duplicate_all(files: &Vec<SourceFile>) -> (r: Vec<SourceFile>)
    ensures
        r@ == files@,
{
    let mut out: Vec<SourceFile> = Vec::new();
    for i in 0..files.len()
        invariant
            out@ == files@.take(i as int),
    {
        out.push(files[i].duplicate());
        assert(out@ =~= files@.take(i + 1));
    }
    assert(files@.take(files.len() as int) == files@);
    out
}

/// Scanning an unchanged tree twice reports the same files: the outcome is
/// a function of the specification, the files and the patterns.
pub proof fn lemma_scan_deterministic(
    mode: MatchMode,
    spec: Option<String>,
    files: Seq<SourceFile>,
    inclusions: Option<Vec<String>>,
    exclusions: Option<Vec<String>>,
    first: Result<ScanReport, FilterError>,
    second: Result<ScanReport, FilterError>,
)
    requires
        scan_outcome(mode, spec, files, inclusions, exclusions, first),
        scan_outcome(mode, spec, files, inclusions, exclusions, second),
    ensures
        first is Ok <==> second is Ok,
        first matches Ok(a) ==> second matches Ok(b) && a.missing_header@ == b.missing_header@
            && a.missing_blank_line@ == b.missing_blank_line@,
        first matches Err(FilterError::InvalidPattern(p)) ==> second matches Err(
            FilterError::InvalidPattern(q),
        ) && p@ == q@,
{
}

} // verus!
