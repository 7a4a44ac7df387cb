use checkstyle::header::{check_matching, MatchMode};
use checkstyle::pattern_filter::FilterError;
use checkstyle::scan::{scan, separate_regex_matching_files};
use checkstyle::source_file::SourceFile;

const AGPL_HEADER: &str = r"^/\*
 \* Copyright \(C\) \d{4}(-\d{4})? .+$
 \*
 \* This program is free software: you can redistribute it and/or modify
 \* it under the terms of the GNU Affero General Public License as published by
";

const SYNCER: &str = "/*
 * Copyright (C) 2023 The Syncer Authors
 *
 * This program is free software: you can redistribute it and/or modify
 * it under the terms of the GNU Affero General Public License as published by
 * the Free Software Foundation, either version 3 of the License, or
 * (at your option) any later version.
 */

class Syncer
";

const MODIFIED_SYNCER: &str = "/*
 * Copyright 2023
 */

class ModifiedSyncer";

fn strings(items: &[&str]) -> Vec<String> {
    items.iter().map(|s| s.to_string()).collect()
}

fn file(path: &str, content: &str) -> SourceFile {
    SourceFile::new(path.to_string(), Some(content.to_string()))
}

fn tree(root: &str) -> Vec<SourceFile> {
    vec![
        file(&format!("{}/dir1/Syncer.kt", root), SYNCER),
        file(&format!("{}/dir2/Syncer.kt", root), SYNCER),
        file(&format!("{}/dir3/Syncer.txt", root), "plain text\n"),
        file(&format!("{}/dir3/modifiedSyncer.kt", root), MODIFIED_SYNCER),
        file(&format!("{}/Syncer.kt", root), SYNCER),
        SourceFile::new(format!("{}/docs/graph.png", root), None),
    ]
}

#[test]
fn separate_matching() {
    assert!(check_matching(SYNCER, AGPL_HEADER));
}

#[test]
fn separate_separator() {
    let include_patterns = strings(&["*", "*/*"]);
    let exclude_patterns = strings(&["*/*.png", "*/*.gif", "*/*.dot"]);
    let result = separate_regex_matching_files(
        Some(AGPL_HEADER.to_string()),
        tree("."),
        Some(include_patterns),
        Some(exclude_patterns),
    )
    .unwrap();
    assert!(!result.contains(&"Syncer.kt".to_string()));
}

#[test]
fn separate_inclusion_and_exclusion() {
    let include_patterns = strings(&["**/*.kt"]);
    let exclude_patterns = strings(&["dir2/*"]);
    let result = separate_regex_matching_files(
        Some(AGPL_HEADER.to_string()),
        tree("test_folder"),
        Some(include_patterns),
        Some(exclude_patterns),
    )
    .unwrap();

    assert!(!result.contains(&"test_folder/dir1/Syncer.kt".to_string()));
    assert!(!result.contains(&"test_folder/dir2/Syncer.kt".to_string()));
    assert!(result.contains(&"test_folder/dir3/modifiedSyncer.kt".to_string()));
}

#[test]
fn separate_with_invalid_pattern_is_an_error() {
    let result = separate_regex_matching_files(
        Some(AGPL_HEADER.to_string()),
        tree("t"),
        Some(strings(&["a**"])),
        None,
    );
    assert_eq!(result, Err(FilterError::InvalidPattern("a**".to_string())));
}

#[test]
fn scan_reports_both_checks_on_kept_files() {
    let report = scan(
        MatchMode::WholeContent,
        Some(AGPL_HEADER.to_string()),
        tree("t"),
        Some(strings(&["**/*.kt"])),
        Some(strings(&["t/dir2/*"])),
    )
    .unwrap();
    assert_eq!(report.missing_header, strings(&["t/dir3/modifiedSyncer.kt"]));
    assert_eq!(report.missing_blank_line, strings(&["t/dir3/modifiedSyncer.kt"]));
    assert!(!report.is_clean());
}

#[test]
fn scan_of_compliant_files_is_clean() {
    let report = scan(
        MatchMode::WholeContent,
        Some(AGPL_HEADER.to_string()),
        tree("t"),
        Some(strings(&["t/dir1/*"])),
        None,
    )
    .unwrap();
    assert!(report.missing_header.is_empty());
    assert!(report.missing_blank_line.is_empty());
    assert!(report.is_clean());
}

#[test]
fn scanning_twice_gives_the_same_report() {
    let run = || {
        scan(
            MatchMode::WholeContent,
            Some("^class Syncer$".to_string()),
            tree("t"),
            None,
            Some(strings(&["**/*.txt"])),
        )
        .unwrap()
    };
    let (first, second) = (run(), run());
    assert_eq!(first.missing_header, second.missing_header);
    assert_eq!(first.missing_blank_line, second.missing_blank_line);
    assert_eq!(first.missing_header, strings(&["t/dir3/modifiedSyncer.kt"]));
}

#[test]
fn scan_line_by_line_mode() {
    let report = scan(
        MatchMode::EveryLine,
        Some("^class\n^ \\* Copyright".to_string()),
        tree("t"),
        Some(strings(&["**/*.kt"])),
        None,
    )
    .unwrap();
    assert!(report.missing_header.is_empty());
    let report = scan(
        MatchMode::EveryLine,
        Some("^class\nAffero".to_string()),
        tree("t"),
        Some(strings(&["**/*.kt"])),
        None,
    )
    .unwrap();
    assert_eq!(report.missing_header, strings(&["t/dir3/modifiedSyncer.kt"]));
}
