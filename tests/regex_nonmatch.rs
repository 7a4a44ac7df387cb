use checkstyle::header::{
    check_every_line, check_matching, nonmatching_files, nonmatching_files_from_list,
    nonmatching_files_in_mode, specification_usable, MatchMode,
};
use checkstyle::pattern_filter::matching_files;
use checkstyle::source_file::SourceFile;

const AGPL_HEADER: &str = r"^/\*
 \* Copyright \(C\) \d{4}(-\d{4})? .+$
 \*
 \* This program is free software: you can redistribute it and/or modify
 \* it under the terms of the GNU Affero General Public License as published by
 \* the Free Software Foundation, either version 3 of the License, or
 \* \(at your option\) any later version\.
";

const SYNCER: &str = "/*
 * Copyright (C) 2023 The Syncer Authors
 *
 * This program is free software: you can redistribute it and/or modify
 * it under the terms of the GNU Affero General Public License as published by
 * the Free Software Foundation, either version 3 of the License, or
 * (at your option) any later version.
 */

package sync

class Syncer
";

const MODIFIED_SYNCER: &str = "/*
 * Copyright (C) 2023 The Syncer Authors
 *
 * This program is free software: you can redistribute it and/or modify
 * it under the terms of the GNU General Public License as published by
 * the Free Software Foundation, either version 3 of the License, or
 * (at your option) any later version.
 */

package sync

class ModifiedSyncer
";

fn strings(items: &[&str]) -> Vec<String> {
    items.iter().map(|s| s.to_string()).collect()
}

fn file(path: &str, content: &str) -> SourceFile {
    SourceFile::new(path.to_string(), Some(content.to_string()))
}

fn tree(root: &str) -> Vec<SourceFile> {
    vec![
        file(&format!("{}/dir1/Syncer.kt", root), SYNCER),
        file(&format!("{}/dir2/Syncer.kt", root), SYNCER),
        file(&format!("{}/dir2/modifiedSyncer.kt", root), MODIFIED_SYNCER),
        file(&format!("{}/dir3/Syncer.txt", root), "plain text\n"),
        file(&format!("{}/dir3/modifiedSyncer.kt", root), MODIFIED_SYNCER),
        file(&format!("{}/Syncer.kt", root), SYNCER),
        file(&format!("{}/checkstyle-file-agpl-header.txt", root), AGPL_HEADER),
    ]
}

fn regex_nonmatching_files(
    spec: Option<String>,
    files: Vec<SourceFile>,
    include_patterns: Option<Vec<String>>,
    exclude_patterns: Option<Vec<String>>,
) -> Vec<String> {
    let paths: Vec<String> = files.iter().map(|f| f.path.clone()).collect();
    let kept = matching_files(paths, include_patterns, exclude_patterns).unwrap();
    let chosen: Vec<SourceFile> = files.into_iter().filter(|f| kept.contains(&f.path)).collect();
    nonmatching_files(spec, chosen)
}

#[test]
fn regex_nonmatch_matching() {
    assert!(check_matching(SYNCER, AGPL_HEADER));
}

#[test]
fn regex_nonmatch_separator() {
    let include_patterns = strings(&["*", "*/*"]);
    let exclude_patterns = strings(&["*/*.txt"]);
    let result = regex_nonmatching_files(
        Some(AGPL_HEADER.to_string()),
        tree("."),
        Some(include_patterns),
        Some(exclude_patterns),
    );
    assert!(!result.contains(&"Syncer.kt".to_string()));
}

#[test]
fn regex_nonmatch_inclusion_and_exclusion() {
    let include_patterns = strings(&["**/*.kt"]);
    let exclude_patterns = strings(&["dir2/*"]);
    let result = regex_nonmatching_files(
        Some(AGPL_HEADER.to_string()),
        tree("test_folder"),
        Some(include_patterns),
        Some(exclude_patterns),
    );

    assert!(!result.contains(&"test_folder/dir1/Syncer.kt".to_string()));
    assert!(!result.contains(&"test_folder/dir2/Syncer.kt".to_string()));
    assert!(!result.contains(&"test_folder/dir3/Syncer.txt".to_string()));
    assert!(result.contains(&"test_folder/dir3/modifiedSyncer.kt".to_string()));
}

#[test]
fn modified_header_does_not_match() {
    assert!(!check_matching(MODIFIED_SYNCER, AGPL_HEADER));
}

#[test]
fn copyright_scenario_reports_only_the_file_without_header() {
    let files = vec![
        file("root/a.kt", "// Copyright 2024\nfun main() {}\n"),
        file("root/b.kt", "fun main() {}\n"),
    ];
    let result = nonmatching_files(Some("^// Copyright".to_string()), files);
    assert_eq!(result, strings(&["root/b.kt"]));
}

#[test]
fn anchors_hold_at_every_line() {
    assert!(check_matching("first\n// Copyright 2024\n", "^// Copyright \\d+$"));
    assert!(!check_matching("first // Copyright 2024\n", "^// Copyright"));
    assert!(check_matching("line one\nline two", "^line two$"));
}

#[test]
fn empty_specification_reports_every_readable_file() {
    let files = vec![
        file("a.kt", "// Copyright 2024\n"),
        file("b.kt", ""),
        SourceFile::new("c.bin".to_string(), None),
    ];
    assert!(!check_matching("// Copyright 2024\n", ""));
    assert_eq!(nonmatching_files(Some(String::new()), files), strings(&["a.kt", "b.kt"]));
}

#[test]
fn invalid_regex_reports_every_readable_file() {
    let files = vec![file("a.kt", "(unclosed\n"), SourceFile::new("b.kt".to_string(), None)];
    assert!(!check_matching("(unclosed\n", "(unclosed"));
    assert_eq!(nonmatching_files(Some("(unclosed".to_string()), files), strings(&["a.kt"]));
}

#[test]
fn missing_specification_reports_nothing() {
    let files = vec![file("a.kt", "no header\n")];
    assert!(nonmatching_files(None, files).is_empty());
}

#[test]
fn unreadable_files_are_skipped() {
    let files = vec![SourceFile::new("a.kt".to_string(), None), file("b.kt", "x\n")];
    assert_eq!(nonmatching_files_from_list(Some("^// Copyright".to_string()), files), strings(&["b.kt"]));
}

#[test]
fn every_line_mode_needs_each_line_somewhere() {
    let content = "package a\n// Copyright 2024\nclass A\n";
    assert!(check_every_line(content, "^class\n^// Copyright\n"));
    assert!(check_every_line(content, "Copyright \\d+"));
    assert!(!check_every_line(content, "^class\n^// License"));
    assert!(!check_every_line(content, ""));
    assert!(!check_every_line(content, "class\n(broken"));
}

#[test]
fn every_line_mode_differs_from_whole_content_mode() {
    let content = "class A\n// Copyright 2024\n";
    let spec = "^// Copyright\n^class";
    assert!(check_every_line(content, spec));
    assert!(!check_matching(content, spec));
}

#[test]
fn nonmatching_files_in_every_line_mode() {
    let files = vec![
        file("a.kt", "// Copyright 2024\nclass A\n"),
        file("b.kt", "class B\n"),
        SourceFile::new("c.kt".to_string(), None),
    ];
    let spec = Some("^class\n^// Copyright".to_string());
    assert_eq!(nonmatching_files_in_mode(MatchMode::EveryLine, spec.clone(), files), strings(&["b.kt"]));
    let files = vec![file("a.kt", "x\n"), file("b.kt", "y\n")];
    assert_eq!(
        nonmatching_files_in_mode(MatchMode::EveryLine, Some(String::new()), files),
        strings(&["a.kt", "b.kt"])
    );
}

#[test]
fn usable_specifications() {
    assert!(specification_usable(MatchMode::WholeContent, "^// Copyright"));
    assert!(!specification_usable(MatchMode::WholeContent, ""));
    assert!(!specification_usable(MatchMode::WholeContent, "a\n(b"));
    assert!(specification_usable(MatchMode::EveryLine, "a\nb\n"));
    assert!(!specification_usable(MatchMode::EveryLine, "a\n(b\n"));
    assert!(!specification_usable(MatchMode::EveryLine, ""));
}
