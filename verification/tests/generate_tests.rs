use compdb::generate::{find_source_files, generate_entries, parse_log_entry};

// ==================== find_source_files ====================

#[test]
fn finds_c_files() {
    let args = vec![
        "/usr/bin/gcc".to_string(),
        "-c".to_string(),
        "main.c".to_string(),
    ];
    let result = find_source_files(&args, "/project");
    assert_eq!(result, vec!["/project/main.c"]);
}

#[test]
fn finds_cc_files() {
    let args = vec![
        "/usr/bin/gcc".to_string(),
        "-c".to_string(),
        "main.cc".to_string(),
    ];
    let result = find_source_files(&args, "/project");
    assert_eq!(result, vec!["/project/main.cc"]);
}

#[test]
fn finds_cpp_files() {
    let args = vec![
        "/usr/bin/gcc".to_string(),
        "-c".to_string(),
        "main.cpp".to_string(),
    ];
    let result = find_source_files(&args, "/project");
    assert_eq!(result, vec!["/project/main.cpp"]);
}

#[test]
fn finds_multiple_source_files() {
    let args = vec![
        "/usr/bin/gcc".to_string(),
        "-c".to_string(),
        "main.c".to_string(),
        "util.c".to_string(),
        "helper.cpp".to_string(),
    ];
    let result = find_source_files(&args, "/project");
    assert_eq!(result.len(), 3);
    assert!(result.contains(&"/project/main.c".to_string()));
    assert!(result.contains(&"/project/util.c".to_string()));
    assert!(result.contains(&"/project/helper.cpp".to_string()));
}

#[test]
fn returns_empty_for_no_source_files() {
    let args = vec![
        "/usr/bin/gcc".to_string(),
        "-c".to_string(),
        "-o".to_string(),
        "output.o".to_string(),
    ];
    let result = find_source_files(&args, "/project");
    assert!(result.is_empty());
}

#[test]
fn handles_empty_args() {
    let args: Vec<String> = vec![];
    let result = find_source_files(&args, "/project");
    assert!(result.is_empty());
}

#[test]
fn handles_nested_paths() {
    let args = vec![
        "/usr/bin/gcc".to_string(),
        "-c".to_string(),
        "src/lib/util.c".to_string(),
    ];
    let result = find_source_files(&args, "/project");
    assert_eq!(result, vec!["/project/src/lib/util.c"]);
}

#[test]
fn ignores_header_files() {
    let args = vec![
        "/usr/bin/gcc".to_string(),
        "-I".to_string(),
        "include".to_string(),
        "-c".to_string(),
        "main.c".to_string(),
        "header.h".to_string(),
    ];
    let result = find_source_files(&args, "/project");
    assert_eq!(result, vec!["/project/main.c"]);
}

#[test]
fn ignores_object_files() {
    let args = vec![
        "/usr/bin/gcc".to_string(),
        "-c".to_string(),
        "main.c".to_string(),
        "-o".to_string(),
        "main.o".to_string(),
    ];
    let result = find_source_files(&args, "/project");
    assert_eq!(result, vec!["/project/main.c"]);
}

// ==================== parse_log_entry ====================

#[test]
fn parses_valid_c_entry() {
    let line = r#"{"wd":"/project","args":["-c","main.c"]}"#;
    let result = parse_log_entry(line, None);
    assert!(result.is_some());
    let entry = result.unwrap();
    assert_eq!(entry.directory, "/project");
    assert_eq!(entry.file, "/project/main.c");
}

#[test]
fn parses_valid_cpp_entry() {
    let line = r#"{"wd":"/project","args":["-c","main.cpp"]}"#;
    let result = parse_log_entry(line, None);
    assert!(result.is_some());
    let entry = result.unwrap();
    assert_eq!(entry.file, "/project/main.cpp");
}

#[test]
fn parses_valid_cc_entry() {
    let line = r#"{"wd":"/project","args":["-c","main.cc"]}"#;
    let result = parse_log_entry(line, None);
    assert!(result.is_some());
    let entry = result.unwrap();
    assert_eq!(entry.file, "/project/main.cc");
}

#[test]
fn returns_none_for_no_source_files() {
    let line = r#"{"wd":"/project","args":["-o","output.o"]}"#;
    let result = parse_log_entry(line, None);
    assert!(result.is_none());
}

#[test]
fn returns_none_for_invalid_json() {
    let line = "not valid json";
    let result = parse_log_entry(line, None);
    assert!(result.is_none());
}

#[test]
fn returns_none_for_non_array_args() {
    let line = r#"{"wd":"/project","args":"not an array"}"#;
    let result = parse_log_entry(line, None);
    assert!(result.is_none());
}

#[test]
fn returns_none_for_missing_args() {
    let line = r#"{"wd":"/project"}"#;
    let result = parse_log_entry(line, None);
    assert!(result.is_none());
}

#[test]
fn uses_wd_override_when_provided() {
    let line = r#"{"wd":"/original","args":["-c","main.c"]}"#;
    let result = parse_log_entry(line, Some("/override"));
    assert!(result.is_some());
    let entry = result.unwrap();
    assert_eq!(entry.directory, "/override");
    assert_eq!(entry.file, "/override/main.c");
}

#[test]
fn uses_empty_string_for_missing_wd() {
    let line = r#"{"args":["-c","main.c"]}"#;
    let result = parse_log_entry(line, None);
    assert!(result.is_some());
    let entry = result.unwrap();
    assert_eq!(entry.directory, "");
}

#[test]
fn uses_default_compiler_when_not_specified() {
    let line = r#"{"wd":"/project","args":["-c","main.c","-O2"]}"#;
    let result = parse_log_entry(line, None);
    assert!(result.is_some());
    let entry = result.unwrap();
    let args = &entry.arguments;
    assert_eq!(args[0], "/usr/bin/gcc");
    assert_eq!(args[1], "-c");
    assert_eq!(args[2], "main.c");
    assert_eq!(args[3], "-O2");
}

#[test]
fn uses_compiler_from_log_entry() {
    let line = r#"{"wd":"/project","compiler":"clang","args":["-c","main.c"]}"#;
    let result = parse_log_entry(line, None);
    assert!(result.is_some());
    let entry = result.unwrap();
    let args = &entry.arguments;
    assert_eq!(args[0], "clang");
    assert_eq!(args[1], "-c");
    assert_eq!(args[2], "main.c");
}

#[test]
fn uses_full_path_compiler_from_log_entry() {
    let line = r#"{"wd":"/project","compiler":"/usr/local/bin/gcc-12","args":["-c","main.c"]}"#;
    let result = parse_log_entry(line, None);
    assert!(result.is_some());
    let entry = result.unwrap();
    let args = &entry.arguments;
    assert_eq!(args[0], "/usr/local/bin/gcc-12");
}

#[test]
fn uses_clangpp_compiler_from_log_entry() {
    let line = r#"{"wd":"/project","compiler":"clang++","args":["-c","main.cpp"]}"#;
    let result = parse_log_entry(line, None);
    assert!(result.is_some());
    let entry = result.unwrap();
    let args = &entry.arguments;
    assert_eq!(args[0], "clang++");
}

#[test]
fn handles_complex_compiler_flags() {
    let line = r#"{"wd":"/project","args":["-c","-Wall","-Wextra","-I/include","-DDEBUG=1","src/main.c","-o","main.o"]}"#;
    let result = parse_log_entry(line, None);
    assert!(result.is_some());
    let entry = result.unwrap();
    assert_eq!(entry.file, "/project/src/main.c");
}

#[test]
fn uses_last_source_file_when_multiple() {
    let line = r#"{"wd":"/project","args":["-c","first.c","second.c","third.c"]}"#;
    let result = parse_log_entry(line, None);
    assert!(result.is_some());
    let entry = result.unwrap();
    assert_eq!(entry.file, "/project/third.c");
}

#[test]
fn skips_non_string_args() {
    let line = r#"{"wd":"/project","args":["-c",123,"main.c",null]}"#;
    let result = parse_log_entry(line, None);
    assert!(result.is_some());
    let entry = result.unwrap();
    assert_eq!(entry.file, "/project/main.c");
}

// ==================== generate_entries ====================

#[test]
fn database_keeps_only_entries_with_sources() {
    let lines = vec![
        r#"{"wd":"/p","args":["-c","main.c"]}"#.to_string(),
        r#"{"wd":"/p","args":["-o","o.o"]}"#.to_string(),
    ];
    let (db, kept) = generate_entries(&lines);
    assert_eq!(db.len(), 1);
    assert_eq!(db[0].file, "/p/main.c");
    assert_eq!(db[0].directory, "/p");
    assert_eq!(kept, vec![true, false]);
}

#[test]
fn database_of_empty_log_is_empty() {
    let lines: Vec<String> = vec![];
    let (db, kept) = generate_entries(&lines);
    assert!(db.is_empty());
    assert!(kept.is_empty());
}

#[test]
fn database_skips_invalid_json_lines() {
    let lines = vec![
        "not json at all".to_string(),
        r#"{"wd":"/p","args":["-c","a.c"]}"#.to_string(),
    ];
    let (db, kept) = generate_entries(&lines);
    assert_eq!(db.len(), 1);
    assert_eq!(db[0].file, "/p/a.c");
    assert_eq!(kept, vec![false, true]);
}

#[test]
fn absolute_source_argument_stands_alone() {
    let line = r#"{"wd":"/project","args":["-c","/elsewhere/main.c"]}"#;
    let entry = parse_log_entry(line, None).unwrap();
    assert_eq!(entry.file, "/elsewhere/main.c");
}
