use grep_rs::output::source_count;
use grep_rs::resolver::expand_path;
use grep_rs::resolver::find_files;
use grep_rs::resolver::EntryType;
use grep_rs::resolver::PathMeta;

#[test]
fn test_find_files() {
    let files = find_files(
        &vec!["./tests/inputs/fox.txt".to_string()],
        &vec![PathMeta::File],
        false,
    );
    assert_eq!(files.len(), 1);
    assert_eq!(files[0].as_ref().unwrap(), "./tests/inputs/fox.txt");

    let files = find_files(&vec!["./tests/inputs/".to_string()], &vec![PathMeta::Dir], false);
    assert_eq!(files.len(), 1);
    if let Err(e) = &files[0] {
        assert_eq!(e, "./tests/inputs/ is a directory")
    }

    let walked = vec![
        ("./tests/inputs/".to_string(), Some(EntryType::Dir)),
        ("./tests/inputs/empty.txt".to_string(), Some(EntryType::File)),
        ("./tests/inputs/nobody.txt".to_string(), Some(EntryType::File)),
        ("./tests/inputs/fox.txt".to_string(), Some(EntryType::File)),
        ("./tests/inputs/bustle.txt".to_string(), Some(EntryType::File)),
    ];
    let res = expand_path("./tests/inputs/", &PathMeta::Dir, true, &walked);
    let mut files: Vec<String> = res
        .iter()
        .map(|r| r.as_ref().unwrap().replace("\\", "/"))
        .collect();
    files.sort();
    assert_eq!(files.len(), 4);
    assert_eq!(
        files,
        vec![
            "./tests/inputs/bustle.txt",
            "./tests/inputs/empty.txt",
            "./tests/inputs/fox.txt",
            "./tests/inputs/nobody.txt"
        ]
    );

    let bad = "mvxpotq".to_string();
    let files = find_files(
        &vec![bad],
        &vec![PathMeta::Missing("No such file or directory (os error 2)".to_string())],
        false,
    );
    assert_eq!(files.len(), 1);
    assert!(files[0].is_err());
}

#[test]
fn missing_path_is_one_error() {
    let files = find_files(
        &vec!["gone.txt".to_string()],
        &vec![PathMeta::Missing("No such file or directory (os error 2)".to_string())],
        true,
    );
    assert_eq!(files.len(), 1);
    assert_eq!(
        files[0].as_ref().unwrap_err(),
        "gone.txt: No such file or directory (os error 2)"
    );
}

#[test]
fn bad_path_never_blocks_siblings() {
    let paths = vec!["gone.txt".to_string(), "kept.txt".to_string()];
    let metas = vec![
        PathMeta::Missing("No such file or directory (os error 2)".to_string()),
        PathMeta::File,
    ];
    let files = find_files(&paths, &metas, false);
    assert_eq!(files.len(), 2);
    assert!(files[0].is_err());
    assert_eq!(files[1].as_ref().unwrap(), "kept.txt");
}

#[test]
fn directory_without_recursion_message() {
    let res = expand_path("somedir", &PathMeta::Dir, false, &vec![]);
    assert_eq!(res.len(), 1);
    assert_eq!(res[0].as_ref().unwrap_err(), "somedir is a directory");
}

#[test]
fn recursion_keeps_only_regular_files() {
    let walked = vec![
        ("d".to_string(), Some(EntryType::Dir)),
        ("d/sub".to_string(), Some(EntryType::Dir)),
        ("d/sub/a.txt".to_string(), Some(EntryType::File)),
        ("d/link".to_string(), Some(EntryType::Link)),
        ("d/b.txt".to_string(), Some(EntryType::File)),
        ("d/socket".to_string(), None),
    ];
    let res = expand_path("d", &PathMeta::Dir, true, &walked);
    assert_eq!(res.len(), 2);
    assert_eq!(res[0].as_ref().unwrap(), "d/sub/a.txt");
    assert_eq!(res[1].as_ref().unwrap(), "d/b.txt");
}

#[test]
fn stdin_sentinel_always_resolves() {
    let res = expand_path("-", &PathMeta::Other, false, &vec![]);
    assert_eq!(res.len(), 1);
    assert_eq!(res[0].as_ref().unwrap(), "-");

    let files = find_files(&vec!["-".to_string()], &vec![PathMeta::Other], true);
    assert_eq!(files.len(), 1);
    assert_eq!(files[0].as_ref().unwrap(), "-");
}

#[test]
fn other_kinds_contribute_nothing() {
    let res = expand_path("devnode", &PathMeta::Other, true, &vec![]);
    assert_eq!(res.len(), 0);
}

#[test]
fn source_count_counts_ok_entries() {
    let entries = vec![
        Ok("a.txt".to_string()),
        Err("bad: nope".to_string()),
        Ok("b.txt".to_string()),
    ];
    assert_eq!(source_count(&entries), 2);
    let none: Vec<Result<String, String>> = vec![];
    assert_eq!(source_count(&none), 0);
}
