use rolodex_core::edit::{
    DiskFile, EditOperation, InsertPosition, WorkingFile, apply_operation, compile_edit_operations_to_patch,
    insert_relative_to_anchor,
};

fn disk(path: &str, content: &str) -> DiskFile {
    DiskFile { path: path.to_string(), content: Some(content.to_string()), error: None }
}

fn file_sections(patch: &str) -> usize {
    patch
        .lines()
        .filter(|l| l.starts_with("*** Add File: ") || l.starts_with("*** Update File: ") || l.starts_with("*** Delete File: "))
        .count()
}

#[test]
fn compile_edit_operations_supports_multi_step_flow() {
    let cwd = "/work";
    let files = vec![disk("/work/alpha.txt", "hello\nworld\n")];

    let operations = vec![
        EditOperation::Replace {
            path: "alpha.txt".to_string(),
            old: "world".to_string(),
            new: "team".to_string(),
            replace_all: None,
            expected_replacements: Some(1),
        },
        EditOperation::InsertAfter {
            path: "alpha.txt".to_string(),
            anchor: "hello\n".to_string(),
            content: "there\n".to_string(),
            insert_all: None,
            expected_occurrences: Some(1),
        },
        EditOperation::Create { path: "beta.txt".to_string(), content: "fresh\nfile\n".to_string(), overwrite: None },
    ];

    let patch = compile_edit_operations_to_patch(cwd, &files, &operations).ok().expect("patch");
    assert_eq!(file_sections(&patch), 2);
    assert!(patch.starts_with("*** Begin Patch\n"));
    assert!(patch.ends_with("*** End Patch\n"));
    assert!(patch.contains("*** Update File: alpha.txt\n@@\n-hello\n-world\n+hello\n+there\n+team\n"));
    assert!(patch.contains("*** Add File: beta.txt\n+fresh\n+file\n"));
}

#[test]
fn insert_before_respects_expected_occurrences() {
    let result = insert_relative_to_anchor("abc abc", "abc", "X", InsertPosition::Before, false, Some(1), "demo.txt");

    let err = match result {
        Err(e) => e,
        Ok(_) => panic!("should reject wrong occurrence count"),
    };
    assert_eq!(err.to_message(), "insert in demo.txt expected 1 matches but found 2");
}

#[test]
fn move_compiles_to_delete_and_add() {
    let cwd = "/work";
    let files = vec![disk("/work/move-me.txt", "payload\n")];

    let patch = compile_edit_operations_to_patch(
        cwd,
        &files,
        &[EditOperation::Move { from: "move-me.txt".to_string(), to: "moved.txt".to_string(), overwrite: None }],
    )
    .ok()
    .expect("patch");

    assert!(patch.contains("*** Delete File: move-me.txt"));
    assert!(patch.contains("*** Add File: moved.txt"));
}

#[test]
fn edit_refuses_empty_add_and_no_change() {
    let cwd = "/work";
    let r = compile_edit_operations_to_patch(
        cwd,
        &[],
        &[EditOperation::Create { path: "empty.txt".to_string(), content: String::new(), overwrite: None }],
    );
    match r {
        Err(e) => assert_eq!(e.to_message(), "edit cannot create an empty file at empty.txt; use at least one newline-terminated line"),
        Ok(_) => panic!("an empty file cannot be added"),
    }
    let files = vec![disk("/work/same.txt", "x\n")];
    let r = compile_edit_operations_to_patch(
        cwd,
        &files,
        &[EditOperation::Replace {
            path: "same.txt".to_string(),
            old: "x".to_string(),
            new: "x".to_string(),
            replace_all: None,
            expected_replacements: None,
        }],
    );
    match r {
        Err(e) => assert_eq!(e.to_message(), "edit produced no filesystem changes"),
        Ok(_) => panic!("nothing changed"),
    }
}

#[test]
fn update_without_trailing_newline_marks_end_of_file() {
    let cwd = "/work";
    let files = vec![disk("/work/a.txt", "one")];
    let patch = compile_edit_operations_to_patch(
        cwd,
        &files,
        &[EditOperation::Replace {
            path: "a.txt".to_string(),
            old: "one".to_string(),
            new: "two".to_string(),
            replace_all: None,
            expected_replacements: Some(1),
        }],
    )
    .ok()
    .expect("patch");
    assert!(patch.contains("-one\n+two\n*** End of File\n"));
}

#[test]
fn refused_create_leaves_working_set_unchanged() {
    let mut files = vec![WorkingFile {
        path: "/work/a.txt".to_string(),
        original_content: Some("x\n".to_string()),
        current_content: Some("y\n".to_string()),
    }];
    let op = EditOperation::Create { path: "a.txt".to_string(), content: "z\n".to_string(), overwrite: None };
    let err = apply_operation("/work", &mut files, &[], &op).err().expect("refused");
    assert_eq!(err.to_message(), "create would overwrite existing file /work/a.txt");
    assert_eq!(files.len(), 1);
    assert_eq!(files[0].current_content.as_deref(), Some("y\n"));
    assert_eq!(files[0].original_content.as_deref(), Some("x\n"));
}

#[test]
fn move_within_working_set_reads_no_disk() {
    let wf = |p: &str, o: Option<&str>, c: Option<&str>| WorkingFile {
        path: p.to_string(),
        original_content: o.map(str::to_string),
        current_content: c.map(str::to_string),
    };
    let mut files = vec![wf("/work/a.txt", Some("x\n"), Some("x\n")), wf("/work/b.txt", None, None)];
    let op = EditOperation::Move { from: "a.txt".to_string(), to: "b.txt".to_string(), overwrite: None };
    assert!(apply_operation("/work", &mut files, &[], &op).is_ok());
    assert_eq!(files.len(), 2);
    assert_eq!(files[0].current_content, None);
    assert_eq!(files[0].original_content.as_deref(), Some("x\n"));
    assert_eq!(files[1].current_content.as_deref(), Some("x\n"));
    assert_eq!(files[1].original_content, None);

    let same = EditOperation::Move { from: "b.txt".to_string(), to: "./b.txt".to_string(), overwrite: None };
    let before: Vec<Option<String>> = files.iter().map(|f| f.current_content.clone()).collect();
    assert!(apply_operation("/work", &mut files, &[], &same).is_ok());
    let after: Vec<Option<String>> = files.iter().map(|f| f.current_content.clone()).collect();
    assert_eq!(before, after);
}
