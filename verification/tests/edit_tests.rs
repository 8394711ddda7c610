use maestro::edit::EditCommand;
use maestro::edit::EditTool;

fn s(t: &str) -> String {
    t.to_string()
}

#[test]
fn create_records_history_and_reports_success() {
    let mut tool = EditTool::new();
    let path = s("/tmp/x.txt");
    let r = tool.create(&path, Some(&s("a\nb\nc"))).unwrap();
    assert_eq!(r.output.as_deref(), Some("File created successfully at: /tmp/x.txt"));
    assert!(r.error.is_none());
    assert!(r.base64_image.is_none());
    assert!(r.system.is_none());
}

#[test]
fn create_without_text_is_rejected() {
    let mut tool = EditTool::new();
    let e = tool.create(&s("/tmp/x.txt"), None).unwrap_err();
    assert_eq!(e.message, "Parameter `file_text` is required for command: create");
}

#[test]
fn view_whole_file_numbers_lines_from_one() {
    let tool = EditTool::new();
    let r = tool.view_file(&s("/tmp/x.txt"), &s("a\nb"), None).unwrap();
    assert_eq!(
        r.output.as_deref(),
        Some("Here's the result of running `cat -n` on /tmp/x.txt:\n     1\ta\n     2\tb\n")
    );
}

#[test]
fn view_range_selects_lines_with_their_numbers() {
    let tool = EditTool::new();
    let r = tool.view_file(&s("/tmp/x.txt"), &s("a\nb\nc"), Some(&vec![2, 2])).unwrap();
    assert_eq!(
        r.output.as_deref(),
        Some("Here's the result of running `cat -n` on /tmp/x.txt:\n     2\tb\n")
    );
}

#[test]
fn view_range_to_end_of_file() {
    let tool = EditTool::new();
    let r = tool.view_file(&s("/tmp/x.txt"), &s("a\nb\nc"), Some(&vec![2, -1])).unwrap();
    assert_eq!(
        r.output.as_deref(),
        Some("Here's the result of running `cat -n` on /tmp/x.txt:\n     2\tb\n     3\tc\n")
    );
}

#[test]
fn view_range_validation_errors() {
    let tool = EditTool::new();
    let content = s("a\nb\nc");
    let e = tool.view_file(&s("/f"), &content, Some(&vec![1])).unwrap_err();
    assert_eq!(e.message, "Invalid `view_range`. It should be a list of two integers.");
    let e = tool.view_file(&s("/f"), &content, Some(&vec![0, 2])).unwrap_err();
    assert_eq!(
        e.message,
        "Invalid `view_range`: [0, 2]. Its first element `0` should be within the range of lines of the file: [1, 3]"
    );
    let e = tool.view_file(&s("/f"), &content, Some(&vec![3, 2])).unwrap_err();
    assert_eq!(
        e.message,
        "Invalid `view_range`: [3, 2]. Its second element `2` should be larger or equal than its first element `3`"
    );
    let e = tool.view_file(&s("/f"), &content, Some(&vec![1, 4])).unwrap_err();
    assert_eq!(
        e.message,
        "Invalid `view_range`: [1, 4]. Its second element `4` should be smaller than the number of lines in the file: `3`"
    );
}

#[test]
fn str_replace_unique_occurrence_rewrites_the_file() {
    let mut tool = EditTool::new();
    let path = s("/tmp/x.txt");
    let (new_content, r) = tool
        .str_replace(&path, &s("a\nb\nc"), Some(&s("b")), Some(&s("B")))
        .unwrap();
    assert_eq!(new_content, "a\nB\nc");
    let out = r.output.unwrap();
    assert!(out.starts_with("The file /tmp/x.txt has been edited. \n\n"));
    assert!(out.contains("     2\tB"));
}

#[test]
fn str_replace_missing_string_is_an_error() {
    let mut tool = EditTool::new();
    let e = tool
        .str_replace(&s("/tmp/x.txt"), &s("a\nb\nc"), Some(&s("zzz")), Some(&s("B")))
        .unwrap_err();
    assert_eq!(
        e.message,
        "No replacement was performed, old_str `zzz` did not appear verbatim in /tmp/x.txt"
    );
}

#[test]
fn str_replace_multiple_occurrences_lists_every_line() {
    let mut tool = EditTool::new();
    let e = tool
        .str_replace(&s("/tmp/x.txt"), &s("b\nx\nb"), Some(&s("b")), Some(&s("B")))
        .unwrap_err();
    assert_eq!(
        e.message,
        "No replacement was performed. Multiple occurrences of old_str `b` in lines [1, 3]. Please ensure it is unique"
    );
}

#[test]
fn str_replace_normalizes_tabs() {
    let mut tool = EditTool::new();
    let (new_content, _) = tool
        .str_replace(&s("/f"), &s("x    y"), Some(&s("x\ty")), Some(&s("z")))
        .unwrap();
    assert_eq!(new_content, "z");
}

#[test]
fn str_replace_default_replacement_is_empty() {
    let mut tool = EditTool::new();
    let (new_content, _) = tool.str_replace(&s("/f"), &s("abc"), Some(&s("b")), None).unwrap();
    assert_eq!(new_content, "ac");
}

#[test]
fn insert_at_line_zero_prepends() {
    let mut tool = EditTool::new();
    let (new_content, _) = tool.insert(&s("/f"), &s("a\nb"), Some(0), Some(&s("z"))).unwrap();
    assert_eq!(new_content, "z\na\nb");
}

#[test]
fn insert_at_file_length_appends() {
    let mut tool = EditTool::new();
    let (new_content, _) = tool.insert(&s("/f"), &s("a\nb"), Some(2), Some(&s("z"))).unwrap();
    assert_eq!(new_content, "a\nb\nz");
}

#[test]
fn insert_in_the_middle() {
    let mut tool = EditTool::new();
    let (new_content, r) = tool.insert(&s("/f"), &s("a\nb"), Some(1), Some(&s("z"))).unwrap();
    assert_eq!(new_content, "a\nz\nb");
    let out = r.output.unwrap();
    assert!(out.contains("a snippet of the edited file"));
}

#[test]
fn insert_outside_the_file_is_rejected() {
    let mut tool = EditTool::new();
    let e = tool.insert(&s("/f"), &s("a\nb"), Some(3), Some(&s("z"))).unwrap_err();
    assert_eq!(
        e.message,
        "Invalid `insert_line` parameter: 3. It should be within the range of lines of the file: [0, 2]"
    );
    let e = tool.insert(&s("/f"), &s("a\nb"), Some(-1), Some(&s("z"))).unwrap_err();
    assert_eq!(
        e.message,
        "Invalid `insert_line` parameter: -1. It should be within the range of lines of the file: [0, 2]"
    );
}

#[test]
fn insert_missing_arguments_are_rejected_in_order() {
    let mut tool = EditTool::new();
    let e = tool.insert(&s("/f"), &s("a"), None, Some(&s("z"))).unwrap_err();
    assert_eq!(e.message, "Parameter `insert_line` is required for command: insert");
    let e = tool.insert(&s("/f"), &s("a"), Some(0), None).unwrap_err();
    assert_eq!(e.message, "Parameter `new_str` is required for command: insert");
}

#[test]
fn undo_restores_the_previous_content_one_step_at_a_time() {
    let mut tool = EditTool::new();
    let path = s("/tmp/x.txt");
    tool.create(&path, Some(&s("a\nb\nc"))).unwrap();
    let (c1, _) = tool.str_replace(&path, &s("a\nb\nc"), Some(&s("b")), Some(&s("B"))).unwrap();
    assert_eq!(c1, "a\nB\nc");
    let (restored, r) = tool.undo_edit(&path).unwrap();
    assert_eq!(restored, "a\nb\nc");
    let out = r.output.unwrap();
    assert!(out.starts_with("Last edit to /tmp/x.txt undone successfully.\n\n"));
    let (restored2, _) = tool.undo_edit(&path).unwrap();
    assert_eq!(restored2, "a\nb\nc");
    let e = tool.undo_edit(&path).unwrap_err();
    assert_eq!(e.message, "No edit history found for /tmp/x.txt");
}

#[test]
fn undo_histories_are_kept_per_path() {
    let mut tool = EditTool::new();
    tool.create(&s("/a"), Some(&s("first"))).unwrap();
    tool.create(&s("/b"), Some(&s("second"))).unwrap();
    let (ra, _) = tool.undo_edit(&s("/a")).unwrap();
    assert_eq!(ra, "first");
    let (rb, _) = tool.undo_edit(&s("/b")).unwrap();
    assert_eq!(rb, "second");
}

#[test]
fn undo_without_history_is_an_error() {
    let mut tool = EditTool::new();
    let e = tool.undo_edit(&s("/nowhere")).unwrap_err();
    assert_eq!(e.message, "No edit history found for /nowhere");
}

#[test]
fn validate_path_rules() {
    let tool = EditTool::new();
    let e = tool.validate_path(&EditCommand::View, &s("relative.txt"), true, false).unwrap_err();
    assert_eq!(
        e.message,
        "The path relative.txt is not an absolute path, it should start with `/`."
    );
    let e = tool.validate_path(&EditCommand::View, &s("/missing"), false, false).unwrap_err();
    assert_eq!(e.message, "The path /missing does not exist. Please provide a valid path.");
    let e = tool.validate_path(&EditCommand::Create, &s("/present"), true, false).unwrap_err();
    assert_eq!(
        e.message,
        "File already exists at: /present. Cannot overwrite files using command `create`."
    );
    let e = tool.validate_path(&EditCommand::Insert, &s("/dir"), true, true).unwrap_err();
    assert_eq!(
        e.message,
        "The path /dir is a directory and only the `view` command can be used on directories"
    );
    assert!(tool.validate_path(&EditCommand::View, &s("/dir"), true, true).is_ok());
    assert!(tool.validate_path(&EditCommand::Create, &s("/fresh"), false, false).is_ok());
    assert!(tool.validate_path(&EditCommand::StrReplace, &s("/file"), true, false).is_ok());
}

#[test]
fn oversized_files_are_rejected() {
    let tool = EditTool::new();
    assert!(tool.check_file_size(&s("/f"), 10485760).is_ok());
    let e = tool.check_file_size(&s("/f"), 10485761).unwrap_err();
    assert_eq!(
        e.message,
        "The file /f is too large (10485761 bytes); the limit is 10485760 bytes. Use the view_range parameter to read specific line ranges."
    );
}

#[test]
fn directory_view_sorts_and_hides_dot_entries() {
    let tool = EditTool::new();
    let dirs = vec![s("b"), s(".hidden"), s("a")];
    let files = vec![s("z"), s("y"), s(".git")];
    let r = tool.view_directory(&s("/d"), &dirs, &files, false).unwrap();
    assert_eq!(
        r.output.as_deref(),
        Some("Contents of directory /d:\n\nDirectories:\na/\nb/\n\nFiles:\ny\nz")
    );
}

#[test]
fn make_output_numbers_each_line() {
    let tool = EditTool::new();
    let r = tool.make_output(&s("a\nb"), &s("f"), 1);
    assert_eq!(r, "Here's the result of running `cat -n` on f:\n     1\ta\n     2\tb\n");
    let r = tool.make_output(&s("x"), &s("f"), 12345678);
    assert_eq!(r, "Here's the result of running `cat -n` on f:\n12345678\tx\n");
}

#[test]
fn end_to_end_create_view_replace_undo() {
    let mut tool = EditTool::new();
    let path = s("/tmp/x.txt");
    let mut disk: Option<String> = None;

    let created = s("a\nb\nc");
    let r = tool.create(&path, Some(&created)).unwrap();
    disk = Some(created.clone());
    assert_eq!(r.output.as_deref(), Some("File created successfully at: /tmp/x.txt"));

    let r = tool.view_file(&path, disk.as_ref().unwrap(), Some(&vec![2, 2])).unwrap();
    assert_eq!(
        r.output.as_deref(),
        Some("Here's the result of running `cat -n` on /tmp/x.txt:\n     2\tb\n")
    );

    let (new_content, r) = tool
        .str_replace(&path, disk.as_ref().unwrap(), Some(&s("b")), Some(&s("B")))
        .unwrap();
    assert!(r.output.is_some());
    assert_eq!(new_content, "a\nB\nc");
    disk = Some(new_content);

    let (restored, _) = tool.undo_edit(&path).unwrap();
    assert_eq!(restored, "a\nb\nc");
    disk = Some(restored);
    assert_eq!(disk.as_deref(), Some("a\nb\nc"));
}

#[test]
fn directory_view_rejects_a_view_range() {
    let tool = EditTool::new();
    let e = tool.view_directory(&s("/d"), &vec![], &vec![], true).unwrap_err();
    assert_eq!(
        e.message,
        "The view_range parameter is not allowed when `path` points to a directory."
    );
}
