use maestro::ToolError;
use maestro::ToolResult;
use maestro::get_log_dir;

#[test]
fn success_sets_only_the_output() {
    let r = ToolResult::success("done".to_string());
    assert_eq!(r.output.as_deref(), Some("done"));
    assert!(r.error.is_none());
    assert!(r.base64_image.is_none());
    assert!(r.system.is_none());
}

#[test]
fn error_sets_only_the_error() {
    let r = ToolResult::error("oops".to_string());
    assert!(r.output.is_none());
    assert_eq!(r.error.as_deref(), Some("oops"));
}

#[test]
fn builders_add_image_and_system_fields() {
    let r = ToolResult::success("out".to_string())
        .with_image("aW1n".to_string())
        .with_system("hint".to_string());
    assert_eq!(r.output.as_deref(), Some("out"));
    assert_eq!(r.base64_image.as_deref(), Some("aW1n"));
    assert_eq!(r.system.as_deref(), Some("hint"));
}

#[test]
fn a_tool_error_converts_to_an_error_result() {
    let e = ToolError::new("broken".to_string());
    assert_eq!(e.message(), "broken");
    let r = ToolResult::from(e);
    assert!(r.output.is_none());
    assert_eq!(r.error.as_deref(), Some("broken"));
}

#[test]
fn the_log_directory_is_fixed() {
    assert_eq!(get_log_dir(), "logs");
}
