use maestro::computer::ActionPlan;
use maestro::computer::CaptureBackend;
use maestro::computer::ComputerAction;
use maestro::computer::ComputerTool;
use maestro::computer::ScalingSource;
use maestro::computer::ScrollDirection;
use maestro::computer::encode_screenshot;
use maestro::computer::merge_type_results;
use maestro::computer::screenshot_error;
use maestro::ToolResult;

fn s(t: &str) -> String {
    t.to_string()
}

fn tool_1080p() -> ComputerTool {
    ComputerTool::new(1920, 1080, None)
}

#[test]
fn a_1080p_display_maps_to_the_widescreen_target() {
    let t = tool_1080p();
    let o = t.options();
    assert_eq!(o.display_width_px, 1366);
    assert_eq!(o.display_height_px, 768);
    assert_eq!(o.display_number, None);
}

#[test]
fn a_4_to_3_display_maps_to_the_first_target() {
    let t = ComputerTool::new(1600, 1200, None);
    let o = t.options();
    assert_eq!(o.display_width_px, 1024);
    assert_eq!(o.display_height_px, 768);
}

#[test]
fn a_small_display_is_left_unscaled() {
    let t = ComputerTool::new(800, 600, None);
    assert_eq!(t.scale_coordinates(ScalingSource::Api, 10, 20), (10, 20));
    let o = t.options();
    assert_eq!(o.display_width_px, 800);
    assert_eq!(o.display_height_px, 600);
}

#[test]
fn scaling_round_trips_within_rounding_error() {
    let t = tool_1080p();
    let (ax, ay) = t.scale_coordinates(ScalingSource::Computer, 960, 540);
    assert_eq!((ax, ay), (683, 384));
    let (px, py) = t.scale_coordinates(ScalingSource::Api, ax, ay);
    assert_eq!((px, py), (960, 540));
}

#[test]
fn coordinates_are_validated_before_scaling() {
    let t = tool_1080p();
    let e = t.validate_and_get_coordinates((-1, 5)).unwrap_err();
    assert_eq!(e.message, "(-1, 5) must be a tuple of non-negative ints");
    let e = t.validate_and_get_coordinates((2000, 5)).unwrap_err();
    assert_eq!(e.message, "Coordinates 2000, 5 are out of bounds");
    assert_eq!(t.validate_and_get_coordinates((683, 384)).unwrap(), (960, 540));
}

#[test]
fn mouse_move_builds_one_command_with_physical_coordinates() {
    let t = tool_1080p();
    let p = t
        .plan(ComputerAction::MouseMove, None, Some((683, 384)), None, None, None, None)
        .unwrap();
    match p {
        ActionPlan::RunAndScreenshot { command } => {
            assert_eq!(command, "xdotool mousemove --sync 960 540");
        }
        _ => panic!("expected a single command"),
    }
}

#[test]
fn drag_wraps_the_move_in_press_and_release() {
    let t = tool_1080p();
    let p = t
        .plan(ComputerAction::LeftClickDrag, None, Some((683, 384)), None, None, None, None)
        .unwrap();
    match p {
        ActionPlan::RunAndScreenshot { command } => {
            assert_eq!(command, "xdotool mousedown 1 mousemove --sync 960 540 mouseup 1");
        }
        _ => panic!("expected a single command"),
    }
}

#[test]
fn move_argument_contract_violations_are_validation_errors() {
    let t = tool_1080p();
    let e = t
        .plan(ComputerAction::MouseMove, None, None, None, None, None, None)
        .unwrap_err();
    assert_eq!(e.message, "coordinate is required for MouseMove");
    let e = t
        .plan(ComputerAction::MouseMove, Some(&s("x")), Some((1, 1)), None, None, None, None)
        .unwrap_err();
    assert_eq!(e.message, "text is not accepted for MouseMove");
}

#[test]
fn key_sends_the_literal_sequence() {
    let t = tool_1080p();
    let p = t
        .plan(ComputerAction::Key, Some(&s("Return")), None, None, None, None, None)
        .unwrap();
    match p {
        ActionPlan::RunAndScreenshot { command } => {
            assert_eq!(command, "xdotool key -- Return");
        }
        _ => panic!("expected a single command"),
    }
    let e = t.plan(ComputerAction::Key, None, None, None, None, None, None).unwrap_err();
    assert_eq!(e.message, "text is required for Key");
    let e = t
        .plan(ComputerAction::Key, Some(&s("a")), Some((1, 1)), None, None, None, None)
        .unwrap_err();
    assert_eq!(e.message, "coordinate is not accepted for Key");
}

#[test]
fn typing_is_escaped_and_chunked() {
    let t = tool_1080p();
    let p = t
        .plan(ComputerAction::Type, Some(&s("a b")), None, None, None, None, None)
        .unwrap();
    match p {
        ActionPlan::TypeChunks { commands } => {
            assert_eq!(commands.len(), 1);
            assert_eq!(commands[0], "xdotool type --delay 12 -- 'a b'");
        }
        _ => panic!("expected typing chunks"),
    }
    let long = "x".repeat(120);
    let p = t.plan(ComputerAction::Type, Some(&long), None, None, None, None, None).unwrap();
    match p {
        ActionPlan::TypeChunks { commands } => {
            assert_eq!(commands.len(), 3);
            assert_eq!(commands[0], format!("xdotool type --delay 12 -- {}", "x".repeat(50)));
            assert_eq!(commands[2], format!("xdotool type --delay 12 -- {}", "x".repeat(20)));
        }
        _ => panic!("expected typing chunks"),
    }
}

#[test]
fn clicks_choose_their_button_code_and_honour_modifiers() {
    let t = tool_1080p();
    let p = t
        .plan(
            ComputerAction::LeftClick,
            None,
            Some((683, 384)),
            None,
            None,
            None,
            Some(&s("ctrl")),
        )
        .unwrap();
    match p {
        ActionPlan::RunAndScreenshot { command } => {
            assert_eq!(
                command,
                "xdotool mousemove --sync 960 540 keydown ctrl click 1 keyup ctrl"
            );
        }
        _ => panic!("expected a single command"),
    }
    let p = t
        .plan(ComputerAction::DoubleClick, None, None, None, None, None, None)
        .unwrap();
    match p {
        ActionPlan::RunAndScreenshot { command } => {
            assert_eq!(command, "xdotool click --repeat 2 --delay 10 1");
        }
        _ => panic!("expected a single command"),
    }
    let p = t.plan(ComputerAction::RightClick, None, None, None, None, None, None).unwrap();
    match p {
        ActionPlan::RunAndScreenshot { command } => {
            assert_eq!(command, "xdotool click 3");
        }
        _ => panic!("expected a single command"),
    }
}

#[test]
fn scroll_maps_directions_to_wheel_buttons() {
    let t = tool_1080p();
    let p = t
        .plan(
            ComputerAction::Scroll,
            None,
            None,
            Some(ScrollDirection::Down),
            Some(3),
            None,
            None,
        )
        .unwrap();
    match p {
        ActionPlan::RunAndScreenshot { command } => {
            assert_eq!(command, "xdotool click --repeat 3 5");
        }
        _ => panic!("expected a single command"),
    }
    let e = t
        .plan(ComputerAction::Scroll, None, None, None, Some(3), None, None)
        .unwrap_err();
    assert_eq!(e.message, "scroll_direction is required for scroll action");
    let e = t
        .plan(ComputerAction::Scroll, None, None, Some(ScrollDirection::Up), None, None, None)
        .unwrap_err();
    assert_eq!(e.message, "scroll_amount is required for scroll action");
    let e = t
        .plan(ComputerAction::Scroll, None, None, Some(ScrollDirection::Up), Some(0), None, None)
        .unwrap_err();
    assert_eq!(e.message, "scroll_amount must be a positive integer");
}

#[test]
fn hold_key_sleeps_between_press_and_release() {
    let t = tool_1080p();
    let p = t
        .plan(ComputerAction::HoldKey, Some(&s("x")), None, None, None, Some(1500), None)
        .unwrap();
    match p {
        ActionPlan::RunAndScreenshot { command } => {
            assert_eq!(command, "xdotool keydown x sleep 1.500 keyup x");
        }
        _ => panic!("expected a single command"),
    }
    let e = t
        .plan(ComputerAction::HoldKey, Some(&s("x")), None, None, None, Some(-10), None)
        .unwrap_err();
    assert_eq!(e.message, "duration must be non-negative");
    let e = t
        .plan(ComputerAction::HoldKey, Some(&s("x")), None, None, None, Some(100001), None)
        .unwrap_err();
    assert_eq!(e.message, "duration is too long");
}

#[test]
fn hold_key_renders_fractional_seconds_exactly() {
    let t = tool_1080p();
    let p = t
        .plan(ComputerAction::HoldKey, Some(&s("x")), None, None, None, Some(0), None)
        .unwrap();
    match p {
        ActionPlan::RunAndScreenshot { command } => {
            assert_eq!(command, "xdotool keydown x sleep 0.000 keyup x");
        }
        _ => panic!("expected a single command"),
    }
    let p = t
        .plan(ComputerAction::HoldKey, Some(&s("x")), None, None, None, Some(100000), None)
        .unwrap();
    match p {
        ActionPlan::RunAndScreenshot { command } => {
            assert_eq!(command, "xdotool keydown x sleep 100.000 keyup x");
        }
        _ => panic!("expected a single command"),
    }
}

#[test]
fn scroll_with_modifier_and_coordinate() {
    let t = tool_1080p();
    let p = t
        .plan(
            ComputerAction::Scroll,
            Some(&s("shift")),
            Some((683, 384)),
            Some(ScrollDirection::Left),
            Some(2),
            None,
            None,
        )
        .unwrap();
    match p {
        ActionPlan::RunAndScreenshot { command } => {
            assert_eq!(
                command,
                "xdotool mousemove --sync 960 540 keydown shift click --repeat 2 6 keyup shift"
            );
        }
        _ => panic!("expected a single command"),
    }
}

#[test]
fn wait_becomes_a_sleep_then_screenshot() {
    let t = tool_1080p();
    let p = t.plan(ComputerAction::Wait, None, None, None, None, Some(2500), None).unwrap();
    assert!(matches!(p, ActionPlan::SleepThenScreenshot { duration_ms: 2500 }));
    let e = t.plan(ComputerAction::Wait, None, None, None, None, None, None).unwrap_err();
    assert_eq!(e.message, "duration is required for wait action");
}

#[test]
fn mouse_button_actions_reject_coordinates() {
    let t = tool_1080p();
    let p = t
        .plan(ComputerAction::LeftMouseDown, None, None, None, None, None, None)
        .unwrap();
    match p {
        ActionPlan::RunAndScreenshot { command } => assert_eq!(command, "xdotool mousedown 1"),
        _ => panic!("expected a single command"),
    }
    let e = t
        .plan(ComputerAction::LeftMouseUp, None, Some((1, 1)), None, None, None, None)
        .unwrap_err();
    assert_eq!(e.message, "coordinate is not accepted for LeftMouseUp");
}

#[test]
fn cursor_position_is_parsed_and_shrunk_to_api_space() {
    let t = tool_1080p();
    let q = t
        .plan(ComputerAction::CursorPosition, None, None, None, None, None, None)
        .unwrap();
    match q {
        ActionPlan::QueryCursor { command } => {
            assert_eq!(command, "xdotool getmouselocation --shell");
        }
        _ => panic!("expected a query"),
    }
    let out = s("X=100\nY=200\nSCREEN=0\nWINDOW=1");
    let r = t.finish_cursor_position(Some(&out)).unwrap();
    assert_eq!(r.output.as_deref(), Some("X=71,Y=142"));
    let e = t.finish_cursor_position(None).unwrap_err();
    assert_eq!(e.message, "Failed to get the cursor position");
    let e = t.finish_cursor_position(Some(&s("garbage"))).unwrap_err();
    assert_eq!(e.message, "Could not parse the X coordinate");
    let e = t.finish_cursor_position(Some(&s("X=12a\nY=3"))).unwrap_err();
    assert_eq!(e.message, "Could not parse the X coordinate");
    let e = t.finish_cursor_position(Some(&s("X=5"))).unwrap_err();
    assert_eq!(e.message, "Could not parse the Y coordinate");
}

#[test]
fn a_display_index_prefixes_every_command() {
    let t = ComputerTool::new(1920, 1080, Some(2));
    let p = t.plan(ComputerAction::Key, Some(&s("a")), None, None, None, None, None).unwrap();
    match p {
        ActionPlan::RunAndScreenshot { command } => {
            assert_eq!(command, "DISPLAY=:2 xdotool key -- a");
        }
        _ => panic!("expected a single command"),
    }
}

#[test]
fn screenshot_plans_use_fresh_paths_and_the_logical_resolution() {
    let t = tool_1080p();
    let p1 = t.plan_screenshot(CaptureBackend::Scrot);
    let p2 = t.plan_screenshot(CaptureBackend::Scrot);
    assert!(p1.path.starts_with("/tmp/outputs/screenshot_"));
    assert!(p1.path.ends_with(".png"));
    assert_eq!(p1.path.len(), "/tmp/outputs/screenshot_".len() + 36 + ".png".len());
    assert_ne!(p1.path, p2.path);
    assert_eq!(p1.capture_command, format!("scrot -p {}", p1.path));
    assert_eq!(
        p1.resize_command.as_deref(),
        Some(format!("convert {} -resize 1366x768! {}", p1.path, p1.path).as_str())
    );
    let g = t.plan_screenshot(CaptureBackend::GnomeScreenshot);
    assert_eq!(g.capture_command, format!("gnome-screenshot -f {} -p", g.path));
    let m = t.plan_screenshot(CaptureBackend::Screencapture);
    assert_eq!(m.capture_command, format!("screencapture -x {}", m.path));
}

#[test]
fn screenshots_are_base64_encoded() {
    let r = encode_screenshot(&b"abc".to_vec());
    assert_eq!(r.base64_image.as_deref(), Some("YWJj"));
    assert!(r.output.is_none());
    assert!(r.error.is_none());
    let r = encode_screenshot(&vec![0xffu8, 0x00]);
    assert_eq!(r.base64_image.as_deref(), Some("/wA="));
}

#[test]
fn a_missing_capture_file_reports_the_capture_error() {
    let e = screenshot_error(Some(&s("scrot: command not found")));
    assert_eq!(e.message, "Screenshot failed: scrot: command not found");
    let e = screenshot_error(None);
    assert_eq!(e.message, "Screenshot failed: ");
}

#[test]
fn type_results_are_merged_with_the_screenshot() {
    let parts = vec![
        ToolResult::success(s("one")),
        ToolResult::error(s("bad")),
        ToolResult::success(s("two")),
    ];
    let shot = encode_screenshot(&b"abc".to_vec());
    let merged = merge_type_results(&parts, shot);
    assert_eq!(merged.output.as_deref(), Some("onetwo"));
    assert_eq!(merged.error.as_deref(), Some("bad"));
    assert_eq!(merged.base64_image.as_deref(), Some("YWJj"));
    assert!(merged.system.is_none());
}
