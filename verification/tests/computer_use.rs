use biscuits::computer_use::{
    append_screenshot_result, key_code_for, open_target_command, parse_key_stroke, press_key,
    safe_label, type_text, Button, ComputerUseRuntime, CuAction, CuCommand, KeyStroke,
    FLAG_COMMAND, FLAG_CONTROL, FLAG_SHIFT,
};

#[test]
fn parses_command_key_combo() {
    let stroke = parse_key_stroke("cmd+l").unwrap();

    assert_eq!(stroke.code, 37);
    assert_eq!(stroke.flags, FLAG_COMMAND);
}

#[test]
fn combo_with_several_modifiers_and_case() {
    let stroke = parse_key_stroke(" Ctrl + SHIFT + Tab ").unwrap();
    assert_eq!(stroke, KeyStroke { code: 48, flags: FLAG_CONTROL | FLAG_SHIFT });
}

#[test]
fn combo_errors() {
    assert_eq!(
        parse_key_stroke("cmd+shift").unwrap_err(),
        "key combo requires a non-modifier key"
    );
    assert_eq!(parse_key_stroke("cmd+nope").unwrap_err(), "unknown key: nope");
    assert_eq!(key_code_for("page-down"), Ok(121));
    assert_eq!(key_code_for("F1"), Err("unknown key: F1".to_string()));
}

#[test]
fn help_command_is_available_without_screen_access() {
    let runtime = ComputerUseRuntime::new("/tmp".to_string());
    match runtime.command_output("/computer-use").unwrap().unwrap() {
        CuCommand::Reply(text) => assert!(text.contains("/computer-use screenshot")),
        _ => panic!("expected the help text"),
    }
}

#[test]
fn command_parsing_covers_actions_and_errors() {
    let rt = ComputerUseRuntime::new("/w".to_string());
    assert!(rt.command_output("hello").unwrap().is_none());
    match rt.command_output("/computer-use click 10 20").unwrap().unwrap() {
        CuCommand::Act(CuAction::Click(x, y, b)) => {
            assert_eq!((x.as_str(), y.as_str(), b.as_str()), ("10", "20", "left"))
        }
        _ => panic!("expected a click"),
    }
    match rt.command_output("/computer-use type  hi there").unwrap().unwrap() {
        CuCommand::Act(CuAction::Type(t)) => assert_eq!(t, " hi there"),
        _ => panic!("expected typing"),
    }
    match rt.command_output("/computer-use wait 250").unwrap().unwrap() {
        CuCommand::Act(CuAction::Wait(ms)) => assert_eq!(ms, 250),
        _ => panic!("expected a wait"),
    }
    assert_eq!(
        rt.command_output("/computer-use wait soon").err().unwrap(),
        "wait requires milliseconds"
    );
    assert_eq!(
        rt.command_output("/computer-use move 1").err().unwrap(),
        "usage: /computer-use move <x> <y>"
    );
    match rt.command_output("/computer-use dance").unwrap().unwrap() {
        CuCommand::Reply(t) => assert!(t.starts_with("unknown /computer-use command\n\n")),
        _ => panic!("expected a reply"),
    }
}

#[test]
fn state_reports_last_target_and_screenshot() {
    let mut rt = ComputerUseRuntime::new("/w".to_string());
    assert_eq!(
        rt.state(),
        "computer_use_state:\nlast_target: none\nlast_screenshot: none\nscreenshot_dir: /w/.biscuits/computer_use/screenshots"
    );
    rt.set_last_target("https://x".to_string());
    rt.set_last_screenshot("/w/s.png".to_string());
    assert!(rt.state().contains("last_target: https://x\nlast_screenshot: /w/s.png"));
}

#[test]
fn buttons_and_labels() {
    assert_eq!(Button::parse("Secondary"), Ok(Button::Right));
    assert_eq!(Button::parse("x").unwrap_err(), "unknown mouse button: x");
    assert_eq!(Button::Middle.name(), "middle");
    assert_eq!(safe_label("a b/c_d-1"), "a-b-c_d-1");
    assert_eq!(open_target_command("it's"), "xdg-open 'it'\\''s'");
    let mut out = "action: key".to_string();
    append_screenshot_result(&mut out, Err("denied".to_string()));
    assert_eq!(out, "action: key\nscreenshot_error: denied");
}

#[test]
fn input_without_a_driver_reports_it() {
    assert_eq!(
        type_text("x").unwrap_err(),
        "typing is currently implemented for macOS builds"
    );
    assert_eq!(
        press_key(KeyStroke { code: 1, flags: 0 }).unwrap_err(),
        "keyboard control is currently implemented for macOS builds"
    );
}
