use cliphist_ui::launch::{
    key_command, parse_launch_args, usage, KeyCommand, KeyPress, LaunchError, LaunchRequest,
    NamedKey,
};

fn args(list: &[&str]) -> Vec<String> {
    list.iter().map(|s| s.to_string()).collect()
}

fn typed(c: char) -> KeyPress {
    KeyPress { key: NamedKey::Other, character: Some(c), ctrl: false }
}

fn named(key: NamedKey) -> KeyPress {
    KeyPress { key, character: None, ctrl: false }
}

#[test]
fn no_arguments_open_the_popup() {
    assert_eq!(parse_launch_args(&args(&["cliphist-ui"])), Ok(LaunchRequest { service: false }));
    assert_eq!(parse_launch_args(&args(&[])), Ok(LaunchRequest { service: false }));
}

#[test]
fn service_flag_starts_the_service() {
    assert_eq!(
        parse_launch_args(&args(&["cliphist-ui", "--service"])),
        Ok(LaunchRequest { service: true })
    );
    assert_eq!(
        parse_launch_args(&args(&["cliphist-ui", "--service", "--service"])),
        Ok(LaunchRequest { service: true })
    );
}

#[test]
fn help_asks_for_usage() {
    assert_eq!(parse_launch_args(&args(&["cliphist-ui", "--help"])), Err(LaunchError::Usage));
    assert_eq!(parse_launch_args(&args(&["cliphist-ui", "-h"])), Err(LaunchError::Usage));
    assert_eq!(usage(), "Usage: cliphist-ui [--service]");
}

#[test]
fn unknown_arguments_are_refused() {
    let result = parse_launch_args(&args(&["cliphist-ui", "--service", "--fast"]));
    assert_eq!(result, Err(LaunchError::UnknownArgument("--fast".to_string())));
    assert_eq!(result.unwrap_err().message(), "unknown argument: --fast");
    assert_eq!(LaunchError::Usage.message(), "Usage: cliphist-ui [--service]");
}

#[test]
fn list_keys_map_to_commands() {
    assert_eq!(key_command(&typed('j')), Some(KeyCommand::MoveDown));
    assert_eq!(key_command(&named(NamedKey::Down)), Some(KeyCommand::MoveDown));
    assert_eq!(key_command(&typed('k')), Some(KeyCommand::MoveUp));
    assert_eq!(key_command(&named(NamedKey::Up)), Some(KeyCommand::MoveUp));
    assert_eq!(key_command(&typed('g')), Some(KeyCommand::SelectFirst));
    assert_eq!(key_command(&typed('G')), Some(KeyCommand::SelectLast));
    assert_eq!(key_command(&typed('/')), Some(KeyCommand::Search));
    assert_eq!(key_command(&typed('?')), Some(KeyCommand::ToggleHelp));
    assert_eq!(key_command(&named(NamedKey::Return)), Some(KeyCommand::Copy));
    assert_eq!(key_command(&named(NamedKey::KeypadEnter)), Some(KeyCommand::Copy));
    assert_eq!(key_command(&typed('y')), Some(KeyCommand::Copy));
    assert_eq!(key_command(&typed('d')), Some(KeyCommand::Delete));
    assert_eq!(key_command(&typed('D')), Some(KeyCommand::Clear));
    assert_eq!(key_command(&typed('r')), Some(KeyCommand::ReloadPlain));
    assert_eq!(key_command(&typed('q')), Some(KeyCommand::Quit));
    assert_eq!(key_command(&named(NamedKey::Escape)), Some(KeyCommand::Escape));
    assert_eq!(
        key_command(&KeyPress { key: NamedKey::Other, character: Some('r'), ctrl: true }),
        Some(KeyCommand::Reload)
    );
    assert_eq!(
        key_command(&KeyPress { key: NamedKey::Other, character: Some('R'), ctrl: true }),
        Some(KeyCommand::Reload)
    );
    assert_eq!(
        key_command(&KeyPress { key: NamedKey::Down, character: None, ctrl: true }),
        Some(KeyCommand::MoveDown)
    );
    assert_eq!(key_command(&typed('x')), None);
    assert_eq!(key_command(&named(NamedKey::Other)), None);
}
