use guardpetal::cli::{
    is_wipe_confirmation, parse_command, parse_confirmation, Command, CommandReader,
};

#[test]
fn parses_help_aliases() {
    assert_eq!(parse_command("help"), Command::Help);
    assert_eq!(parse_command("h"), Command::Help);
    assert_eq!(parse_command("?"), Command::Help);
    assert_eq!(parse_command("  help  "), Command::Help);
}

#[test]
fn parses_simple_commands() {
    assert_eq!(parse_command("settings"), Command::Settings);
    assert_eq!(parse_command("scope"), Command::Scope);
    assert_eq!(parse_command("scan"), Command::Scan);
    assert_eq!(parse_command("devices"), Command::Devices);
    assert_eq!(parse_command("raw"), Command::Raw);
    assert_eq!(parse_command("wipe"), Command::Wipe);
    assert_eq!(parse_command("exit"), Command::Exit);
    assert_eq!(parse_command("quit"), Command::Exit);
}

#[test]
fn run_scan_is_an_alias_for_scan() {
    assert_eq!(parse_command("run scan"), Command::Scan);
    assert_eq!(parse_command("  run \t scan  "), Command::Scan);
    assert_eq!(parse_command("run"), Command::Unknown("run".to_string()));
    assert_eq!(parse_command("run devices"), Command::Unknown("run devices".to_string()));
}

#[test]
fn extra_words_after_a_command_are_ignored() {
    assert_eq!(parse_command("scan now please"), Command::Scan);
    assert_eq!(parse_command("device 3 extra"), Command::Device(3));
}

#[test]
fn parses_device_ids() {
    assert_eq!(parse_command("device 1"), Command::Device(1));
    assert_eq!(parse_command("device 42"), Command::Device(42));
    assert_eq!(parse_command("device 007"), Command::Device(7));
    assert_eq!(parse_command("device +5"), Command::Device(5));
    assert_eq!(parse_command("\tdevice\u{3000}12\n"), Command::Device(12));
}

#[test]
fn bad_device_ids_are_unknown() {
    assert_eq!(parse_command("device"), Command::Unknown("device".to_string()));
    assert_eq!(parse_command("device x"), Command::Unknown("device x".to_string()));
    assert_eq!(parse_command("device -1"), Command::Unknown("device -1".to_string()));
    assert_eq!(parse_command("device +"), Command::Unknown("device +".to_string()));
    assert_eq!(
        parse_command("device 99999999999999999999999"),
        Command::Unknown("device 99999999999999999999999".to_string())
    );
}

#[test]
fn unknown_input_keeps_the_trimmed_text() {
    assert_eq!(parse_command("  hello world  "), Command::Unknown("hello world".to_string()));
    assert_eq!(parse_command("HELP"), Command::Unknown("HELP".to_string()));
    assert_eq!(parse_command("devicess"), Command::Unknown("devicess".to_string()));
}

#[test]
fn blank_input_is_empty() {
    assert_eq!(parse_command(""), Command::Empty);
    assert_eq!(parse_command("   \t \n"), Command::Empty);
    assert_eq!(parse_command("\u{a0}\u{2003}"), Command::Empty);
}

#[test]
fn only_exit_ends_the_session() {
    assert!(parse_command("exit").ends_session());
    assert!(parse_command("quit").ends_session());
    assert!(!parse_command("scan").ends_session());
    assert!(!parse_command("").ends_session());
}

#[test]
fn command_reader_is_created() {
    let _reader = CommandReader::new();
}

#[test]
fn confirmation_answers() {
    assert_eq!(parse_confirmation("y"), Some(true));
    assert_eq!(parse_confirmation("Yes"), Some(true));
    assert_eq!(parse_confirmation("  YES \n"), Some(true));
    assert_eq!(parse_confirmation("n"), Some(false));
    assert_eq!(parse_confirmation("NO"), Some(false));
    assert_eq!(parse_confirmation("maybe"), None);
    assert_eq!(parse_confirmation(""), None);
    assert_eq!(parse_confirmation("y es"), None);
}

#[test]
fn wipe_needs_the_exact_phrase() {
    assert!(is_wipe_confirmation("delete my GuardPetal data"));
    assert!(is_wipe_confirmation("  delete my GuardPetal data \n"));
    assert!(!is_wipe_confirmation("delete my guardpetal data"));
    assert!(!is_wipe_confirmation("delete my GuardPetal data now"));
    assert!(!is_wipe_confirmation(""));
}
