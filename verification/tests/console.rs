use fracture::console::{interpret_console_line, ConsoleAction, LogLevel};
use fracture::{console_config, AppConfig};

fn run(line: &str, active: bool, config: &mut AppConfig) -> ConsoleAction {
    interpret_console_line(line, active, config)
}

#[test]
fn blank_lines_do_nothing() {
    let mut config = AppConfig::default();
    assert!(matches!(run("   \t ", false, &mut config), ConsoleAction::Nothing));
    assert!(matches!(run("", true, &mut config), ConsoleAction::Nothing));
}

#[test]
fn help_status_exit() {
    let mut config = AppConfig::default();
    assert!(matches!(run("help", false, &mut config), ConsoleAction::ShowHelp));
    assert!(matches!(run("  ?  ", false, &mut config), ConsoleAction::ShowHelp));
    assert!(matches!(run("STATUS", false, &mut config), ConsoleAction::ShowStatus));
    assert!(matches!(run("exit", false, &mut config), ConsoleAction::Exit));
    assert!(matches!(run("Quit now", false, &mut config), ConsoleAction::Exit));
}

#[test]
fn start_and_stop_depend_on_state() {
    let mut config = AppConfig::default();
    assert!(matches!(run("start", false, &mut config), ConsoleAction::StartEngine));
    assert!(matches!(run("start", true, &mut config), ConsoleAction::AlreadyRunning));
    assert!(matches!(run("stop", true, &mut config), ConsoleAction::StopEngine));
    assert!(matches!(run("stop", false, &mut config), ConsoleAction::AlreadyStopped));
}

#[test]
fn log_levels() {
    let mut config = AppConfig::default();
    assert!(matches!(run("log", false, &mut config), ConsoleAction::LogUsage));
    match run("log Debug", false, &mut config) {
        ConsoleAction::SetLogLevel(level, raw) => {
            assert_eq!(level, LogLevel::Debug);
            assert_eq!(raw, "Debug");
        }
        other => panic!("unexpected {:?}", other),
    }
    assert!(matches!(run("log OFF", false, &mut config), ConsoleAction::SetLogLevel(LogLevel::Off, _)));
    assert!(matches!(run("log verbose", false, &mut config), ConsoleAction::InvalidLogLevel));
}

#[test]
fn fragment_and_https_toggles() {
    let mut config = console_config(8081, false, 100, false);
    assert!(matches!(run("fragment", false, &mut config), ConsoleAction::FragmentUsage));
    assert!(matches!(run("fragment ON", false, &mut config), ConsoleAction::FragmentationSet(true)));
    assert!(config.tls_record_fragmentation);
    assert!(matches!(run("fragment maybe", false, &mut config), ConsoleAction::InvalidFragmentArgument));
    assert!(config.tls_record_fragmentation);
    assert!(matches!(run("fragment off", false, &mut config), ConsoleAction::FragmentationSet(false)));
    assert!(!config.tls_record_fragmentation);

    assert!(matches!(run("https", false, &mut config), ConsoleAction::HttpsUsage));
    assert!(matches!(run("https on", false, &mut config), ConsoleAction::HttpsOnlySet(true)));
    assert!(config.https_only);
    assert!(matches!(run("https yes", false, &mut config), ConsoleAction::InvalidHttpsArgument));
    assert!(matches!(run("https Off", false, &mut config), ConsoleAction::HttpsOnlySet(false)));
    assert!(!config.https_only);
}

#[test]
fn size_command() {
    let mut config = console_config(9090, true, 256, true);
    assert!(matches!(run("size", false, &mut config), ConsoleAction::SizeUsage));
    assert!(matches!(run("size 64", false, &mut config), ConsoleAction::SizeSet(64)));
    assert_eq!(config.fragmentation_size, 64);
    assert!(matches!(run("size -1", false, &mut config), ConsoleAction::InvalidSize));
    assert!(matches!(run("size 12kb", false, &mut config), ConsoleAction::InvalidSize));
    assert_eq!(config.fragmentation_size, 64);
    assert!(matches!(run("size +7 extra", false, &mut config), ConsoleAction::SizeSet(7)));
    assert_eq!(config.fragmentation_size, 7);
    assert_eq!(config.proxy_port, 9090);
    assert!(config.tls_record_fragmentation && config.https_only);
}

#[test]
fn unknown_commands_are_lower_cased() {
    let mut config = AppConfig::default();
    match run("FooBar baz", false, &mut config) {
        ConsoleAction::Unknown(command) => assert_eq!(command, "foobar"),
        other => panic!("unexpected {:?}", other),
    }
}
