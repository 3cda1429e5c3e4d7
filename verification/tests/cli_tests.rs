use ox_core::cli::{CommandLineInterface, CommandLineInterfaceFlags};

#[test]
fn basic_options_ask_for_an_early_exit() {
    let cli = CommandLineInterface {
        flags: CommandLineInterfaceFlags {
            help: true,
            version: false,
            read_only: false,
            stdin: false,
        },
        file_type: None,
        config_path: "~/.oxrc".to_string(),
        to_open: vec![],
    };
    assert!(cli.wants_basic_option());

    let cli = CommandLineInterface {
        flags: CommandLineInterfaceFlags {
            help: false,
            version: false,
            read_only: true,
            stdin: false,
        },
        file_type: Some("lua".to_string()),
        config_path: "conf.lua".to_string(),
        to_open: vec!["a.txt".to_string()],
    };
    assert!(!cli.wants_basic_option());
}
