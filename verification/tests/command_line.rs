use std::path::PathBuf;

use d1flash::cli::Cli;

fn text(s: &str) -> String {
    s.to_string()
}

fn cli(reset: Option<Option<u64>>, flash: bool) -> Cli {
    Cli { config_path: PathBuf::from("d1flash.toml"), recipe: Vec::new(), reset, flash }
}

#[test]
fn without_the_reset_flag_there_is_no_delayed_reset() {
    assert_eq!(cli(None, false).reset_delay(), None);
    assert_eq!(cli(None, true).reset_delay(), None);
}

#[test]
fn the_reset_flag_alone_asks_for_the_default_delay() {
    assert_eq!(cli(Some(None), false).reset_delay(), Some(2000));
}

#[test]
fn the_reset_flag_may_name_its_delay() {
    assert_eq!(cli(Some(Some(500)), false).reset_delay(), Some(500));
    assert_eq!(cli(Some(Some(0)), true).reset_delay(), Some(0));
    assert_eq!(cli(Some(Some(u64::MAX)), false).reset_delay(), Some(u64::MAX));
}

#[test]
fn the_command_line_keeps_its_tokens() {
    let parsed = Cli {
        config_path: PathBuf::from("/etc/d1flash.toml"),
        recipe: vec![text("ls"), text("-la")],
        reset: Some(Some(250)),
        flash: false,
    };
    assert_eq!(parsed.config_path, PathBuf::from("/etc/d1flash.toml"));
    assert_eq!(parsed.recipe, vec![text("ls"), text("-la")]);
    assert_eq!(parsed.reset_delay(), Some(250));
}

#[test]
fn flash_implies_reset() {
    assert!(cli(None, true).wants_reset());
    assert!(cli(Some(None), false).wants_reset());
    assert!(cli(Some(Some(10)), true).wants_reset());
    assert!(!cli(None, false).wants_reset());
}
