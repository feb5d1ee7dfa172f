use rustbot_misc::command::{CommandDescriptor, LongHelp};
use rustbot_misc::help::help;
use rustbot_misc::menu::{marker, menu_line};

type Desc = CommandDescriptor<fn() -> String>;

fn desc(name: &str, category: Option<&str>, short: Option<&str>, hidden: bool) -> Desc {
    CommandDescriptor {
        name: name.to_string(),
        category: category.map(|c| c.to_string()),
        short_help: short.map(|s| s.to_string()),
        long_help: None,
        hidden,
    }
}

fn sample() -> (Vec<Desc>, Vec<String>) {
    let reg = vec![
        desc("go", None, Some("Evaluates Go code"), false),
        desc("source", None, Some("Links to repo"), false),
        desc("help", None, Some("Show this menu"), false),
        desc("register", None, None, true),
    ];
    (reg, vec!["go".to_string(), "help".to_string()])
}

const FOOTER: &str = "\nType ?help command for more info on a command.\nYou can edit your message to the bot and the bot will edit its response.\n```";

fn produce() -> String {
    "long text".to_string()
}

#[test]
fn full_menu_scenario() {
    let (reg, alt) = sample();
    let out = help(&reg, &alt, None);
    let expected = format!(
        "```\nCommands:\n  /go          Evaluates Go code\n  ?source      Links to repo\n  /help        Show this menu\n{}",
        FOOTER
    );
    assert_eq!(out, expected);
    assert!(!out.contains("register"));
}

#[test]
fn hidden_command_falls_back() {
    let (reg, alt) = sample();
    assert_eq!(help(&reg, &alt, Some("register".to_string())), "No help available");
}

#[test]
fn short_help_of_named_command() {
    let (reg, alt) = sample();
    assert_eq!(help(&reg, &alt, Some("source".to_string())), "Links to repo");
}

#[test]
fn long_help_wins_over_short() {
    let mut reg = vec![desc("a", None, Some("short"), true), desc("b", None, Some("s"), false)];
    reg[0].long_help = Some(LongHelp::Dynamic(produce as fn() -> String));
    reg[1].long_help = Some(LongHelp::Static("static long".to_string()));
    let alt: Vec<String> = vec![];
    assert_eq!(help(&reg, &alt, Some("a".to_string())), "long text");
    assert_eq!(help(&reg, &alt, Some("b".to_string())), "static long");
}

#[test]
fn unknown_command_is_echoed() {
    let (reg, alt) = sample();
    let out = help(&reg, &alt, Some("frobnicate".to_string()));
    assert_eq!(out, "No such command `frobnicate`");
    assert!(!out.contains("Evaluates"));
}

#[test]
fn first_of_equal_names_answers() {
    let reg = vec![desc("x", None, Some("first"), false), desc("x", None, Some("second"), false)];
    assert_eq!(help(&reg, &vec![], Some("x".to_string())), "first");
}

#[test]
fn categories_in_first_seen_order() {
    let reg = vec![
        desc("a", Some("Zeta"), Some("A"), false),
        desc("b", None, Some("B"), false),
        desc("c", Some("Zeta"), Some("C"), false),
        desc("d", Some("Alpha"), None, false),
        desc("e", None, Some("E"), false),
    ];
    let out = help(&reg, &vec!["c".to_string()], None);
    let expected = format!(
        "```\nZeta:\n  ?a           A\n  /c           C\nCommands:\n  ?b           B\n  ?e           E\nAlpha:\n  ?d           \n{}",
        FOOTER
    );
    assert_eq!(out, expected);
}

#[test]
fn all_hidden_category_has_no_header() {
    let reg = vec![desc("h", Some("Secret"), Some("x"), true), desc("v", None, Some("y"), false)];
    let out = help(&reg, &vec![], None);
    assert_eq!(out, format!("```\nCommands:\n  ?v           y\n{}", FOOTER));
    assert!(!out.contains("Secret"));
}

#[test]
fn empty_registry_menu() {
    let reg: Vec<Desc> = vec![];
    assert_eq!(help(&reg, &vec![], None), format!("```\n{}", FOOTER));
}

#[test]
fn long_name_is_not_cut() {
    let d = desc("averyverylongname", None, Some("h"), false);
    assert_eq!(menu_line(&d, &vec![]), "  ?averyverylongnameh\n");
    let d12 = desc("twelve_chars", None, None, false);
    assert_eq!(menu_line(&d12, &vec!["twelve_chars".to_string()]), "  /twelve_chars\n");
}

#[test]
fn marker_selection() {
    let alt = vec!["go".to_string()];
    assert_eq!(marker(&"go".to_string(), &alt), '/');
    assert_eq!(marker(&"gone".to_string(), &alt), '?');
}
