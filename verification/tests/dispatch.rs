use dispatch::dispatch::{command, find_help};
use dispatch::map::Addressing;
use dispatch::model::{Context, Message, Permissions};
use dispatch::options::{
    Command, CommandGroup, CommandOptions, Configuration, GroupOptions, OnlyIn, WithWhiteSpace,
};
use dispatch::outcome::{Invoke, ParseError};
use dispatch::prefix::prefix;
use dispatch::scanner::Scanner;
use std::collections::HashSet;

fn leaf(names: &[&str]) -> Command {
    Command {
        options: CommandOptions {
            names: names.iter().map(|s| s.to_string()).collect(),
            owners_only: false,
            only_in: OnlyIn::Anywhere,
            required_permissions: Permissions { bits: 0 },
            owner_privilege: true,
            allowed_roles: Vec::new(),
            sub_commands: Vec::new(),
        },
    }
}

fn top(name: &str, prefixes: &[&str], commands: Vec<Command>, sub_groups: Vec<CommandGroup>) -> CommandGroup {
    CommandGroup {
        name: name.to_string(),
        options: GroupOptions {
            prefixes: prefixes.iter().map(|s| s.to_string()).collect(),
            owners_only: false,
            only_in: OnlyIn::Anywhere,
            required_permissions: Permissions { bits: 0 },
            owner_privilege: true,
            allowed_roles: Vec::new(),
            default_command: None,
        },
        commands,
        sub_groups,
    }
}

fn settings(by_space: bool) -> Configuration {
    Configuration {
        allow_dm: true,
        with_whitespace: WithWhiteSpace { prefixes: true, groups: true, commands: true },
        by_space,
        case_insensitive: false,
        on_mention: Some("42".to_string()),
        owners: HashSet::new(),
        prefixes: vec!["!".to_string()],
        disabled_commands: Vec::new(),
    }
}

fn anywhere() -> Context {
    Context { dynamic_prefixes: Vec::new(), guild: None }
}

fn message() -> Message {
    Message { author_id: 1, guild_id: Some(10), private: false }
}

fn invoked(r: &Result<Invoke, ParseError>) -> String {
    match r {
        Ok(Invoke::Command { group, command }) => format!("{}/{}", group.name, command.options.names[0]),
        Ok(Invoke::Help(name)) => format!("help:{}", name),
        Err(e) => format!("{:?}", e),
    }
}

fn run(text: &str, groups: &[&CommandGroup], config: &Configuration, help: Option<&[&'static str]>) -> (String, usize) {
    let table: Vec<(&CommandGroup, Addressing)> = groups.iter().map(|g| (*g, Addressing::new(g))).collect();
    let mut stream = Scanner::new(text);
    let r = command(&anywhere(), &message(), &mut stream, &table, config, help);
    (invoked(&r), stream.offset())
}

#[test]
fn help_wins_over_a_command_of_the_same_name() {
    let general = top("General", &[], vec![leaf(&["help"]), leaf(&["ping"])], vec![]);
    for by_space in [true, false] {
        let config = settings(by_space);
        assert_eq!(run("help", &[&general], &config, Some(&["help"])), ("help:help".to_string(), 4));
        assert_eq!(run("help  ping", &[&general], &config, Some(&["h", "help"])), ("help:help".to_string(), 6));
        assert_eq!(run("help", &[&general], &config, Some(&["he", "help"])), ("help:help".to_string(), 4));
        assert_eq!(run("help", &[&general], &config, None), ("General/help".to_string(), 4));
        assert_eq!(run("help", &[&general], &config, Some(&[])), ("General/help".to_string(), 4));
    }
}

#[test]
fn help_name_has_to_be_the_whole_word() {
    let general = top("General", &[], vec![leaf(&["ping"])], vec![]);
    for by_space in [true, false] {
        let config = settings(by_space);
        assert_eq!(run("helpme", &[], &config, Some(&["help"])), ("Unknown(UnknownCommand(None))".to_string(), 0));
        assert_eq!(run("hel", &[], &config, Some(&["help"])), ("Unknown(UnknownCommand(None))".to_string(), 0));
        assert_eq!(run(" help", &[], &config, Some(&["help"])), ("Unknown(UnknownCommand(None))".to_string(), 0));
        assert_eq!(run("", &[], &config, Some(&["help"])), ("Unknown(UnknownCommand(None))".to_string(), 0));
        let named = if by_space { "Unknown(UnknownCommand(Some(\"pinghelp\")))" } else { "General/ping" };
        assert_eq!(run("pinghelp", &[&general], &config, Some(&["ping"])).0, named);
        assert_eq!(run("ping help", &[&general], &config, Some(&["help"])), ("General/ping".to_string(), 5));
    }
    assert_eq!(
        run("helpme", &[&general], &settings(true), Some(&["help"])),
        ("Unknown(UnknownCommand(Some(\"helpme\")))".to_string(), 0)
    );
}

#[test]
fn help_name_is_looked_up_in_order() {
    let names: [&str; 3] = ["help", "h", "help"];
    assert_eq!(find_help(&names, "help"), Some(0));
    assert_eq!(find_help(&names, "h"), Some(1));
    assert_eq!(find_help(&names, "he"), None);
    assert_eq!(find_help(&names, "helpme"), None);
    assert_eq!(find_help(&names, "HELP"), None);
    assert_eq!(find_help(&names, ""), None);
    assert_eq!(find_help(&[], "help"), None);
    assert_eq!(find_help(&[""], ""), Some(0));
}

#[test]
fn help_skips_whitespace_behind_it() {
    let config = settings(true);
    assert_eq!(run("help \t ping", &[], &config, Some(&["help"])), ("help:help".to_string(), 7));
}

#[test]
fn help_name_is_matched_without_case_if_asked() {
    let mut config = settings(true);
    assert_eq!(run("HELP", &[], &config, Some(&["help"])).0, "Unknown(UnknownCommand(None))");
    config.case_insensitive = true;
    assert_eq!(run("HELP me", &[], &config, Some(&["help"])), ("help:help".to_string(), 5));
}

#[test]
fn nothing_registered() {
    assert_eq!(run("ping", &[], &settings(true), None), ("Unknown(UnknownCommand(None))".to_string(), 0));
}

#[test]
fn group_with_prefix_needs_its_name() {
    let fun = top("Fun", &["fun"], vec![leaf(&["roll"])], vec![]);
    for by_space in [true, false] {
        let config = settings(by_space);
        assert_eq!(run("fun roll 2", &[&fun], &config, None), ("Fun/roll".to_string(), 9));
        assert_eq!(run("roll 2", &[&fun], &config, None).0, "Unknown(UnknownCommand(None))");
    }
}

#[test]
fn group_without_prefix_offers_its_commands() {
    let general = top("General", &[], vec![leaf(&["ping"])], vec![top("Fun", &["fun"], vec![leaf(&["roll"])], vec![])]);
    let config = settings(true);
    assert_eq!(run("ping x", &[&general], &config, None), ("General/ping".to_string(), 5));
    assert_eq!(run("fun roll", &[&general], &config, None), ("Fun/roll".to_string(), 8));
}

#[test]
fn first_group_that_resolves_wins() {
    let first = top("First", &[], vec![leaf(&["ping"])], vec![]);
    let second = top("Second", &[], vec![leaf(&["ping"]), leaf(&["pong"])], vec![]);
    let config = settings(true);
    assert_eq!(run("ping", &[&first, &second], &config, None).0, "First/ping");
    assert_eq!(run("ping", &[&second, &first], &config, None).0, "Second/ping");
    assert_eq!(run("pong", &[&first, &second], &config, None).0, "Second/pong");
}

#[test]
fn last_error_is_returned() {
    let mut first = leaf(&["stop"]);
    first.options.owners_only = true;
    let guarded = top("Guarded", &[], vec![first], vec![]);
    let other = top("Other", &[], vec![leaf(&["ping"])], vec![]);
    let config = settings(true);
    assert_eq!(run("stop", &[&other, &guarded], &config, None).0, "Dispatch(OnlyForOwners)");
    assert_eq!(run("stop", &[&guarded, &other], &config, None).0, "Unknown(UnknownCommand(Some(\"\")))");
}

#[test]
fn failed_attempt_leaves_the_cursor() {
    let mut first = leaf(&["stop"]);
    first.options.owners_only = true;
    let guarded = top("Guarded", &[], vec![first], vec![]);
    let other = top("Other", &[], vec![leaf(&["now"])], vec![]);
    let config = settings(true);
    assert_eq!(run("stop now", &[&guarded, &other], &config, None), ("Other/now".to_string(), 8));
}

#[test]
fn group_without_prefix_is_authorized_too() {
    let mut general = top("General", &[], vec![leaf(&["ping"])], vec![top("Fun", &["fun"], vec![leaf(&["roll"])], vec![])]);
    general.options.only_in = OnlyIn::Dm;
    let other = top("Other", &[], vec![leaf(&["ping"])], vec![]);
    let config = settings(true);
    assert_eq!(run("ping", &[&general, &other], &config, None).0, "Dispatch(OnlyForDM)");
    assert_eq!(run("fun roll", &[&general, &other], &config, None).0, "Dispatch(OnlyForDM)");
    assert_eq!(run("pong", &[&general, &other], &config, None).0, "Unknown(UnknownCommand(Some(\"pong\")))");
}

#[test]
fn default_command_of_a_top_level_group() {
    let mut fun = top("Fun", &["fun"], vec![leaf(&["roll"])], vec![]);
    fun.options.default_command = Some(leaf(&["about"]));
    let config = settings(true);
    assert_eq!(run("fun", &[&fun], &config, None).0, "Fun/about");
    assert_eq!(run("fun dance", &[&fun], &config, None), ("Fun/about".to_string(), 4));
    assert_eq!(run("dance", &[&fun], &config, None).0, "Unknown(UnknownCommand(None))");
}

#[test]
fn addressing_follows_the_prefixes() {
    let with = top("Fun", &["fun"], vec![], vec![]);
    let without = top("General", &[], vec![leaf(&["ping"])], vec![]);
    assert!(matches!(Addressing::new(&with), Addressing::WithPrefixes(_)));
    assert!(matches!(Addressing::new(&without), Addressing::Prefixless(_, _)));
}

#[test]
fn text_is_consumed_piece_by_piece() {
    let fun = top("Fun", &["fun"], vec![leaf(&["roll"])], vec![]);
    let table = vec![(&fun, Addressing::new(&fun))];
    let config = settings(true);
    for text in ["<@42>  fun \t roll 2d6 + 1", "! fun roll", "fun roll\u{2003}é", "!fun  roll"] {
        let mut stream = Scanner::new(text);
        let found = prefix(&anywhere(), &mut stream, &config);
        let after_prefix = stream.offset();
        let r = command(&anywhere(), &message(), &mut stream, &table, &config, None);
        let after_command = stream.offset();
        assert_eq!(invoked(&r), "Fun/roll");
        assert!(after_prefix <= after_command && after_command <= text.len());
        let whole = format!("{}{}{}", &text[..after_prefix], &text[after_prefix..after_command], &text[after_command..]);
        assert_eq!(whole, text);
        if let Some(p) = found {
            assert!(text[..after_prefix].contains(p));
        }
        let consumed: Vec<&str> = text[after_prefix..after_command].split_whitespace().collect();
        assert_eq!(consumed, vec!["fun", "roll"]);
    }
}
