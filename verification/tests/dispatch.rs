use nostr_bot::dispatch::{dispatch, help_command, select, Command, Dispatch, FunctorType};

type Table = Vec<Command<u8, u8>>;

fn basic(trigger: &str) -> Command<u8, u8> {
    Command::new(trigger, FunctorType::Basic(0))
}

fn extra(trigger: &str) -> Command<u8, u8> {
    Command::new(trigger, FunctorType::Extra(0))
}

#[test]
fn first_registered_match_wins() {
    let table: Table = vec![basic("!yesterday"), basic("!yes")];
    assert_eq!(select(&table, "!yesterday was fine"), Some(0));
    assert_eq!(select(&table, "!yes"), Some(1));
    let table: Table = vec![basic("!yes"), basic("!yesterday")];
    assert_eq!(select(&table, "!yesterday was fine"), Some(0));
}

#[test]
fn catch_all_matches_last() {
    let table: Table = vec![basic("!yes"), basic("")];
    assert_eq!(select(&table, "!yes"), Some(0));
    assert_eq!(select(&table, "hello"), Some(1));
}

#[test]
fn unmatched_content_is_ignored() {
    let table: Table = vec![basic("yes"), basic("no")];
    assert_eq!(select(&table, "maybe"), None);
    assert_eq!(dispatch(&table, "maybe"), Dispatch::Ignore);
    assert_eq!(dispatch(&table, " yes"), Dispatch::Ignore);
    let empty: Table = vec![];
    assert_eq!(dispatch(&empty, "yes"), Dispatch::Ignore);
}

#[test]
fn basic_command_ignores_the_rest() {
    let table: Table = vec![basic("results"), basic("yes"), basic("no")];
    assert_eq!(dispatch(&table, "yes extra text"), Dispatch::Basic { index: 1 });
    assert_eq!(dispatch(&table, "no"), Dispatch::Basic { index: 2 });
}

#[test]
fn extra_command_gets_the_trimmed_rest() {
    let table: Table = vec![basic("yes"), extra("!say")];
    assert_eq!(
        dispatch(&table, "!say   hello  world \n"),
        Dispatch::Extra { index: 1, text: "hello  world".to_string() }
    );
    assert_eq!(dispatch(&table, "!say"), Dispatch::Extra { index: 1, text: String::new() });
    assert_eq!(
        dispatch(&table, "!sayé"),
        Dispatch::Extra { index: 1, text: "é".to_string() }
    );
}

#[test]
fn help_is_an_extra_command() {
    let table: Table = vec![basic("yes"), extra("!help").desc("Show this help.")];
    assert_eq!(
        dispatch(&table, "!help me"),
        Dispatch::Extra { index: 1, text: "me".to_string() }
    );
    let table: Table = vec![basic("!"), extra("!help")];
    assert_eq!(dispatch(&table, "!help"), Dispatch::Basic { index: 0 });
}

#[test]
fn help_lists_the_commands() {
    let table: Table = vec![
        basic("yes").desc("Vote yes."),
        basic("no"),
        extra("!help").desc("Show this help."),
    ];
    assert_eq!(help_command(&None, &table), "yes: Vote yes.\nno\n!help: Show this help.\n");
    assert_eq!(
        help_command(&Some("Just a bot.".to_string()), &table),
        "Just a bot.\n\nyes: Vote yes.\nno\n!help: Show this help.\n"
    );
    let empty: Table = vec![];
    assert_eq!(help_command(&None, &empty), "");
}

#[test]
fn command_builder_sets_fields() {
    let c = extra("!say");
    assert_eq!(c.trigger, "!say");
    assert_eq!(c.description, None);
    assert!(matches!(c.functor, FunctorType::Extra(0)));
    let c = c.desc("Say it.");
    assert_eq!(c.trigger, "!say");
    assert_eq!(c.description, Some("Say it.".to_string()));
    assert!(matches!(c.functor, FunctorType::Extra(0)));
}
