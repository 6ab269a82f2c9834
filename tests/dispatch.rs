use chrozone::command::epoch::EpochReply;
use chrozone::command::help::{execute as help_topic, HelpTopic};
use chrozone::dispatch::{
    find_focused_query, respond, suggestions, Interaction, InteractionData, InteractionKind, Reply,
};
use chrozone::error::Error;
use chrozone::options::{CommandData, CommandOption, OptionValue};

fn command(name: &str, options: Vec<CommandOption>) -> Option<InteractionData> {
    Some(InteractionData::Command(CommandData { name: name.to_string(), options }))
}

fn opt(name: &str, value: OptionValue) -> CommandOption {
    CommandOption { name: name.to_string(), value }
}

fn catalog() -> Vec<String> {
    ["America/New_York", "Asia/Macau", "Asia/Manila", "Europe/Paris", "UTC"].iter().map(|s| s.to_string()).collect()
}

#[test]
fn ping_is_answered_with_pong() {
    let ping = Interaction { kind: InteractionKind::Ping, data: None };
    assert_eq!(respond(&ping, &catalog()), Reply::Pong);
    let ping = Interaction { kind: InteractionKind::Ping, data: command("epoch", vec![]) };
    assert_eq!(respond(&ping, &Vec::new()), Reply::Pong);
}

#[test]
fn other_kinds_and_payloads_fail() {
    let other = Interaction { kind: InteractionKind::Other, data: None };
    assert_eq!(respond(&other, &catalog()), Reply::Failure(Error::UnsupportedInteractionType));
    let empty = Interaction { kind: InteractionKind::ApplicationCommand, data: None };
    assert_eq!(respond(&empty, &catalog()), Reply::Failure(Error::MissingPayload));
    let foreign = Interaction { kind: InteractionKind::Autocomplete, data: Some(InteractionData::Other) };
    assert_eq!(respond(&foreign, &catalog()), Reply::Failure(Error::Fatal));
}

#[test]
fn commands_are_routed() {
    let info = Interaction { kind: InteractionKind::ApplicationCommand, data: command("info", vec![]) };
    assert_eq!(respond(&info, &catalog()), Reply::Info);
    let unknown = Interaction { kind: InteractionKind::ApplicationCommand, data: command("nope", vec![]) };
    assert_eq!(respond(&unknown, &catalog()), Reply::Failure(Error::UnknownCommand));
    let epoch = Interaction {
        kind: InteractionKind::ApplicationCommand,
        data: command(
            "epoch",
            vec![opt("timezone", OptionValue::String("UTC".to_string())), opt("year", OptionValue::Integer(2024))],
        ),
    };
    assert_eq!(respond(&epoch, &catalog()), Reply::Epoch(EpochReply { timestamp: 1704067200, preview: false }));
    let bad = Interaction { kind: InteractionKind::ApplicationCommand, data: command("epoch", vec![]) };
    assert_eq!(respond(&bad, &catalog()), Reply::Failure(Error::MissingRequired));
}

#[test]
fn help_pages_follow_the_last_option() {
    assert_eq!(help_topic(&vec![]), Some(HelpTopic::Overview));
    assert_eq!(help_topic(&vec![opt("command", OptionValue::String("epoch".to_string()))]), Some(HelpTopic::Epoch));
    assert_eq!(help_topic(&vec![opt("command", OptionValue::String("help".to_string()))]), Some(HelpTopic::Help));
    assert_eq!(help_topic(&vec![opt("command", OptionValue::String("info".to_string()))]), None);
    assert_eq!(help_topic(&vec![opt("command", OptionValue::Integer(1))]), Some(HelpTopic::Overview));
    let help = Interaction {
        kind: InteractionKind::ApplicationCommand,
        data: command("help", vec![opt("command", OptionValue::String("what".to_string()))]),
    };
    assert_eq!(respond(&help, &catalog()), Reply::Failure(Error::UnknownCommand));
}

#[test]
fn autocomplete_suggests_ranked_labelled_zones() {
    let request = Interaction {
        kind: InteractionKind::Autocomplete,
        data: command(
            "epoch",
            vec![opt("year", OptionValue::Integer(1)), opt("timezone", OptionValue::Focused("america/new".to_string()))],
        ),
    };
    match respond(&request, &catalog()) {
        Reply::Choices(choices) => {
            assert_eq!(choices.len(), 5);
            assert_eq!(choices[0].value, "America/New_York");
            assert_eq!(choices[0].name, "America/New York");
        }
        other => panic!("unexpected reply {other:?}"),
    }
}

#[test]
fn autocomplete_without_focus_or_for_other_commands() {
    let request = Interaction {
        kind: InteractionKind::Autocomplete,
        data: command("epoch", vec![opt("timezone", OptionValue::String("UTC".to_string()))]),
    };
    assert_eq!(respond(&request, &catalog()), Reply::Choices(vec![]));
    let request = Interaction { kind: InteractionKind::Autocomplete, data: command("help", vec![]) };
    assert_eq!(respond(&request, &catalog()), Reply::Failure(Error::UnknownCommand));
}

#[test]
fn suggestions_cap_at_twenty_five() {
    let big: Vec<String> = (0..40).map(|i| format!("Zone/Name_{i:02}")).collect();
    let choices = suggestions("zone/name_1", &big);
    assert_eq!(choices.len(), 25);
    assert!(choices.iter().all(|c| !c.name.contains('_')));
    assert!(find_focused_query(&vec![opt("timezone", OptionValue::Focused("x".to_string()))]).is_some());
}
