use chrozone::command::epoch::{execute, resolve_epoch_args, EpochReply};
use chrozone::error::Error;
use chrozone::options::{field_of, scan_epoch_options, CommandOption, EpochFields, Field, OptionValue};

fn opt(name: &str, value: OptionValue) -> CommandOption {
    CommandOption { name: name.to_string(), value }
}

fn text(s: &str) -> OptionValue {
    OptionValue::String(s.to_string())
}

#[test]
fn timezone_and_year_alone_take_the_defaults() {
    let options = vec![opt("timezone", text("UTC")), opt("year", OptionValue::Integer(2024))];
    let fields = scan_epoch_options(&options).unwrap();
    assert_eq!(
        fields,
        EpochFields {
            timezone: Some(0),
            year: Some(2024),
            month: 1,
            day: 1,
            hour: 0,
            minute: 0,
            second: 0,
            preview: false,
        }
    );
    assert_eq!(execute(&options), Ok(EpochReply { timestamp: 1704067200, preview: false }));
}

#[test]
fn missing_year_is_missing_required() {
    let options = vec![opt("timezone", text("UTC")), opt("month", OptionValue::Integer(3))];
    assert_eq!(scan_epoch_options(&options), Err(Error::MissingRequired));
    assert!(matches!(resolve_epoch_args(&options), Err(Error::MissingRequired)));
    let options = vec![opt("year", OptionValue::Integer(2024))];
    assert_eq!(scan_epoch_options(&options), Err(Error::MissingRequired));
}

#[test]
fn oversized_year_is_out_of_range() {
    let options = vec![opt("timezone", text("UTC")), opt("year", OptionValue::Integer(1 << 40))];
    assert_eq!(scan_epoch_options(&options), Err(Error::OutOfRange));
    assert_eq!(execute(&options), Err(Error::OutOfRange));
    let options = vec![opt("month", OptionValue::Integer(300))];
    assert_eq!(scan_epoch_options(&options), Err(Error::OutOfRange));
}

#[test]
fn wrong_value_kinds_are_fatal() {
    assert_eq!(scan_epoch_options(&vec![opt("year", text("2024"))]), Err(Error::Fatal));
    assert_eq!(scan_epoch_options(&vec![opt("timezone", OptionValue::Integer(1))]), Err(Error::Fatal));
    assert_eq!(scan_epoch_options(&vec![opt("preview", OptionValue::Integer(1))]), Err(Error::Fatal));
    assert_eq!(scan_epoch_options(&vec![opt("color", OptionValue::Boolean(true))]), Err(Error::Fatal));
}

#[test]
fn unknown_integer_option_is_invalid() {
    assert_eq!(scan_epoch_options(&vec![opt("color", OptionValue::Integer(3))]), Err(Error::InvalidArgs));
}

#[test]
fn all_fields_are_read() {
    let options = vec![
        opt("preview", OptionValue::Boolean(true)),
        opt("secs", OptionValue::Integer(5)),
        opt("minute", OptionValue::Integer(4)),
        opt("hour", OptionValue::Integer(3)),
        opt("day", OptionValue::Integer(2)),
        opt("month", OptionValue::Integer(7)),
        opt("year", OptionValue::Integer(2020)),
        opt("timezone", text("Etc/GMT-2")),
    ];
    let fields = scan_epoch_options(&options).unwrap();
    assert_eq!((fields.month, fields.day, fields.hour, fields.minute, fields.second), (7, 2, 3, 4, 5));
    assert!(fields.preview);
    assert_eq!(fields.timezone, Some(7));
    assert_eq!(execute(&options), Ok(EpochReply { timestamp: 1593651845, preview: true }));
}

#[test]
fn unknown_timezone_is_found_in_order() {
    let options = vec![opt("timezone", text("Nowhere/Atlantis")), opt("year", text("bad"))];
    assert!(matches!(resolve_epoch_args(&options), Err(Error::UnknownTimezone)));
    assert_eq!(scan_epoch_options(&options), Err(Error::Fatal));
    let options = vec![opt("year", text("bad")), opt("timezone", text("Nowhere/Atlantis"))];
    assert!(matches!(resolve_epoch_args(&options), Err(Error::Fatal)));
}

#[test]
fn gap_time_fails_the_command() {
    let options = vec![
        opt("timezone", text("America/New_York")),
        opt("year", OptionValue::Integer(2024)),
        opt("month", OptionValue::Integer(3)),
        opt("day", OptionValue::Integer(10)),
        opt("hour", OptionValue::Integer(2)),
        opt("minute", OptionValue::Integer(30)),
    ];
    assert_eq!(execute(&options), Err(Error::InvalidArgs));
}

#[test]
fn resolved_zone_is_the_named_one() {
    let options = vec![
        opt("timezone", text("Asia/Tokyo")),
        opt("year", OptionValue::Integer(2024)),
        opt("timezone", text("Europe/Paris")),
    ];
    let args = resolve_epoch_args(&options).ok().unwrap();
    assert_eq!(args.timezone.identifier(), "Europe/Paris");
}

#[test]
fn scan_failures_after_a_timezone_keep_their_error() {
    let options = vec![opt("timezone", text("UTC")), opt("month", OptionValue::Integer(5))];
    assert_eq!(execute(&options), Err(Error::MissingRequired));
    let options = vec![opt("timezone", text("UTC")), opt("year", OptionValue::Integer(i64::MAX))];
    assert_eq!(execute(&options), Err(Error::OutOfRange));
    let options = vec![
        opt("timezone", text("UTC")),
        opt("year", OptionValue::Integer(2024)),
        opt("week", OptionValue::Integer(3)),
    ];
    assert_eq!(execute(&options), Err(Error::InvalidArgs));
}

#[test]
fn option_names_map_to_fields() {
    assert_eq!(field_of("timezone"), Some(Field::Timezone));
    assert_eq!(field_of("secs"), Some(Field::Second));
    assert_eq!(field_of("second"), None);
}

#[test]
fn error_messages_read_as_descriptions() {
    assert_eq!(Error::InvalidArgs.message(), "Invalid command arguments.");
    assert_eq!(Error::MissingRequired.message(), "Required arguments not provided.");
    assert_eq!(Error::OutOfRange.message(), "A value is out of range. It is either too large or too small.");
}
