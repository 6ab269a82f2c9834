use crate::civil::{lookup_timezone, CivilDateTime};
use crate::error::Error;
use crate::text::same_text;
use vstd::prelude::*;

verus! {

/// The value of one option of a command, as the client sent it.
#[derive(Clone, Debug, PartialEq, Eq)]
pub enum OptionValue {
    String(String),
    Integer(i64),
    Boolean(bool),
    /// The string-typed option that the user is typing, in an autocomplete
    /// request.
    Focused(String),
    /// A value of a kind that no command of this library reads.
    Other,
}

/// One named option of a command invocation.
#[derive(Clone, Debug, PartialEq, Eq)]
pub struct CommandOption {
    pub name: String,
    pub value: OptionValue,
}

/// A command invocation: the command's name and its options, in the order
/// the client sent them.
#[derive(Clone, Debug, PartialEq, Eq)]
pub struct CommandData {
    pub name: String,
    pub options: Vec<CommandOption>,
}

/// The fields of the epoch command that options set.
#[derive(Clone, Copy, Debug, PartialEq, Eq, Structural)]
pub enum Field {
    Timezone,
    Preview,
    Year,
    Month,
    Day,
    Hour,
    Minute,
    Second,
}

/// The table from option name to field.
pub open spec fn field_named(name: Seq<char>) -> Option<Field> {
    if name == "timezone"@ {
        Some(Field::Timezone)
    } else if name == "preview"@ {
        Some(Field::Preview)
    } else if name == "year"@ {
        Some(Field::Year)
    } else if name == "month"@ {
        Some(Field::Month)
    } else if name == "day"@ {
        Some(Field::Day)
    } else if name == "hour"@ {
        Some(Field::Hour)
    } else if name == "minute"@ {
        Some(Field::Minute)
    } else if name == "secs"@ {
        Some(Field::Second)
    } else {
        None
    }
}

/// The epoch command's arguments as read so far. `timezone` is the index of
/// the option that named the time zone.
#[derive(Clone, Copy, Debug, PartialEq, Eq, Structural)]
pub struct EpochFields {
    pub timezone: Option<usize>,
    pub year: Option<i16>,
    pub month: i8,
    pub day: i8,
    pub hour: i8,
    pub minute: i8,
    pub second: i8,
    pub preview: bool,
}

/// The defaults: January 1st at midnight, time zone and year unset. Without
/// a `preview` option the reply is the bare timestamp; previewing every
/// display format is asked for explicitly.
pub open spec fn default_fields() -> EpochFields {
    EpochFields {
        timezone: None,
        year: None,
        month: 1,
        day: 1,
        hour: 0,
        minute: 0,
        second: 0,
        preview: false,
    }
}

pub open spec fn fits_i8(n: i64) -> bool {
    i8::MIN <= n <= i8::MAX
}

pub open spec fn fits_i16(n: i64) -> bool {
    i16::MIN <= n <= i16::MAX
}

/// Stores integer `n` into the bounded field `field`.
pub open spec fn set_small_field(f: EpochFields, field: Field, n: i8) -> EpochFields {
    match field {
        Field::Month => EpochFields { month: n, ..f },
        Field::Day => EpochFields { day: n, ..f },
        Field::Hour => EpochFields { hour: n, ..f },
        Field::Minute => EpochFields { minute: n, ..f },
        _ => EpochFields { second: n, ..f },
    }
}

/// Reads option `opt`, found at `index`, into `f`. A value whose kind is not
/// the one its field takes is `Error::Fatal`; an integer option of no known
/// name is `Error::InvalidArgs`; an integer that does not fit its field is
/// `Error::OutOfRange`.
pub open spec fn step(f: EpochFields, index: int, opt: CommandOption) -> Result<EpochFields, Error> {
    match field_named(opt.name@) {
        Some(Field::Timezone) => match opt.value {
            OptionValue::String(_) => Ok(EpochFields { timezone: Some(index as usize), ..f }),
            _ => Err(Error::Fatal),
        },
        Some(Field::Preview) => match opt.value {
            OptionValue::Boolean(b) => Ok(EpochFields { preview: b, ..f }),
            _ => Err(Error::Fatal),
        },
        named => match opt.value {
            OptionValue::Integer(n) => match named {
                None => Err(Error::InvalidArgs),
                Some(Field::Year) => if fits_i16(n) {
                    Ok(EpochFields { year: Some(n as i16), ..f })
                } else {
                    Err(Error::OutOfRange)
                },
                Some(field) => if fits_i8(n) {
                    Ok(set_small_field(f, field, n as i8))
                } else {
                    Err(Error::OutOfRange)
                },
            },
            _ => Err(Error::Fatal),
        },
    }
}

/// Reads the options in order from the defaults, stopping at the first one
/// that fails.
pub open spec fn scan(opts: Seq<CommandOption>) -> Result<EpochFields, Error>
    decreases opts.len(),
{
    if opts.len() == 0 {
        Ok(default_fields())
    } else {
        match scan(opts.drop_last()) {
            Ok(f) => step(f, opts.len() - 1, opts.last()),
            Err(e) => Err(e),
        }
    }
}

/// The outcome of reading the options when every time zone they name is
/// known: the fields, once both time zone and year are set.
pub open spec fn epoch_outcome(opts: Seq<CommandOption>) -> Result<EpochFields, Error> {
    match scan(opts) {
        Ok(f) => if f.timezone is Some && f.year is Some {
            Ok(f)
        } else {
            Err(Error::MissingRequired)
        },
        Err(e) => Err(e),
    }
}

/// Option `opt` names a time zone by its identifier.
pub open spec fn names_timezone(opt: CommandOption) -> bool {
    field_named(opt.name@) == Some(Field::Timezone) && opt.value is String
}

/// Looks `name` up in the table from option name to field.
pub fn field_of(name: &str) -> (r: Option<Field>)
    ensures
        r == field_named(name@),
{
    if same_text(name, "timezone") {
        Some(Field::Timezone)
    } else if same_text(name, "preview") {
        Some(Field::Preview)
    } else if same_text(name, "year") {
        Some(Field::Year)
    } else if same_text(name, "month") {
        Some(Field::Month)
    } else if same_text(name, "day") {
        Some(Field::Day)
    } else if same_text(name, "hour") {
        Some(Field::Hour)
    } else if same_text(name, "minute") {
        Some(Field::Minute)
    } else if same_text(name, "secs") {
        Some(Field::Second)
    } else {
        None
    }
}

/// The fields before any option is read.
pub fn default_epoch_fields() -> (r: EpochFields)
    ensures
        r == default_fields(),
{
    EpochFields {
        timezone: None,
        year: None,
        month: 1,
        day: 1,
        hour: 0,
        minute: 0,
        second: 0,
        preview: false,
    }
}

/// Reads one option, found at `index`, into `fields`.
pub fn apply_option(fields: EpochFields, index: usize, option: &CommandOption) -> (r: Result<
    EpochFields,
    Error,
>)
    ensures
        r == step(fields, index as int, *option),
{
    let named = field_of(option.name.as_str());
    match named {
        Some(Field::Timezone) => match &option.value {
            OptionValue::String(_) => Ok(EpochFields { timezone: Some(index), ..fields }),
            _ => Err(Error::Fatal),
        },
        Some(Field::Preview) => match &option.value {
            OptionValue::Boolean(b) => Ok(EpochFields { preview: *b, ..fields }),
            _ => Err(Error::Fatal),
        },
        _ => match &option.value {
            OptionValue::Integer(n) => {
                let n = *n;
                match named {
                    None => Err(Error::InvalidArgs),
                    Some(Field::Year) => if i16::MIN as i64 <= n && n <= i16::MAX as i64 {
                        Ok(EpochFields { year: Some(n as i16), ..fields })
                    } else {
                        Err(Error::OutOfRange)
                    },
                    Some(field) => if i8::MIN as i64 <= n && n <= i8::MAX as i64 {
                        let v = n as i8;
                        Ok(
                            match field {
                                Field::Month => EpochFields { month: v, ..fields },
                                Field::Day => EpochFields { day: v, ..fields },
                                Field::Hour => EpochFields { hour: v, ..fields },
                                Field::Minute => EpochFields { minute: v, ..fields },
                                _ => EpochFields { second: v, ..fields },
                            },
                        )
                    } else {
                        Err(Error::OutOfRange)
                    },
                }
            },
            _ => Err(Error::Fatal),
        },
    }
}

/// Reads all options in order, then checks that time zone and year are set;
/// time zones are not looked up.
pub fn scan_epoch_options(options: &Vec<CommandOption>) -> (r: Result<EpochFields, Error>)
    ensures
        r == epoch_outcome(options@),
{
    let n = options.len();
    let mut fields = default_epoch_fields();
    let mut i: usize = 0;
    while i < n
        invariant
            i <= n == options@.len(),
            scan(options@.take(i as int)) == Ok::<EpochFields, Error>(fields),
        decreases n - i,
    {
        proof {
            assert(options@.take(i + 1).drop_last() =~= options@.take(i as int));
        }
        match apply_option(fields, i, &options[i]) {
            Ok(f) => fields = f,
            Err(e) => {
                proof {
                    lemma_scan_stops(options@, i as int + 1);
                }
                return Err(e);
            },
        }
        i += 1;
    }
    assert(options@.take(n as int) =~= options@);
    if fields.timezone.is_some() && fields.year.is_some() {
        Ok(fields)
    } else {
        Err(Error::MissingRequired)
    }
}

/// Once reading fails, reading more options fails the same way.
pub(crate) proof fn lemma_scan_stops(opts: Seq<CommandOption>, k: int)
    requires
        0 <= k <= opts.len(),
        scan(opts.take(k)) is Err,
    ensures
        scan(opts) == scan(opts.take(k)),
    decreases opts.len() - k,
{
    if k < opts.len() {
        assert(opts.take(k + 1).drop_last() =~= opts.take(k));
        lemma_scan_stops(opts, k + 1);
    } else {
        assert(opts.take(k) =~= opts);
    }
}

} // verus!
