use crate::civil::{
    is_valid_civil, local_offset_in_bounds, lookup_timezone, resolution, timestamp_in,
    CivilDateTime, LocalOffset, Zone,
};
use crate::error::Error;
use crate::options::{
    apply_option, default_epoch_fields, epoch_outcome, names_timezone, scan, CommandOption,
    EpochFields, OptionValue,
};
use vstd::prelude::*;

verus! {

/// The resolved arguments of the epoch command.
pub struct EpochArgs {
    pub timezone: Zone,
    pub civil: CivilDateTime,
    pub preview: bool,
}

/// The date and time that resolved fields name.
pub open spec fn civil_of(f: EpochFields) -> CivilDateTime {
    CivilDateTime {
        year: f.year.unwrap(),
        month: f.month,
        day: f.day,
        hour: f.hour,
        minute: f.minute,
        second: f.second,
    }
}

/// Some option before the reading stops names a time zone.
pub open spec fn names_timezone_in_reach(opts: Seq<CommandOption>) -> bool {
    exists|i: int|
        0 <= i < opts.len() && #[trigger] names_timezone(opts[i]) && scan(opts.take(i)) is Ok
}

/// Resolves the epoch command's options into its arguments, reading them in
/// order and looking each time zone up where its option stands: an unknown
/// one is `Error::UnknownTimezone`. Where no lookup fails, the outcome is that
/// of `epoch_outcome`.
pub fn resolve_epoch_args(options: &Vec<CommandOption>) -> (r: Result<EpochArgs, Error>)
    ensures
        r is Ok ==> epoch_outcome(options@) is Ok && r->Ok_0.civil == civil_of(
            epoch_outcome(options@)->Ok_0,
        ) && r->Ok_0.preview == epoch_outcome(options@)->Ok_0.preview,
        r is Ok ==> r->Ok_0.timezone.spec_identifier() == options@[epoch_outcome(
            options@,
        )->Ok_0.timezone->Some_0 as int].value->String_0@,
        epoch_outcome(options@) is Err ==> r is Err && (r->Err_0 == epoch_outcome(options@)->Err_0
            || r->Err_0 == Error::UnknownTimezone),
        r is Err && r->Err_0 != Error::UnknownTimezone ==> epoch_outcome(options@) == Err::<
            EpochFields,
            Error,
        >(r->Err_0),
        r is Err && r->Err_0 == Error::UnknownTimezone ==> names_timezone_in_reach(options@),
        !names_timezone_in_reach(options@) ==> epoch_outcome(options@) is Err && r is Err
            && r->Err_0 == epoch_outcome(options@)->Err_0,
{
    let n = options.len();
    let mut fields = default_epoch_fields();
    let mut zone: Option<Zone> = None;
    let mut i: usize = 0;
    while i < n
        invariant
            i <= n == options@.len(),
            scan(options@.take(i as int)) == Ok::<EpochFields, Error>(fields),
            fields.timezone is Some <==> zone is Some,
            fields.timezone is Some ==> fields.timezone->Some_0 < i && zone->Some_0.spec_identifier()
                == options@[fields.timezone->Some_0 as int].value->String_0@,
            fields.timezone is Some ==> names_timezone_in_reach(options@),
        decreases n - i,
    {
        proof {
            assert(options@.take(i + 1).drop_last() =~= options@.take(i as int));
        }
        let option = &options[i];
        if let OptionValue::String(text) = &option.value {
            if crate::options::field_of(option.name.as_str()) == Some(
                crate::options::Field::Timezone,
            ) {
                assert(names_timezone(options@[i as int]));
                match lookup_timezone(text.as_str()) {
                    Ok(tz) => zone = Some(tz),
                    Err(e) => return Err(e),
                }
            }
        }
        match apply_option(fields, i, option) {
            Ok(f) => fields = f,
            Err(e) => {
                proof {
                    crate::options::lemma_scan_stops(options@, i as int + 1);
                }
                return Err(e);
            },
        }
        i += 1;
    }
    assert(options@.take(n as int) =~= options@);
    match (zone, fields.year) {
        (Some(tz), Some(year)) => Ok(
            EpochArgs {
                timezone: tz,
                civil: CivilDateTime {
                    year,
                    month: fields.month,
                    day: fields.day,
                    hour: fields.hour,
                    minute: fields.minute,
                    second: fields.second,
                },
                preview: fields.preview,
            },
        ),
        _ => Err(Error::MissingRequired),
    }
}

/// What the epoch command answers: the Unix timestamp, and whether to show
/// it in each display format rather than as a bare number.
#[derive(Clone, Copy, Debug, PartialEq, Eq, Structural)]
pub struct EpochReply {
    pub timestamp: i64,
    pub preview: bool,
}

/// What the epoch command may answer for options `opts`: where reading them
/// fails, that failure or an unknown time zone; where they resolve, the
/// instant their date and time names at one of the zone's offsets, or a
/// refusal of that date and time.
pub open spec fn epoch_result_allowed(opts: Seq<CommandOption>, r: Result<EpochReply, Error>) -> bool {
    &&& r is Ok ==> epoch_outcome(opts) is Ok && r->Ok_0.preview == epoch_outcome(opts)->Ok_0.preview
        && is_valid_civil(civil_of(epoch_outcome(opts)->Ok_0)) && exists|lo: LocalOffset|
        local_offset_in_bounds(lo) && #[trigger] resolution(civil_of(epoch_outcome(opts)->Ok_0), lo)
            == Ok::<i64, Error>(r->Ok_0.timestamp)
    &&& epoch_outcome(opts) is Err ==> r is Err && (r->Err_0 == epoch_outcome(opts)->Err_0
        || r->Err_0 == Error::UnknownTimezone)
    &&& r is Err && r->Err_0 != Error::UnknownTimezone && r->Err_0 != Error::InvalidArgs
        && r->Err_0 != Error::AmbiguousTime ==> epoch_outcome(opts) == Err::<EpochFields, Error>(
        r->Err_0,
    )
    &&& r is Err && r->Err_0 == Error::UnknownTimezone ==> names_timezone_in_reach(opts)
    &&& epoch_outcome(opts) is Ok && !is_valid_civil(civil_of(epoch_outcome(opts)->Ok_0)) ==> r is Err
        && (r->Err_0 == Error::InvalidArgs || r->Err_0 == Error::UnknownTimezone)
    &&& !names_timezone_in_reach(opts) ==> r is Err && r->Err_0 == epoch_outcome(opts)->Err_0
}

/// Runs the epoch command: resolves its arguments, then the instant that
/// they name in their time zone.
pub fn execute(options: &Vec<CommandOption>) -> (r: Result<EpochReply, Error>)
    ensures
        epoch_result_allowed(options@, r),
{
    let args = resolve_epoch_args(options)?;
    let timestamp = timestamp_in(&args.timezone, &args.civil)?;
    Ok(EpochReply { timestamp, preview: args.preview })
}

} // verus!
