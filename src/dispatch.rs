use crate::command::epoch::{self, EpochReply};
use crate::command::help::{self, help_topic_of, HelpTopic};
use crate::error::Error;
use crate::options::{CommandData, CommandOption, OptionValue};
use crate::command::epoch::epoch_result_allowed;
use crate::rank::{is_top_ranking, rank_candidates, texts};
use crate::select::{is_permutation, separated, sorted_between};
use crate::text::{same_text, spaced, underscores_as_spaces};
use vstd::prelude::*;

verus! {

/// The most suggestions that one autocomplete answer may carry.
pub const MAX_CHOICES: usize = 25;

/// The kinds of interaction that the platform sends.
#[derive(Clone, Copy, Debug, PartialEq, Eq, Structural)]
pub enum InteractionKind {
    Ping,
    ApplicationCommand,
    Autocomplete,
    Other,
}

/// The payload of an interaction.
#[derive(Clone, Debug, PartialEq, Eq)]
pub enum InteractionData {
    Command(CommandData),
    /// A payload of a kind that no handler here reads.
    Other,
}

/// One inbound interaction.
#[derive(Clone, Debug, PartialEq, Eq)]
pub struct Interaction {
    pub kind: InteractionKind,
    pub data: Option<InteractionData>,
}

/// One autocomplete suggestion: the label shown and the value filled in.
#[derive(Clone, Debug, PartialEq, Eq)]
pub struct Choice {
    pub name: String,
    pub value: String,
}

/// The answer to an interaction.
#[derive(Clone, Debug, PartialEq, Eq)]
pub enum Reply {
    /// The answer to a ping; it has no body.
    Pong,
    Epoch(EpochReply),
    Help(HelpTopic),
    Info,
    Choices(Vec<Choice>),
    /// A failure, shown to the invoking user alone as its description.
    Failure(Error),
}

/// The text of the first focused option named `timezone`, if any.
pub open spec fn focused_query(opts: Seq<CommandOption>) -> Option<Seq<char>>
    decreases opts.len(),
{
    if opts.len() == 0 {
        None
    } else if opts[0].name@ == "timezone"@ && opts[0].value is Focused {
        Some(opts[0].value->Focused_0@)
    } else {
        focused_query(opts.drop_first())
    }
}

/// The number of entries ranked for suggestions from a catalog of `len`
/// names: `MAX_CHOICES`, or all but the last where the catalog is no larger.
pub open spec fn clamped_count(len: int) -> int {
    if (MAX_CHOICES as int) < len {
        MAX_CHOICES as int
    } else {
        len - 1
    }
}

pub open spec fn min(a: int, b: int) -> int {
    if a < b {
        a
    } else {
        b
    }
}

/// `choices` are the first entries of a top ranking of `catalog` against
/// `query`, at most `MAX_CHOICES` of them, each labelled with its underscores
/// shown as spaces.
pub open spec fn are_suggestions(query: Seq<char>, catalog: Seq<Seq<char>>, choices: Seq<Choice>) -> bool {
    exists|ranked: Seq<Seq<char>>|
        {
            &&& #[trigger] is_top_ranking(
                query,
                catalog,
                clamped_count(catalog.len() as int),
                ranked,
            )
            &&& choices.len() == min(MAX_CHOICES as int, catalog.len() as int)
            &&& forall|i: int|
                0 <= i < choices.len() ==> #[trigger] choices[i].value@ == ranked[i]
                    && choices[i].name@ == spaced(ranked[i])
        }
}

/// Finds the text of the first focused option named `timezone`.
pub fn find_focused_query(options: &Vec<CommandOption>) -> (r: Option<&String>)
    ensures
        r is None <==> focused_query(options@) is None,
        r is Some ==> focused_query(options@) == Some(r->Some_0@),
{
    let n = options.len();
    let mut i: usize = 0;
    assert(options@.subrange(0, n as int) =~= options@);
    while i < n
        invariant
            i <= n == options@.len(),
            focused_query(options@) == focused_query(options@.subrange(i as int, n as int)),
        decreases n - i,
    {
        let ghost rest = options@.subrange(i as int, n as int);
        assert(rest.drop_first() =~= options@.subrange(i + 1, n as int));
        let option = &options[i];
        if same_text(option.name.as_str(), "timezone") {
            if let OptionValue::Focused(text) = &option.value {
                return Some(text);
            }
        }
        i += 1;
    }
    None
}

/// The suggestions for `query`: the best matching time zone identifiers of
/// `catalog`, at most `MAX_CHOICES` of them, best first.
pub fn suggestions(query: &str, catalog: &Vec<String>) -> (r: Vec<Choice>)
    ensures
        are_suggestions(query@, texts(catalog@), r@),
{
    let len = catalog.len();
    if len == 0 {
        let empty: Vec<Choice> = Vec::new();
        proof {
            let order = Seq::<usize>::empty();
            let keys = crate::rank::rank_keys(texts(catalog@), query@);
            let none = Seq::<Seq<char>>::empty();
            assert(order.map_values(|p: usize| texts(catalog@)[p as int]) =~= none);
            assert(is_permutation(order, 0));
            assert(sorted_between(keys, order, 0, 0));
            assert(separated(keys, order, 0));
            assert(is_top_ranking(query@, texts(catalog@), -1, none));
            assert(empty@.len() == min(MAX_CHOICES as int, texts(catalog@).len() as int));
            assert(is_top_ranking(
                query@,
                texts(catalog@),
                clamped_count(texts(catalog@).len() as int),
                none,
            ));
        }
        return empty;
    }
    let k = if MAX_CHOICES < len {
        MAX_CHOICES
    } else {
        len - 1
    };
    let ranked = rank_candidates(query, catalog, k);
    let n = if ranked.len() < MAX_CHOICES {
        ranked.len()
    } else {
        MAX_CHOICES
    };
    let ghost all = texts(catalog@);
    proof {
        crate::rank::lemma_ranking_keeps_candidates(
            query@,
            all,
            clamped_count(all.len() as int),
            texts(ranked@),
        );
    }
    let mut choices: Vec<Choice> = Vec::new();
    let mut i: usize = 0;
    while i < n
        invariant
            i <= n <= ranked@.len(),
            choices@.len() == i,
            forall|k: int|
                #![trigger choices@[k]]
                0 <= k < i ==> choices@[k].value@ == ranked@[k]@ && choices@[k].name@ == spaced(
                    ranked@[k]@,
                ),
        decreases n - i,
    {
        let tz = &ranked[i];
        let choice = Choice { name: underscores_as_spaces(tz.as_str()), value: tz.clone() };
        choices.push(choice);
        i += 1;
    }
    proof {
        let rt = texts(ranked@);
        assert(is_top_ranking(
            query@,
            all,
            clamped_count(all.len() as int),
            rt,
        ));
        assert forall|k: int| 0 <= k < choices@.len() implies #[trigger] choices@[k].value@ == rt[k]
            && choices@[k].name@ == spaced(rt[k]) by {
            assert(rt[k] == ranked@[k]@);
        }
        assert(choices@.len() == min(MAX_CHOICES as int, all.len() as int));
    }
    choices
}

/// The answer to a command other than `epoch`: the help page asked for, the
/// information card, or `Error::UnknownCommand`.
pub open spec fn command_reply(name: Seq<char>, opts: Seq<CommandOption>) -> Result<Reply, Error> {
    if name == "help"@ {
        match help_topic_of(opts) {
            Some(t) => Ok(Reply::Help(t)),
            None => Err(Error::UnknownCommand),
        }
    } else if name == "info"@ {
        Ok(Reply::Info)
    } else {
        Err(Error::UnknownCommand)
    }
}

/// What a command invocation may be answered with: for `epoch`, what the
/// epoch command may answer, its success carried in an `Epoch` reply and its
/// failure passed on; for any other name, `command_reply`.
pub open spec fn command_result_allowed(d: CommandData, r: Result<Reply, Error>) -> bool {
    if d.name@ == "epoch"@ {
        &&& r is Ok ==> r->Ok_0 is Epoch && epoch_result_allowed(
            d.options@,
            Ok(r->Ok_0->Epoch_0),
        )
        &&& r is Err ==> epoch_result_allowed(d.options@, Err(r->Err_0))
    } else {
        r == command_reply(d.name@, d.options@)
    }
}

/// What an autocomplete request may be answered with: only the epoch command
/// has suggestions, for its focused `timezone` option, and none without one.
pub open spec fn autocomplete_allowed(d: CommandData, catalog: Seq<Seq<char>>, r: Option<Reply>) -> bool {
    if d.name@ != "epoch"@ {
        r is None
    } else {
        &&& r is Some && r->Some_0 is Choices
        &&& focused_query(d.options@) is None ==> r->Some_0->Choices_0@.len() == 0
        &&& focused_query(d.options@) is Some ==> are_suggestions(
            focused_query(d.options@)->Some_0,
            catalog,
            r->Some_0->Choices_0@,
        )
    }
}

/// What an interaction may be answered with: a pong for a ping, a failure for
/// a kind or payload that no handler takes, else what its command or
/// autocomplete request may be answered with. A success is never a failure
/// reply.
pub open spec fn response_allowed(i: Interaction, catalog: Seq<Seq<char>>, r: Result<Reply, Error>) -> bool {
    &&& r is Ok ==> !(r->Ok_0 is Failure)
    &&& match i.kind {
        InteractionKind::Ping => r == Ok::<Reply, Error>(Reply::Pong),
        InteractionKind::Other => r == Err::<Reply, Error>(Error::UnsupportedInteractionType),
        _ => match i.data {
            None => r == Err::<Reply, Error>(Error::MissingPayload),
            Some(InteractionData::Other) => r == Err::<Reply, Error>(Error::Fatal),
            Some(InteractionData::Command(d)) => if i.kind == InteractionKind::ApplicationCommand {
                command_result_allowed(d, r)
            } else {
                exists|a: Option<Reply>|
                    #[trigger] autocomplete_allowed(d, catalog, a) && r == match a {
                        Some(reply) => Ok(reply),
                        None => Err(Error::UnknownCommand),
                    }
            },
        },
    }
}

/// The outcome that a reply stands for: a failure reply its error, any other
/// reply itself.
pub open spec fn result_of(r: Reply) -> Result<Reply, Error> {
    match r {
        Reply::Failure(e) => Err(e),
        _ => Ok(r),
    }
}

/// Routes a command invocation to its handler.
pub fn on_app_command(data: &CommandData) -> (r: Result<Reply, Error>)
    ensures
        command_result_allowed(*data, r),
{
    if same_text(data.name.as_str(), "epoch") {
        let reply = epoch::execute(&data.options)?;
        Ok(Reply::Epoch(reply))
    } else if same_text(data.name.as_str(), "help") {
        match help::execute(&data.options) {
            Some(t) => Ok(Reply::Help(t)),
            None => Err(Error::UnknownCommand),
        }
    } else if same_text(data.name.as_str(), "info") {
        Ok(Reply::Info)
    } else {
        Err(Error::UnknownCommand)
    }
}

/// Answers an autocomplete request: only the epoch command has suggestions,
/// for the focused `timezone` option; with no such option there are none.
pub fn on_autocomplete(data: &CommandData, catalog: &Vec<String>) -> (r: Option<Reply>)
    ensures
        autocomplete_allowed(*data, texts(catalog@), r),
{
    if !same_text(data.name.as_str(), "epoch") {
        return None;
    }
    let choices = match find_focused_query(&data.options) {
        Some(query) => suggestions(query.as_str(), catalog),
        None => Vec::new(),
    };
    Some(Reply::Choices(choices))
}

/// Answers an interaction, or says why it cannot be answered.
pub fn try_respond(interaction: &Interaction, catalog: &Vec<String>) -> (r: Result<Reply, Error>)
    ensures
        response_allowed(*interaction, texts(catalog@), r),
{
    let is_command = match interaction.kind {
        InteractionKind::ApplicationCommand => true,
        InteractionKind::Autocomplete => false,
        InteractionKind::Ping => return Ok(Reply::Pong),
        InteractionKind::Other => return Err(Error::UnsupportedInteractionType),
    };
    let data = match &interaction.data {
        None => return Err(Error::MissingPayload),
        Some(InteractionData::Other) => return Err(Error::Fatal),
        Some(InteractionData::Command(data)) => data,
    };
    if is_command {
        on_app_command(data)
    } else {
        let a = on_autocomplete(data, catalog);
        let r = match a {
            Some(reply) => Ok(reply),
            None => Err(Error::UnknownCommand),
        };
        assert(autocomplete_allowed(*data, texts(catalog@), a));
        r
    }
}

/// Answers an interaction; a failure becomes a reply that describes it.
/// A ping is always answered with a pong.
pub fn respond(interaction: &Interaction, catalog: &Vec<String>) -> (r: Reply)
    ensures
        response_allowed(*interaction, texts(catalog@), result_of(r)),
        interaction.kind == InteractionKind::Ping ==> r == Reply::Pong,
{
    match try_respond(interaction, catalog) {
        Ok(reply) => reply,
        Err(e) => Reply::Failure(e),
    }
}

} // verus!
