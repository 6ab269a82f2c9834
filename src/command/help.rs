use crate::options::{CommandOption, OptionValue};
use crate::text::same_text;
use vstd::prelude::*;

verus! {

/// The page of help that the help command shows.
#[derive(Clone, Copy, Debug, PartialEq, Eq, Structural)]
pub enum HelpTopic {
    Overview,
    Epoch,
    Help,
}

/// The help page that the last option asks for: none where it is a string
/// naming no page, the overview where there is no option or it is no string.
pub open spec fn help_topic_of(opts: Seq<CommandOption>) -> Option<HelpTopic> {
    if opts.len() > 0 && opts.last().value is String {
        let v = opts.last().value->String_0@;
        if v == "epoch"@ {
            Some(HelpTopic::Epoch)
        } else if v == "help"@ {
            Some(HelpTopic::Help)
        } else {
            None
        }
    } else {
        Some(HelpTopic::Overview)
    }
}

/// Picks the help page that the help command's options ask for.
pub fn execute(options: &Vec<CommandOption>) -> (r: Option<HelpTopic>)
    ensures
        r == help_topic_of(options@),
{
    let n = options.len();
    if n == 0 {
        return Some(HelpTopic::Overview);
    }
    match &options[n - 1].value {
        OptionValue::String(v) => if same_text(v.as_str(), "epoch") {
            Some(HelpTopic::Epoch)
        } else if same_text(v.as_str(), "help") {
            Some(HelpTopic::Help)
        } else {
            None
        },
        _ => Some(HelpTopic::Overview),
    }
}

} // verus!
