//! Target generation for annotated log records.
//!
//! A record arrives as a source name and a log text; the surrounding
//! program asks a language model for the record's target (its key-value
//! information) and attaches the answer here.  This module holds the
//! record types, the prompt for one record, and the countdown that
//! limits how many records a run processes.

use vstd::prelude::*;
use vstd::string::StringExecFns;

verus! {

/// A log record whose target has not been generated yet.
#[derive(Debug, Clone)]
pub struct WithoutTarget {
    /// The software the log line came from.
    pub source: String,
    /// The log line itself.
    pub text: String,
}

/// A log record together with its generated target.
#[derive(Debug, Clone)]
pub struct WithTarget {
    /// The software the log line came from.
    pub source: String,
    /// The log line itself.
    pub text: String,
    /// The generated key-value information.
    pub target: String,
}

impl WithoutTarget {
    /// Attaches a generated target to the record.
    pub fn into_with_target(self, target: String) -> (r: WithTarget)
        ensures
            r.source == self.source,
            r.text == self.text,
            r.target == target,
    {
        WithTarget { source: self.source, text: self.text, target }
    }
}

/// Whether processing should go on, counting one record off a limit:
/// `None` never stops, `Some(0)` stops, and any other limit admits the
/// record and decreases by one.
pub fn should_continue_decrementing(count: &mut Option<usize>) -> (r: bool)
    ensures
        (match *old(count) {
            Some(c) => if c == 0 {
                !r && *final(count) == Some(0usize)
            } else {
                r && *final(count) == Some((c - 1) as usize)
            },
            None => r && *final(count) is None,
        }),
{
    match count {
        Some(c) => if *c == 0 {
            false
        } else {
            *c = *c - 1;
            true
        },
        None => true,
    }
}

/// The prompt that asks for `text`'s key-value information, naming the
/// `source` software the line came from.
pub open spec fn prompt_for(text: Seq<char>, source: Seq<char>) -> Seq<char> {
    "Your task it to extract information in key value format from log lines.\
Analyze the line carefully sandwiched in triple backticks. Then produce\
the key value information. After key values, generate one pair with key\
'@' and the value the shows a up to five words summary of the log content. Then, write\
the output in the following format:
Key1 Value1
Key2 Value2
@ Summary
Keep in mind that keys should not contain any whitespace characters, and \
key are separated from value by a space. Furthermore, key-value pairs are\
separated from each other by a new line character.
Now produce key-values for the following line of log
```
"@ + text + "
```
Keep in mind that this log is generated from the software "@ + source + ". So, produce\
the key-values with respect to that software. Do not write anything other\
than the key values. Just print the key-values and summary"@
}

/// Builds the prompt for one record: exactly [`prompt_for`].
pub fn build_prompt(log: &WithoutTarget) -> (r: String)
    ensures
        r@ == prompt_for(log.text@, log.source@),
{
    let mut out =
        "Your task it to extract information in key value format from log lines.\
Analyze the line carefully sandwiched in triple backticks. Then produce\
the key value information. After key values, generate one pair with key\
'@' and the value the shows a up to five words summary of the log content. Then, write\
the output in the following format:
Key1 Value1
Key2 Value2
@ Summary
Keep in mind that keys should not contain any whitespace characters, and \
key are separated from value by a space. Furthermore, key-value pairs are\
separated from each other by a new line character.
Now produce key-values for the following line of log
```
".to_owned();
    out.append(log.text.as_str());
    out.append(
        "
```
Keep in mind that this log is generated from the software ",
    );
    out.append(log.source.as_str());
    out.append(
        ". So, produce\
the key-values with respect to that software. Do not write anything other\
than the key values. Just print the key-values and summary",
    );
    out
}

} // verus!
