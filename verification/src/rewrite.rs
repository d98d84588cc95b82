//! From the output of a build to the lines of the two argument files.

use vstd::prelude::*;
use crate::capture::{last_line, last_line_of, mentions_definition, names_definition};
use crate::classifier::{argument_files, classify_arguments, ArgumentFiles};
use crate::front_end::{is_front_end, program_name, validate_front_end, FrontEndError};
use crate::paths::{definition_path, definition_path_of};
use crate::text::occurs_at;
use crate::tokenizer::{lemma_text_makes_a_token, parse_quotes, tokenize};

verus! {

/// What is made of the output of one build.
#[derive(PartialEq, Eq, Debug)]
pub enum Outcome {
    /// The build printed nothing, so there is no line to read.
    NoOutput,
    /// The last line names no module-definition file: there are no linker
    /// arguments in it, and nothing is written.
    NoLinkerArguments,
    /// The last line is not the command line of a known linker front end.
    Rejected(FrontEndError),
    /// The last line was rewritten into these files.
    Rewritten(ArgumentFiles),
}

impl Outcome {
    /// Whether the outcome is a success: the line was rewritten, or there
    /// was rightly nothing to rewrite.
    pub open spec fn is_success(self) -> bool {
        self is NoLinkerArguments || self is Rewritten
    }

    /// The status with which the process ends: 0 after a success, 1 after
    /// anything else.
    pub fn exit_code(&self) -> (code: i32)
        ensures
            code == (if self.is_success() {
                0int
            } else {
                1int
            }),
    {
        match self {
            Outcome::NoLinkerArguments | Outcome::Rewritten(_) => 0,
            Outcome::NoOutput | Outcome::Rejected(_) => 1,
        }
    }
}

/// A line that names a module-definition file has at least one word.
pub proof fn lemma_definition_line_has_token(line: Seq<char>)
    requires
        mentions_definition(line),
    ensures
        tokenize(line).len() > 0,
{
    let at = choose|at: int| occurs_at(".def"@, line, at);
    reveal_strlit(".def");
    assert(line.subrange(at, at + 4)[1] == 'd');
    lemma_text_makes_a_token(line, at + 1);
}

/// Rewrites one link command line into the lines of the linker file and of
/// the archiver file that stands at `archiver_file`.
///
/// The line is split into tokens. The first must name a known front end; the
/// others are classified in turn.
pub fn rewrite_link_line(line: &str, archiver_file: &str) -> (rewritten: Result<
    ArgumentFiles,
    FrontEndError,
>)
    ensures
        match rewritten {
            Ok(files) => {
                &&& tokenize(line@).len() > 0
                &&& is_front_end(program_name(tokenize(line@)[0]))
                &&& files@ == argument_files(
                    tokenize(line@),
                    1,
                    definition_path_of(archiver_file@),
                )
            },
            Err(FrontEndError::Missing) => tokenize(line@).len() == 0,
            Err(FrontEndError::Unrecognized(token)) => {
                &&& tokenize(line@).len() > 0
                &&& !is_front_end(program_name(tokenize(line@)[0]))
                &&& token@ == tokenize(line@)[0]
            },
        },
{
    let tokens = parse_quotes(line);
    proof {
        if tokens.len() > 0 {
            assert(tokens.deep_view()[0] == tokens[0]@);
        }
    }
    match validate_front_end(&tokens) {
        Ok(_) => {
            let target = definition_path(archiver_file);
            Ok(classify_arguments(&tokens, 1, target.as_str()))
        },
        Err(error) => Err(error),
    }
}

/// Reads the output of a build and rewrites its last line, if that is a link
/// command line, for the archiver file at `archiver_file`.
pub fn rewrite_build_output(output: &str, archiver_file: &str) -> (outcome: Outcome)
    ensures
        match outcome {
            Outcome::NoOutput => last_line(output@) is None,
            Outcome::NoLinkerArguments => {
                &&& last_line(output@) matches Some(line)
                &&& !mentions_definition(line)
            },
            Outcome::Rejected(FrontEndError::Missing) => false,
            Outcome::Rejected(FrontEndError::Unrecognized(token)) => {
                &&& last_line(output@) matches Some(line)
                &&& mentions_definition(line)
                &&& !is_front_end(program_name(tokenize(line)[0]))
                &&& token@ == tokenize(line)[0]
            },
            Outcome::Rewritten(files) => {
                &&& last_line(output@) matches Some(line)
                &&& mentions_definition(line)
                &&& is_front_end(program_name(tokenize(line)[0]))
                &&& files@ == argument_files(tokenize(line), 1, definition_path_of(archiver_file@))
            },
        },
{
    match last_line_of(output) {
        None => Outcome::NoOutput,
        Some(line) => {
            if !names_definition(line.as_str()) {
                Outcome::NoLinkerArguments
            } else {
                proof {
                    lemma_definition_line_has_token(line@);
                }
                match rewrite_link_line(line.as_str(), archiver_file) {
                    Ok(files) => Outcome::Rewritten(files),
                    Err(error) => Outcome::Rejected(error),
                }
            }
        },
    }
}

} // verus!
