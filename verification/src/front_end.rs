//! The linker front ends whose command lines are understood.

use vstd::prelude::*;
use crate::paths::{file_name, file_name_of};
use crate::text::{chars_of, equals};

verus! {

/// The file names of the linker front ends whose command lines are understood.
pub const FRONT_ENDS: [&'static str; 3] = ["link.exe", "lld-link.exe", "rust-lld.exe"];

/// Whether `file_name` is, letter for letter, the file name of a known
/// linker front end.
pub open spec fn is_front_end(file_name: Seq<char>) -> bool {
    exists|i: int| 0 <= i < FRONT_ENDS@.len() && (#[trigger] FRONT_ENDS@[i])@ == file_name
}

/// The file name of the program that `token` names; empty where the path has
/// no last component.
pub open spec fn program_name(token: Seq<char>) -> Seq<char> {
    match file_name_of(token) {
        Some(name) => name,
        None => Seq::empty(),
    }
}

/// Why a command line is not taken for a link command line.
#[derive(PartialEq, Eq, Debug)]
pub enum FrontEndError {
    /// The line holds no token at all.
    Missing,
    /// The line begins with this token, which names no known front end.
    Unrecognized(String),
}

/// What is said of a line that holds no token.
pub open spec fn missing_message() -> Seq<char> {
    "No linker args found!"@
}

/// What is said of a line that begins with `token`, which names no known
/// front end.
pub open spec fn unrecognized_message(token: Seq<char>) -> Seq<char> {
    "Unrecognized linker flavor "@ + token
}

impl FrontEndError {
    /// The text that tells a person what is wrong with the line.
    pub fn message(&self) -> (text: String)
        ensures
            text@ == match self {
                FrontEndError::Missing => missing_message(),
                FrontEndError::Unrecognized(token) => unrecognized_message(token@),
            },
    {
        match self {
            FrontEndError::Missing => "No linker args found!".to_owned(),
            FrontEndError::Unrecognized(token) => {
                let mut text = "Unrecognized linker flavor ".to_owned();
                text.append(token.as_str());
                text
            },
        }
    }
}

/// Whether `file_name` is the file name of a known linker front end.
pub fn is_known_front_end(file_name: &str) -> (known: bool)
    ensures
        known == is_front_end(file_name@),
{
    let name = chars_of(file_name);
    let mut i: usize = 0;
    while i < FRONT_ENDS.len()
        invariant
            i <= FRONT_ENDS@.len(),
            name@ == file_name@,
            forall|j: int| 0 <= j < i ==> (#[trigger] FRONT_ENDS@[j])@ != file_name@,
        decreases FRONT_ENDS@.len() - i,
    {
        if equals(name.as_slice(), FRONT_ENDS[i]) {
            return true;
        }
        i += 1;
    }
    false
}

/// Checks that a command line begins with a known linker front end.
///
/// The first token is the path of the program; only its file name counts.
pub fn validate_front_end(tokens: &Vec<String>) -> (checked: Result<(), FrontEndError>)
    ensures
        match checked {
            Ok(_) => tokens.len() > 0 && is_front_end(program_name(tokens[0]@)),
            Err(FrontEndError::Missing) => tokens.len() == 0,
            Err(FrontEndError::Unrecognized(token)) => tokens.len() > 0 && !is_front_end(
                program_name(tokens[0]@),
            ) && token@ == tokens[0]@,
        },
{
    if tokens.len() == 0 {
        return Err(FrontEndError::Missing);
    }
    let name = match file_name(tokens[0].as_str()) {
        Some(name) => name,
        None => String::new(),
    };
    if is_known_front_end(name.as_str()) {
        Ok(())
    } else {
        Err(FrontEndError::Unrecognized(tokens[0].clone()))
    }
}

} // verus!
