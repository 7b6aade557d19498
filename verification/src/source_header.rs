//! Switching between a C or C++ source file and its header: which languages
//! the command is offered for, and what to do with the language server's answer.
//!
//! The server answers with the URL of the counterpart, or with an empty text
//! when it knows none.

use std::path::PathBuf;
use url::{ParseError, Url};
use vstd::prelude::*;
use vstd::string::*;

verus! {

/// The language server that is asked.
pub const CLANGD_SERVER_NAME: &'static str = "clangd";

/// `Url` of the `url` crate: a parsed URL. It is carried through as it is;
/// nothing of what it holds is known here.
#[verifier::external_type_specification]
#[verifier::external_body]
pub struct ExUrl(url::Url);

/// `ParseError` of the `url` crate: why a text is no URL. It is carried through
/// as it is.
#[verifier::external_type_specification]
#[verifier::external_body]
pub struct ExParseError(url::ParseError);

/// `PathBuf` of the standard library: the path of a file. It is carried through
/// as it is.
#[verifier::external_type_specification]
#[verifier::external_body]
pub struct ExPathBuf(std::path::PathBuf);

/// Whether `Url::parse` accepts the text.
pub uninterp spec fn parses_as_url(text: Seq<char>) -> bool;

/// `Url::parse` of the `url` crate, which parses an absolute URL. Taken on
/// trust: whether it succeeds depends on the text alone, which `parses_as_url`
/// names. Nothing is claimed of the URL that it gives, nor of the reason with
/// which it fails.
pub assume_specification[ Url::parse ](input: &str) -> (parsed: Result<Url, ParseError>)
    ensures
        parsed is Ok <==> parses_as_url(input@),
;

/// `Url::to_file_path` of the `url` crate, which turns the path of a URL into
/// the path of a file. Nothing is claimed of its result: for which URLs it
/// fails, and what a path looks like, differ from one platform to another.
pub assume_specification[ Url::to_file_path ](url: &Url) -> (path: Result<PathBuf, ()>)
;

/// The command is offered for files in these two languages and no others.
pub fn is_c_language(name: &str) -> (offered: bool)
    ensures
        offered == (name@ == "C++"@ || name@ == "C"@),
{
    let name = String::from_str(name);
    name == String::from_str("C++") || name == String::from_str("C")
}

/// What to do with the server's answer.
#[derive(Debug)]
pub enum SwitchStep {
    /// The server knows no counterpart: note it, and be done.
    NoCounterpart,
    /// Open this file.
    Open(PathBuf),
    /// The answer is no URL. The command fails.
    InvalidUrl(ParseError),
    /// The URL names no local file. The command fails.
    NotAFile(Url),
}

/// The step for a URL and the file path that was asked of it.
pub fn step_for_path(url: Url, path: Result<PathBuf, ()>) -> (step: SwitchStep)
    ensures
        step == (match path {
            Ok(file) => SwitchStep::Open(file),
            Err(_) => SwitchStep::NotAFile(url),
        }),
{
    match path {
        Ok(file) => SwitchStep::Open(file),
        Err(_) => SwitchStep::NotAFile(url),
    }
}

/// The step for an answer that is not empty, given what parsing it gave: a
/// failure to parse is passed on, and a URL is opened if it names a local file.
pub fn step_for_url(parsed: Result<Url, ParseError>) -> (step: SwitchStep)
    ensures
        match parsed {
            Ok(url) => step is Open || step == SwitchStep::NotAFile(url),
            Err(reason) => step == SwitchStep::InvalidUrl(reason),
        },
{
    match parsed {
        Ok(url) => {
            let path = url.to_file_path();
            step_for_path(url, path)
        },
        Err(reason) => SwitchStep::InvalidUrl(reason),
    }
}

/// The step for the server's answer. An empty answer is no failure; any other
/// must be the URL of a local file.
pub fn step_for_answer(answer: &str) -> (step: SwitchStep)
    ensures
        answer@.len() == 0 <==> step is NoCounterpart,
        answer@.len() > 0 && !parses_as_url(answer@) <==> step is InvalidUrl,
        answer@.len() > 0 && parses_as_url(answer@) <==> step is Open || step is NotAFile,
{
    if answer.is_empty() {
        SwitchStep::NoCounterpart
    } else {
        step_for_url(Url::parse(answer))
    }
}

} // verus!
