//! From a configuration and the outcome of reading its file to the lines that
//! are to be printed.

use crate::config::{Config, ConfigView};
use crate::search::{folded_matching_lines, matching_lines, search, search_case_insensitive};
use vstd::prelude::*;

verus! {

/// The error of the standard library's I/O, carried through as it came.
#[verifier::external_type_specification]
#[verifier::external_body]
pub struct ExIoError(std::io::Error);

/// Why a run came to nothing.
#[derive(Debug)]
pub enum RunError {
    /// The file could not be read; the cause is kept as the reader gave it.
    Io(std::io::Error),
}

/// The lines of `contents` that a search under `config` finds: the exact search
/// where the configuration regards case, the search in lowercase where it does
/// not.
pub open spec fn selected_lines(config: ConfigView, contents: Seq<char>) -> Seq<Seq<char>> {
    if config.case_sensitive {
        matching_lines(config.query, contents)
    } else {
        folded_matching_lines(config.query, contents)
    }
}

/// Searches `contents` for the query of `config`, with the search that its
/// `case_sensitive` asks for. Each line found is a slice of `contents`.
pub fn select<'a>(config: &Config, contents: &'a str) -> (found: Vec<&'a str>)
    ensures
        found.deep_view() == selected_lines(config@, contents@),
{
    if config.case_sensitive {
        search(config.query.as_str(), contents)
    } else {
        search_case_insensitive(config.query.as_str(), contents)
    }
}

/// One run, given what reading the file of `config` came to. Where the file
/// could not be read the run fails with the reader's error and nothing is
/// searched. Where it could, the result holds the lines to print, one for each
/// line found and in the order of the file.
pub fn run(config: &Config, read: Result<String, std::io::Error>) -> (output: Result<
    Vec<String>,
    RunError,
>)
    ensures
        match read {
            Ok(contents) => output is Ok && output->Ok_0.deep_view() == selected_lines(
                config@,
                contents@,
            ),
            Err(cause) => output == Err::<Vec<String>, RunError>(RunError::Io(cause)),
        },
{
    let contents = match read {
        Ok(contents) => contents,
        Err(cause) => {
            return Err(RunError::Io(cause));
        },
    };
    let found = select(config, contents.as_str());
    let mut lines: Vec<String> = Vec::new();
    let mut at: usize = 0;
    while at < found.len()
        invariant
            at <= found.len(),
            lines.deep_view() == found.deep_view().take(at as int),
        decreases found.len() - at,
    {
        let ghost before = lines.deep_view();
        let line = found[at].to_owned();
        lines.push(line);
        assert(lines.deep_view() == before.push(found[at as int]@));
        assert(found.deep_view().take(at + 1) == before.push(found[at as int]@));
        at += 1;
    }
    Ok(lines)
}

} // verus!
