//! The two searches: the lines of a text that hold a query, as they stand or
//! after both are put in lowercase.

use crate::lines::{lines_of, take_line};
use crate::subsequence::{
    embeds, is_subsequence, lemma_filter_keeps_all, lemma_filter_keeps_none, lemma_filters_nest,
};
use crate::text::{contains, is_substring, lowercase, to_lowercase};
use vstd::prelude::*;

verus! {

/// The test that the exact search puts to a line.
pub open spec fn holds(query: Seq<char>) -> spec_fn(Seq<char>) -> bool {
    |line: Seq<char>| is_substring(query, line)
}

/// The test that the search without regard to case puts to a line.
pub open spec fn holds_folded(query: Seq<char>) -> spec_fn(Seq<char>) -> bool {
    |line: Seq<char>| is_substring(lowercase(query), lowercase(line))
}

/// The lines of `text` that hold `query` exactly, in the order of the text.
pub open spec fn matching_lines(query: Seq<char>, text: Seq<char>) -> Seq<Seq<char>> {
    lines_of(text).filter(holds(query))
}

/// The lines of `text` whose lowercase form holds the lowercase form of
/// `query`, in the order of the text.
pub open spec fn folded_matching_lines(query: Seq<char>, text: Seq<char>) -> Seq<Seq<char>> {
    lines_of(text).filter(holds_folded(query))
}

/// The exact search finds the lines that hold the query and no others: every
/// line found holds the query, every line of the text that holds it is found,
/// and the lines found are a subsequence of the lines of the text, so that they
/// stand in the order of the text and none is found more often than the text
/// has it.
pub proof fn lemma_search_finds_exactly(query: Seq<char>, text: Seq<char>)
    ensures
        forall|j: int|
            0 <= j < matching_lines(query, text).len() ==> is_substring(
                query,
                #[trigger] matching_lines(query, text)[j],
            ),
        forall|i: int|
            0 <= i < lines_of(text).len() && is_substring(query, lines_of(text)[i])
                ==> matching_lines(query, text).contains(#[trigger] lines_of(text)[i]),
        is_subsequence(matching_lines(query, text), lines_of(text)),
{
    let lines = lines_of(text);
    let found = matching_lines(query, text);
    assert forall|j: int| 0 <= j < found.len() implies is_substring(query, #[trigger] found[j]) by {
        lines.lemma_filter_pred(holds(query), j);
    }
    assert forall|i: int|
        0 <= i < lines.len() && is_substring(query, lines[i]) implies found.contains(
        #[trigger] lines[i],
    ) by {
        lines.lemma_filter_contains(holds(query), i);
    }
    let any = |line: Seq<char>| true;
    lemma_filters_nest(lines, holds(query), any);
    lemma_filter_keeps_all(lines, any);
}

/// The search without regard to case finds the lines whose lowercase form
/// holds the lowercase form of the query, and no others, in the order of the
/// text and none more often than the text has it.
pub proof fn lemma_folded_search_finds_exactly(query: Seq<char>, text: Seq<char>)
    ensures
        forall|j: int|
            0 <= j < folded_matching_lines(query, text).len() ==> is_substring(
                lowercase(query),
                lowercase(#[trigger] folded_matching_lines(query, text)[j]),
            ),
        forall|i: int|
            0 <= i < lines_of(text).len() && is_substring(
                lowercase(query),
                lowercase(lines_of(text)[i]),
            ) ==> folded_matching_lines(query, text).contains(#[trigger] lines_of(text)[i]),
        is_subsequence(folded_matching_lines(query, text), lines_of(text)),
{
    let lines = lines_of(text);
    let found = folded_matching_lines(query, text);
    assert forall|j: int| 0 <= j < found.len() implies is_substring(
        lowercase(query),
        lowercase(#[trigger] found[j]),
    ) by {
        lines.lemma_filter_pred(holds_folded(query), j);
    }
    assert forall|i: int|
        0 <= i < lines.len() && is_substring(
            lowercase(query),
            lowercase(lines[i]),
        ) implies found.contains(#[trigger] lines[i]) by {
        lines.lemma_filter_contains(holds_folded(query), i);
    }
    let any = |line: Seq<char>| true;
    lemma_filters_nest(lines, holds_folded(query), any);
    lemma_filter_keeps_all(lines, any);
}

/// Putting `line` and `query` in lowercase does not undo that the one holds
/// the other. Most pairs have this; a pair lacks it where a letter of the query
/// has one lowercase form at the end of a word and another inside the line.
pub open spec fn folding_keeps_match(query: Seq<char>, line: Seq<char>) -> bool {
    is_substring(query, line) ==> is_substring(lowercase(query), lowercase(line))
}

/// Disregarding case loses nothing: where putting in lowercase undoes no match
/// of the query in a line of the text, the lines that the exact search finds
/// are a subsequence of those that the search without regard to case finds.
pub proof fn lemma_exact_matches_among_folded(query: Seq<char>, text: Seq<char>)
    requires
        forall|i: int|
            0 <= i < lines_of(text).len() ==> folding_keeps_match(query, #[trigger] lines_of(text)[i]),
    ensures
        is_subsequence(matching_lines(query, text), folded_matching_lines(query, text)),
{
    lemma_filters_nest(lines_of(text), holds(query), holds_folded(query));
}

/// Where putting in lowercase undoes the match of the query in some line of
/// the text, the search without regard to case does lose that line: the lines
/// that the exact search finds are then no subsequence of those that it finds.
pub proof fn lemma_folding_can_lose_a_match(query: Seq<char>, text: Seq<char>, lost: int)
    requires
        0 <= lost < lines_of(text).len(),
        !folding_keeps_match(query, lines_of(text)[lost]),
    ensures
        !is_subsequence(matching_lines(query, text), folded_matching_lines(query, text)),
{
    let lines = lines_of(text);
    let exact = matching_lines(query, text);
    let folded = folded_matching_lines(query, text);
    lines.lemma_filter_contains(holds(query), lost);
    let found = choose|j: int| 0 <= j < exact.len() && exact[j] == lines[lost];
    if is_subsequence(exact, folded) {
        let at = choose|at: Seq<int>| embeds(exact, folded, at);
        assert(folded[at[found]] == lines[lost]);
        lines.lemma_filter_pred(holds_folded(query), at[found]);
    }
}

/// A search has one answer: two results that each meet the contract of
/// `search` for the same query and contents hold the same lines in the same
/// order, and so for `search_case_insensitive`.
pub proof fn lemma_search_has_one_answer(
    query: &str,
    contents: &str,
    first: Vec<&str>,
    second: Vec<&str>,
)
    requires
        first.deep_view() == matching_lines(query@, contents@) && second.deep_view()
            == matching_lines(query@, contents@) || first.deep_view() == folded_matching_lines(
            query@,
            contents@,
        ) && second.deep_view() == folded_matching_lines(query@, contents@),
    ensures
        first.len() == second.len(),
        forall|i: int| 0 <= i < first.len() ==> first[i]@ == second[i]@,
{
    assert(first@.len() == first.deep_view().len());
    assert(second@.len() == second.deep_view().len());
    assert forall|i: int| 0 <= i < first.len() implies first[i]@ == second[i]@ by {
        assert(first.deep_view()[i] == second.deep_view()[i]);
    }
}

/// A text without characters has no lines, so neither search finds any in it,
/// whatever the query.
pub proof fn lemma_nothing_found_in_empty_text(query: Seq<char>)
    ensures
        matching_lines(query, Seq::empty()) == Seq::<Seq<char>>::empty(),
        folded_matching_lines(query, Seq::empty()) == Seq::<Seq<char>>::empty(),
{
    reveal(Seq::filter);
}

/// Every line holds the empty query: the exact search for it finds all lines.
pub proof fn lemma_empty_query_finds_all(text: Seq<char>)
    ensures
        matching_lines(Seq::empty(), text) == lines_of(text),
{
    let lines = lines_of(text);
    let query = Seq::<char>::empty();
    assert forall|i: int| 0 <= i < lines.len() implies holds(query)(lines[i]) by {
        assert(lines[i].subrange(0int, 0int + query.len()) == query);
    }
    lemma_filter_keeps_all(lines, holds(query));
}

/// A query that is longer than every line is found in none.
pub proof fn lemma_long_query_finds_nothing(query: Seq<char>, text: Seq<char>)
    requires
        forall|i: int| 0 <= i < lines_of(text).len() ==> (#[trigger] lines_of(text)[i]).len() < query.len(),
    ensures
        matching_lines(query, text) == Seq::<Seq<char>>::empty(),
{
    lemma_filter_keeps_none(lines_of(text), holds(query));
}

/// Takes `line` into `kept` if `shown` holds `query`, and leaves `kept` as it
/// is if not. `shown` is the form in which the line is looked at: the line
/// itself in the exact search, its lowercase form in the search without regard
/// to case, where `query` is in lowercase too.
pub fn keep_if_held<'a>(kept: &mut Vec<&'a str>, line: &'a str, shown: &str, query: &str)
    ensures
        final(kept)@ == if is_substring(query@, shown@) {
            old(kept)@.push(line)
        } else {
            old(kept)@
        },
{
    if contains(shown, query) {
        kept.push(line);
    }
}

/// The lines of `contents` that hold `query` as it stands, character for
/// character, in the order in which they stand in `contents`. Each line is a
/// slice of `contents`, without its line ending. The lines are read one at a
/// time; an empty `query` is held by every line.
pub fn search<'a>(query: &str, contents: &'a str) -> (result: Vec<&'a str>)
    ensures
        result.deep_view() == matching_lines(query@, contents@),
{
    let mut result: Vec<&'a str> = Vec::new();
    let mut rest = contents;
    while !rest.is_empty()
        invariant
            result.deep_view() + matching_lines(query@, rest@) == matching_lines(
                query@,
                contents@,
            ),
        decreases rest@.len(),
    {
        let (line, tail) = take_line(rest);
        let ghost before = result.deep_view();
        keep_if_held(&mut result, line, line, query);
        proof {
            lines_of(tail@).lemma_filter_prepend(line@, holds(query@));
            if is_substring(query@, line@) {
                assert(result.deep_view() == before.push(line@));
            } else {
                assert(result.deep_view() == before);
            }
            assert(result.deep_view() + matching_lines(query@, tail@) == before + matching_lines(
                query@,
                rest@,
            ));
        }
        rest = tail;
    }
    proof {
        reveal(Seq::filter);
    }
    result
}

/// The lines of `contents` whose lowercase form holds the lowercase form of
/// `query`, in the order in which they stand in `contents`. Each line is a
/// slice of `contents`, as it stands there and without its line ending. The
/// query is put in lowercase once, each line as it is read.
pub fn search_case_insensitive<'a>(query: &str, contents: &'a str) -> (result: Vec<&'a str>)
    ensures
        result.deep_view() == folded_matching_lines(query@, contents@),
{
    let folded_query = to_lowercase(query);
    let mut result: Vec<&'a str> = Vec::new();
    let mut rest = contents;
    while !rest.is_empty()
        invariant
            folded_query@ == lowercase(query@),
            result.deep_view() + folded_matching_lines(query@, rest@) == folded_matching_lines(
                query@,
                contents@,
            ),
        decreases rest@.len(),
    {
        let (line, tail) = take_line(rest);
        let ghost before = result.deep_view();
        let folded_line = to_lowercase(line);
        keep_if_held(&mut result, line, folded_line.as_str(), folded_query.as_str());
        proof {
            lines_of(tail@).lemma_filter_prepend(line@, holds_folded(query@));
            if is_substring(folded_query@, folded_line@) {
                assert(result.deep_view() == before.push(line@));
            } else {
                assert(result.deep_view() == before);
            }
            assert(result.deep_view() + folded_matching_lines(query@, tail@) == before
                + folded_matching_lines(query@, rest@));
        }
        rest = tail;
    }
    proof {
        reveal(Seq::filter);
    }
    result
}

} // verus!
