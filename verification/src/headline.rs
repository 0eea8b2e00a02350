//! The graph's headline: clauses separated by `"; "`, wrapped onto lines
//! that fit the canvas.
use vstd::prelude::*;
use vstd::utf8::encode_utf8;

use crate::text::clause_separator;
use crate::text::joined;
use crate::text::split_clauses;
use crate::text::split_clauses_of;
use crate::text::string_of_chars;
use crate::text::string_views;
use crate::text::views_of;

verus! {

/// The widest headline line, in bytes, at the headline's font size.
pub const HEADLINE_MAX_BYTES: usize = 118;

/// The length of `text` in UTF-8 bytes, as `str::len` reports it.
pub open spec fn byte_length(text: Seq<char>) -> int {
    (encode_utf8(text).len() as usize) as int
}

/// Lines for `clauses`, filled greedily: each clause joins the line before
/// it (after `"; "`) when the joined line stays within the limit, and
/// starts a new line otherwise.
pub open spec fn wrapped_lines(clauses: Seq<Seq<char>>) -> Seq<Seq<char>>
    decreases clauses.len(),
{
    if clauses.len() == 0 {
        Seq::empty()
    } else {
        let lines = wrapped_lines(clauses.drop_last());
        let clause = clauses.last();
        if lines.len() > 0 && byte_length(lines.last()) + 2 + byte_length(clause) <= HEADLINE_MAX_BYTES {
            lines.update(lines.len() - 1, lines.last() + clause_separator() + clause)
        } else {
            lines.push(clause)
        }
    }
}

pub(crate) proof fn lemma_joined_push(parts: Seq<Seq<char>>, last: Seq<char>, separator: Seq<char>)
    requires
        parts.len() >= 1,
    ensures
        joined(parts.push(last), separator) == joined(parts, separator) + separator + last,
{
    assert(parts.push(last).drop_last() =~= parts);
}

proof fn lemma_joined_extend_last(parts: Seq<Seq<char>>, tail: Seq<char>, separator: Seq<char>)
    requires
        parts.len() >= 1,
    ensures
        joined(parts.update(parts.len() - 1, parts.last() + separator + tail), separator) == joined(
            parts,
            separator,
        ) + separator + tail,
{
    let updated = parts.update(parts.len() - 1, parts.last() + separator + tail);
    if parts.len() == 1 {
    } else {
        assert(updated.drop_last() =~= parts.drop_last());
        assert(joined(updated, separator) =~= joined(parts, separator) + separator + tail);
    }
}

/// Wrapping keeps every clause and its order: joining the lines with `"; "`
/// gives back the clauses joined with `"; "`; there is a line exactly when
/// there is a clause.
pub proof fn lemma_wrapped_lines_join(clauses: Seq<Seq<char>>)
    ensures
        joined(wrapped_lines(clauses), clause_separator()) == joined(clauses, clause_separator()),
        (wrapped_lines(clauses).len() == 0) == (clauses.len() == 0),
    decreases clauses.len(),
{
    if clauses.len() > 0 {
        let earlier = clauses.drop_last();
        let lines = wrapped_lines(earlier);
        lemma_wrapped_lines_join(earlier);
        let clause = clauses.last();
        if lines.len() > 0 && byte_length(lines.last()) + 2 + byte_length(clause) <= HEADLINE_MAX_BYTES {
            lemma_joined_extend_last(lines, clause, clause_separator());
        } else if lines.len() > 0 {
            lemma_joined_push(lines, clause, clause_separator());
        } else {
            assert(lines.push(clause) =~= seq![clause]);
        }
    }
}

/// The UTF-8 encoding of a concatenation is the concatenation of the encodings.
proof fn lemma_encode_concat(first: Seq<char>, second: Seq<char>)
    ensures
        encode_utf8(first + second) == encode_utf8(first) + encode_utf8(second),
    decreases first.len(),
{
    if first.len() == 0 {
        assert(first + second =~= second);
        assert(encode_utf8(first) + encode_utf8(second) =~= encode_utf8(second));
    } else {
        lemma_encode_concat(first.drop_first(), second);
        assert((first + second).drop_first() =~= first.drop_first() + second);
        assert((first + second)[0] == first[0]);
        assert(encode_utf8(first + second) =~= encode_utf8(first) + encode_utf8(second));
    }
}

/// The clause separator takes two bytes.
proof fn lemma_separator_bytes()
    ensures
        encode_utf8(clause_separator()).len() == 2,
{
    let separator = clause_separator();
    let rest = separator.drop_first();
    assert(rest =~= seq![' ']);
    assert(rest.drop_first() =~= Seq::<char>::empty());
    assert((';' as u32) == 59);
    assert((' ' as u32) == 32);
    assert(vstd::utf8::encode_scalar(32).len() == 1);
    assert(vstd::utf8::encode_scalar(59).len() == 1);
    assert(encode_utf8(rest.drop_first()).len() == 0);
    assert(encode_utf8(rest).len() == 1);
    assert(separator[0] == ';');
}

/// Every wrapped line fits within the limit, unless it is a single clause
/// that is too long on its own: clauses are never joined past the limit.
/// (Each clause's length must fit in a `usize`, as a string's does.)
pub proof fn lemma_wrapped_lines_fit(clauses: Seq<Seq<char>>)
    requires
        forall|clause: int| 0 <= clause < clauses.len() ==> encode_utf8(#[trigger] clauses[clause]).len() <= usize::MAX,
    ensures
        forall|line: int|
            0 <= line < wrapped_lines(clauses).len() ==> byte_length(#[trigger] wrapped_lines(clauses)[line])
                <= HEADLINE_MAX_BYTES || exists|clause: int|
                0 <= clause < clauses.len() && clauses[clause] == wrapped_lines(clauses)[line],
        forall|line: int|
            0 <= line < wrapped_lines(clauses).len() ==> encode_utf8(#[trigger] wrapped_lines(clauses)[line]).len()
                <= usize::MAX,
    decreases clauses.len(),
{
    if clauses.len() > 0 {
        let earlier = clauses.drop_last();
        assert forall|clause: int| 0 <= clause < earlier.len() implies encode_utf8(#[trigger] earlier[clause]).len()
            <= usize::MAX by {
            assert(earlier[clause] == clauses[clause]);
        }
        lemma_wrapped_lines_fit(earlier);
        let lines = wrapped_lines(earlier);
        let clause = clauses.last();
        assert(encode_utf8(clauses[clauses.len() - 1]).len() <= usize::MAX);
        let joins = lines.len() > 0 && byte_length(lines.last()) + 2 + byte_length(clause) <= HEADLINE_MAX_BYTES;
        if joins {
            let joined_line = lines.last() + clause_separator() + clause;
            lemma_encode_concat(lines.last() + clause_separator(), clause);
            lemma_encode_concat(lines.last(), clause_separator());
            lemma_separator_bytes();
            assert(encode_utf8(lines[lines.len() - 1]).len() <= usize::MAX);
            assert(encode_utf8(joined_line).len() <= HEADLINE_MAX_BYTES);
        }
        assert forall|line: int| 0 <= line < wrapped_lines(clauses).len() implies (byte_length(
            #[trigger] wrapped_lines(clauses)[line],
        ) <= HEADLINE_MAX_BYTES || exists|k: int| 0 <= k < clauses.len() && clauses[k] == wrapped_lines(clauses)[line])
            && encode_utf8(wrapped_lines(clauses)[line]).len() <= usize::MAX by {
            if line < lines.len() && !(joins && line == lines.len() - 1) {
                assert(wrapped_lines(clauses)[line] == lines[line]);
                if byte_length(lines[line]) > HEADLINE_MAX_BYTES {
                    let k = choose|k: int| 0 <= k < earlier.len() && earlier[k] == lines[line];
                    assert(clauses[k] == earlier[k]);
                }
            } else if line < lines.len() {
                assert(wrapped_lines(clauses)[line] == lines.last() + clause_separator() + clause);
            } else {
                assert(wrapped_lines(clauses)[line] == clause);
            }
        }
    }
}

/// Where the line that starts at clause `starts[line]` ends: where the next
/// line starts, or after the last clause.
pub open spec fn line_end(starts: Seq<int>, line: int, clause_count: int) -> int {
    if line + 1 < starts.len() {
        starts[line + 1]
    } else {
        clause_count
    }
}

/// `lines` are `clauses` wrapped greedily, the runs beginning at `starts`:
/// each line joins with `"; "` a run of consecutive clauses, the runs in
/// order and covering every clause, and a line ends only where the clause
/// that begins the next line would not fit after it within the limit.
pub open spec fn is_greedy_wrapping(clauses: Seq<Seq<char>>, lines: Seq<Seq<char>>, starts: Seq<int>) -> bool {
    &&& starts.len() == lines.len()
    &&& (lines.len() == 0) == (clauses.len() == 0)
    &&& clauses.len() > 0 ==> starts[0] == 0
    &&& forall|line: int| 0 <= line < starts.len() ==> 0 <= #[trigger] starts[line] < clauses.len()
    &&& forall|line: int|
        #![trigger starts[line]]
        0 <= line < starts.len() - 1 ==> starts[line] < starts[line + 1]
    &&& forall|line: int|
        0 <= line < starts.len() ==> #[trigger] lines[line] == joined(
            clauses.subrange(starts[line], line_end(starts, line, clauses.len() as int)),
            clause_separator(),
        )
    &&& forall|line: int|
        0 <= line < starts.len() - 1 ==> byte_length(#[trigger] lines[line]) + 2 + byte_length(
            clauses[starts[line + 1]],
        ) > HEADLINE_MAX_BYTES
}

proof fn lemma_subranges_of_earlier(clauses: Seq<Seq<char>>)
    requires
        clauses.len() > 0,
    ensures
        forall|first: int, last: int|
            0 <= first <= last <= clauses.len() - 1 ==> #[trigger] clauses.subrange(first, last)
                == clauses.drop_last().subrange(first, last),
{
    assert forall|first: int, last: int| 0 <= first <= last <= clauses.len() - 1 implies #[trigger] clauses.subrange(
        first,
        last,
    ) == clauses.drop_last().subrange(first, last) by {
        assert(clauses.subrange(first, last) =~= clauses.drop_last().subrange(first, last));
    }
}

/// A clause that fits after the last line joins it.
proof fn lemma_greedy_join(clauses: Seq<Seq<char>>, lines: Seq<Seq<char>>, starts: Seq<int>)
    requires
        clauses.len() > 0,
        is_greedy_wrapping(clauses.drop_last(), lines, starts),
        lines.len() > 0,
    ensures
        is_greedy_wrapping(
            clauses,
            lines.update(lines.len() - 1, lines.last() + clause_separator() + clauses.last()),
            starts,
        ),
{
    let count = clauses.len() as int;
    let earlier = clauses.drop_last();
    let clause = clauses.last();
    let last = lines.len() - 1;
    let result = lines.update(last, lines.last() + clause_separator() + clause);
    lemma_subranges_of_earlier(clauses);
    assert forall|line: int| 0 <= line < starts.len() implies #[trigger] result[line] == joined(
        clauses.subrange(starts[line], line_end(starts, line, count)),
        clause_separator(),
    ) by {
        if line < last {
            assert(lines[line] == joined(
                earlier.subrange(starts[line], line_end(starts, line, count - 1)),
                clause_separator(),
            ));
        } else {
            let run = earlier.subrange(starts[line], count - 1);
            assert(lines[line] == joined(run, clause_separator()));
            assert(clauses.subrange(starts[line], count) =~= run.push(clause));
            lemma_joined_push(run, clause, clause_separator());
        }
    }
    assert forall|line: int| 0 <= line < starts.len() - 1 implies byte_length(#[trigger] result[line]) + 2
        + byte_length(clauses[starts[line + 1]]) > HEADLINE_MAX_BYTES by {
        assert(byte_length(lines[line]) + 2 + byte_length(earlier[starts[line + 1]]) > HEADLINE_MAX_BYTES);
    }
}

/// A clause that does not fit after the last line (or comes first) starts a line.
proof fn lemma_greedy_new_line(clauses: Seq<Seq<char>>, lines: Seq<Seq<char>>, starts: Seq<int>)
    requires
        clauses.len() > 0,
        is_greedy_wrapping(clauses.drop_last(), lines, starts),
        lines.len() > 0 ==> byte_length(lines.last()) + 2 + byte_length(clauses.last()) > HEADLINE_MAX_BYTES,
    ensures
        is_greedy_wrapping(clauses, lines.push(clauses.last()), starts.push(clauses.len() - 1)),
{
    let count = clauses.len() as int;
    let earlier = clauses.drop_last();
    let clause = clauses.last();
    let result = lines.push(clause);
    let extended = starts.push(count - 1);
    lemma_subranges_of_earlier(clauses);
    assert forall|line: int| 0 <= line < extended.len() implies #[trigger] result[line] == joined(
        clauses.subrange(extended[line], line_end(extended, line, count)),
        clause_separator(),
    ) by {
        if line < starts.len() {
            assert(extended[line] == starts[line]);
            assert(line_end(extended, line, count) == line_end(starts, line, count - 1));
            assert(lines[line] == joined(
                earlier.subrange(starts[line], line_end(starts, line, count - 1)),
                clause_separator(),
            ));
        } else {
            assert(clauses.subrange(count - 1, count) =~= seq![clause]);
        }
    }
    assert forall|line: int| 0 <= line < extended.len() - 1 implies byte_length(#[trigger] result[line]) + 2
        + byte_length(clauses[extended[line + 1]]) > HEADLINE_MAX_BYTES by {
        assert(result[line] == lines[line]);
        if line < starts.len() - 1 {
            assert(extended[line + 1] == starts[line + 1]);
            assert(byte_length(lines[line]) + 2 + byte_length(earlier[starts[line + 1]]) > HEADLINE_MAX_BYTES);
        } else {
            assert(extended[line + 1] == count - 1);
        }
    }
    assert forall|line: int| 0 <= line < extended.len() implies 0 <= #[trigger] extended[line] < count by {
        if line < starts.len() {
            assert(extended[line] == starts[line]);
        }
    }
    assert forall|line: int|
        #![trigger extended[line]]
        0 <= line < extended.len() - 1 implies extended[line] < extended[line + 1] by {
        assert(extended[line] == starts[line]);
        if line < starts.len() - 1 {
            assert(extended[line + 1] == starts[line + 1]);
        }
    }
}

/// Wrapping is greedy: the lines take the clauses in order, each line a run
/// of consecutive clauses joined with `"; "` (the returned `starts` says
/// where each run begins), and a line ends only where the clause that
/// begins the next line would not fit after it within the limit.
pub proof fn lemma_wrapped_lines_greedy(clauses: Seq<Seq<char>>) -> (starts: Seq<int>)
    ensures
        is_greedy_wrapping(clauses, wrapped_lines(clauses), starts),
    decreases clauses.len(),
{
    if clauses.len() == 0 {
        Seq::empty()
    } else {
        let earlier = clauses.drop_last();
        let prior = lemma_wrapped_lines_greedy(earlier);
        let lines = wrapped_lines(earlier);
        let clause = clauses.last();
        if lines.len() > 0 && byte_length(lines.last()) + 2 + byte_length(clause) <= HEADLINE_MAX_BYTES {
            lemma_greedy_join(clauses, lines, prior);
            prior
        } else {
            lemma_greedy_new_line(clauses, lines, prior);
            prior.push(clauses.len() - 1)
        }
    }
}

/// Splitting a headline into clauses, wrapping and joining the lines with
/// `"; "` gives back the headline.
pub proof fn lemma_wrap_takeaway_keeps_text(takeaway: Seq<char>)
    ensures
        joined(wrapped_lines(split_clauses(takeaway)), clause_separator()) == takeaway,
        wrapped_lines(split_clauses(takeaway)).len() >= 1,
{
    crate::text::lemma_split_clauses_join(takeaway);
    lemma_wrapped_lines_join(split_clauses(takeaway));
}

/// Splits the headline at its clause boundaries into lines that fit the
/// canvas width at the headline's font size.
pub fn wrap_takeaway(takeaway: &str) -> (lines: Vec<String>)
    ensures
        string_views(lines@) == wrapped_lines(split_clauses(takeaway@)),
        exists|starts: Seq<int>| is_greedy_wrapping(split_clauses(takeaway@), string_views(lines@), starts),
{
    let clauses = split_clauses_of(takeaway);
    let mut lines: Vec<String> = Vec::new();
    let mut index: usize = 0;
    while index < clauses.len()
        invariant
            index <= clauses.len(),
            views_of(clauses@) == split_clauses(takeaway@),
            string_views(lines@) == wrapped_lines(views_of(clauses@).take(index as int)),
        decreases clauses.len() - index,
    {
        let ghost done = views_of(clauses@).take(index as int);
        let ghost next = views_of(clauses@).take(index + 1);
        assert(next.drop_last() =~= done);
        assert(next.last() == clauses@[index as int]@);
        let clause = string_of_chars(&clauses[index]);
        let clause_length = clause.as_str().len();
        let fits = if lines.len() > 0 {
            let last_length = lines[lines.len() - 1].as_str().len();
            last_length <= HEADLINE_MAX_BYTES - 2 && clause_length <= HEADLINE_MAX_BYTES - 2 - last_length
        } else {
            false
        };
        let ghost before = string_views(lines@);
        if fits {
            let ghost old_lines = lines@;
            let mut last = lines.pop().unwrap();
            assert(last == old_lines.last());
            assert(string_views(lines@) =~= before.drop_last());
            let ghost last_before = last@;
            last.append("; ");
            last.append(clause.as_str());
            proof {
                reveal_strlit("; ");
                assert("; "@ =~= clause_separator());
            }
            assert(last@ =~= last_before + clause_separator() + clause@);
            lines.push(last);
            assert(string_views(lines@) =~= before.update(before.len() - 1, before.last() + clause_separator() + clause@));
        } else {
            lines.push(clause);
            assert(string_views(lines@) =~= before.push(clause@));
        }
        index += 1;
    }
    assert(views_of(clauses@).take(index as int) =~= views_of(clauses@));
    proof {
        let starts = lemma_wrapped_lines_greedy(split_clauses(takeaway@));
        assert(is_greedy_wrapping(split_clauses(takeaway@), string_views(lines@), starts));
    }
    lines
}

} // verus!
