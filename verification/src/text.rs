//! Verified text building blocks: characters of a string, decimal numbers,
//! padding, and the small string rules the reports use.
use vstd::prelude::*;

verus! {

/// Appends one character to a `String` (std's `String::push`).
#[verifier::external_body]
pub(crate) fn push_char(text: &mut String, character: char)
    ensures
        final(text)@ == old(text)@.push(character),
{
    text.push(character);
}

/// The characters of `text`, in order.
pub fn chars_of(text: &str) -> (characters: Vec<char>)
    ensures
        characters@ == text@,
{
    let mut characters: Vec<char> = Vec::new();
    for character in it: text.chars()
        invariant
            characters@ == it.seq().take(it.index() as int),
            it.seq() == text@,
    {
        characters.push(character);
    }
    characters
}

/// A `String` holding exactly `characters`.
pub fn string_of_chars(characters: &Vec<char>) -> (text: String)
    ensures
        text@ == characters@,
{
    let mut text = String::new();
    let mut index: usize = 0;
    while index < characters.len()
        invariant
            index <= characters.len(),
            text@ == characters@.take(index as int),
        decreases characters.len() - index,
    {
        push_char(&mut text, characters[index]);
        index += 1;
        assert(text@ =~= characters@.take(index as int));
    }
    assert(characters@.take(index as int) =~= characters@);
    text
}

/// The ASCII character of a decimal digit.
pub open spec fn digit_char(digit: int) -> char {
    (digit + 48) as char
}

/// The decimal numeral of `value`, without sign or leading zeros.
pub open spec fn decimal(value: nat) -> Seq<char>
    decreases value,
{
    if value < 10 {
        seq![digit_char(value as int)]
    } else {
        decimal(value / 10).push(digit_char((value % 10) as int))
    }
}

/// `count` copies of `character`.
pub open spec fn repeated(character: char, count: int) -> Seq<char> {
    Seq::new(if count > 0 { count as nat } else { 0 }, |index: int| character)
}

/// The decimal numeral of `value` with zeros in front up to `width` characters.
pub open spec fn zero_padded(value: nat, width: nat) -> Seq<char> {
    repeated('0', width - decimal(value).len()) + decimal(value)
}

/// `text` with spaces in front up to `width` characters (a right-aligned field).
pub open spec fn right_aligned(text: Seq<char>, width: nat) -> Seq<char> {
    repeated(' ', width - text.len()) + text
}

/// `text` with spaces after it up to `width` characters (a left-aligned field).
pub open spec fn left_aligned(text: Seq<char>, width: nat) -> Seq<char> {
    text + repeated(' ', width - text.len())
}

/// The decimal digits of `value`, most significant first.
pub fn decimal_chars(value: u64) -> (digits: Vec<char>)
    ensures
        digits@ == decimal(value as nat),
{
    let mut rest = value;
    let mut suffix: Vec<char> = Vec::new();
    while rest >= 10
        invariant
            decimal(value as nat) == decimal(rest as nat) + suffix@,
        decreases rest,
    {
        let ghost before = suffix@;
        let digit = ((rest % 10) as u8 + 48u8) as char;
        assert(decimal(rest as nat) == decimal((rest / 10) as nat).push(digit));
        suffix.insert(0, digit);
        assert(decimal((rest / 10) as nat).push(digit) + before =~= decimal((rest / 10) as nat) + suffix@);
        rest = rest / 10;
    }
    let mut digits: Vec<char> = Vec::new();
    digits.push(((rest as u8) + 48u8) as char);
    digits.append(&mut suffix);
    assert(digits@ =~= decimal(value as nat));
    digits
}

/// Appends `count` copies of `character`.
pub fn push_repeated(text: &mut String, character: char, count: usize)
    ensures
        final(text)@ == old(text)@ + repeated(character, count as int),
{
    let mut pushed: usize = 0;
    while pushed < count
        invariant
            pushed <= count,
            text@ == old(text)@ + repeated(character, pushed as int),
        decreases count - pushed,
    {
        push_char(text, character);
        pushed += 1;
        assert(text@ =~= old(text)@ + repeated(character, pushed as int));
    }
}

/// Appends every character of `characters`.
pub fn push_chars(text: &mut String, characters: &Vec<char>)
    ensures
        final(text)@ == old(text)@ + characters@,
{
    let mut index: usize = 0;
    while index < characters.len()
        invariant
            index <= characters.len(),
            text@ == old(text)@ + characters@.take(index as int),
        decreases characters.len() - index,
    {
        push_char(text, characters[index]);
        index += 1;
        assert(text@ =~= old(text)@ + characters@.take(index as int));
    }
    assert(characters@.take(index as int) =~= characters@);
}

/// Appends the decimal numeral of `value`, zero-padded to `width` characters
/// (as `{value:0width$}` formats an unsigned integer).
pub fn push_zero_padded(text: &mut String, value: u64, width: usize)
    ensures
        final(text)@ == old(text)@ + zero_padded(value as nat, width as nat),
{
    let digits = decimal_chars(value);
    let padding = if digits.len() < width { width - digits.len() } else { 0 };
    push_repeated(text, '0', padding);
    push_chars(text, &digits);
    assert(repeated('0', padding as int) =~= repeated('0', width - decimal(value as nat).len()));
}

/// Appends `field` right-aligned in `width` characters (as `{field:>width$}`
/// formats it).
pub fn push_right_aligned(text: &mut String, field: &str, width: usize)
    ensures
        final(text)@ == old(text)@ + right_aligned(field@, width as nat),
{
    let length = field.unicode_len();
    let padding = if length < width { width - length } else { 0 };
    push_repeated(text, ' ', padding);
    text.append(field);
    assert(repeated(' ', padding as int) =~= repeated(' ', width - field@.len()));
    assert(text@ =~= old(text)@ + right_aligned(field@, width as nat));
}

/// Appends `field` left-aligned in `width` characters (as `{field:<width$}`
/// formats it).
pub fn push_left_aligned(text: &mut String, field: &str, width: usize)
    ensures
        final(text)@ == old(text)@ + left_aligned(field@, width as nat),
{
    let length = field.unicode_len();
    let padding = if length < width { width - length } else { 0 };
    text.append(field);
    push_repeated(text, ' ', padding);
    assert(repeated(' ', padding as int) =~= repeated(' ', width - field@.len()));
    assert(text@ =~= old(text)@ + left_aligned(field@, width as nat));
}

/// An ASCII letter or digit (what `char::is_ascii_alphanumeric` accepts).
pub open spec fn is_ascii_alphanumeric(character: char) -> bool {
    ('0' <= character && character <= '9') || ('A' <= character && character <= 'Z') || ('a'
        <= character && character <= 'z')
}

/// The ASCII letters and digits of `text`, in order.
pub open spec fn ascii_alphanumerics(text: Seq<char>) -> Seq<char>
    decreases text.len(),
{
    if text.len() == 0 {
        Seq::empty()
    } else {
        ascii_alphanumerics(text.drop_last()) + if is_ascii_alphanumeric(text.last()) {
            seq![text.last()]
        } else {
            Seq::empty()
        }
    }
}

/// Some character of `text` is an ASCII letter or digit.
pub open spec fn has_ascii_alphanumeric(text: Seq<char>) -> bool {
    exists|index: int| 0 <= index < text.len() && is_ascii_alphanumeric(#[trigger] text[index])
}

proof fn lemma_alphanumerics_nonempty(text: Seq<char>, index: int)
    requires
        0 <= index < text.len(),
        is_ascii_alphanumeric(text[index]),
    ensures
        ascii_alphanumerics(text).len() > 0,
    decreases text.len(),
{
    if index < text.len() - 1 {
        lemma_alphanumerics_nonempty(text.drop_last(), index);
    }
}

/// Whether `character` is an ASCII letter or digit.
pub fn is_ascii_alphanumeric_char(character: char) -> (result: bool)
    ensures
        result == is_ascii_alphanumeric(character),
{
    ('0' <= character && character <= '9') || ('A' <= character && character <= 'Z') || ('a'
        <= character && character <= 'z')
}

/// The ASCII letters and digits of `input`, for use in a directory name.
/// The input must hold at least one.
pub fn sanitize_alphanumeric(input: &str) -> (sanitized: String)
    requires
        has_ascii_alphanumeric(input@),
    ensures
        sanitized@ == ascii_alphanumerics(input@),
        sanitized@.len() > 0,
{
    let characters = chars_of(input);
    let mut sanitized = String::new();
    let mut index: usize = 0;
    while index < characters.len()
        invariant
            index <= characters.len(),
            characters@ == input@,
            sanitized@ == ascii_alphanumerics(characters@.take(index as int)),
        decreases characters.len() - index,
    {
        let character = characters[index];
        assert(characters@.take(index + 1).drop_last() =~= characters@.take(index as int));
        if is_ascii_alphanumeric_char(character) {
            push_char(&mut sanitized, character);
        }
        index += 1;
        assert(sanitized@ =~= ascii_alphanumerics(characters@.take(index as int)));
    }
    assert(characters@.take(index as int) =~= input@);
    proof {
        let witness = choose|position: int| 0 <= position < input@.len() && is_ascii_alphanumeric(#[trigger] input@[position]);
        lemma_alphanumerics_nonempty(input@, witness);
    }
    sanitized
}

/// The XML escape of one character: the five markup characters become
/// entities, every other character stands for itself.
pub open spec fn xml_escaped_char(character: char) -> Seq<char> {
    if character == '&' {
        seq!['&', 'a', 'm', 'p', ';']
    } else if character == '<' {
        seq!['&', 'l', 't', ';']
    } else if character == '>' {
        seq!['&', 'g', 't', ';']
    } else if character == '"' {
        seq!['&', 'q', 'u', 'o', 't', ';']
    } else if character == '\'' {
        seq!['&', 'a', 'p', 'o', 's', ';']
    } else {
        seq![character]
    }
}

/// `text` with every character escaped for XML text and attribute values.
pub open spec fn xml_escaped(text: Seq<char>) -> Seq<char>
    decreases text.len(),
{
    if text.len() == 0 {
        Seq::empty()
    } else {
        xml_escaped(text.drop_last()) + xml_escaped_char(text.last())
    }
}

/// `input` escaped for XML: `&`, `<`, `>`, `"` and `'` become entities.
pub fn xml_escape(input: &str) -> (escaped: String)
    ensures
        escaped@ == xml_escaped(input@),
{
    let characters = chars_of(input);
    let mut escaped = String::new();
    let mut index: usize = 0;
    while index < characters.len()
        invariant
            index <= characters.len(),
            characters@ == input@,
            escaped@ == xml_escaped(characters@.take(index as int)),
        decreases characters.len() - index,
    {
        let character = characters[index];
        assert(characters@.take(index + 1).drop_last() =~= characters@.take(index as int));
        if character == '&' {
            escaped.append("&amp;");
        } else if character == '<' {
            escaped.append("&lt;");
        } else if character == '>' {
            escaped.append("&gt;");
        } else if character == '"' {
            escaped.append("&quot;");
        } else if character == '\'' {
            escaped.append("&apos;");
        } else {
            push_char(&mut escaped, character);
        }
        proof {
            reveal_strlit("&amp;");
            reveal_strlit("&lt;");
            reveal_strlit("&gt;");
            reveal_strlit("&quot;");
            reveal_strlit("&apos;");
        }
        index += 1;
        assert(escaped@ =~= xml_escaped(characters@.take(index as int)));
    }
    assert(characters@.take(index as int) =~= input@);
    escaped
}

/// Escaped text holds no `<`, `>`, `"` or `'`: nothing in it can end a text
/// node or an attribute value.
pub proof fn lemma_xml_escaped_has_no_markup(text: Seq<char>)
    ensures
        forall|index: int|
            0 <= index < xml_escaped(text).len() ==> {
                let character = #[trigger] xml_escaped(text)[index];
                character != '<' && character != '>' && character != '"' && character != '\''
            },
    decreases text.len(),
{
    if text.len() > 0 {
        lemma_xml_escaped_has_no_markup(text.drop_last());
        let prefix = xml_escaped(text.drop_last());
        let tail = xml_escaped_char(text.last());
        assert forall|index: int| 0 <= index < xml_escaped(text).len() implies {
            let character = #[trigger] xml_escaped(text)[index];
            character != '<' && character != '>' && character != '"' && character != '\''
        } by {
            if index < prefix.len() {
                assert(xml_escaped(text)[index] == prefix[index]);
            } else {
                assert(xml_escaped(text)[index] == tail[index - prefix.len()]);
            }
        }
    }
}

/// The characters of `text` before the first `separator` (all of it when
/// there is none): the first item that splitting at `separator` yields.
pub open spec fn before_first(text: Seq<char>, separator: char) -> Seq<char>
    decreases text.len(),
{
    if text.len() == 0 {
        Seq::empty()
    } else if text[0] == separator {
        Seq::empty()
    } else {
        seq![text[0]] + before_first(text.drop_first(), separator)
    }
}

proof fn lemma_before_first_at(text: Seq<char>, separator: char, index: int)
    requires
        0 <= index <= text.len(),
        forall|earlier: int| 0 <= earlier < index ==> text[earlier] != separator,
        index == text.len() || text[index] == separator,
    ensures
        before_first(text, separator) == text.take(index),
    decreases index,
{
    if index > 0 {
        lemma_before_first_at(text.drop_first(), separator, index - 1);
        assert(text.take(index) =~= seq![text[0]] + text.drop_first().take(index - 1));
    } else {
        assert(text.take(0) =~= Seq::<char>::empty());
    }
}

/// The part of `text` before the first `separator` (as
/// `text.split(separator).next()` gives it).
pub fn text_before<'a>(text: &'a str, separator: char) -> (head: &'a str)
    ensures
        head@ == before_first(text@, separator),
{
    let characters = chars_of(text);
    let mut index: usize = 0;
    while index < characters.len() && characters[index] != separator
        invariant
            index <= characters.len(),
            characters@ == text@,
            forall|earlier: int| 0 <= earlier < index ==> characters@[earlier] != separator,
        decreases characters.len() - index,
    {
        index += 1;
    }
    proof {
        lemma_before_first_at(text@, separator, index as int);
    }
    text.substring_char(0, index)
}

/// A `" ("` starts at `index` of `text`.
pub open spec fn parenthetical_at(text: Seq<char>, index: int) -> bool {
    0 <= index && index + 1 < text.len() && text[index] == ' ' && text[index + 1] == '('
}

/// The characters of `text` before its first `" ("` (all of it when there
/// is none): what remains of a description without its parenthetical.
pub open spec fn before_parenthetical(text: Seq<char>) -> Seq<char>
    decreases text.len(),
{
    if text.len() == 0 {
        Seq::empty()
    } else if parenthetical_at(text, 0) {
        Seq::empty()
    } else {
        seq![text[0]] + before_parenthetical(text.drop_first())
    }
}

proof fn lemma_before_parenthetical_at(text: Seq<char>, index: int)
    requires
        0 <= index <= text.len(),
        forall|earlier: int| 0 <= earlier < index ==> !parenthetical_at(text, earlier),
        index == text.len() || parenthetical_at(text, index),
    ensures
        before_parenthetical(text) == text.take(index),
    decreases index,
{
    if index > 0 {
        assert(!parenthetical_at(text, 0));
        assert forall|earlier: int| 0 <= earlier < index - 1 implies !parenthetical_at(text.drop_first(), earlier) by {
            assert(!parenthetical_at(text, earlier + 1));
        }
        if index < text.len() {
            assert(parenthetical_at(text.drop_first(), index - 1));
        }
        lemma_before_parenthetical_at(text.drop_first(), index - 1);
        assert(text.take(index) =~= seq![text[0]] + text.drop_first().take(index - 1));
    } else {
        assert(text.take(0) =~= Seq::<char>::empty());
    }
}

/// The part of `text` before its first `" ("` (as
/// `text.split(" (").next()` gives it).
pub fn text_before_parenthetical(text: &str) -> (head: &str)
    ensures
        head@ == before_parenthetical(text@),
{
    let characters = chars_of(text);
    let mut index: usize = 0;
    while index < characters.len() && !(index + 1 < characters.len() && characters[index] == ' '
        && characters[index + 1] == '(')
        invariant
            index <= characters.len(),
            characters@ == text@,
            forall|earlier: int| 0 <= earlier < index ==> !parenthetical_at(text@, earlier),
        decreases characters.len() - index,
    {
        index += 1;
    }
    proof {
        lemma_before_parenthetical_at(text@, index as int);
    }
    text.substring_char(0, index)
}

/// The items of `text` split at every `"; "`, left to right, the first item
/// starting with `current` (as `str::split("; ")` yields them).
pub open spec fn split_from(text: Seq<char>, current: Seq<char>) -> Seq<Seq<char>>
    decreases text.len(),
{
    if text.len() == 0 {
        seq![current]
    } else if text.len() >= 2 && text[0] == ';' && text[1] == ' ' {
        seq![current] + split_from(text.skip(2), Seq::empty())
    } else {
        split_from(text.drop_first(), current.push(text[0]))
    }
}

/// The items of `text` separated by `"; "`.
pub open spec fn split_clauses(text: Seq<char>) -> Seq<Seq<char>> {
    split_from(text, Seq::empty())
}

/// The separator between clauses.
pub open spec fn clause_separator() -> Seq<char> {
    seq![';', ' ']
}

/// `parts` joined with `separator` between neighbours.
pub open spec fn joined(parts: Seq<Seq<char>>, separator: Seq<char>) -> Seq<char>
    decreases parts.len(),
{
    if parts.len() == 0 {
        Seq::empty()
    } else if parts.len() == 1 {
        parts[0]
    } else {
        joined(parts.drop_last(), separator) + separator + parts.last()
    }
}

/// The views of a list of character vectors.
pub open spec fn views_of(parts: Seq<Vec<char>>) -> Seq<Seq<char>> {
    parts.map_values(|part: Vec<char>| part@)
}

/// The views of a list of strings.
pub open spec fn string_views(parts: Seq<String>) -> Seq<Seq<char>> {
    parts.map_values(|part: String| part@)
}

proof fn lemma_split_from_nonempty(text: Seq<char>, current: Seq<char>)
    ensures
        split_from(text, current).len() >= 1,
    decreases text.len(),
{
    if text.len() == 0 {
    } else if text.len() >= 2 && text[0] == ';' && text[1] == ' ' {
        lemma_split_from_nonempty(text.skip(2), Seq::empty());
    } else {
        lemma_split_from_nonempty(text.drop_first(), current.push(text[0]));
    }
}

proof fn lemma_joined_prepend(first: Seq<char>, rest: Seq<Seq<char>>, separator: Seq<char>)
    requires
        rest.len() >= 1,
    ensures
        joined(seq![first] + rest, separator) == first + separator + joined(rest, separator),
    decreases rest.len(),
{
    let all = seq![first] + rest;
    if rest.len() == 1 {
        assert(all.drop_last() =~= seq![first]);
        assert(all.last() == rest[0]);
        assert(first + separator + rest[0] =~= joined(all.drop_last(), separator) + separator + all.last());
    } else {
        lemma_joined_prepend(first, rest.drop_last(), separator);
        assert(all.drop_last() =~= seq![first] + rest.drop_last());
        assert(first + separator + joined(rest, separator) =~= first + separator + joined(rest.drop_last(), separator)
            + separator + rest.last());
    }
}

/// Splitting at `"; "` and joining the items with `"; "` gives back the text.
proof fn lemma_split_from_joins(text: Seq<char>, current: Seq<char>)
    ensures
        joined(split_from(text, current), clause_separator()) == current + text,
    decreases text.len(),
{
    if text.len() == 0 {
        assert(current + text =~= current);
    } else if text.len() >= 2 && text[0] == ';' && text[1] == ' ' {
        let rest = split_from(text.skip(2), Seq::empty());
        lemma_split_from_nonempty(text.skip(2), Seq::empty());
        lemma_split_from_joins(text.skip(2), Seq::empty());
        lemma_joined_prepend(current, rest, clause_separator());
        assert(current + clause_separator() + (Seq::<char>::empty() + text.skip(2)) =~= current + text);
    } else {
        lemma_split_from_joins(text.drop_first(), current.push(text[0]));
        assert(current.push(text[0]) + text.drop_first() =~= current + text);
    }
}

/// Joining the clauses of a text with `"; "` gives back the text.
pub proof fn lemma_split_clauses_join(text: Seq<char>)
    ensures
        joined(split_clauses(text), clause_separator()) == text,
        split_clauses(text).len() >= 1,
{
    lemma_split_from_joins(text, Seq::empty());
    lemma_split_from_nonempty(text, Seq::empty());
    assert(Seq::<char>::empty() + text =~= text);
}

/// The items of `text` separated by `"; "`.
pub fn split_clauses_of(text: &str) -> (clauses: Vec<Vec<char>>)
    ensures
        views_of(clauses@) == split_clauses(text@),
{
    let characters = chars_of(text);
    let mut clauses: Vec<Vec<char>> = Vec::new();
    let mut current: Vec<char> = Vec::new();
    let mut index: usize = 0;
    assert(characters@.skip(0) =~= characters@);
    assert(views_of(clauses@) + split_clauses(text@) =~= split_clauses(text@));
    while index < characters.len()
        invariant
            index <= characters.len(),
            characters@ == text@,
            views_of(clauses@) + split_from(characters@.skip(index as int), current@) == split_clauses(text@),
        decreases characters.len() - index,
    {
        let ghost rest = characters@.skip(index as int);
        if index + 1 < characters.len() && characters[index] == ';' && characters[index + 1] == ' ' {
            assert(rest.skip(2) =~= characters@.skip(index + 2));
            let ghost finished = current@;
            let ghost earlier = views_of(clauses@);
            clauses.push(current);
            current = Vec::new();
            assert(views_of(clauses@) =~= earlier + seq![finished]);
            assert(earlier + split_from(rest, finished) =~= views_of(clauses@) + split_from(
                characters@.skip(index + 2),
                current@,
            ));
            index += 2;
        } else {
            assert(rest.drop_first() =~= characters@.skip(index + 1));
            current.push(characters[index]);
            index += 1;
        }
    }
    let ghost last = current@;
    let ghost earlier = views_of(clauses@);
    clauses.push(current);
    assert(characters@.skip(index as int) =~= Seq::<char>::empty());
    assert(views_of(clauses@) =~= earlier + seq![last]);
    clauses
}

} // verus!
