//! Provenance lines: where the build came from, the machine it ran on, and
//! the crate behind each contender.
use vstd::prelude::*;
use vstd::utf8::decode_utf8;
use vstd::utf8::encode_utf8;
use vstd::utf8::is_char_boundary;

use crate::algorithm::mode_text;
use crate::algorithm::name_text;
use crate::algorithm::Algorithm;
use crate::algorithm::Provenance;
use crate::backend::Blake3Implementation;
use crate::machine::MachineMetadata;
use crate::text::decimal;
use crate::text::decimal_chars;
use crate::text::string_views;
use crate::text::clause_separator;
use crate::text::joined;
use crate::text::push_chars;
use crate::text::split_clauses;
use crate::text::split_clauses_of;
use crate::text::text_before;
use crate::text::before_first;
use crate::text::views_of;

verus! {

/// The length of `text` in UTF-8 bytes, as `str::len` reports it.
pub open spec fn str_length(text: Seq<char>) -> int {
    (encode_utf8(text).len() as usize) as int
}

/// The package name and version at the head of a `Cargo.lock` description
/// (`name version; source; checksum`): everything before the first `;`.
pub fn package_name_and_version<'a>(source_info: &'a str) -> (head: &'a str)
    ensures
        head@ == before_first(source_info@, ';'),
{
    text_before(source_info, ';')
}

/// `"commit "`.
pub open spec fn commit_prefix() -> Seq<char> {
    seq!['c', 'o', 'm', 'm', 'i', 't', ' ']
}

/// `" · "`, the separator of provenance items.
pub open spec fn item_separator() -> Seq<char> {
    seq![' ', '\u{b7}', ' ']
}

/// A field of a git-source description, shortened: a `commit <hash>` field
/// keeps the first 12 bytes of the hash (all of it if shorter). `None` when
/// those bytes end inside a character (where slicing the text fails).
pub open spec fn shortened_field(field: Seq<char>) -> Option<Seq<char>> {
    if field.len() >= 7 && field.take(7) == commit_prefix() {
        let hash = field.skip(7);
        let cut = if str_length(hash) < 12 {
            str_length(hash)
        } else {
            12
        };
        if is_char_boundary(encode_utf8(hash), cut) {
            Some(commit_prefix() + decode_utf8(encode_utf8(hash).take(cut)))
        } else {
            None
        }
    } else {
        Some(field)
    }
}

/// Every field shortened, or `None` if some field cannot be.
pub open spec fn shortened_fields(fields: Seq<Seq<char>>) -> Option<Seq<Seq<char>>>
    decreases fields.len(),
{
    if fields.len() == 0 {
        Some(Seq::empty())
    } else {
        match (shortened_fields(fields.drop_last()), shortened_field(fields.last())) {
            (Some(earlier), Some(last)) => Some(earlier.push(last)),
            _ => None,
        }
    }
}

/// `"source URL · branch B · commit C"` from a git-dependency description
/// `"name; source URL; branch B; commit HASH"`: the fields after the first,
/// the commit hash cut to 12 bytes, joined with `" · "`.
pub open spec fn short_git_source_text(description: Seq<char>) -> Option<Seq<char>> {
    match shortened_fields(split_clauses(description).drop_first()) {
        Some(fields) => Some(joined(fields, item_separator())),
        None => None,
    }
}

/// Shortens one field; `None` when the commit hash's first 12 bytes end
/// inside a character.
fn shorten_field(field: &Vec<char>) -> (short: Option<String>)
    ensures
        match shortened_field(field@) {
            Some(text) => short matches Some(s) && s@ == text,
            None => short is None,
        },
{
    let mut is_commit = field.len() >= 7;
    if is_commit {
        is_commit = field[0] == 'c' && field[1] == 'o' && field[2] == 'm' && field[3] == 'm'
            && field[4] == 'i' && field[5] == 't' && field[6] == ' ';
    }
    assert(is_commit == (field@.len() >= 7 && field@.take(7) =~= commit_prefix()));
    if !is_commit {
        let mut whole = String::new();
        push_chars(&mut whole, field);
        assert(whole@ =~= field@);
        return Some(whole);
    }
    let mut hash = String::new();
    let mut index: usize = 7;
    while index < field.len()
        invariant
            7 <= index <= field.len(),
            hash@ == field@.subrange(7, index as int),
        decreases field.len() - index,
    {
        crate::text::push_char(&mut hash, field[index]);
        index += 1;
        assert(hash@ =~= field@.subrange(7, index as int));
    }
    assert(hash@ =~= field@.skip(7));
    let hash_text = hash.as_str();
    let length = hash_text.len();
    let cut = if length < 12 { length } else { 12 };
    if !hash_text.is_char_boundary(cut) {
        return None;
    }
    let (head, _) = hash_text.split_at(cut);
    proof {
        vstd::utf8::encode_utf8_decode_utf8(head@);
        assert(encode_utf8(hash@).take(cut as int) =~= encode_utf8(hash@).subrange(0, cut as int));
    }
    let mut short = String::new();
    short.append("commit ");
    short.append(head);
    proof {
        reveal_strlit("commit ");
        assert("commit "@ =~= commit_prefix());
    }
    Some(short)
}

/// `"source URL · branch B · commit C"` for a git-dependency provenance
/// line, from a description `"name; source URL; branch B; commit HASH"`:
/// the name dropped and the commit hash cut to 12 bytes. `None` when the
/// cut would fall inside a character.
pub fn short_git_source(description: &str) -> (short: Option<String>)
    ensures
        match short_git_source_text(description@) {
            Some(text) => short matches Some(s) && s@ == text,
            None => short is None,
        },
{
    let fields = split_clauses_of(description);
    proof {
        crate::text::lemma_split_clauses_join(description@);
    }
    let ghost rest = views_of(fields@).drop_first();
    let mut short = String::new();
    let ghost mut done: Seq<Seq<char>> = Seq::empty();
    let mut index: usize = 1;
    while index < fields.len()
        invariant
            1 <= index <= fields.len(),
            views_of(fields@) == split_clauses(description@),
            rest == views_of(fields@).drop_first(),
            shortened_fields(rest.take(index - 1)) == Some(done),
            short@ == joined(done, item_separator()),
            done.len() == index - 1,
        decreases fields.len() - index,
    {
        let ghost taken = rest.take(index as int);
        assert(taken.drop_last() =~= rest.take(index - 1));
        assert(taken.last() == fields@[index as int]@);
        match shorten_field(&fields[index]) {
            Some(field) => {
                if index > 1 {
                    short.append(" \u{b7} ");
                    proof {
                        reveal_strlit(" \u{b7} ");
                        assert(" \u{b7} "@ =~= item_separator());
                    }
                }
                short.append(field.as_str());
                proof {
                    let extended = done.push(field@);
                    assert(extended.drop_last() =~= done);
                    if index == 1 {
                        assert(done =~= Seq::<Seq<char>>::empty());
                    }
                    done = extended;
                }
                assert(short@ =~= joined(done, item_separator()));
            },
            None => {
                assert(shortened_fields(taken) is None);
                proof {
                    lemma_shortened_fields_none_extends(rest, index as int);
                }
                return None;
            },
        }
        index += 1;
    }
    assert(rest.take(index - 1) =~= rest);
    Some(short)
}

/// Once a prefix of the fields cannot be shortened, neither can the whole.
proof fn lemma_shortened_fields_none_extends(fields: Seq<Seq<char>>, count: int)
    requires
        0 <= count <= fields.len(),
        shortened_fields(fields.take(count)) is None,
    ensures
        shortened_fields(fields) is None,
    decreases fields.len() - count,
{
    if count < fields.len() {
        assert(fields.take(count + 1).drop_last() =~= fields.take(count));
        lemma_shortened_fields_none_extends(fields, count + 1);
    } else {
        assert(fields.take(count) =~= fields);
    }
}

/// The provenance lines that describe the run as a whole.
pub open spec fn shared_provenance_text(machine: &MachineMetadata, provenance: &Provenance) -> Seq<Seq<char>> {
    seq![
        "Run: "@ + machine.timestamp@ + " \u{b7} bench-hashes "@ + provenance.bench_version@,
        "Machine: "@ + machine.cpu_type@ + " \u{b7} "@ + decimal(machine.cpu_count as nat) + " logical CPUs \u{b7} "@
            + machine.os_type@,
        "Toolchain: "@ + provenance.rustc_version@ + " \u{b7} "@ + provenance.build_target@,
        "Source: "@ + provenance.git_source@ + " @ "@ + provenance.git_commit@,
        "Tag: "@ + provenance.git_tag@ + " \u{b7} Working tree: "@ + provenance.git_clean_status@,
        "Full crate checksums are in this file's metadata element"@,
    ]
}

/// Provenance that describes the run as a whole: when and on what it ran,
/// the toolchain, and the source it was built from.
pub fn shared_provenance_lines(machine: &MachineMetadata, provenance: &Provenance) -> (lines: Vec<String>)
    ensures
        string_views(lines@) == shared_provenance_text(machine, provenance),
{
    let mut run = String::from_str("Run: ");
    run.append(machine.timestamp.as_str());
    run.append(" \u{b7} bench-hashes ");
    run.append(provenance.bench_version);

    let mut hardware = String::from_str("Machine: ");
    hardware.append(machine.cpu_type.as_str());
    hardware.append(" \u{b7} ");
    let digits = decimal_chars(machine.cpu_count as u64);
    push_chars(&mut hardware, &digits);
    hardware.append(" logical CPUs \u{b7} ");
    hardware.append(machine.os_type.as_str());

    let mut toolchain = String::from_str("Toolchain: ");
    toolchain.append(provenance.rustc_version);
    toolchain.append(" \u{b7} ");
    toolchain.append(provenance.build_target);

    let mut source = String::from_str("Source: ");
    source.append(provenance.git_source);
    source.append(" @ ");
    source.append(provenance.git_commit);

    let mut tag = String::from_str("Tag: ");
    tag.append(provenance.git_tag);
    tag.append(" \u{b7} Working tree: ");
    tag.append(provenance.git_clean_status);

    let checksums = String::from_str("Full crate checksums are in this file's metadata element");

    let mut lines: Vec<String> = Vec::new();
    lines.push(run);
    lines.push(hardware);
    lines.push(toolchain);
    lines.push(source);
    lines.push(tag);
    lines.push(checksums);
    assert(string_views(lines@) =~= shared_provenance_text(machine, provenance));
    lines
}

/// The provenance lines of one contender: its crate and how it runs (for
/// BLAKE3 also the platform its selection reports; for the SME2 fork the
/// shortened git source on a line of its own). `None` when the fork's
/// commit cannot be shortened.
pub open spec fn contender_provenance_text(
    algorithm: Algorithm,
    implementation: Blake3Implementation,
    provenance: &Provenance,
) -> Option<Seq<Seq<char>>> {
    let name = name_text(algorithm);
    match algorithm {
        Algorithm::Blake3 => Some(
            seq![
                name + ": "@ + before_first(provenance.blake3_source@, ';') + " \u{b7} "@ + mode_text(algorithm)
                    + " \u{b7} platform "@ + implementation.platform@,
            ],
        ),
        Algorithm::Sha256 => Some(
            seq![
                name + ": "@ + before_first(provenance.sha2_source@, ';') + " (+"@ + before_first(
                    provenance.sha2_asm_source@,
                    ';',
                ) + ") \u{b7} "@ + mode_text(algorithm),
            ],
        ),
        Algorithm::Sha1Dc => Some(
            seq![
                name + ": "@ + before_first(provenance.sha1_checked_source@, ';') + " \u{b7} "@ + mode_text(
                    algorithm,
                ),
            ],
        ),
        Algorithm::Blake3Sme2 => match short_git_source_text(provenance.blake3_sme2_source@) {
            Some(source) => Some(seq![name + ": "@ + source, name + ": "@ + mode_text(algorithm)]),
            None => None,
        },
    }
}

/// Provenance that belongs to one contender and hides with it in the graph.
pub fn contender_provenance_lines(
    algorithm: Algorithm,
    implementation: Blake3Implementation,
    provenance: &Provenance,
) -> (lines: Option<Vec<String>>)
    ensures
        match contender_provenance_text(algorithm, implementation, provenance) {
            Some(text) => lines matches Some(l) && string_views(l@) == text,
            None => lines is None,
        },
{
    let name = algorithm.name();
    let mut lines: Vec<String> = Vec::new();
    match algorithm {
        Algorithm::Blake3 => {
            let mut line = String::from_str(name);
            line.append(": ");
            line.append(package_name_and_version(provenance.blake3_source));
            line.append(" \u{b7} ");
            line.append(algorithm.mode());
            line.append(" \u{b7} platform ");
            line.append(implementation.platform);
            lines.push(line);
        },
        Algorithm::Sha256 => {
            let mut line = String::from_str(name);
            line.append(": ");
            line.append(package_name_and_version(provenance.sha2_source));
            line.append(" (+");
            line.append(package_name_and_version(provenance.sha2_asm_source));
            line.append(") \u{b7} ");
            line.append(algorithm.mode());
            lines.push(line);
        },
        Algorithm::Sha1Dc => {
            let mut line = String::from_str(name);
            line.append(": ");
            line.append(package_name_and_version(provenance.sha1_checked_source));
            line.append(" \u{b7} ");
            line.append(algorithm.mode());
            lines.push(line);
        },
        Algorithm::Blake3Sme2 => {
            let source = match short_git_source(provenance.blake3_sme2_source) {
                Some(source) => source,
                None => return None,
            };
            let mut first = String::from_str(name);
            first.append(": ");
            first.append(source.as_str());
            let mut second = String::from_str(name);
            second.append(": ");
            second.append(algorithm.mode());
            lines.push(first);
            lines.push(second);
        },
    }
    assert(Some(string_views(lines@)) =~= contender_provenance_text(algorithm, implementation, provenance));
    Some(lines)
}

} // verus!
