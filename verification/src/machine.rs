//! What the report says about the machine, and the results directory named
//! after it.
use vstd::prelude::*;

use crate::text::ascii_alphanumerics;
use crate::text::before_first;
use crate::text::chars_of;
use crate::text::has_ascii_alphanumeric;
use crate::text::sanitize_alphanumeric;
use crate::text::text_before;

verus! {

/// The machine a run measured, as the report describes it.
#[derive(Debug)]
pub struct MachineMetadata {
    pub timestamp: String,
    pub cpu_type: String,
    pub cpu_count: usize,
    pub os_type: String,
}

/// A Unicode `White_Space` character (what `char::is_whitespace` accepts).
pub open spec fn is_whitespace(character: char) -> bool {
    ('\u{9}' <= character && character <= '\u{d}') || character == ' ' || character == '\u{85}'
        || character == '\u{a0}' || character == '\u{1680}' || ('\u{2000}' <= character && character
        <= '\u{200a}') || character == '\u{2028}' || character == '\u{2029}' || character == '\u{202f}'
        || character == '\u{205f}' || character == '\u{3000}'
}

/// How many characters at the start of `text` are whitespace.
pub open spec fn leading_whitespace(text: Seq<char>) -> nat
    decreases text.len(),
{
    if text.len() > 0 && is_whitespace(text[0]) {
        1 + leading_whitespace(text.drop_first())
    } else {
        0
    }
}

/// How many characters at the end of `text` are whitespace.
pub open spec fn trailing_whitespace(text: Seq<char>) -> nat
    decreases text.len(),
{
    if text.len() > 0 && is_whitespace(text.last()) {
        1 + trailing_whitespace(text.drop_last())
    } else {
        0
    }
}

/// `text` without its leading and trailing whitespace (what `str::trim` returns).
pub open spec fn trimmed(text: Seq<char>) -> Seq<char> {
    let rest = text.skip(leading_whitespace(text) as int);
    rest.take(rest.len() - trailing_whitespace(rest))
}

/// Whether `character` is whitespace.
pub fn is_whitespace_char(character: char) -> (result: bool)
    ensures
        result == is_whitespace(character),
{
    ('\u{9}' <= character && character <= '\u{d}') || character == ' ' || character == '\u{85}'
        || character == '\u{a0}' || character == '\u{1680}' || ('\u{2000}' <= character && character
        <= '\u{200a}') || character == '\u{2028}' || character == '\u{2029}' || character == '\u{202f}'
        || character == '\u{205f}' || character == '\u{3000}'
}

proof fn lemma_leading_whitespace(text: Seq<char>, count: int)
    requires
        0 <= count <= text.len(),
        forall|index: int| 0 <= index < count ==> is_whitespace(#[trigger] text[index]),
        count == text.len() || !is_whitespace(text[count]),
    ensures
        leading_whitespace(text) == count,
    decreases count,
{
    if count > 0 {
        lemma_leading_whitespace(text.drop_first(), count - 1);
    }
}

proof fn lemma_trailing_whitespace(text: Seq<char>, count: int)
    requires
        0 <= count <= text.len(),
        forall|index: int| text.len() - count <= index < text.len() ==> is_whitespace(#[trigger] text[index]),
        count == text.len() || !is_whitespace(text[text.len() - count - 1]),
    ensures
        trailing_whitespace(text) == count,
    decreases count,
{
    if count > 0 {
        lemma_trailing_whitespace(text.drop_last(), count - 1);
    }
}

/// `text` without leading and trailing whitespace.
pub fn trim_whitespace<'a>(text: &'a str) -> (inner: &'a str)
    ensures
        inner@ == trimmed(text@),
{
    let characters = chars_of(text);
    let mut start: usize = 0;
    while start < characters.len() && is_whitespace_char(characters[start])
        invariant
            start <= characters.len(),
            characters@ == text@,
            forall|index: int| 0 <= index < start ==> is_whitespace(#[trigger] characters@[index]),
        decreases characters.len() - start,
    {
        start += 1;
    }
    proof {
        lemma_leading_whitespace(text@, start as int);
    }
    let mut end: usize = characters.len();
    while end > start && is_whitespace_char(characters[end - 1])
        invariant
            start <= end <= characters.len(),
            characters@ == text@,
            forall|index: int| end <= index < characters.len() ==> is_whitespace(#[trigger] characters@[index]),
        decreases end,
    {
        end -= 1;
    }
    proof {
        let rest = text@.skip(start as int);
        let count = characters.len() - end;
        assert forall|index: int| rest.len() - count <= index < rest.len() implies is_whitespace(#[trigger] rest[index]) by {
            assert(rest[index] == characters@[start + index]);
        }
        if count < rest.len() {
            assert(rest[rest.len() - count - 1] == characters@[end - 1]);
        }
        lemma_trailing_whitespace(rest, count);
        assert(rest.take(rest.len() - count) =~= text@.subrange(start as int, end as int));
    }
    text.substring_char(start, end)
}

/// Whether two texts hold the same characters.
pub fn same_text(first: &str, second: &str) -> (same: bool)
    ensures
        same == (first@ == second@),
{
    let left = chars_of(first);
    let right = chars_of(second);
    if left.len() != right.len() {
        return false;
    }
    let mut index: usize = 0;
    while index < left.len()
        invariant
            index <= left.len(),
            left@.len() == right@.len(),
            left@ == first@,
            right@ == second@,
            forall|earlier: int| 0 <= earlier < index ==> left@[earlier] == right@[earlier],
        decreases left.len() - index,
    {
        if left[index] != right[index] {
            return false;
        }
        index += 1;
    }
    assert(left@ =~= right@);
    true
}

/// The first CPU brand that is not blank once trimmed, trimmed; `fallback`
/// when every brand is blank.
pub open spec fn cpu_type_of(brands: Seq<Seq<char>>, fallback: Seq<char>) -> Seq<char>
    decreases brands.len(),
{
    if brands.len() == 0 {
        fallback
    } else if trimmed(brands[0]).len() > 0 {
        trimmed(brands[0])
    } else {
        cpu_type_of(brands.drop_first(), fallback)
    }
}

/// The operating-system description: `darwin` and the kernel's major version
/// on macOS, else the OS name followed by the kernel version.
pub open spec fn os_type_of(os: Seq<char>, kernel: Seq<char>) -> Seq<char> {
    if os == "macos"@ {
        "darwin"@ + before_first(kernel, '.')
    } else {
        os + kernel
    }
}

/// The machine description from what the operating system reports: the
/// logical CPUs' brand strings, the kernel version (if reported), the OS
/// name and architecture the program was built for, and the run's timestamp.
pub fn machine_metadata_from(
    timestamp: String,
    cpu_brands: &Vec<String>,
    kernel_version: Option<String>,
    os: &str,
    arch: &str,
) -> (machine: MachineMetadata)
    requires
        cpu_brands.len() > 0,
    ensures
        machine.timestamp == timestamp,
        machine.cpu_count == cpu_brands.len(),
        machine.cpu_type@ == cpu_type_of(cpu_brands@.map_values(|brand: String| brand@), arch@),
        machine.os_type@ == os_type_of(
            os@,
            match kernel_version {
                Some(kernel) => kernel@,
                None => "unreported"@,
            },
        ),
{
    let ghost brands = cpu_brands@.map_values(|brand: String| brand@);
    let mut index: usize = 0;
    let mut cpu_type = String::new();
    let mut found = false;
    assert(brands.skip(0) =~= brands);
    while index < cpu_brands.len() && !found
        invariant
            index <= cpu_brands.len(),
            brands == cpu_brands@.map_values(|brand: String| brand@),
            !found ==> cpu_type_of(brands.skip(index as int), arch@) == cpu_type_of(brands, arch@),
            found ==> cpu_type@ == cpu_type_of(brands, arch@),
        decreases cpu_brands.len() - index, if found { 0int } else { 1int },
    {
        let brand = trim_whitespace(cpu_brands[index].as_str());
        assert(brands.skip(index as int)[0] == cpu_brands@[index as int]@);
        assert(brands.skip(index as int).drop_first() =~= brands.skip(index + 1));
        if brand.unicode_len() > 0 {
            cpu_type = String::from_str(brand);
            found = true;
        } else {
            index += 1;
        }
    }
    if !found {
        assert(brands.skip(index as int).len() == 0);
        cpu_type = String::from_str(arch);
    }

    let kernel = match kernel_version {
        Some(kernel) => kernel,
        None => String::from_str("unreported"),
    };

    let os_type = if same_text(os, "macos") {
        let mut darwin = String::from_str("darwin");
        darwin.append(text_before(kernel.as_str(), '.'));
        darwin
    } else {
        let mut description = String::from_str(os);
        description.append(kernel.as_str());
        description
    };

    MachineMetadata { timestamp, cpu_type, cpu_count: cpu_brands.len(), os_type }
}

/// The results directory for `machine`, relative to the working directory:
/// `benchmark-results/{CPU}.{OS}`, the CPU and OS descriptions reduced to
/// their ASCII letters and digits. Each description must hold at least one.
pub fn output_directory(machine: &MachineMetadata) -> (directory: String)
    requires
        has_ascii_alphanumeric(machine.cpu_type@),
        has_ascii_alphanumeric(machine.os_type@),
    ensures
        directory@ == "benchmark-results/"@ + ascii_alphanumerics(machine.cpu_type@) + "."@
            + ascii_alphanumerics(machine.os_type@),
{
    let cpu = sanitize_alphanumeric(machine.cpu_type.as_str());
    let os = sanitize_alphanumeric(machine.os_type.as_str());

    let mut directory = String::from_str("benchmark-results/");
    directory.append(cpu.as_str());
    directory.append(".");
    directory.append(os.as_str());
    directory
}

} // verus!
