//! The text report: the run's provenance, how each contender runs, the
//! BLAKE3 code paths, and the summary table with the headline beneath it.
use vstd::prelude::*;

use crate::algorithm::mode_text;
use crate::algorithm::name_text;
use crate::algorithm::source_of;
use crate::algorithm::Provenance;
use crate::algorithm::ALGORITHMS;
use crate::backend::append_blake3_backend_report;
use crate::backend::append_blake3_sme2_backend_report;
use crate::backend::blake3_backend_report;
use crate::backend::blake3_implementation_for;
use crate::backend::blake3_sme2_backend_report;
use crate::backend::input_size_at;
use crate::backend::Architecture;
use crate::machine::MachineMetadata;
use crate::orders::ALGORITHM_COUNT;
use crate::orders::INPUT_COUNT;
use crate::takeaway::size_label;
use crate::text::decimal;
use crate::text::decimal_chars;
use crate::text::left_aligned;
use crate::text::push_char;
use crate::text::push_chars;
use crate::text::push_left_aligned;
use crate::text::push_right_aligned;
use crate::text::right_aligned;

verus! {

/// The width of a contender's column in the summary table.
pub const COLUMN_WIDTH: usize = 13;

/// The width of the size column in the summary table.
pub const SIZE_COLUMN_WIDTH: usize = 8;

/// One cell of the summary table: the median, minimum and maximum time per
/// byte, in whole picoseconds. The median is printed in the cell, the
/// `minimum–maximum` range beneath it.
#[derive(Clone, Copy, Debug)]
pub struct SummaryCell {
    pub median_ps: u64,
    pub minimum_ps: u64,
    pub maximum_ps: u64,
}

/// The printed median of a cell: its picoseconds in decimal.
pub open spec fn median_text(cell: SummaryCell) -> Seq<char> {
    decimal(cell.median_ps as nat)
}

/// The printed range of a cell: its minimum and maximum picoseconds in
/// decimal, joined by an en dash.
pub open spec fn range_text(cell: SummaryCell) -> Seq<char> {
    decimal(cell.minimum_ps as nat) + seq!['\u{2013}'] + decimal(cell.maximum_ps as nat)
}

/// One `"{name} source: {description}"` line for each of the first `count` contenders.
pub open spec fn source_lines(provenance: &Provenance, count: int) -> Seq<char>
    decreases count,
{
    if count <= 0 {
        Seq::empty()
    } else {
        source_lines(provenance, count - 1) + name_text(ALGORITHMS[count - 1]) + " source: "@ + source_of(
            ALGORITHMS[count - 1],
            provenance,
        )@ + "\n"@
    }
}

/// One `"{name} mode: {mode}"` line for each of the first `count` contenders.
pub open spec fn mode_lines(count: int) -> Seq<char>
    decreases count,
{
    if count <= 0 {
        Seq::empty()
    } else {
        mode_lines(count - 1) + name_text(ALGORITHMS[count - 1]) + " mode: "@ + mode_text(ALGORITHMS[count - 1])
            + "\n"@
    }
}

/// Where the build came from.
pub open spec fn git_lines(provenance: &Provenance) -> Seq<char> {
    "git source: "@ + provenance.git_source@ + "\n"@ + "git commit: "@ + provenance.git_commit@ + "\n"@
        + "git tag: "@ + provenance.git_tag@ + "\n"@ + "git clean status: "@ + provenance.git_clean_status@
        + "\n"@ + "bench-hashes version: "@ + provenance.bench_version@ + "\n"@
}

/// The machine the run measured.
pub open spec fn machine_lines(machine: &MachineMetadata) -> Seq<char> {
    "CPU type: "@ + machine.cpu_type@ + "\n"@ + "CPU count: "@ + decimal(machine.cpu_count as nat) + "\n"@
        + "OS type: "@ + machine.os_type@ + "\n"@
}

/// The toolchain the build used.
pub open spec fn toolchain_lines(provenance: &Provenance) -> Seq<char> {
    "Rust compiler: "@ + provenance.rustc_version@ + "\n"@ + "Build target: "@ + provenance.build_target@ + "\n"@
        + "Target features: "@ + provenance.target_features@ + "\n"@
}

/// The lines that describe the run, the build and the machine.
pub open spec fn run_lines(machine: &MachineMetadata, provenance: &Provenance) -> Seq<char> {
    "TIMESTAMP: "@ + machine.timestamp@ + "\n"@ + git_lines(provenance) + machine_lines(machine) + toolchain_lines(
        provenance,
    )
}

/// The report's head: the run, the crate behind each contender, how each runs,
/// then a blank line.
pub open spec fn header_text(machine: &MachineMetadata, provenance: &Provenance) -> Seq<char> {
    run_lines(machine, provenance) + source_lines(provenance, ALGORITHM_COUNT as int) + "SHA-256 assembly source: "@
        + provenance.sha2_asm_source@ + "\n"@ + mode_lines(ALGORITHM_COUNT as int) + "\n"@
}

/// The banner and legend above the summary table.
pub open spec fn summary_heading() -> Seq<char> {
    "============================================================\n"@ + "BENCHMARK SUMMARY\n"@
        + "============================================================\n"@ + "\n"@
        + "Time per byte in ps/B: median, with minimum\u{2013}maximum beneath; lower is better.\n"@ + "\n"@
}

/// Each of `cells` right-aligned in a contender's column, after two spaces.
pub open spec fn padded_cells(cells: Seq<Seq<char>>) -> Seq<char>
    decreases cells.len(),
{
    if cells.len() == 0 {
        Seq::empty()
    } else {
        padded_cells(cells.drop_last()) + "  "@ + right_aligned(cells.last(), COLUMN_WIDTH as nat)
    }
}

/// The contenders' names, in report order.
pub open spec fn contender_names() -> Seq<Seq<char>> {
    Seq::new(ALGORITHM_COUNT as nat, |index: int| name_text(ALGORITHMS[index]))
}

/// The table's heading row.
pub open spec fn column_heading() -> Seq<char> {
    "  "@ + left_aligned("size"@, SIZE_COLUMN_WIDTH as nat) + padded_cells(contender_names()) + "\n"@
}

/// The medians of one row of the table.
pub open spec fn median_cells(row: [SummaryCell; ALGORITHM_COUNT]) -> Seq<Seq<char>> {
    row@.map_values(|cell: SummaryCell| median_text(cell))
}

/// The ranges of one row of the table.
pub open spec fn range_cells(row: [SummaryCell; ALGORITHM_COUNT]) -> Seq<Seq<char>> {
    row@.map_values(|cell: SummaryCell| range_text(cell))
}

/// The first `count` sizes' rows: the size and the medians, then the ranges
/// on a line beneath.
pub open spec fn result_rows(cells: Seq<[SummaryCell; ALGORITHM_COUNT]>, count: int) -> Seq<char>
    decreases count,
{
    if count <= 0 {
        Seq::empty()
    } else {
        result_rows(cells, count - 1) + "  "@ + left_aligned(size_label(count - 1), SIZE_COLUMN_WIDTH as nat)
            + padded_cells(median_cells(cells[count - 1])) + "\n"@ + "  "@ + left_aligned(
            Seq::empty(),
            SIZE_COLUMN_WIDTH as nat,
        ) + padded_cells(range_cells(cells[count - 1])) + "\n"@
    }
}

/// The whole text report.
pub open spec fn report_text(
    machine: &MachineMetadata,
    provenance: &Provenance,
    architecture: Architecture,
    sme2_platform: Seq<char>,
    sme2_simd_degree: nat,
    cells: Seq<[SummaryCell; ALGORITHM_COUNT]>,
    takeaway: Seq<char>,
) -> Seq<char> {
    header_text(machine, provenance) + blake3_backend_report(blake3_implementation_for(architecture))
        + blake3_sme2_backend_report(sme2_platform, sme2_simd_degree) + summary_heading() + column_heading()
        + result_rows(cells, INPUT_COUNT as int) + "\n"@ + takeaway + "\n"@ + "\n"@
}

/// Appends `label`, `value` and a line break.
fn append_field_line(output: &mut String, label: &str, value: &str)
    ensures
        final(output)@ == old(output)@ + label@ + value@ + "\n"@,
{
    output.append(label);
    output.append(value);
    output.append("\n");
}

/// Appends the lines that describe the run, the build and the machine.
fn append_run_lines(output: &mut String, machine: &MachineMetadata, provenance: &Provenance)
    ensures
        final(output)@ == old(output)@ + run_lines(machine, provenance),
{
    append_field_line(output, "TIMESTAMP: ", machine.timestamp.as_str());
    let ghost after_timestamp = output@;
    append_field_line(output, "git source: ", provenance.git_source);
    append_field_line(output, "git commit: ", provenance.git_commit);
    append_field_line(output, "git tag: ", provenance.git_tag);
    append_field_line(output, "git clean status: ", provenance.git_clean_status);
    append_field_line(output, "bench-hashes version: ", provenance.bench_version);
    assert(output@ =~= after_timestamp + git_lines(provenance));
    let ghost after_git = output@;
    append_field_line(output, "CPU type: ", machine.cpu_type.as_str());
    output.append("CPU count: ");
    let digits = decimal_chars(machine.cpu_count as u64);
    push_chars(output, &digits);
    output.append("\n");
    append_field_line(output, "OS type: ", machine.os_type.as_str());
    assert(output@ =~= after_git + machine_lines(machine));
    let ghost after_machine = output@;
    append_field_line(output, "Rust compiler: ", provenance.rustc_version);
    append_field_line(output, "Build target: ", provenance.build_target);
    append_field_line(output, "Target features: ", provenance.target_features);
    assert(output@ =~= after_machine + toolchain_lines(provenance));
    assert(output@ =~= old(output)@ + run_lines(machine, provenance));
}

/// Appends the report's head.
pub fn append_header(output: &mut String, machine: &MachineMetadata, provenance: &Provenance)
    ensures
        final(output)@ == old(output)@ + header_text(machine, provenance),
{
    append_run_lines(output, machine, provenance);
    let ghost after_run = output@;
    let mut index: usize = 0;
    while index < ALGORITHM_COUNT
        invariant
            index <= ALGORITHM_COUNT,
            output@ == after_run + source_lines(provenance, index as int),
        decreases ALGORITHM_COUNT - index,
    {
        let algorithm = ALGORITHMS[index];
        output.append(algorithm.name());
        output.append(" source: ");
        output.append(algorithm.source(provenance));
        output.append("\n");
        index += 1;
        assert(output@ =~= after_run + source_lines(provenance, index as int));
    }
    append_field_line(output, "SHA-256 assembly source: ", provenance.sha2_asm_source);
    let ghost after_sources = output@;
    index = 0;
    while index < ALGORITHM_COUNT
        invariant
            index <= ALGORITHM_COUNT,
            output@ == after_sources + mode_lines(index as int),
        decreases ALGORITHM_COUNT - index,
    {
        let algorithm = ALGORITHMS[index];
        output.append(algorithm.name());
        output.append(" mode: ");
        output.append(algorithm.mode());
        output.append("\n");
        index += 1;
        assert(output@ =~= after_sources + mode_lines(index as int));
    }
    output.append("\n");
    assert(output@ =~= old(output)@ + header_text(machine, provenance));
}

/// Appends two spaces and `cell` right-aligned in a contender's column.
fn append_cell(output: &mut String, cell: &str)
    ensures
        final(output)@ == old(output)@ + "  "@ + right_aligned(cell@, COLUMN_WIDTH as nat),
{
    output.append("  ");
    push_right_aligned(output, cell, COLUMN_WIDTH);
}

/// Appends the table's heading row.
fn append_column_heading(output: &mut String)
    ensures
        final(output)@ == old(output)@ + column_heading(),
{
    output.append("  ");
    push_left_aligned(output, "size", SIZE_COLUMN_WIDTH);
    let ghost before_names = output@;
    let mut index: usize = 0;
    while index < ALGORITHM_COUNT
        invariant
            index <= ALGORITHM_COUNT,
            output@ == before_names + padded_cells(contender_names().take(index as int)),
        decreases ALGORITHM_COUNT - index,
    {
        assert(contender_names().take(index + 1).drop_last() =~= contender_names().take(index as int));
        append_cell(output, ALGORITHMS[index].name());
        index += 1;
        assert(output@ =~= before_names + padded_cells(contender_names().take(index as int)));
    }
    assert(contender_names().take(index as int) =~= contender_names());
    output.append("\n");
    assert(output@ =~= old(output)@ + column_heading());
}

/// Appends the cells of one row, the medians or the ranges.
fn append_row_cells(output: &mut String, row: &[SummaryCell; ALGORITHM_COUNT], ranges: bool)
    ensures
        final(output)@ == old(output)@ + padded_cells(
            if ranges {
                range_cells(*row)
            } else {
                median_cells(*row)
            },
        ),
{
    let ghost cells = if ranges {
        range_cells(*row)
    } else {
        median_cells(*row)
    };
    let mut index: usize = 0;
    while index < ALGORITHM_COUNT
        invariant
            index <= ALGORITHM_COUNT,
            cells == (if ranges {
                range_cells(*row)
            } else {
                median_cells(*row)
            }),
            cells.len() == ALGORITHM_COUNT,
            output@ == old(output)@ + padded_cells(cells.take(index as int)),
        decreases ALGORITHM_COUNT - index,
    {
        assert(cells.take(index + 1).drop_last() =~= cells.take(index as int));
        let cell = row[index];
        let mut text = String::new();
        if ranges {
            let minimum = decimal_chars(cell.minimum_ps);
            push_chars(&mut text, &minimum);
            push_char(&mut text, '\u{2013}');
            let maximum = decimal_chars(cell.maximum_ps);
            push_chars(&mut text, &maximum);
            assert(text@ =~= range_text(cell));
        } else {
            let median = decimal_chars(cell.median_ps);
            push_chars(&mut text, &median);
            assert(text@ =~= median_text(cell));
        }
        assert(cells[index as int] == text@);
        append_cell(output, text.as_str());
        index += 1;
        assert(output@ =~= old(output)@ + padded_cells(cells.take(index as int)));
    }
    assert(cells.take(index as int) =~= cells);
}

/// Appends the rows of the summary table, one pair of lines per input size.
fn append_result_rows(output: &mut String, cells: &[[SummaryCell; ALGORITHM_COUNT]; INPUT_COUNT])
    ensures
        final(output)@ == old(output)@ + result_rows(cells@, INPUT_COUNT as int),
{
    let mut index: usize = 0;
    while index < INPUT_COUNT
        invariant
            index <= INPUT_COUNT,
            output@ == old(output)@ + result_rows(cells@, index as int),
        decreases INPUT_COUNT - index,
    {
        let ghost before = output@;
        let row = &cells[index];
        output.append("  ");
        push_left_aligned(output, input_size_at(index).label, SIZE_COLUMN_WIDTH);
        append_row_cells(output, row, false);
        output.append("\n");
        output.append("  ");
        push_left_aligned(output, "", SIZE_COLUMN_WIDTH);
        append_row_cells(output, row, true);
        output.append("\n");
        proof {
            reveal_strlit("");
        }
        index += 1;
        assert(output@ =~= old(output)@ + result_rows(cells@, index as int));
    }
}

/// The text report. The BLAKE3 section is for the selection on
/// `architecture`; the SME2 section names the platform the fork detected and
/// its `hash_many` degree; `cells` holds every size's median, minimum and
/// maximum time per byte for every contender, in whole picoseconds, and
/// `takeaway` the headline printed beneath the table.
pub fn generate_text(
    machine: &MachineMetadata,
    provenance: &Provenance,
    architecture: Architecture,
    sme2_platform: &str,
    sme2_simd_degree: usize,
    cells: &[[SummaryCell; ALGORITHM_COUNT]; INPUT_COUNT],
    takeaway: &str,
) -> (text: String)
    ensures
        text@ == report_text(
            machine,
            provenance,
            architecture,
            sme2_platform@,
            sme2_simd_degree as nat,
            cells@,
            takeaway@,
        ),
{
    let mut output = String::new();
    append_header(&mut output, machine, provenance);
    append_blake3_backend_report(&mut output, architecture);
    append_blake3_sme2_backend_report(&mut output, sme2_platform, sme2_simd_degree);
    let ghost before_summary = output@;
    output.append("============================================================\n");
    output.append("BENCHMARK SUMMARY\n");
    output.append("============================================================\n");
    output.append("\n");
    output.append("Time per byte in ps/B: median, with minimum\u{2013}maximum beneath; lower is better.\n");
    output.append("\n");
    assert(output@ =~= before_summary + summary_heading());
    append_column_heading(&mut output);
    append_result_rows(&mut output, cells);
    output.append("\n");
    output.append(takeaway);
    output.append("\n");
    output.append("\n");
    assert(output@ =~= report_text(
        machine,
        provenance,
        architecture,
        sme2_platform@,
        sme2_simd_degree as nat,
        cells@,
        takeaway@,
    ));
    output
}

} // verus!
