use bench_hashes::backend::input_size_at;
use bench_hashes::orders::INPUT_COUNT;
use bench_hashes::takeaway::generate_takeaway;
use bench_hashes::takeaway::takeaway_clause_text;
use bench_hashes::takeaway::takeaway_shape;
use bench_hashes::takeaway::Band;
use bench_hashes::takeaway::ClauseError;
use bench_hashes::takeaway::ClauseShape;
use bench_hashes::takeaway::RatioFigures;

const TIE: f64 = 0.05;

fn band(ratio: f64) -> Band {
    if ratio < 1.0 - TIE {
        Band::Below
    } else if ratio == 1.0 - TIE {
        Band::LowerEdge
    } else if ratio < 1.0 + TIE {
        Band::Within
    } else if ratio == 1.0 + TIE {
        Band::UpperEdge
    } else {
        Band::Above
    }
}

/// The headline clause computed directly from the ratios, as the report
/// phrases it; the library's shape and text must agree with it.
fn expected_clause(column: &[f64; INPUT_COUNT], name: &str, baseline: &str) -> String {
    let label = |index: usize| input_size_at(index).label;
    let lowest = column.iter().copied().fold(f64::INFINITY, f64::min);
    let highest = column.iter().copied().fold(0.0_f64, f64::max);
    let tied_low = lowest > 1.0 - TIE;
    let tied_high = highest < 1.0 + TIE;
    if tied_low && tied_high {
        format!("{name} matches {baseline} at every size")
    } else if lowest > 1.0 + TIE {
        format!("{name} is {lowest:.2}× to {highest:.2}× faster than {baseline}")
    } else if highest < 1.0 - TIE {
        format!("{baseline} is {:.2}× to {:.2}× faster than {name}", 1.0 / highest, 1.0 / lowest)
    } else if tied_low {
        let first = column.iter().position(|r| *r > 1.0 + TIE).unwrap();
        format!("{name} matches {baseline} below {} and is up to {highest:.2}× faster from there", label(first))
    } else if tied_high {
        let last = column.iter().rposition(|r| *r < 1.0 - TIE).unwrap();
        format!("{baseline} is up to {:.2}× faster than {name} through {}, then they match", 1.0 / lowest, label(last))
    } else {
        let first = if column[0] > 1.0 { name } else { baseline };
        let last = if column[INPUT_COUNT - 1] > 1.0 { name } else { baseline };
        format!("{first} is faster at {}, {last} at {}", label(0), label(INPUT_COUNT - 1))
    }
}

fn clause_from_library(column: &[f64; INPUT_COUNT], name: &str, baseline: &str) -> String {
    let bands: [Band; INPUT_COUNT] = std::array::from_fn(|index| band(column[index]));
    let shape = takeaway_shape(&bands, column[0] > 1.0, column[INPUT_COUNT - 1] > 1.0).unwrap();
    let lowest = column.iter().copied().fold(f64::INFINITY, f64::min);
    let highest = column.iter().copied().fold(0.0_f64, f64::max);
    let figures = RatioFigures {
        lowest: format!("{lowest:.2}"),
        highest: format!("{highest:.2}"),
        inverse_lowest: format!("{:.2}", 1.0 / lowest),
        inverse_highest: format!("{:.2}", 1.0 / highest),
    };
    takeaway_clause_text(shape, name, baseline, &figures)
}

fn column(values: impl FnMut(usize) -> f64) -> [f64; INPUT_COUNT] {
    std::array::from_fn(values)
}

#[test]
fn tied_everywhere_matches() {
    let ratios = column(|index| 1.0 + (index as f64 - 8.0) / 200.0);
    let bands: [Band; INPUT_COUNT] = std::array::from_fn(|index| band(ratios[index]));
    assert_eq!(takeaway_shape(&bands, true, false), Ok(ClauseShape::Matches));
    assert_eq!(clause_from_library(&ratios, "SHA-256", "BLAKE3"), "SHA-256 matches BLAKE3 at every size");
}

#[test]
fn faster_everywhere() {
    let ratios = column(|index| 1.2 + index as f64 * 0.1);
    assert_eq!(
        clause_from_library(&ratios, "SHA-256", "BLAKE3"),
        "SHA-256 is 1.20× to 2.70× faster than BLAKE3"
    );
}

#[test]
fn slower_everywhere() {
    let ratios = column(|index| 0.5 - index as f64 * 0.01);
    assert_eq!(
        clause_from_library(&ratios, "SHA-1DC", "BLAKE3"),
        "BLAKE3 is 2.00× to 2.86× faster than SHA-1DC"
    );
}

#[test]
fn faster_from_a_size_on() {
    let ratios = column(|index| if index < 9 { 1.0 } else { 1.1 + index as f64 * 0.05 });
    let bands: [Band; INPUT_COUNT] = std::array::from_fn(|index| band(ratios[index]));
    assert_eq!(takeaway_shape(&bands, false, true), Ok(ClauseShape::FasterFrom(9)));
    assert_eq!(
        clause_from_library(&ratios, "BLAKE3 SME2", "BLAKE3"),
        "BLAKE3 SME2 matches BLAKE3 below 16 KiB and is up to 1.85× faster from there"
    );
}

#[test]
fn slower_through_a_size() {
    let ratios = column(|index| if index <= 3 { 0.5 } else { 1.01 });
    let bands: [Band; INPUT_COUNT] = std::array::from_fn(|index| band(ratios[index]));
    assert_eq!(takeaway_shape(&bands, false, true), Ok(ClauseShape::SlowerThrough(3)));
    assert_eq!(
        clause_from_library(&ratios, "SHA-256", "BLAKE3"),
        "BLAKE3 is up to 2.00× faster than SHA-256 through 512 B, then they match"
    );
}

#[test]
fn crossover() {
    let ratios = column(|index| if index < 8 { 1.5 } else { 0.5 });
    let bands: [Band; INPUT_COUNT] = std::array::from_fn(|index| band(ratios[index]));
    assert_eq!(
        takeaway_shape(&bands, true, false),
        Ok(ClauseShape::Crossover { contender_first: true, contender_last: false })
    );
    assert_eq!(
        clause_from_library(&ratios, "SHA-256", "BLAKE3"),
        "SHA-256 is faster at 64 B, BLAKE3 at 1 MiB"
    );
}

#[test]
fn upper_edge_without_a_faster_size_has_no_shape() {
    let mut bands = [Band::Within; INPUT_COUNT];
    bands[4] = Band::UpperEdge;
    assert_eq!(takeaway_shape(&bands, false, false), Err(ClauseError::NoRatioAboveBand));
}

#[test]
fn lower_edge_without_a_slower_size_has_no_shape() {
    let mut bands = [Band::Within; INPUT_COUNT];
    bands[7] = Band::LowerEdge;
    assert_eq!(takeaway_shape(&bands, false, false), Err(ClauseError::NoRatioBelowBand));
}

#[test]
fn edges_count_as_neither_side() {
    let mut bands = [Band::Within; INPUT_COUNT];
    bands[2] = Band::LowerEdge;
    bands[5] = Band::Below;
    assert_eq!(takeaway_shape(&bands, true, true), Ok(ClauseShape::SlowerThrough(5)));
    let mut above = [Band::Above; INPUT_COUNT];
    above[0] = Band::UpperEdge;
    assert_eq!(takeaway_shape(&above, true, true), Ok(ClauseShape::FasterFrom(1)));
}

#[test]
fn library_clause_agrees_with_the_ratios() {
    let mut seed: u64 = 0x9e37_79b9_7f4a_7c15;
    for _ in 0..2000 {
        let ratios = column(|_| {
            seed ^= seed << 13;
            seed ^= seed >> 7;
            seed ^= seed << 17;
            0.8 + (seed % 4000) as f64 / 10_000.0
        });
        let bands: [Band; INPUT_COUNT] = std::array::from_fn(|index| band(ratios[index]));
        if takeaway_shape(&bands, ratios[0] > 1.0, ratios[INPUT_COUNT - 1] > 1.0).is_err() {
            continue;
        }
        assert_eq!(clause_from_library(&ratios, "SHA-256", "BLAKE3"), expected_clause(&ratios, "SHA-256", "BLAKE3"));
    }
}

#[test]
fn headline_joins_the_clauses() {
    let clauses = vec!["SHA-256 matches BLAKE3 at every size".to_string(), "SHA-1DC is 1.10× to 1.30× faster than BLAKE3".to_string()];
    assert_eq!(
        generate_takeaway(&clauses),
        "On this machine: SHA-256 matches BLAKE3 at every size; SHA-1DC is 1.10× to 1.30× faster than BLAKE3"
    );
    assert_eq!(generate_takeaway(&vec!["one".to_string()]), "On this machine: one");
    assert_eq!(generate_takeaway(&Vec::new()), "On this machine: ");
}
