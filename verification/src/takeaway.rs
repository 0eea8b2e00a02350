//! The headline's verdict on each contender: where its speed ratios against
//! the baseline fall relative to the tie band, what that shape says, and the
//! sentence that says it.
use vstd::prelude::*;

use crate::backend::input_size;
use crate::backend::input_size_at;
use crate::headline::lemma_joined_push;
use crate::orders::INPUT_COUNT;
use crate::text::joined;
use crate::text::string_views;

verus! {

/// Where one speed ratio (baseline time divided by contender time) falls
/// against the tie band `[1 - 0.05, 1 + 0.05]`: below it, on its lower edge,
/// inside it, on its upper edge, or above it.
#[derive(Clone, Copy, Debug, PartialEq, Eq, Structural)]
pub enum Band {
    Below,
    LowerEdge,
    Within,
    UpperEdge,
    Above,
}

/// The ratio lies above the band's lower edge (the contender is not clearly slower).
pub open spec fn above_lower_edge(band: Band) -> bool {
    !(band is Below || band is LowerEdge)
}

/// The ratio lies below the band's upper edge (the contender is not clearly faster).
pub open spec fn below_upper_edge(band: Band) -> bool {
    !(band is UpperEdge || band is Above)
}

/// What a contender's ratios across the input sizes add up to.
#[derive(Clone, Copy, Debug, PartialEq, Eq, Structural)]
pub enum ClauseShape {
    /// Inside the band at every size.
    Matches,
    /// Faster than the baseline at every size.
    Faster,
    /// Slower than the baseline at every size.
    Slower,
    /// Never clearly slower, and clearly faster from the given size on.
    FasterFrom(usize),
    /// Never clearly faster, and clearly slower up to the given size.
    SlowerThrough(usize),
    /// Clearly faster at some sizes and clearly slower at others; which of the
    /// two is faster at the smallest and at the largest size.
    Crossover { contender_first: bool, contender_last: bool },
}

/// The ratios leave no shape to report.
#[derive(Clone, Copy, Debug, PartialEq, Eq, Structural)]
pub enum ClauseError {
    /// Never clearly slower and not always inside the band, yet no ratio is above it.
    NoRatioAboveBand,
    /// Never clearly faster and not always inside the band, yet no ratio is below it.
    NoRatioBelowBand,
}

/// The first index from `start` on whose ratio is above the band, or the
/// number of ratios if there is none.
pub open spec fn first_above_from(bands: Seq<Band>, start: int) -> int
    decreases bands.len() - start,
{
    if start < 0 || start >= bands.len() {
        bands.len() as int
    } else if bands[start] is Above {
        start
    } else {
        first_above_from(bands, start + 1)
    }
}

/// The last index before `end` whose ratio is below the band, or -1 if there is none.
pub open spec fn last_below_before(bands: Seq<Band>, end: int) -> int
    decreases end,
{
    if end <= 0 || end > bands.len() {
        -1
    } else if bands[end - 1] is Below {
        end - 1
    } else {
        last_below_before(bands, end - 1)
    }
}

/// The shape of a contender's ratios. `first_above_one` and `last_above_one`
/// say whether the contender is faster at all at the smallest and the
/// largest size.
pub open spec fn clause_shape(bands: Seq<Band>, first_above_one: bool, last_above_one: bool) -> Result<
    ClauseShape,
    ClauseError,
> {
    let tied_low = forall|index: int| 0 <= index < bands.len() ==> above_lower_edge(#[trigger] bands[index]);
    let tied_high = forall|index: int| 0 <= index < bands.len() ==> below_upper_edge(#[trigger] bands[index]);
    if tied_low && tied_high {
        Ok(ClauseShape::Matches)
    } else if forall|index: int| 0 <= index < bands.len() ==> #[trigger] bands[index] is Above {
        Ok(ClauseShape::Faster)
    } else if forall|index: int| 0 <= index < bands.len() ==> #[trigger] bands[index] is Below {
        Ok(ClauseShape::Slower)
    } else if tied_low {
        let first = first_above_from(bands, 0);
        if first < bands.len() {
            Ok(ClauseShape::FasterFrom(first as usize))
        } else {
            Err(ClauseError::NoRatioAboveBand)
        }
    } else if tied_high {
        let last = last_below_before(bands, bands.len() as int);
        if last >= 0 {
            Ok(ClauseShape::SlowerThrough(last as usize))
        } else {
            Err(ClauseError::NoRatioBelowBand)
        }
    } else {
        Ok(ClauseShape::Crossover { contender_first: first_above_one, contender_last: last_above_one })
    }
}

proof fn lemma_first_above_bounds(bands: Seq<Band>, start: int)
    requires
        0 <= start <= bands.len(),
    ensures
        start <= first_above_from(bands, start) <= bands.len(),
        first_above_from(bands, start) < bands.len() ==> bands[first_above_from(bands, start)] is Above,
        forall|index: int| start <= index < first_above_from(bands, start) ==> !(#[trigger] bands[index] is Above),
    decreases bands.len() - start,
{
    if start < bands.len() && !(bands[start] is Above) {
        lemma_first_above_bounds(bands, start + 1);
    }
}

proof fn lemma_last_below_bounds(bands: Seq<Band>, end: int)
    requires
        0 <= end <= bands.len(),
    ensures
        -1 <= last_below_before(bands, end) < end,
        last_below_before(bands, end) >= 0 ==> bands[last_below_before(bands, end)] is Below,
        forall|index: int| last_below_before(bands, end) < index < end ==> !(#[trigger] bands[index] is Below),
    decreases end,
{
    if end > 0 && !(bands[end - 1] is Below) {
        lemma_last_below_bounds(bands, end - 1);
    }
}

/// A verdict says what the ratios show: "matches at every size" only when
/// every ratio is strictly inside the band, "faster" or "slower" only when
/// every ratio is clearly so, "matches below X and is faster from there"
/// names the first size where the contender is clearly faster (it is
/// clearly slower nowhere), and "faster through X, then they match" names
/// the last size where the baseline is clearly faster (the contender is
/// clearly faster nowhere).
pub proof fn lemma_shape_names_turning_size(bands: [Band; INPUT_COUNT], first_above_one: bool, last_above_one: bool)
    ensures
        clause_shape(bands@, first_above_one, last_above_one) == Ok::<ClauseShape, ClauseError>(ClauseShape::Matches)
            ==> forall|index: int| 0 <= index < bands@.len() ==> above_lower_edge(#[trigger] bands@[index]) && below_upper_edge(bands@[index]),
        clause_shape(bands@, first_above_one, last_above_one) == Ok::<ClauseShape, ClauseError>(ClauseShape::Faster)
            ==> forall|index: int| 0 <= index < bands@.len() ==> #[trigger] bands@[index] is Above,
        clause_shape(bands@, first_above_one, last_above_one) == Ok::<ClauseShape, ClauseError>(ClauseShape::Slower)
            ==> forall|index: int| 0 <= index < bands@.len() ==> #[trigger] bands@[index] is Below,
        clause_shape(bands@, first_above_one, last_above_one) matches Ok(ClauseShape::FasterFrom(size)) ==> {
            &&& size < bands@.len()
            &&& bands@[size as int] is Above
            &&& forall|index: int| 0 <= index < size ==> !(#[trigger] bands@[index] is Above)
            &&& forall|index: int| 0 <= index < bands@.len() ==> above_lower_edge(#[trigger] bands@[index])
        },
        clause_shape(bands@, first_above_one, last_above_one) matches Ok(ClauseShape::SlowerThrough(size)) ==> {
            &&& size < bands@.len()
            &&& bands@[size as int] is Below
            &&& forall|index: int| size < index < bands@.len() ==> !(#[trigger] bands@[index] is Below)
            &&& forall|index: int| 0 <= index < bands@.len() ==> below_upper_edge(#[trigger] bands@[index])
        },
{
    lemma_first_above_bounds(bands@, 0);
    lemma_last_below_bounds(bands@, bands@.len() as int);
}

/// The shape of a contender's ratios across the input sizes, from the band
/// of each ratio and whether the first and last ratio are above one.
pub fn takeaway_shape(bands: &[Band; INPUT_COUNT], first_above_one: bool, last_above_one: bool) -> (shape:
    Result<ClauseShape, ClauseError>)
    ensures
        shape == clause_shape(bands@, first_above_one, last_above_one),
        shape matches Ok(found) ==> shape_in_range(found),
{
    let mut tied_low = true;
    let mut tied_high = true;
    let mut all_above = true;
    let mut all_below = true;
    let mut found_above = false;
    let mut first_above: usize = 0;
    let mut last_below: Option<usize> = None;
    let mut index: usize = 0;
    while index < INPUT_COUNT
        invariant
            index <= INPUT_COUNT,
            bands@.len() == INPUT_COUNT,
            tied_low == forall|i: int| 0 <= i < index ==> above_lower_edge(#[trigger] bands@[i]),
            tied_high == forall|i: int| 0 <= i < index ==> below_upper_edge(#[trigger] bands@[i]),
            all_above == forall|i: int| 0 <= i < index ==> #[trigger] bands@[i] is Above,
            all_below == forall|i: int| 0 <= i < index ==> #[trigger] bands@[i] is Below,
            found_above ==> first_above < index,
            first_above_from(bands@, 0) == if found_above {
                first_above as int
            } else {
                first_above_from(bands@, index as int)
            },
            match last_below {
                Some(last) => last_below_before(bands@, index as int) == last,
                None => last_below_before(bands@, index as int) == -1,
            },
        decreases INPUT_COUNT - index,
    {
        let band = bands[index];
        assert(band == bands@[index as int]);
        let is_below = match band {
            Band::Below => true,
            _ => false,
        };
        let is_above = match band {
            Band::Above => true,
            _ => false,
        };
        let is_low = match band {
            Band::Below | Band::LowerEdge => true,
            _ => false,
        };
        let is_high = match band {
            Band::UpperEdge | Band::Above => true,
            _ => false,
        };
        tied_low = tied_low && !is_low;
        tied_high = tied_high && !is_high;
        all_above = all_above && is_above;
        all_below = all_below && is_below;
        if !found_above && is_above {
            found_above = true;
            first_above = index;
        }
        if is_below {
            last_below = Some(index);
        }
        index += 1;
    }
    proof {
        lemma_first_above_bounds(bands@, 0);
        lemma_last_below_bounds(bands@, INPUT_COUNT as int);
    }
    if tied_low && tied_high {
        Ok(ClauseShape::Matches)
    } else if all_above {
        Ok(ClauseShape::Faster)
    } else if all_below {
        Ok(ClauseShape::Slower)
    } else if tied_low {
        if found_above {
            Ok(ClauseShape::FasterFrom(first_above))
        } else {
            Err(ClauseError::NoRatioAboveBand)
        }
    } else if tied_high {
        match last_below {
            Some(last) => Ok(ClauseShape::SlowerThrough(last)),
            None => Err(ClauseError::NoRatioBelowBand),
        }
    } else {
        Ok(ClauseShape::Crossover { contender_first: first_above_one, contender_last: last_above_one })
    }
}

/// The extreme speed ratios of a contender, as the headline prints them (two
/// decimals): the lowest and highest ratio and their reciprocals.
#[derive(Debug)]
pub struct RatioFigures {
    pub lowest: String,
    pub highest: String,
    pub inverse_lowest: String,
    pub inverse_highest: String,
}

/// The label of input size `index`.
pub open spec fn size_label(index: int) -> Seq<char> {
    input_size(index).label@
}

/// Every size index the shape names is a size on the axis.
pub open spec fn shape_in_range(shape: ClauseShape) -> bool {
    match shape {
        ClauseShape::FasterFrom(index) => index < INPUT_COUNT,
        ClauseShape::SlowerThrough(index) => index < INPUT_COUNT,
        _ => true,
    }
}

/// The headline clause for a contender called `name` against the baseline
/// called `baseline`.
pub open spec fn clause_text(
    shape: ClauseShape,
    name: Seq<char>,
    baseline: Seq<char>,
    lowest: Seq<char>,
    highest: Seq<char>,
    inverse_lowest: Seq<char>,
    inverse_highest: Seq<char>,
) -> Seq<char> {
    match shape {
        ClauseShape::Matches => name + " matches "@ + baseline + " at every size"@,
        ClauseShape::Faster => name + " is "@ + lowest + "\u{d7} to "@ + highest + "\u{d7} faster than "@ + baseline,
        ClauseShape::Slower => baseline + " is "@ + inverse_highest + "\u{d7} to "@ + inverse_lowest
            + "\u{d7} faster than "@ + name,
        ClauseShape::FasterFrom(index) => name + " matches "@ + baseline + " below "@ + size_label(index as int)
            + " and is up to "@ + highest + "\u{d7} faster from there"@,
        ClauseShape::SlowerThrough(index) => baseline + " is up to "@ + inverse_lowest + "\u{d7} faster than "@
            + name + " through "@ + size_label(index as int) + ", then they match"@,
        ClauseShape::Crossover { contender_first, contender_last } => (if contender_first {
            name
        } else {
            baseline
        }) + " is faster at "@ + size_label(0) + ", "@ + (if contender_last {
            name
        } else {
            baseline
        }) + " at "@ + size_label(INPUT_COUNT - 1),
    }
}

/// The headline clause that says what `shape` means for the contender
/// `name` against the baseline `baseline`, with the ratios in `figures`.
pub fn takeaway_clause_text(shape: ClauseShape, name: &str, baseline: &str, figures: &RatioFigures) -> (clause:
    String)
    requires
        shape_in_range(shape),
    ensures
        clause@ == clause_text(
            shape,
            name@,
            baseline@,
            figures.lowest@,
            figures.highest@,
            figures.inverse_lowest@,
            figures.inverse_highest@,
        ),
{
    let mut clause = String::new();
    match shape {
        ClauseShape::Matches => {
            clause.append(name);
            clause.append(" matches ");
            clause.append(baseline);
            clause.append(" at every size");
        },
        ClauseShape::Faster => {
            clause.append(name);
            clause.append(" is ");
            clause.append(figures.lowest.as_str());
            clause.append("\u{d7} to ");
            clause.append(figures.highest.as_str());
            clause.append("\u{d7} faster than ");
            clause.append(baseline);
        },
        ClauseShape::Slower => {
            clause.append(baseline);
            clause.append(" is ");
            clause.append(figures.inverse_highest.as_str());
            clause.append("\u{d7} to ");
            clause.append(figures.inverse_lowest.as_str());
            clause.append("\u{d7} faster than ");
            clause.append(name);
        },
        ClauseShape::FasterFrom(index) => {
            clause.append(name);
            clause.append(" matches ");
            clause.append(baseline);
            clause.append(" below ");
            clause.append(input_size_at(index).label);
            clause.append(" and is up to ");
            clause.append(figures.highest.as_str());
            clause.append("\u{d7} faster from there");
        },
        ClauseShape::SlowerThrough(index) => {
            clause.append(baseline);
            clause.append(" is up to ");
            clause.append(figures.inverse_lowest.as_str());
            clause.append("\u{d7} faster than ");
            clause.append(name);
            clause.append(" through ");
            clause.append(input_size_at(index).label);
            clause.append(", then they match");
        },
        ClauseShape::Crossover { contender_first, contender_last } => {
            clause.append(if contender_first { name } else { baseline });
            clause.append(" is faster at ");
            clause.append(input_size_at(0).label);
            clause.append(", ");
            clause.append(if contender_last { name } else { baseline });
            clause.append(" at ");
            clause.append(input_size_at(INPUT_COUNT - 1).label);
        },
    }
    assert(clause@ =~= clause_text(
        shape,
        name@,
        baseline@,
        figures.lowest@,
        figures.highest@,
        figures.inverse_lowest@,
        figures.inverse_highest@,
    ));
    clause
}

/// The headline: `"On this machine: "` and the clauses joined with `"; "`.
pub open spec fn takeaway_text(clauses: Seq<Seq<char>>) -> Seq<char> {
    "On this machine: "@ + joined(clauses, "; "@)
}

/// The headline from the clause of every contender but the baseline, in
/// contender order.
pub fn generate_takeaway(clauses: &Vec<String>) -> (takeaway: String)
    ensures
        takeaway@ == takeaway_text(string_views(clauses@)),
{
    let mut joined_clauses = String::new();
    let mut index: usize = 0;
    while index < clauses.len()
        invariant
            index <= clauses.len(),
            joined_clauses@ == joined(string_views(clauses@).take(index as int), "; "@),
        decreases clauses.len() - index,
    {
        let ghost done = string_views(clauses@).take(index as int);
        let ghost next = string_views(clauses@).take(index + 1);
        assert(next =~= done.push(clauses@[index as int]@));
        if index > 0 {
            joined_clauses.append("; ");
            proof {
                lemma_joined_push(done, clauses@[index as int]@, "; "@);
            }
        } else {
            assert(next =~= seq![clauses@[0]@]);
        }
        joined_clauses.append(clauses[index].as_str());
        index += 1;
    }
    assert(string_views(clauses@).take(index as int) =~= string_views(clauses@));
    let mut takeaway = String::from_str("On this machine: ");
    takeaway.append(joined_clauses.as_str());
    takeaway
}

} // verus!
