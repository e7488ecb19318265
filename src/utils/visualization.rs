use crate::utils::same_text;
use vstd::prelude::*;

verus! {

/// How the magnitudes of a run of samples become one pixel.
#[derive(PartialEq, Eq, Structural, Clone, Copy, Debug)]
pub enum ResamplingStrategy {
    /// The largest magnitude of the run.
    Max,
    /// The mean magnitude of the run.
    Avg,
}

/// The strategy a name stands for, or the message for an unknown name.
pub open spec fn strategy_named(s: Seq<char>) -> Result<ResamplingStrategy, Seq<char>> {
    if s == "max"@ {
        Ok(ResamplingStrategy::Max)
    } else if s == "avg"@ {
        Ok(ResamplingStrategy::Avg)
    } else {
        Err("Invalid resampling strategy '"@ + s + "'"@)
    }
}

impl ResamplingStrategy {
    /// Reads a strategy from its name: `max` or `avg`.
    pub fn parse(s: &str) -> (r: Result<ResamplingStrategy, String>)
        ensures
            match r {
                Ok(v) => strategy_named(s@) == Ok::<ResamplingStrategy, Seq<char>>(v),
                Err(m) => strategy_named(s@) == Err::<ResamplingStrategy, Seq<char>>(m@),
            },
    {
        if same_text(s, "max") {
            Ok(ResamplingStrategy::Max)
        } else if same_text(s, "avg") {
            Ok(ResamplingStrategy::Avg)
        } else {
            let mut message = String::from_str("Invalid resampling strategy '");
            message.append(s);
            message.append("'");
            Err(message)
        }
    }
}

/// How a normalised magnitude becomes a colour.
#[derive(PartialEq, Eq, Structural, Clone, Copy, Debug)]
pub enum ColorScheme {
    /// From blue (low) through green to red (high).
    HeatMap,
    /// From black (low) to white (high).
    Grayscale,
}

/// The scheme a name stands for, or the message for an unknown name.
pub open spec fn scheme_named(s: Seq<char>) -> Result<ColorScheme, Seq<char>> {
    if s == "heatmap"@ {
        Ok(ColorScheme::HeatMap)
    } else if s == "grayscale"@ {
        Ok(ColorScheme::Grayscale)
    } else {
        Err("Invalid color scheme '"@ + s + "'"@)
    }
}

impl ColorScheme {
    /// Reads a colour scheme from its name: `heatmap` or `grayscale`.
    pub fn parse(s: &str) -> (r: Result<ColorScheme, String>)
        ensures
            match r {
                Ok(v) => scheme_named(s@) == Ok::<ColorScheme, Seq<char>>(v),
                Err(m) => scheme_named(s@) == Err::<ColorScheme, Seq<char>>(m@),
            },
    {
        if same_text(s, "heatmap") {
            Ok(ColorScheme::HeatMap)
        } else if same_text(s, "grayscale") {
            Ok(ColorScheme::Grayscale)
        } else {
            let mut message = String::from_str("Invalid color scheme '");
            message.append(s);
            message.append("'");
            Err(message)
        }
    }
}

} // verus!
