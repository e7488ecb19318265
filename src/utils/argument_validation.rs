use crate::argument_validation::{paths_error, reports, validate_arguments as validate_paths};
use crate::utils::visualization::{scheme_named, strategy_named, ColorScheme, ResamplingStrategy};
use vstd::prelude::*;

verus! {

/// The first problem with a full set of arguments: the paths', then the
/// resampling strategy's, then the colour scheme's.
pub open spec fn arguments_error(
    input: Seq<char>,
    output: Seq<char>,
    strategy: Seq<char>,
    scheme: Seq<char>,
) -> Option<Seq<char>> {
    if paths_error(input, output) is Some {
        paths_error(input, output)
    } else if strategy_named(strategy) is Err {
        Some(strategy_named(strategy)->Err_0)
    } else if scheme_named(scheme) is Err {
        Some(scheme_named(scheme)->Err_0)
    } else {
        None
    }
}

/// Checks the input and output paths, the resampling strategy's name and the
/// colour scheme's name, in that order; the first problem is reported.
pub fn validate_arguments(
    input_file: &str,
    output_file: &str,
    resampling_strategy: &str,
    color_scheme: &str,
) -> (r: Result<(), String>)
    ensures
        reports(
            r,
            arguments_error(input_file@, output_file@, resampling_strategy@, color_scheme@),
        ),
{
    let paths = validate_paths(input_file, output_file);
    if paths.is_err() {
        return paths;
    }
    match ResamplingStrategy::parse(resampling_strategy) {
        Err(message) => {
            return Err(message);
        },
        Ok(_) => {},
    }
    match ColorScheme::parse(color_scheme) {
        Err(message) => Err(message),
        Ok(_) => Ok(()),
    }
}

} // verus!
