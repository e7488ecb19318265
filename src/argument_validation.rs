use crate::utils::{extension_of, file_extension, same_text};
use vstd::prelude::*;

verus! {

/// The message for an input path, or `None` when it names a `.wav` file.
pub open spec fn input_path_error(path: Seq<char>) -> Option<Seq<char>> {
    match extension_of(path) {
        None => Some("Only .wav format is supported, but input file has no extension!"@),
        Some(e) => if e == "wav"@ {
            None
        } else {
            Some("Only .wav format is supported, but input format is ."@ + e + "!"@)
        },
    }
}

/// The message for an output path, or `None` when it names a `.png` file.
pub open spec fn output_path_error(path: Seq<char>) -> Option<Seq<char>> {
    match extension_of(path) {
        None => Some("Only .png format is supported for output, but output file has no extension!"@),
        Some(e) => if e == "png"@ {
            None
        } else {
            Some("Only .png format is supported for output, but output format is ."@ + e + "!"@)
        },
    }
}

/// The first problem with a pair of paths: the input's, then the output's.
pub open spec fn paths_error(input: Seq<char>, output: Seq<char>) -> Option<Seq<char>> {
    if input_path_error(input) is Some {
        input_path_error(input)
    } else {
        output_path_error(output)
    }
}

/// Whether a `Result` carries exactly the problem `e`: `Ok` when there is none.
pub open spec fn reports(r: Result<(), String>, e: Option<Seq<char>>) -> bool {
    match r {
        Ok(_) => e is None,
        Err(m) => e == Some(m@),
    }
}

/// Checks that `input_file` names a `.wav` file.
pub fn valid_input_extension(input_file: &str) -> (r: Result<(), String>)
    ensures
        reports(r, input_path_error(input_file@)),
{
    match file_extension(input_file) {
        None => Err(String::from_str("Only .wav format is supported, but input file has no extension!")),
        Some(extension) => {
            if same_text(extension.as_str(), "wav") {
                Ok(())
            } else {
                let mut message = String::from_str("Only .wav format is supported, but input format is .");
                message.append(extension.as_str());
                message.append("!");
                Err(message)
            }
        },
    }
}

/// Checks that `output_file` names a `.png` file.
pub fn valid_output_extension(output_file: &str) -> (r: Result<(), String>)
    ensures
        reports(r, output_path_error(output_file@)),
{
    match file_extension(output_file) {
        None => Err(
            String::from_str(
                "Only .png format is supported for output, but output file has no extension!",
            ),
        ),
        Some(extension) => {
            if same_text(extension.as_str(), "png") {
                Ok(())
            } else {
                let mut message = String::from_str(
                    "Only .png format is supported for output, but output format is .",
                );
                message.append(extension.as_str());
                message.append("!");
                Err(message)
            }
        },
    }
}

/// Checks the input path, then the output path; the first problem is reported.
pub fn validate_arguments(input_file: &str, output_file: &str) -> (r: Result<(), String>)
    ensures
        reports(r, paths_error(input_file@, output_file@)),
{
    let input = valid_input_extension(input_file);
    if input.is_err() {
        return input;
    }
    valid_output_extension(output_file)
}

} // verus!
