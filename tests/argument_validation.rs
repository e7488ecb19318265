use wavelet_spectrogram::argument_validation;
use wavelet_spectrogram::utils::argument_validation::validate_arguments;
use wavelet_spectrogram::utils::visualization::{ColorScheme, ResamplingStrategy};
use wavelet_spectrogram::utils::{default_output_file, file_extension};

#[test]
fn both_input_and_output_are_valid() {
    assert_eq!(validate_arguments("input.wav", "output.png", "max", "heatmap"), Ok(()));
}

#[test]
fn input_has_wrong_extension() {
    assert_eq!(
        validate_arguments("input.wav2", "output.png", "max", "heatmap"),
        Err("Only .wav format is supported, but input format is .wav2!".to_string())
    );
}

#[test]
fn input_has_no_extension() {
    assert_eq!(
        validate_arguments("input", "output.png", "max", "heatmap"),
        Err("Only .wav format is supported, but input file has no extension!".to_string())
    );
}

#[test]
fn output_has_wrong_extension() {
    assert_eq!(
        validate_arguments("input.wav", "output", "max", "heatmap"),
        Err("Only .png format is supported for output, but output file has no extension!".to_string())
    );
}

#[test]
fn argument_validation_both_input_and_output_are_valid() {
    assert_eq!(argument_validation::validate_arguments("input.wav", "output.png"), Ok(()));
}

#[test]
fn argument_validation_input_has_wrong_extension() {
    assert_eq!(
        argument_validation::validate_arguments("input.wav2", "output.png"),
        Err("Only .wav format is supported, but input format is .wav2!".to_string())
    );
}

#[test]
fn argument_validation_input_has_no_extension() {
    assert_eq!(
        argument_validation::validate_arguments("input", "output.png"),
        Err("Only .wav format is supported, but input file has no extension!".to_string())
    );
}

#[test]
fn argument_validation_output_has_wrong_extension() {
    assert_eq!(
        argument_validation::validate_arguments("input.wav", "output"),
        Err("Only .png format is supported for output, but output file has no extension!".to_string())
    );
}

#[test]
fn output_with_other_extension_is_named() {
    assert_eq!(
        argument_validation::validate_arguments("input.wav", "output.jpg"),
        Err("Only .png format is supported for output, but output format is .jpg!".to_string())
    );
}

#[test]
fn input_problem_is_reported_before_output_problem() {
    assert_eq!(
        argument_validation::validate_arguments("input.mp3", "output"),
        Err("Only .wav format is supported, but input format is .mp3!".to_string())
    );
}

#[test]
fn unknown_resampling_strategy_is_reported() {
    assert_eq!(
        validate_arguments("input.wav", "output.png", "median", "heatmap"),
        Err("Invalid resampling strategy 'median'".to_string())
    );
}

#[test]
fn unknown_color_scheme_is_reported() {
    assert_eq!(
        validate_arguments("input.wav", "output.png", "avg", "sepia"),
        Err("Invalid color scheme 'sepia'".to_string())
    );
}

#[test]
fn options_are_parsed_by_name() {
    assert_eq!(ResamplingStrategy::parse("max"), Ok(ResamplingStrategy::Max));
    assert_eq!(ResamplingStrategy::parse("avg"), Ok(ResamplingStrategy::Avg));
    assert_eq!(ColorScheme::parse("heatmap"), Ok(ColorScheme::HeatMap));
    assert_eq!(ColorScheme::parse("grayscale"), Ok(ColorScheme::Grayscale));
    assert_eq!(ColorScheme::parse("Heatmap"), Err("Invalid color scheme 'Heatmap'".to_string()));
}

#[test]
fn extension_is_text_after_last_dot() {
    assert_eq!(file_extension("a.tar.gz"), Some("gz".to_string()));
    assert_eq!(file_extension("song.wav"), Some("wav".to_string()));
    assert_eq!(file_extension("trailing."), Some("".to_string()));
    assert_eq!(file_extension("plain"), None);
    assert_eq!(file_extension(""), None);
}

#[test]
fn default_output_replaces_extension() {
    assert_eq!(default_output_file("song.wav"), "song.png");
    assert_eq!(default_output_file("a.b.c"), "a.b.png");
    assert_eq!(default_output_file("a.b."), "a.png");
    assert_eq!(default_output_file("abc."), "abc.");
    assert_eq!(default_output_file("input"), "input");
    assert_eq!(default_output_file(".wav"), ".png");
    assert_eq!(default_output_file(""), "");
}
