use spectralyze::analyzer::{AnalyzerFactory, WindowError, WindowFunction};
use spectralyze::tuple_parser::TupleParser;
use spectralyze::{str_eq, Args};

fn base_args(file: &str) -> Args {
    Args {
        file: file.to_string(),
        quiet: false,
        outfile: None,
        samplerate: 44100,
        freq_range: None,
        padding: None,
        window: None,
        channel: None,
    }
}

#[test]
fn default_outfile_appends_json() {
    let cfg = AnalyzerFactory::from(base_args("song.wav"));
    assert_eq!(cfg.outfile, "song.wav.json");
}

#[test]
fn supplied_outfile_is_kept() {
    let mut args = base_args("song.wav");
    args.outfile = Some("spectrum.json".to_string());
    let cfg = AnalyzerFactory::from(args);
    assert_eq!(cfg.outfile, "spectrum.json");
}

#[test]
fn default_padding_and_window() {
    let cfg = AnalyzerFactory::from(base_args("song.wav"));
    assert_eq!(cfg.padding, 0);
    assert_eq!(cfg.window, WindowFunction::VonHann);
}

#[test]
fn supplied_padding_and_window_are_kept() {
    let mut args = base_args("song.wav");
    args.padding = Some(4);
    args.window = Some(WindowFunction::Blackman);
    let cfg = AnalyzerFactory::from(args);
    assert_eq!(cfg.padding, 4);
    assert_eq!(cfg.window, WindowFunction::Blackman);
}

#[test]
fn supplied_channel_is_preserved() {
    let mut args = base_args("song.wav");
    args.channel = Some(2);
    let cfg = AnalyzerFactory::from(args);
    assert_eq!(cfg.channel, Some(2));
}

#[test]
fn absent_optionals_stay_absent() {
    let cfg = AnalyzerFactory::from(base_args("song.wav"));
    assert_eq!(cfg.freq_range, None);
    assert_eq!(cfg.channel, None);
}

#[test]
fn full_invocation_scenario() {
    let freq = TupleParser.parse("20:2000").unwrap();
    let mut args = base_args("track.wav");
    args.samplerate = 100;
    args.freq_range = Some(freq);
    let cfg = AnalyzerFactory::from(args);
    assert_eq!(cfg.file, "track.wav");
    assert_eq!(cfg.outfile, "track.wav.json");
    assert_eq!(cfg.samplerate, 100);
    assert_eq!(cfg.freq_range, Some((20, 2000)));
    assert_eq!(cfg.padding, 0);
    assert_eq!(cfg.window, WindowFunction::VonHann);
    assert_eq!(cfg.channel, None);
}

#[test]
fn window_names_resolve_to_their_variants() {
    assert_eq!(
        WindowFunction::from_name("rectangle"),
        Ok(WindowFunction::Rectangle)
    );
    assert_eq!(WindowFunction::from_name("gauss"), Ok(WindowFunction::Gauss));
    assert_eq!(
        WindowFunction::from_name("vonhann"),
        Ok(WindowFunction::VonHann)
    );
    assert_eq!(
        WindowFunction::from_name("triangle"),
        Ok(WindowFunction::Triangle)
    );
    assert_eq!(
        WindowFunction::from_name("blackman"),
        Ok(WindowFunction::Blackman)
    );
}

#[test]
fn unrecognized_window_name_is_invalid_choice() {
    assert_eq!(
        WindowFunction::from_name("hann"),
        Err(WindowError::InvalidChoice)
    );
    assert_eq!(
        WindowFunction::from_name("VonHann"),
        Err(WindowError::InvalidChoice)
    );
    assert_eq!(WindowFunction::from_name(""), Err(WindowError::InvalidChoice));
}

#[test]
fn str_eq_agrees_with_equality() {
    assert!(str_eq("vonhann", "vonhann"));
    assert!(!str_eq("vonhann", "vonhanne"));
    assert!(!str_eq("vonhann", "vonhanX"));
    assert!(str_eq("", ""));
}
