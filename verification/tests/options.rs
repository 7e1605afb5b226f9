//! Tests of the command-line option types.

use cargo_contract::options::{
    BuildArtifacts, BuildMode, HexData, Network, OptimizationPasses, OutputType, UnstableFlags,
    UnstableOptions, Verbosity, VerbosityFlags,
};

#[test]
fn hex_data_decodes_pairs_of_digits() {
    let h = HexData::from_str("deadbeef").unwrap();
    assert_eq!(h.0, vec![0xde, 0xad, 0xbe, 0xef]);
}

#[test]
fn hex_data_accepts_mixed_case_and_empty() {
    assert_eq!(HexData::from_str("AbCd").unwrap().0, vec![0xab, 0xcd]);
    assert_eq!(HexData::from_str("").unwrap().0, Vec::<u8>::new());
}

#[test]
fn hex_data_rejects_odd_length_and_bad_digits() {
    assert!(HexData::from_str("abc").is_err());
    assert!(HexData::from_str("zz").is_err());
}

#[test]
fn verbosity_is_verbose_except_quiet() {
    assert!(Verbosity::Default.is_verbose());
    assert!(Verbosity::Verbose.is_verbose());
    assert!(!Verbosity::Quiet.is_verbose());
}

#[test]
fn verbosity_resolves_the_flag_pairs() {
    assert!(matches!(
        Verbosity::try_from(&VerbosityFlags::new(false, false)),
        Ok(Verbosity::Default)
    ));
    assert!(matches!(
        Verbosity::try_from(&VerbosityFlags::new(true, false)),
        Ok(Verbosity::Quiet)
    ));
    assert!(matches!(
        Verbosity::try_from(&VerbosityFlags::new(false, true)),
        Ok(Verbosity::Verbose)
    ));
    assert!(Verbosity::try_from(&VerbosityFlags::new(true, true)).is_err());
}

#[test]
fn build_artifacts_steps_match_the_progress_output() {
    assert_eq!(BuildArtifacts::All.steps(), 5);
    assert_eq!(BuildArtifacts::CodeOnly.steps(), 3);
    assert_eq!(BuildArtifacts::CheckOnly.steps(), 2);
}

#[test]
fn build_artifacts_parse_from_their_flag_values() {
    assert_eq!(BuildArtifacts::from_str("all").unwrap(), BuildArtifacts::All);
    assert_eq!(
        BuildArtifacts::from_str("code-only").unwrap(),
        BuildArtifacts::CodeOnly
    );
    assert!(BuildArtifacts::from_str("check-only").is_err());
    assert_eq!(BuildArtifacts::default(), BuildArtifacts::All);
}

#[test]
fn optimization_passes_parse_plain_and_quoted() {
    assert_eq!(
        OptimizationPasses::from_str("0").unwrap(),
        OptimizationPasses::Zero
    );
    assert_eq!(
        OptimizationPasses::from_str("3").unwrap(),
        OptimizationPasses::Three
    );
    assert_eq!(OptimizationPasses::from_str("s").unwrap(), OptimizationPasses::S);
    assert_eq!(OptimizationPasses::from_str("Z").unwrap(), OptimizationPasses::Z);
    assert_eq!(
        OptimizationPasses::from_str("\"4\"").unwrap(),
        OptimizationPasses::Four
    );
    assert!(OptimizationPasses::from_str("fast").is_err());
    assert!(OptimizationPasses::from_str("").is_err());
}

#[test]
fn optimization_passes_display_and_default() {
    assert_eq!(OptimizationPasses::Zero.display(), "0");
    assert_eq!(OptimizationPasses::S.display(), "s");
    assert_eq!(OptimizationPasses::default(), OptimizationPasses::Z);
}

#[test]
fn build_mode_and_network_render_their_flags() {
    assert_eq!(BuildMode::Debug.display(), "debug");
    assert_eq!(BuildMode::Release.display(), "release");
    assert_eq!(BuildMode::default(), BuildMode::Debug);
    assert_eq!(Network::Online.display(), "");
    assert_eq!(Network::Offline.display(), "--offline");
    assert_eq!(Network::default(), Network::Online);
}

#[test]
fn output_type_defaults_to_human_readable() {
    assert_eq!(OutputType::default(), OutputType::HumanReadable);
}

#[test]
fn unstable_flags_accept_only_original_manifest() {
    let none = UnstableOptions { options: vec![] };
    assert!(!UnstableFlags::try_from(&none).unwrap().original_manifest);
    let good = UnstableOptions { options: vec!["original-manifest".to_string()] };
    assert!(UnstableFlags::try_from(&good).unwrap().original_manifest);
    let bad = UnstableOptions { options: vec!["bogus".to_string()] };
    assert!(UnstableFlags::try_from(&bad).is_err());
}

#[test]
fn unstable_flags_error_names_every_offending_value() {
    let mixed = UnstableOptions {
        options: vec![
            "bogus".to_string(),
            "original-manifest".to_string(),
            "worse".to_string(),
        ],
    };
    assert_eq!(
        UnstableFlags::try_from(&mixed).unwrap_err(),
        vec!["bogus".to_string(), "worse".to_string()]
    );
}
