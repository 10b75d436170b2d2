use bento::cli::{
    heuristic_name, pack_mode_name, parse_heuristic, parse_pack_mode, parse_u8, same_text,
    CompressionLevel, OutputFormat, PackMode, PackingHeuristic,
};

#[test]
fn compression_level_reads_max_in_any_case() {
    assert_eq!(CompressionLevel::parse("max"), Ok(CompressionLevel::Max));
    assert_eq!(CompressionLevel::parse("MAX"), Ok(CompressionLevel::Max));
    assert_eq!(CompressionLevel::parse("mAx"), Ok(CompressionLevel::Max));
    assert_eq!("Max".parse::<CompressionLevel>(), Ok(CompressionLevel::Max));
}

#[test]
fn compression_level_reads_levels_up_to_six() {
    assert_eq!(CompressionLevel::parse("0"), Ok(CompressionLevel::Level(0)));
    assert_eq!(CompressionLevel::parse("2"), Ok(CompressionLevel::Level(2)));
    assert_eq!(CompressionLevel::parse("6"), Ok(CompressionLevel::Level(6)));
    assert_eq!(CompressionLevel::parse("+3"), Ok(CompressionLevel::Level(3)));
    assert_eq!(CompressionLevel::parse("006"), Ok(CompressionLevel::Level(6)));
    assert_eq!("4".parse::<CompressionLevel>(), Ok(CompressionLevel::Level(4)));
}

#[test]
fn compression_level_rejects_levels_above_six() {
    assert_eq!(
        CompressionLevel::parse("7"),
        Err("compression level must be 0-6 or 'max', got 7".to_string())
    );
    assert_eq!(
        CompressionLevel::parse("255"),
        Err("compression level must be 0-6 or 'max', got 255".to_string())
    );
    assert_eq!(
        CompressionLevel::parse("100"),
        Err("compression level must be 0-6 or 'max', got 100".to_string())
    );
}

#[test]
fn compression_level_rejects_what_is_no_small_number() {
    assert_eq!(CompressionLevel::parse(""), Err("invalid compression level: ".to_string()));
    assert_eq!(CompressionLevel::parse("256"), Err("invalid compression level: 256".to_string()));
    assert_eq!(CompressionLevel::parse("-1"), Err("invalid compression level: -1".to_string()));
    assert_eq!(CompressionLevel::parse("maxi"), Err("invalid compression level: maxi".to_string()));
    assert_eq!(CompressionLevel::parse("ma"), Err("invalid compression level: ma".to_string()));
    assert_eq!(CompressionLevel::parse("3 "), Err("invalid compression level: 3 ".to_string()));
    assert_eq!(CompressionLevel::parse("+"), Err("invalid compression level: +".to_string()));
    assert_eq!(CompressionLevel::parse("99999999999"), Err("invalid compression level: 99999999999".to_string()));
}

#[test]
fn parse_u8_agrees_with_the_standard_parser() {
    let samples = [
        "", "0", "1", "9", "10", "99", "100", "199", "200", "249", "250", "255", "256", "260", "300",
        "999", "1000", "0255", "00000000255", "+255", "+256", "+", "++1", "-0", "-1", "1+", " 1",
        "1 ", "a", "1a", "٣", "2555", "25500000000000000000000",
    ];
    for s in samples {
        assert_eq!(parse_u8(s), s.parse::<u8>().ok(), "parsing {:?}", s);
    }
    for n in 0u32..400 {
        let s = format!("{}", n);
        assert_eq!(parse_u8(&s), s.parse::<u8>().ok());
    }
}

#[test]
fn default_compression_level_is_two() {
    assert_eq!(CompressionLevel::default(), CompressionLevel::Level(2));
}

#[test]
fn output_format_says_what_to_write() {
    assert!(OutputFormat::Godot.should_write_godot());
    assert!(!OutputFormat::Godot.should_write_json());
    assert!(!OutputFormat::Json.should_write_godot());
    assert!(OutputFormat::Json.should_write_json());
    assert!(OutputFormat::Both.should_write_godot());
    assert!(OutputFormat::Both.should_write_json());
    assert_eq!(OutputFormat::default(), OutputFormat::Both);
}

#[test]
fn heuristics_are_read_by_name() {
    assert_eq!(parse_heuristic("best-short-side-fit"), Some(PackingHeuristic::BestShortSideFit));
    assert_eq!(parse_heuristic("best-long-side-fit"), Some(PackingHeuristic::BestLongSideFit));
    assert_eq!(parse_heuristic("best-area-fit"), Some(PackingHeuristic::BestAreaFit));
    assert_eq!(parse_heuristic("bottom-left"), Some(PackingHeuristic::BottomLeft));
    assert_eq!(parse_heuristic("contact-point"), Some(PackingHeuristic::ContactPoint));
    assert_eq!(parse_heuristic("best"), Some(PackingHeuristic::Best));
    assert_eq!(parse_heuristic("Best"), None);
    assert_eq!(parse_heuristic(""), None);
    assert_eq!(parse_heuristic("best "), None);
}

#[test]
fn pack_modes_are_read_by_name() {
    assert_eq!(parse_pack_mode("single"), Some(PackMode::Single));
    assert_eq!(parse_pack_mode("best"), Some(PackMode::Best));
    assert_eq!(parse_pack_mode("both"), None);
    assert_eq!(parse_pack_mode("Single"), None);
}

#[test]
fn names_for_the_user() {
    assert_eq!(heuristic_name(PackingHeuristic::BestShortSideFit), "Best Short Side");
    assert_eq!(heuristic_name(PackingHeuristic::BestLongSideFit), "Best Long Side");
    assert_eq!(heuristic_name(PackingHeuristic::BestAreaFit), "Best Area");
    assert_eq!(heuristic_name(PackingHeuristic::BottomLeft), "Bottom Left");
    assert_eq!(heuristic_name(PackingHeuristic::ContactPoint), "Contact Point");
    assert_eq!(heuristic_name(PackingHeuristic::Best), "Best (try all)");
    assert_eq!(pack_mode_name(PackMode::Single), "Single");
    assert_eq!(pack_mode_name(PackMode::Best), "Best");
}

#[test]
fn defaults_of_the_settings() {
    assert_eq!(PackingHeuristic::default(), PackingHeuristic::BestShortSideFit);
    assert_eq!(PackMode::default(), PackMode::Single);
}

#[test]
fn same_text_compares_whole_texts() {
    assert!(same_text("", ""));
    assert!(same_text("abc", "abc"));
    assert!(!same_text("abc", "abd"));
    assert!(!same_text("abc", "ab"));
}
