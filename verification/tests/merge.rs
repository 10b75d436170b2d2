use bento::cli::{CompressionLevel, PackMode, PackingHeuristic};
use bento::config::{merge_settings, CliSettings, CompressConfig, FileSettings};

fn cli_defaults() -> CliSettings {
    CliSettings {
        name: "atlas".to_string(),
        max_width: 4096,
        max_height: 4096,
        padding: 1,
        no_trim: false,
        trim_margin: 0,
        heuristic: PackingHeuristic::BestShortSideFit,
        opaque: false,
        pot: false,
        extrude: 0,
        pack_mode: PackMode::Single,
        compress: None,
    }
}

fn file_settings() -> FileSettings {
    FileSettings {
        name: "sheet".to_string(),
        max_width: 1024,
        max_height: 512,
        padding: 4,
        pot: true,
        trim: false,
        trim_margin: 2,
        extrude: 3,
        heuristic: "contact-point".to_string(),
        pack_mode: "best".to_string(),
        compress: Some(CompressConfig::Max("max".to_string())),
        opaque: true,
    }
}

#[test]
fn without_a_file_the_command_line_stands() {
    let mut args = cli_defaults();
    args.no_trim = true;
    args.padding = 7;
    args.compress = Some(CompressionLevel::Level(5));
    let m = merge_settings(&args, None);
    assert_eq!(m.name, "atlas");
    assert_eq!((m.max_width, m.max_height, m.padding), (4096, 4096, 7));
    assert!(!m.trim);
    assert_eq!((m.trim_margin, m.extrude), (0, 0));
    assert_eq!(m.heuristic, PackingHeuristic::BestShortSideFit);
    assert_eq!(m.pack_mode, PackMode::Single);
    assert!(!m.pot && !m.opaque);
    assert_eq!(m.compress, Some(CompressionLevel::Level(5)));
    let m = merge_settings(&cli_defaults(), None);
    assert!(m.trim);
    assert_eq!(m.compress, None);
}

#[test]
fn the_file_fills_in_for_defaults() {
    let m = merge_settings(&cli_defaults(), Some(&file_settings()));
    assert_eq!(m.name, "sheet");
    assert_eq!((m.max_width, m.max_height, m.padding), (1024, 512, 4));
    assert!(!m.trim);
    assert_eq!((m.trim_margin, m.extrude), (2, 3));
    assert_eq!(m.heuristic, PackingHeuristic::ContactPoint);
    assert_eq!(m.pack_mode, PackMode::Best);
    assert!(m.pot && m.opaque);
    assert_eq!(m.compress, Some(CompressionLevel::Max));
}

#[test]
fn the_command_line_wins_where_it_differs_from_its_defaults() {
    let args = CliSettings {
        name: "mine".to_string(),
        max_width: 2048,
        max_height: 4096,
        padding: 0,
        no_trim: false,
        trim_margin: 5,
        heuristic: PackingHeuristic::BottomLeft,
        opaque: false,
        pot: false,
        extrude: 1,
        pack_mode: PackMode::Best,
        compress: Some(CompressionLevel::Level(0)),
    };
    let mut file = file_settings();
    file.trim = true;
    file.pot = false;
    file.opaque = false;
    file.pack_mode = "single".to_string();
    let m = merge_settings(&args, Some(&file));
    assert_eq!(m.name, "mine");
    assert_eq!((m.max_width, m.max_height, m.padding), (2048, 512, 0));
    assert!(m.trim);
    assert_eq!((m.trim_margin, m.extrude), (5, 1));
    assert_eq!(m.heuristic, PackingHeuristic::BottomLeft);
    assert_eq!(m.pack_mode, PackMode::Best);
    assert!(!m.pot && !m.opaque);
    assert_eq!(m.compress, Some(CompressionLevel::Level(0)));
}

#[test]
fn unknown_names_in_the_file_leave_the_command_line_value() {
    let mut file = file_settings();
    file.heuristic = "fastest".to_string();
    file.pack_mode = "".to_string();
    file.compress = Some(CompressConfig::Level(3));
    let m = merge_settings(&cli_defaults(), Some(&file));
    assert_eq!(m.heuristic, PackingHeuristic::BestShortSideFit);
    assert_eq!(m.pack_mode, PackMode::Single);
    assert_eq!(m.compress, Some(CompressionLevel::Level(3)));
    let mut args = cli_defaults();
    args.no_trim = true;
    args.pot = true;
    file.trim = true;
    file.pot = false;
    file.compress = None;
    let m = merge_settings(&args, Some(&file));
    assert!(!m.trim);
    assert!(m.pot);
    assert_eq!(m.compress, None);
}
