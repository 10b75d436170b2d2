use vstd::prelude::*;
use crate::cli::{
    heuristic_named, pack_mode_named, parse_heuristic, parse_pack_mode, same_text, CompressionLevel,
    PackMode, PackingHeuristic,
};
use crate::config::types::CompressConfig;

verus! {

/// The settings that the command line gives.
#[derive(Debug, Clone)]
pub struct CliSettings {
    pub name: String,
    pub max_width: u32,
    pub max_height: u32,
    pub padding: u32,
    pub no_trim: bool,
    pub trim_margin: u32,
    pub heuristic: PackingHeuristic,
    pub opaque: bool,
    pub pot: bool,
    pub extrude: u32,
    pub pack_mode: PackMode,
    pub compress: Option<CompressionLevel>,
}

/// The settings that a configuration file gives.
#[derive(Debug, Clone)]
pub struct FileSettings {
    pub name: String,
    pub max_width: u32,
    pub max_height: u32,
    pub padding: u32,
    pub pot: bool,
    pub trim: bool,
    pub trim_margin: u32,
    pub extrude: u32,
    pub heuristic: String,
    pub pack_mode: String,
    pub compress: Option<CompressConfig>,
    pub opaque: bool,
}

/// The settings that a run works with.
#[derive(Debug, Clone)]
pub struct MergedSettings {
    pub name: String,
    pub max_width: u32,
    pub max_height: u32,
    pub padding: u32,
    pub trim: bool,
    pub trim_margin: u32,
    pub heuristic: PackingHeuristic,
    pub opaque: bool,
    pub pot: bool,
    pub extrude: u32,
    pub pack_mode: PackMode,
    pub compress: Option<CompressionLevel>,
}

/// A number from the command line, unless it is the default there and a
/// configuration file gives one.
pub open spec fn merged_number(given: u32, default: u32, file: Option<u32>) -> u32 {
    match file {
        Some(value) => if given == default {
            value
        } else {
            given
        },
        None => given,
    }
}

/// A flag that the command line can only switch on.
pub open spec fn merged_flag(given: bool, file: Option<bool>) -> bool {
    given || file == Some(true)
}

fn merge_number(given: u32, default: u32, file: Option<u32>) -> (r: u32)
    ensures
        r == merged_number(given, default, file),
{
    match file {
        Some(value) => if given == default {
            value
        } else {
            given
        },
        None => given,
    }
}

/// Merge config file values with command-line arguments.
/// Command-line arguments take precedence over config values wherever
/// they differ from their defaults.
pub fn merge_settings(args: &CliSettings, file: Option<&FileSettings>) -> (m: MergedSettings)
    ensures
        m.name@ == (match file {
            Some(f) => if args.name@ == "atlas"@ {
                f.name@
            } else {
                args.name@
            },
            None => args.name@,
        }),
        m.max_width == merged_number(
            args.max_width,
            4096,
            match file {
                Some(f) => Some(f.max_width),
                None => None,
            },
        ),
        m.max_height == merged_number(
            args.max_height,
            4096,
            match file {
                Some(f) => Some(f.max_height),
                None => None,
            },
        ),
        m.padding == merged_number(
            args.padding,
            1,
            match file {
                Some(f) => Some(f.padding),
                None => None,
            },
        ),
        m.trim_margin == merged_number(
            args.trim_margin,
            0,
            match file {
                Some(f) => Some(f.trim_margin),
                None => None,
            },
        ),
        m.extrude == merged_number(
            args.extrude,
            0,
            match file {
                Some(f) => Some(f.extrude),
                None => None,
            },
        ),
        m.trim == (!args.no_trim && (match file {
            Some(f) => f.trim,
            None => true,
        })),
        m.pot == merged_flag(
            args.pot,
            match file {
                Some(f) => Some(f.pot),
                None => None,
            },
        ),
        m.opaque == merged_flag(
            args.opaque,
            match file {
                Some(f) => Some(f.opaque),
                None => None,
            },
        ),
        m.heuristic == (match file {
            Some(f) => if args.heuristic == PackingHeuristic::BestShortSideFit {
                match heuristic_named(f.heuristic@) {
                    Some(h) => h,
                    None => args.heuristic,
                }
            } else {
                args.heuristic
            },
            None => args.heuristic,
        }),
        m.pack_mode == (match file {
            Some(f) => if args.pack_mode == PackMode::Single {
                match pack_mode_named(f.pack_mode@) {
                    Some(mode) => mode,
                    None => args.pack_mode,
                }
            } else {
                args.pack_mode
            },
            None => args.pack_mode,
        }),
        m.compress == (match args.compress {
            Some(level) => Some(level),
            None => match file {
                Some(f) => match f.compress {
                    Some(CompressConfig::Level(n)) => Some(CompressionLevel::Level(n)),
                    Some(CompressConfig::Max(_)) => Some(CompressionLevel::Max),
                    None => None,
                },
                None => None,
            },
        }),
{
    match file {
        None => MergedSettings {
            name: args.name.clone(),
            max_width: args.max_width,
            max_height: args.max_height,
            padding: args.padding,
            trim: !args.no_trim,
            trim_margin: args.trim_margin,
            heuristic: args.heuristic,
            opaque: args.opaque,
            pot: args.pot,
            extrude: args.extrude,
            pack_mode: args.pack_mode,
            compress: args.compress,
        },
        Some(f) => {
            // Determine name: CLI overrides config
            let name: String = if same_text(args.name.as_str(), "atlas") {
                f.name.clone()
            } else {
                args.name.clone()
            };
            // Heuristic: parse from config if CLI is default
            let heuristic: PackingHeuristic = match args.heuristic {
                PackingHeuristic::BestShortSideFit => match parse_heuristic(f.heuristic.as_str()) {
                    Some(h) => h,
                    None => args.heuristic,
                },
                _ => args.heuristic,
            };
            // Pack mode: parse from config if CLI is default
            let pack_mode: PackMode = match args.pack_mode {
                PackMode::Single => match parse_pack_mode(f.pack_mode.as_str()) {
                    Some(mode) => mode,
                    None => args.pack_mode,
                },
                _ => args.pack_mode,
            };
            // Compress: CLI option overrides config
            let compress: Option<CompressionLevel> = match args.compress {
                Some(level) => Some(level),
                None => match &f.compress {
                    Some(c) => Some(c.level()),
                    None => None,
                },
            };
            MergedSettings {
                name,
                // For numeric fields with defaults, CLI wins if different from default
                max_width: merge_number(args.max_width, 4096, Some(f.max_width)),
                max_height: merge_number(args.max_height, 4096, Some(f.max_height)),
                padding: merge_number(args.padding, 1, Some(f.padding)),
                // Boolean flags: CLI presence sets them, otherwise use config
                trim: !args.no_trim && f.trim,
                trim_margin: merge_number(args.trim_margin, 0, Some(f.trim_margin)),
                heuristic,
                opaque: args.opaque || f.opaque,
                pot: args.pot || f.pot,
                extrude: merge_number(args.extrude, 0, Some(f.extrude)),
                pack_mode,
                compress,
            }
        },
    }
}

} // verus!
