use vstd::prelude::*;
use crate::text::{append_decimal, decimal};

verus! {

/// How the sprite list is ordered before packing.
#[derive(Debug, Clone, Copy, PartialEq, Eq, Default, Structural)]
pub enum PackMode {
    /// Use sprites in input order
    #[default]
    Single,
    /// Try multiple sprite orderings and pick the best result
    Best,
}

/// Rule by which the packer chooses among the free rectangles that can
/// host a sprite.
#[derive(Debug, Clone, Copy, PartialEq, Eq, Default, Structural)]
pub enum PackingHeuristic {
    /// Best Short Side Fit - minimizes the shorter leftover side
    #[default]
    BestShortSideFit,
    /// Best Long Side Fit - minimizes the longer leftover side
    BestLongSideFit,
    /// Best Area Fit - picks the smallest free rectangle
    BestAreaFit,
    /// Bottom Left - Tetris-style packing
    BottomLeft,
    /// Contact Point - maximizes contact with placed rectangles and bin edges
    ContactPoint,
    /// Best - tries all heuristics and picks the most efficient result
    Best,
}

/// Which metadata files a run writes.
#[derive(Debug, Clone, Copy, PartialEq, Eq, Default, Structural)]
pub enum OutputFormat {
    /// Godot .tres + PNG only
    Godot,
    /// JSON + PNG only
    Json,
    /// Both Godot and JSON output
    #[default]
    Both,
}

/// PNG compression level (0-6 or max)
#[derive(Debug, Clone, Copy, PartialEq, Eq, Structural)]
pub enum CompressionLevel {
    /// Optimization level 0-6
    Level(u8),
    /// Maximum compression
    Max,
}

/// The text is the word `max`, in any mix of upper and lower case.
pub open spec fn is_max_word(s: Seq<char>) -> bool {
    &&& s.len() == 3
    &&& (s[0] == 'm' || s[0] == 'M')
    &&& (s[1] == 'a' || s[1] == 'A')
    &&& (s[2] == 'x' || s[2] == 'X')
}

/// The value of a decimal digit, or -1 for any other character.
pub open spec fn digit_value(c: char) -> int {
    if c == '0' {
        0
    } else if c == '1' {
        1
    } else if c == '2' {
        2
    } else if c == '3' {
        3
    } else if c == '4' {
        4
    } else if c == '5' {
        5
    } else if c == '6' {
        6
    } else if c == '7' {
        7
    } else if c == '8' {
        8
    } else if c == '9' {
        9
    } else {
        -1
    }
}

/// Where the digits of a number begin: behind an optional plus sign.
pub open spec fn digits_start(s: Seq<char>) -> int {
    if s.len() > 0 && s[0] == '+' {
        1
    } else {
        0
    }
}

/// The value of the digits from `start` up to `n`.
pub open spec fn digits_value(s: Seq<char>, start: int, n: int) -> int
    decreases n - start,
{
    if n <= start {
        0
    } else {
        digits_value(s, start, n - 1) * 10 + digit_value(s[n - 1])
    }
}

/// The text is a number: an optional plus sign and at least one digit.
pub open spec fn is_number(s: Seq<char>) -> bool {
    &&& s.len() > digits_start(s)
    &&& forall|k: int| digits_start(s) <= k < s.len() ==> digit_value(#[trigger] s[k]) >= 0
}

/// The number that the text holds, if it is a number of at most 255.
pub open spec fn parsed_u8(s: Seq<char>) -> Option<u8> {
    if is_number(s) && digits_value(s, digits_start(s), s.len() as int) <= 255 {
        Some(digits_value(s, digits_start(s), s.len() as int) as u8)
    } else {
        None
    }
}

/// What a text means as a compression level: `max` in any case is the
/// maximum, a number from 0 to 6 is that level, and everything else is an
/// error with its message.
pub open spec fn parsed_level(s: Seq<char>) -> Result<CompressionLevel, Seq<char>> {
    if is_max_word(s) {
        Ok(CompressionLevel::Max)
    } else {
        match parsed_u8(s) {
            None => Err("invalid compression level: "@ + s),
            Some(n) => if n <= 6 {
                Ok(CompressionLevel::Level(n))
            } else {
                Err("compression level must be 0-6 or 'max', got "@ + decimal(n as nat))
            },
        }
    }
}

proof fn lemma_digits_grow(s: Seq<char>, start: int, n: int)
    requires
        0 <= start <= n <= s.len(),
        forall|k: int| start <= k < n ==> digit_value(#[trigger] s[k]) >= 0,
    ensures
        0 <= digits_value(s, start, n),
        start < n ==> digits_value(s, start, n - 1) <= digits_value(s, start, n),
    decreases n - start,
{
    if start < n {
        lemma_digits_grow(s, start, n - 1);
    }
}

fn digit_of(c: char) -> (d: i32)
    ensures
        d == digit_value(c),
{
    if c == '0' {
        0
    } else if c == '1' {
        1
    } else if c == '2' {
        2
    } else if c == '3' {
        3
    } else if c == '4' {
        4
    } else if c == '5' {
        5
    } else if c == '6' {
        6
    } else if c == '7' {
        7
    } else if c == '8' {
        8
    } else if c == '9' {
        9
    } else {
        -1
    }
}

/// The number that a text holds: an optional plus sign and digits that
/// give a value of at most 255.
pub fn parse_u8(text: &str) -> (r: Option<u8>)
    ensures
        r == parsed_u8(text@),
{
    let ghost s = text@;
    let mut value: u32 = 0;
    let mut any_digit: bool = false;
    let mut valid: bool = true;
    let mut too_large: bool = false;
    let mut first: bool = true;
    let mut signed: bool = false;
    for c in it: text.chars()
        invariant
            it.seq() == s,
            s == text@,
            first == (it.index() == 0),
            signed == (it.index() > 0 && s[0] == '+'),
            first ==> !any_digit && valid && !too_large && value == 0,
            !first ==> (valid <==> forall|k: int|
                digits_start(s) <= k < it.index() ==> digit_value(#[trigger] s[k]) >= 0),
            !first && valid ==> (any_digit <==> it.index() > digits_start(s)),
            !first && valid && !too_large ==> value == digits_value(
                s,
                digits_start(s),
                it.index() as int,
            ) && value <= 255,
            !first && valid && too_large ==> digits_value(s, digits_start(s), it.index() as int)
                > 255,
    {
        let ghost i = it.index() as int;
        if first && c == '+' {
            signed = true;
        } else if valid {
            let d: i32 = digit_of(c);
            if d < 0 {
                valid = false;
            } else {
                any_digit = true;
                if !too_large {
                    value = value * 10 + d as u32;
                    if value > 255 {
                        too_large = true;
                    }
                } else {
                    proof {
                        lemma_digits_grow(s, digits_start(s), i + 1);
                    }
                }
            }
        }
        first = false;
    }
    if valid && any_digit && !too_large {
        Some(value as u8)
    } else {
        proof {
            if valid && any_digit {
                assert(digits_value(s, digits_start(s), s.len() as int) > 255);
            }
        }
        None
    }
}

fn is_max(text: &str) -> (r: bool)
    ensures
        r == is_max_word(text@),
{
    let ghost s = text@;
    let mut matched: bool = true;
    let mut count: usize = 0;
    for c in it: text.chars()
        invariant
            it.seq() == s,
            s == text@,
            count == (if it.index() < 4 { it.index() as int } else { 4 }),
            matched == ((it.index() < 1 || s[0] == 'm' || s[0] == 'M') && (it.index() < 2
                || s[1] == 'a' || s[1] == 'A') && (it.index() < 3 || s[2] == 'x' || s[2] == 'X')
                && it.index() <= 3),
    {
        if count == 0 {
            matched = c == 'm' || c == 'M';
        } else if count == 1 {
            matched = matched && (c == 'a' || c == 'A');
        } else if count == 2 {
            matched = matched && (c == 'x' || c == 'X');
        } else {
            matched = false;
        }
        if count < 4 {
            count = count + 1;
        }
    }
    matched && count == 3
}

impl OutputFormat {
    /// Whether Godot resources are written.
    pub fn should_write_godot(&self) -> (b: bool)
        ensures
            b == (*self == OutputFormat::Godot || *self == OutputFormat::Both),
    {
        matches!(self, OutputFormat::Godot | OutputFormat::Both)
    }

    /// Whether JSON metadata is written.
    pub fn should_write_json(&self) -> (b: bool)
        ensures
            b == (*self == OutputFormat::Json || *self == OutputFormat::Both),
    {
        matches!(self, OutputFormat::Json | OutputFormat::Both)
    }
}

impl CompressionLevel {
    /// Read a compression level: `max` in any case, or a number from 0 to 6.
    pub fn parse(s: &str) -> (r: Result<CompressionLevel, String>)
        ensures
            match r {
                Ok(level) => parsed_level(s@) == Ok::<CompressionLevel, Seq<char>>(level),
                Err(message) => parsed_level(s@) == Err::<CompressionLevel, Seq<char>>(message@),
            },
    {
        if is_max(s) {
            Ok(CompressionLevel::Max)
        } else {
            match parse_u8(s) {
                None => {
                    let mut message = String::from_str("invalid compression level: ");
                    message.append(s);
                    Err(message)
                },
                Some(n) => {
                    if n <= 6 {
                        Ok(CompressionLevel::Level(n))
                    } else {
                        let mut message = String::from_str(
                            "compression level must be 0-6 or 'max', got ",
                        );
                        append_decimal(&mut message, n as u64);
                        Err(message)
                    }
                },
            }
        }
    }
}

impl Default for CompressionLevel {
    fn default() -> (level: Self)
        ensures
            level == CompressionLevel::Level(2),
    {
        CompressionLevel::Level(2)
    }
}

impl std::str::FromStr for CompressionLevel {
    type Err = String;

    fn from_str(s: &str) -> (r: Result<Self, String>)
        ensures
            match r {
                Ok(level) => parsed_level(s@) == Ok::<CompressionLevel, Seq<char>>(level),
                Err(message) => parsed_level(s@) == Err::<CompressionLevel, Seq<char>>(message@),
            },
    {
        CompressionLevel::parse(s)
    }
}

/// Whether two texts are the same.
pub fn same_text(a: &str, b: &str) -> (r: bool)
    ensures
        r == (a@ == b@),
{
    let left = String::from_str(a);
    let right = String::from_str(b);
    left == right
}

/// The heuristic that a name on the command line or in a configuration
/// file stands for.
pub open spec fn heuristic_named(s: Seq<char>) -> Option<PackingHeuristic> {
    if s == "best-short-side-fit"@ {
        Some(PackingHeuristic::BestShortSideFit)
    } else if s == "best-long-side-fit"@ {
        Some(PackingHeuristic::BestLongSideFit)
    } else if s == "best-area-fit"@ {
        Some(PackingHeuristic::BestAreaFit)
    } else if s == "bottom-left"@ {
        Some(PackingHeuristic::BottomLeft)
    } else if s == "contact-point"@ {
        Some(PackingHeuristic::ContactPoint)
    } else if s == "best"@ {
        Some(PackingHeuristic::Best)
    } else {
        None
    }
}

/// The pack mode that a name on the command line or in a configuration
/// file stands for.
pub open spec fn pack_mode_named(s: Seq<char>) -> Option<PackMode> {
    if s == "single"@ {
        Some(PackMode::Single)
    } else if s == "best"@ {
        Some(PackMode::Best)
    } else {
        None
    }
}

/// Read a heuristic by its name.
pub fn parse_heuristic(s: &str) -> (r: Option<PackingHeuristic>)
    ensures
        r == heuristic_named(s@),
{
    if same_text(s, "best-short-side-fit") {
        Some(PackingHeuristic::BestShortSideFit)
    } else if same_text(s, "best-long-side-fit") {
        Some(PackingHeuristic::BestLongSideFit)
    } else if same_text(s, "best-area-fit") {
        Some(PackingHeuristic::BestAreaFit)
    } else if same_text(s, "bottom-left") {
        Some(PackingHeuristic::BottomLeft)
    } else if same_text(s, "contact-point") {
        Some(PackingHeuristic::ContactPoint)
    } else if same_text(s, "best") {
        Some(PackingHeuristic::Best)
    } else {
        None
    }
}

/// Read a pack mode by its name.
pub fn parse_pack_mode(s: &str) -> (r: Option<PackMode>)
    ensures
        r == pack_mode_named(s@),
{
    if same_text(s, "single") {
        Some(PackMode::Single)
    } else if same_text(s, "best") {
        Some(PackMode::Best)
    } else {
        None
    }
}

/// The name of a heuristic as a user reads it.
pub fn heuristic_name(h: PackingHeuristic) -> (name: &'static str)
    ensures
        name@ == (match h {
            PackingHeuristic::BestShortSideFit => "Best Short Side"@,
            PackingHeuristic::BestLongSideFit => "Best Long Side"@,
            PackingHeuristic::BestAreaFit => "Best Area"@,
            PackingHeuristic::BottomLeft => "Bottom Left"@,
            PackingHeuristic::ContactPoint => "Contact Point"@,
            PackingHeuristic::Best => "Best (try all)"@,
        }),
{
    match h {
        PackingHeuristic::BestShortSideFit => "Best Short Side",
        PackingHeuristic::BestLongSideFit => "Best Long Side",
        PackingHeuristic::BestAreaFit => "Best Area",
        PackingHeuristic::BottomLeft => "Bottom Left",
        PackingHeuristic::ContactPoint => "Contact Point",
        PackingHeuristic::Best => "Best (try all)",
    }
}

/// The name of a pack mode as a user reads it.
pub fn pack_mode_name(m: PackMode) -> (name: &'static str)
    ensures
        name@ == (match m {
            PackMode::Single => "Single"@,
            PackMode::Best => "Best"@,
        }),
{
    match m {
        PackMode::Single => "Single",
        PackMode::Best => "Best",
    }
}

} // verus!
