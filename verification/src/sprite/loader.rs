use vstd::prelude::*;

verus! {

/// The lower-case form of an ASCII letter; every other character stays.
pub open spec fn ascii_lower(c: char) -> char {
    if c == 'A' {
        'a'
    } else if c == 'B' {
        'b'
    } else if c == 'C' {
        'c'
    } else if c == 'D' {
        'd'
    } else if c == 'E' {
        'e'
    } else if c == 'F' {
        'f'
    } else if c == 'G' {
        'g'
    } else if c == 'H' {
        'h'
    } else if c == 'I' {
        'i'
    } else if c == 'J' {
        'j'
    } else if c == 'K' {
        'k'
    } else if c == 'L' {
        'l'
    } else if c == 'M' {
        'm'
    } else if c == 'N' {
        'n'
    } else if c == 'O' {
        'o'
    } else if c == 'P' {
        'p'
    } else if c == 'Q' {
        'q'
    } else if c == 'R' {
        'r'
    } else if c == 'S' {
        's'
    } else if c == 'T' {
        't'
    } else if c == 'U' {
        'u'
    } else if c == 'V' {
        'v'
    } else if c == 'W' {
        'w'
    } else if c == 'X' {
        'x'
    } else if c == 'Y' {
        'y'
    } else if c == 'Z' {
        'z'
    } else {
        c
    }
}

/// The two texts are the same but for the case of ASCII letters.
pub open spec fn same_ignoring_case(a: Seq<char>, b: Seq<char>) -> bool {
    &&& a.len() == b.len()
    &&& forall|i: int| 0 <= i < a.len() ==> ascii_lower(#[trigger] a[i]) == ascii_lower(b[i])
}

/// The extension is that of an image format that can be loaded: `png`,
/// `jpg`, `jpeg`, `gif`, `bmp` or `webp`, in any case.
pub open spec fn is_image_extension(ext: Seq<char>) -> bool {
    ||| same_ignoring_case(ext, "png"@)
    ||| same_ignoring_case(ext, "jpg"@)
    ||| same_ignoring_case(ext, "jpeg"@)
    ||| same_ignoring_case(ext, "gif"@)
    ||| same_ignoring_case(ext, "bmp"@)
    ||| same_ignoring_case(ext, "webp"@)
}

fn to_ascii_lower(c: char) -> (l: char)
    ensures
        l == ascii_lower(c),
{
    if c == 'A' {
        'a'
    } else if c == 'B' {
        'b'
    } else if c == 'C' {
        'c'
    } else if c == 'D' {
        'd'
    } else if c == 'E' {
        'e'
    } else if c == 'F' {
        'f'
    } else if c == 'G' {
        'g'
    } else if c == 'H' {
        'h'
    } else if c == 'I' {
        'i'
    } else if c == 'J' {
        'j'
    } else if c == 'K' {
        'k'
    } else if c == 'L' {
        'l'
    } else if c == 'M' {
        'm'
    } else if c == 'N' {
        'n'
    } else if c == 'O' {
        'o'
    } else if c == 'P' {
        'p'
    } else if c == 'Q' {
        'q'
    } else if c == 'R' {
        'r'
    } else if c == 'S' {
        's'
    } else if c == 'T' {
        't'
    } else if c == 'U' {
        'u'
    } else if c == 'V' {
        'v'
    } else if c == 'W' {
        'w'
    } else if c == 'X' {
        'x'
    } else if c == 'Y' {
        'y'
    } else if c == 'Z' {
        'z'
    } else {
        c
    }
}

/// Whether two texts are the same but for the case of ASCII letters.
pub fn eq_ignoring_case(a: &str, b: &str) -> (r: bool)
    ensures
        r == same_ignoring_case(a@, b@),
{
    let ghost s = a@;
    let ghost t = b@;
    let limit: usize = b.unicode_len();
    let mut i: usize = 0;
    let mut same: bool = true;
    for c in it: a.chars()
        invariant
            it.seq() == s,
            s == a@,
            t == b@,
            limit == t.len(),
            same ==> i == it.index() && i <= limit,
            same ==> forall|k: int| 0 <= k < i ==> ascii_lower(#[trigger] s[k]) == ascii_lower(t[k]),
            !same ==> !same_ignoring_case(s, t),
    {
        if same {
            if i >= limit {
                same = false;
            } else {
                let other: char = b.get_char(i);
                if to_ascii_lower(c) != to_ascii_lower(other) {
                    same = false;
                } else {
                    i = i + 1;
                }
            }
        }
    }
    same && i == limit
}

/// Check if a file extension is that of a supported image format
pub fn is_supported_extension(ext: &str) -> (b: bool)
    ensures
        b == is_image_extension(ext@),
{
    eq_ignoring_case(ext, "png") || eq_ignoring_case(ext, "jpg") || eq_ignoring_case(ext, "jpeg")
        || eq_ignoring_case(ext, "gif") || eq_ignoring_case(ext, "bmp") || eq_ignoring_case(
        ext,
        "webp",
    )
}

} // verus!
