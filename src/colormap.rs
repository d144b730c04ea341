use vstd::prelude::*;
use vstd::string::StringSliceAdditionalSpecFns;
use vstd::utf8::{encode_utf8, encode_utf8_decode_utf8, is_ascii_chars, is_ascii_chars_encode_utf8};
use crate::error::ConfigError;

verus! {

/// True when the bytes of `a` are those of `b`.
fn bytes_equal(a: &[u8], b: &[u8]) -> (r: bool)
    ensures
        r == (a@ == b@),
{
    if a.len() != b.len() {
        return false;
    }
    let mut i: usize = 0;
    while i < a.len()
        invariant
            a@.len() == b@.len(),
            i <= a@.len(),
            forall|k: int| 0 <= k < i ==> a@[k] == b@[k],
        decreases a@.len() - i,
    {
        if a[i] != b[i] {
            return false;
        }
        i += 1;
    }
    assert(a@ =~= b@);
    true
}

/// True when `s` reads `text`, given `ascii` as the bytes of that ASCII text.
fn str_is(s: &str, ascii: &[u8], Ghost(text): Ghost<Seq<char>>) -> (r: bool)
    requires
        is_ascii_chars(text),
        ascii@.len() == text.len(),
        forall|i: int| 0 <= i < text.len() ==> ascii@[i] == text[i] as u8,
    ensures
        r == (s@ == text),
{
    proof {
        is_ascii_chars_encode_utf8(text);
        assert(ascii@ =~= encode_utf8(text));
        encode_utf8_decode_utf8(text);
        encode_utf8_decode_utf8(s@);
    }
    bytes_equal(s.as_bytes(), ascii)
}

/// A color with 8-bit channels: 0 is none of the channel, 255 all of it.
#[derive(Clone, Copy, Debug, PartialEq, Eq, Structural)]
pub struct Rgb8 {
    pub r: u8,
    pub g: u8,
    pub b: u8,
}

/// The palettes of the colormap table.
#[derive(Clone, Copy, Debug, PartialEq, Eq, Structural)]
pub enum Palette {
    /// Dark blue through blue, cyan, yellow and red to dark red.
    Jet,
    /// Cyan to magenta.
    Cool,
    /// Black through red and yellow to white.
    Hot,
    /// Magenta to yellow.
    Spring,
    /// Green to yellow.
    Summer,
    /// Red to yellow.
    Autumn,
    /// Blue to green.
    Winter,
    /// Black to white.
    Gray,
}

pub open spec fn rgb(r: u8, g: u8, b: u8) -> Rgb8 {
    Rgb8 { r, g, b }
}

/// The name under which the table lists palette `p`.
pub open spec fn palette_name(p: Palette) -> Seq<char> {
    match p {
        Palette::Jet => seq!['j', 'e', 't'],
        Palette::Cool => seq!['c', 'o', 'o', 'l'],
        Palette::Hot => seq!['h', 'o', 't'],
        Palette::Spring => seq!['s', 'p', 'r', 'i', 'n', 'g'],
        Palette::Summer => seq!['s', 'u', 'm', 'm', 'e', 'r'],
        Palette::Autumn => seq!['a', 'u', 't', 'u', 'm', 'n'],
        Palette::Winter => seq!['w', 'i', 'n', 't', 'e', 'r'],
        Palette::Gray => seq!['g', 'r', 'a', 'y'],
    }
}

/// The control points of palette `p`, evenly spaced from position 0 (the
/// first) to position 1 (the last).
pub open spec fn palette_points(p: Palette) -> Seq<Rgb8> {
    match p {
        Palette::Jet => seq![
            rgb(0, 0, 128),
            rgb(0, 0, 255),
            rgb(0, 128, 255),
            rgb(0, 255, 255),
            rgb(128, 255, 128),
            rgb(255, 255, 0),
            rgb(255, 128, 0),
            rgb(255, 0, 0),
            rgb(128, 0, 0),
        ],
        Palette::Cool => seq![rgb(0, 255, 255), rgb(255, 0, 255)],
        Palette::Hot => seq![
            rgb(0, 0, 0),
            rgb(85, 0, 0),
            rgb(170, 0, 0),
            rgb(255, 0, 0),
            rgb(255, 85, 0),
            rgb(255, 170, 0),
            rgb(255, 255, 0),
            rgb(255, 255, 128),
            rgb(255, 255, 255),
        ],
        Palette::Spring => seq![rgb(255, 0, 255), rgb(255, 255, 0)],
        Palette::Summer => seq![rgb(0, 128, 102), rgb(255, 255, 102)],
        Palette::Autumn => seq![rgb(255, 0, 0), rgb(255, 255, 0)],
        Palette::Winter => seq![rgb(0, 0, 255), rgb(0, 255, 128)],
        Palette::Gray => seq![rgb(0, 0, 0), rgb(255, 255, 255)],
    }
}

/// The palette that `name` selects, or `UnknownColormap` when the table
/// has none of that name.
pub open spec fn palette_named(name: Seq<char>) -> Result<Palette, ConfigError> {
    if name == palette_name(Palette::Jet) {
        Ok(Palette::Jet)
    } else if name == palette_name(Palette::Cool) {
        Ok(Palette::Cool)
    } else if name == palette_name(Palette::Hot) {
        Ok(Palette::Hot)
    } else if name == palette_name(Palette::Spring) {
        Ok(Palette::Spring)
    } else if name == palette_name(Palette::Summer) {
        Ok(Palette::Summer)
    } else if name == palette_name(Palette::Autumn) {
        Ok(Palette::Autumn)
    } else if name == palette_name(Palette::Winter) {
        Ok(Palette::Winter)
    } else if name == palette_name(Palette::Gray) {
        Ok(Palette::Gray)
    } else {
        Err(ConfigError::UnknownColormap)
    }
}

impl Palette {
    /// Looks a palette up by name; a name outside the table is a
    /// configuration error.
    pub fn from_name(name: &str) -> (r: Result<Palette, ConfigError>)
        ensures
            r == palette_named(name@),
    {
        let text: [u8; 3] = ['j' as u8, 'e' as u8, 't' as u8];
        if str_is(name, text.as_slice(), Ghost(palette_name(Palette::Jet))) {
            return Ok(Palette::Jet);
        }
        let text: [u8; 4] = ['c' as u8, 'o' as u8, 'o' as u8, 'l' as u8];
        if str_is(name, text.as_slice(), Ghost(palette_name(Palette::Cool))) {
            return Ok(Palette::Cool);
        }
        let text: [u8; 3] = ['h' as u8, 'o' as u8, 't' as u8];
        if str_is(name, text.as_slice(), Ghost(palette_name(Palette::Hot))) {
            return Ok(Palette::Hot);
        }
        let text: [u8; 6] = ['s' as u8, 'p' as u8, 'r' as u8, 'i' as u8, 'n' as u8, 'g' as u8];
        if str_is(name, text.as_slice(), Ghost(palette_name(Palette::Spring))) {
            return Ok(Palette::Spring);
        }
        let text: [u8; 6] = ['s' as u8, 'u' as u8, 'm' as u8, 'm' as u8, 'e' as u8, 'r' as u8];
        if str_is(name, text.as_slice(), Ghost(palette_name(Palette::Summer))) {
            return Ok(Palette::Summer);
        }
        let text: [u8; 6] = ['a' as u8, 'u' as u8, 't' as u8, 'u' as u8, 'm' as u8, 'n' as u8];
        if str_is(name, text.as_slice(), Ghost(palette_name(Palette::Autumn))) {
            return Ok(Palette::Autumn);
        }
        let text: [u8; 6] = ['w' as u8, 'i' as u8, 'n' as u8, 't' as u8, 'e' as u8, 'r' as u8];
        if str_is(name, text.as_slice(), Ghost(palette_name(Palette::Winter))) {
            return Ok(Palette::Winter);
        }
        let text: [u8; 4] = ['g' as u8, 'r' as u8, 'a' as u8, 'y' as u8];
        if str_is(name, text.as_slice(), Ghost(palette_name(Palette::Gray))) {
            return Ok(Palette::Gray);
        }
        Err(ConfigError::UnknownColormap)
    }

    /// The palette's name in the table.
    pub fn name(&self) -> (r: &'static str)
        ensures
            r@ == palette_name(*self),
    {
        match self {
            Palette::Jet => {
                proof {
                    reveal_strlit("jet");
                }
                "jet"
            },
            Palette::Cool => {
                proof {
                    reveal_strlit("cool");
                }
                "cool"
            },
            Palette::Hot => {
                proof {
                    reveal_strlit("hot");
                }
                "hot"
            },
            Palette::Spring => {
                proof {
                    reveal_strlit("spring");
                }
                "spring"
            },
            Palette::Summer => {
                proof {
                    reveal_strlit("summer");
                }
                "summer"
            },
            Palette::Autumn => {
                proof {
                    reveal_strlit("autumn");
                }
                "autumn"
            },
            Palette::Winter => {
                proof {
                    reveal_strlit("winter");
                }
                "winter"
            },
            Palette::Gray => {
                proof {
                    reveal_strlit("gray");
                }
                "gray"
            },
        }
    }

    /// The palette's control points, first to last.
    pub fn control_points(&self) -> (r: Vec<Rgb8>)
        ensures
            r@ == palette_points(*self),
    {
        let mut v: Vec<Rgb8> = Vec::new();
        match self {
            Palette::Jet => {
                v.push(Rgb8 { r: 0, g: 0, b: 128 });
                v.push(Rgb8 { r: 0, g: 0, b: 255 });
                v.push(Rgb8 { r: 0, g: 128, b: 255 });
                v.push(Rgb8 { r: 0, g: 255, b: 255 });
                v.push(Rgb8 { r: 128, g: 255, b: 128 });
                v.push(Rgb8 { r: 255, g: 255, b: 0 });
                v.push(Rgb8 { r: 255, g: 128, b: 0 });
                v.push(Rgb8 { r: 255, g: 0, b: 0 });
                v.push(Rgb8 { r: 128, g: 0, b: 0 });
            },
            Palette::Cool => {
                v.push(Rgb8 { r: 0, g: 255, b: 255 });
                v.push(Rgb8 { r: 255, g: 0, b: 255 });
            },
            Palette::Hot => {
                v.push(Rgb8 { r: 0, g: 0, b: 0 });
                v.push(Rgb8 { r: 85, g: 0, b: 0 });
                v.push(Rgb8 { r: 170, g: 0, b: 0 });
                v.push(Rgb8 { r: 255, g: 0, b: 0 });
                v.push(Rgb8 { r: 255, g: 85, b: 0 });
                v.push(Rgb8 { r: 255, g: 170, b: 0 });
                v.push(Rgb8 { r: 255, g: 255, b: 0 });
                v.push(Rgb8 { r: 255, g: 255, b: 128 });
                v.push(Rgb8 { r: 255, g: 255, b: 255 });
            },
            Palette::Spring => {
                v.push(Rgb8 { r: 255, g: 0, b: 255 });
                v.push(Rgb8 { r: 255, g: 255, b: 0 });
            },
            Palette::Summer => {
                v.push(Rgb8 { r: 0, g: 128, b: 102 });
                v.push(Rgb8 { r: 255, g: 255, b: 102 });
            },
            Palette::Autumn => {
                v.push(Rgb8 { r: 255, g: 0, b: 0 });
                v.push(Rgb8 { r: 255, g: 255, b: 0 });
            },
            Palette::Winter => {
                v.push(Rgb8 { r: 0, g: 0, b: 255 });
                v.push(Rgb8 { r: 0, g: 255, b: 128 });
            },
            Palette::Gray => {
                v.push(Rgb8 { r: 0, g: 0, b: 0 });
                v.push(Rgb8 { r: 255, g: 255, b: 255 });
            },
        }
        assert(v@ =~= palette_points(*self));
        v
    }
}

/// Every palette can be found under its own name.
pub proof fn lemma_palette_name_round_trip(p: Palette)
    ensures
        palette_named(palette_name(p)) == Ok::<Palette, ConfigError>(p),
{
}

/// Every palette has at least two control points, so that any position in
/// `[0, 1]` lies between two of them.
pub proof fn lemma_palette_has_two_points(p: Palette)
    ensures
        palette_points(p).len() >= 2,
{
}

} // verus!
