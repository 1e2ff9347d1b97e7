use vstd::prelude::*;

use crate::termcore::cell::Color;

verus! {

/// The eight normal colours of the ANSI palette; any other index is white.
pub open spec fn ansi_color_spec(n: int) -> Color {
    if n == 0 {
        Color { r: 0, g: 0, b: 0 }
    } else if n == 1 {
        Color { r: 205, g: 49, b: 49 }
    } else if n == 2 {
        Color { r: 13, g: 188, b: 121 }
    } else if n == 3 {
        Color { r: 229, g: 229, b: 16 }
    } else if n == 4 {
        Color { r: 36, g: 114, b: 200 }
    } else if n == 5 {
        Color { r: 188, g: 63, b: 188 }
    } else if n == 6 {
        Color { r: 17, g: 168, b: 205 }
    } else if n == 7 {
        Color { r: 229, g: 229, b: 229 }
    } else {
        Color::white_spec()
    }
}

/// The eight bright colours of the ANSI palette; any other index is white.
pub open spec fn ansi_bright_color_spec(n: int) -> Color {
    if n == 0 {
        Color { r: 102, g: 102, b: 102 }
    } else if n == 1 {
        Color { r: 241, g: 76, b: 76 }
    } else if n == 2 {
        Color { r: 35, g: 209, b: 139 }
    } else if n == 3 {
        Color { r: 245, g: 245, b: 67 }
    } else if n == 4 {
        Color { r: 59, g: 142, b: 234 }
    } else if n == 5 {
        Color { r: 214, g: 112, b: 214 }
    } else if n == 6 {
        Color { r: 41, g: 184, b: 219 }
    } else if n == 7 {
        Color { r: 255, g: 255, b: 255 }
    } else {
        Color::white_spec()
    }
}

/// The intensity of level `v` (0 to 5) of one axis of the 6x6x6 colour cube.
pub open spec fn cube_level_spec(v: int) -> int {
    if v == 0 {
        0
    } else {
        55 + v * 40
    }
}

/// The xterm 256-colour palette: the 16 ANSI colours, then a 6x6x6 colour cube indexed
/// red-major, then 24 shades of grey from 8 to 238 in steps of 10.
pub open spec fn color_256_spec(n: u8) -> Color {
    if n < 8 {
        ansi_color_spec(n as int)
    } else if n < 16 {
        ansi_bright_color_spec(n - 8)
    } else if n < 232 {
        let k = n - 16;
        Color {
            r: cube_level_spec((k / 36) % 6) as u8,
            g: cube_level_spec((k / 6) % 6) as u8,
            b: cube_level_spec(k % 6) as u8,
        }
    } else {
        let gray = (8 + (n - 232) * 10) as u8;
        Color { r: gray, g: gray, b: gray }
    }
}

/// The normal ANSI colour with index `n` (0 to 7); white for any other index.
pub fn ansi_color(n: u16) -> (c: Color)
    ensures
        c == ansi_color_spec(n as int),
{
    match n {
        0 => Color::new(0, 0, 0),
        1 => Color::new(205, 49, 49),
        2 => Color::new(13, 188, 121),
        3 => Color::new(229, 229, 16),
        4 => Color::new(36, 114, 200),
        5 => Color::new(188, 63, 188),
        6 => Color::new(17, 168, 205),
        7 => Color::new(229, 229, 229),
        _ => Color::white(),
    }
}

/// The bright ANSI colour with index `n` (0 to 7); white for any other index.
pub fn ansi_bright_color(n: u16) -> (c: Color)
    ensures
        c == ansi_bright_color_spec(n as int),
{
    match n {
        0 => Color::new(102, 102, 102),
        1 => Color::new(241, 76, 76),
        2 => Color::new(35, 209, 139),
        3 => Color::new(245, 245, 67),
        4 => Color::new(59, 142, 234),
        5 => Color::new(214, 112, 214),
        6 => Color::new(41, 184, 219),
        7 => Color::new(255, 255, 255),
        _ => Color::white(),
    }
}

fn cube_level(v: u8) -> (level: u8)
    requires
        v < 6,
    ensures
        level == cube_level_spec(v as int),
{
    if v == 0 {
        0
    } else {
        55 + v * 40
    }
}

/// The colour with index `n` of the xterm 256-colour palette.
pub fn color_256(n: u8) -> (c: Color)
    ensures
        c == color_256_spec(n),
        n < 8 ==> c == ansi_color_spec(n as int),
        8 <= n < 16 ==> c == ansi_bright_color_spec(n - 8),
{
    if n <= 15 {
        if n < 8 {
            ansi_color(n as u16)
        } else {
            ansi_bright_color((n - 8) as u16)
        }
    } else if n <= 231 {
        let k = n - 16;
        let r = (k / 36) % 6;
        let g = (k / 6) % 6;
        let b = k % 6;
        Color::new(cube_level(r), cube_level(g), cube_level(b))
    } else {
        let gray = 8 + (n - 232) * 10;
        Color::new(gray, gray, gray)
    }
}

/// The eight ANSI colours follow the bits of their index: bit 0 is red, bit 1 green and
/// bit 2 blue. A channel whose bit is set is strong (at least 150) and one whose bit is clear
/// is weak (below 150), in the normal and the bright set alike; each bright colour is
/// stronger than its normal one in every channel.
pub proof fn lemma_ansi_colors_follow_index_bits(n: int)
    requires
        0 <= n < 8,
    ensures
        (ansi_color_spec(n).r >= 150) == (n % 2 == 1),
        (ansi_color_spec(n).g >= 150) == ((n / 2) % 2 == 1),
        (ansi_color_spec(n).b >= 150) == ((n / 4) % 2 == 1),
        (ansi_bright_color_spec(n).r >= 150) == (n % 2 == 1),
        (ansi_bright_color_spec(n).g >= 150) == ((n / 2) % 2 == 1),
        (ansi_bright_color_spec(n).b >= 150) == ((n / 4) % 2 == 1),
        ansi_bright_color_spec(n).r > ansi_color_spec(n).r,
        ansi_bright_color_spec(n).g > ansi_color_spec(n).g,
        ansi_bright_color_spec(n).b > ansi_color_spec(n).b,
{
}

/// An index past the eight ANSI colours gives white, in the normal and the bright set.
pub proof fn lemma_ansi_out_of_range_is_white(n: int)
    requires
        n >= 8,
    ensures
        ansi_color_spec(n) == (Color { r: 255, g: 255, b: 255 }),
        ansi_bright_color_spec(n) == (Color { r: 255, g: 255, b: 255 }),
{
}

/// The grey ramp of the 256-colour palette: each grey has three equal channels, the first is
/// 8 and each next one is 10 brighter.
pub proof fn lemma_grey_ramp(n: u8)
    requires
        232 <= n,
    ensures
        color_256_spec(n).r == color_256_spec(n).g == color_256_spec(n).b,
        n == 232 ==> color_256_spec(n).r == 8,
        n < 255 ==> color_256_spec((n + 1) as u8).r == color_256_spec(n).r + 10,
{
}

/// The colour cube of the 256-colour palette: every channel is one of 0, 95, 135, 175, 215,
/// 255; the next index raises blue one step and keeps red and green (within a row of six),
/// six further raises green and keeps red and blue (within a block of 36), and 36 further
/// raises red and keeps green and blue.
pub proof fn lemma_color_cube_steps(n: u8)
    requires
        16 <= n < 232,
    ensures
        is_cube_level(color_256_spec(n).r as int),
        is_cube_level(color_256_spec(n).g as int),
        is_cube_level(color_256_spec(n).b as int),
        n == 16 ==> color_256_spec(n) == (Color { r: 0, g: 0, b: 0 }),
        n == 231 ==> color_256_spec(n) == (Color { r: 255, g: 255, b: 255 }),
        (n - 16) % 6 != 5 ==> {
            let c = color_256_spec(n);
            let d = color_256_spec((n + 1) as u8);
            d.r == c.r && d.g == c.g && d.b > c.b
        },
        ((n - 16) / 6) % 6 != 5 ==> {
            let c = color_256_spec(n);
            let d = color_256_spec((n + 6) as u8);
            d.r == c.r && d.b == c.b && d.g > c.g
        },
        n + 36 < 232 ==> {
            let c = color_256_spec(n);
            let d = color_256_spec((n + 36) as u8);
            d.g == c.g && d.b == c.b && d.r > c.r
        },
{
    let k = n - 16;
    assert(0 <= (k / 36) % 6 < 6 && 0 <= (k / 6) % 6 < 6 && 0 <= k % 6 < 6);
    if k % 6 != 5 {
        assert((k + 1) % 6 == k % 6 + 1 && (k + 1) / 6 == k / 6 && (k + 1) / 36 == k / 36)
            by (nonlinear_arith)
            requires
                0 <= k,
                k % 6 != 5,
        ;
    }
    if (k / 6) % 6 != 5 {
        assert((k + 6) % 6 == k % 6 && ((k + 6) / 6) % 6 == (k / 6) % 6 + 1 && (k + 6) / 36
            == k / 36) by (nonlinear_arith)
            requires
                0 <= k,
                (k / 6) % 6 != 5,
        ;
    }
    if n + 36 < 232 {
        assert((k + 36) % 6 == k % 6 && ((k + 36) / 6) % 6 == (k / 6) % 6 && (k + 36) / 36
            == k / 36 + 1) by (nonlinear_arith)
            requires
                0 <= k,
        ;
    }
}

/// One of the six intensities of an axis of the colour cube.
pub open spec fn is_cube_level(v: int) -> bool {
    v == 0 || v == 95 || v == 135 || v == 175 || v == 215 || v == 255
}

} // verus!
