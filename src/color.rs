//! Colours of particles: eight-bit channels and an exact fractional alpha.
use crate::random::random_between;
use rand::rngs::StdRng;
use vstd::prelude::*;
use vstd::string::StringSliceAdditionalSpecFns;

verus! {

/// An exact opacity `num / den`.
#[derive(Debug, Clone, Copy, PartialEq, Eq, Structural)]
pub struct Alpha {
    pub num: u64,
    pub den: u64,
}

#[derive(Debug, Clone, Copy, PartialEq, Eq, Structural)]
pub struct Color {
    pub r: u8,
    pub g: u8,
    pub b: u8,
    pub a: Alpha,
}

impl Alpha {
    pub open spec fn wf(self) -> bool {
        0 < self.den && self.num <= self.den
    }

    pub open spec fn opaque_spec() -> Alpha {
        Alpha { num: 1, den: 1 }
    }

    pub fn opaque() -> (r: Alpha)
        ensures
            r == Alpha::opaque_spec(),
    {
        Alpha { num: 1, den: 1 }
    }
}

impl Color {
    pub open spec fn wf(self) -> bool {
        self.a.wf()
    }

    /// An opaque colour.
    pub fn rgb(r: u8, g: u8, b: u8) -> (c: Color)
        ensures
            c == (Color { r, g, b, a: Alpha { num: 1, den: 1 } }),
            c.wf(),
    {
        Color { r, g, b, a: Alpha::opaque() }
    }

    pub open spec fn white_spec() -> Color {
        Color { r: 255, g: 255, b: 255, a: Alpha { num: 1, den: 1 } }
    }

    pub fn white() -> (c: Color)
        ensures
            c == Color::white_spec(),
            c.wf(),
    {
        Color::rgb(255, 255, 255)
    }
}

pub open spec fn same_rgb(left: Color, right: Color) -> bool {
    left.r == right.r && left.g == right.g && left.b == right.b
}

/// Whether two colours agree in red, green and blue.
pub fn compare_colors_ignoring_alpha(left: Color, right: Color) -> (r: bool)
    ensures
        r == same_rgb(left, right),
{
    left.r == right.r && left.g == right.g && left.b == right.b
}

/// Hue steps in one full turn: six sectors of 255 steps.
pub const HUE_TURN: u32 = 1530;

/// The red, green and blue channels of the fully saturated, full-value
/// colour of hue `h` (in steps of `1 / HUE_TURN` of a turn).
pub open spec fn hue_rgb(h: int) -> (int, int, int) {
    let f = h % 255;
    let sector = h / 255;
    if sector == 0 {
        (255, f, 0)
    } else if sector == 1 {
        (255 - f, 255, 0)
    } else if sector == 2 {
        (0, 255, f)
    } else if sector == 3 {
        (0, 255 - f, 255)
    } else if sector == 4 {
        (f, 0, 255)
    } else {
        (255, 0, 255 - f)
    }
}

/// The opaque colour of hue `h`.
pub open spec fn hue_color_spec(h: int) -> Color {
    Color {
        r: hue_rgb(h).0 as u8,
        g: hue_rgb(h).1 as u8,
        b: hue_rgb(h).2 as u8,
        a: Alpha { num: 1, den: 1 },
    }
}

/// The opaque, fully saturated colour of hue `h`.
pub fn hue_color(h: u32) -> (c: Color)
    requires
        h < HUE_TURN,
    ensures
        c == hue_color_spec(h as int),
        c.wf(),
{
    let f: u8 = (h % 255) as u8;
    let sector = h / 255;
    if sector == 0 {
        Color::rgb(255, f, 0)
    } else if sector == 1 {
        Color::rgb(255 - f, 255, 0)
    } else if sector == 2 {
        Color::rgb(0, 255, f)
    } else if sector == 3 {
        Color::rgb(0, 255 - f, 255)
    } else if sector == 4 {
        Color::rgb(f, 0, 255)
    } else {
        Color::rgb(255, 0, 255 - f)
    }
}

/// A hue drawn uniformly from the whole turn.
pub fn random_hue(rng: &mut StdRng) -> (h: u32)
    ensures
        h < HUE_TURN,
{
    random_between(rng, 0, (HUE_TURN - 1) as i64) as u32
}

/// `c` is the opaque colour of some hue of the turn.
pub open spec fn hue_colored(c: Color) -> bool {
    exists|h: int| 0 <= h < HUE_TURN && c == #[trigger] hue_color_spec(h)
}

/// A random opaque, fully saturated colour.
pub fn random_color(rng: &mut StdRng) -> (c: Color)
    ensures
        hue_colored(c),
        c.wf(),
{
    let h = random_hue(rng);
    hue_color(h)
}

/// The signed distance from hue `new` to hue `old`, taken the short way
/// round: `old - new` brought into `[-HUE_TURN / 2, HUE_TURN / 2]`.
pub open spec fn hue_delta(old: int, new: int) -> int {
    let d = old - new;
    if d > HUE_TURN / 2 {
        d - HUE_TURN
    } else if d < -(HUE_TURN / 2) {
        d + HUE_TURN
    } else {
        d
    }
}

/// The least hue distance that counts as distinct: a fifth of a turn.
pub const HUE_DISTINCT: u32 = 306;

/// The hue `d` steps below `old`, going round the turn.
pub open spec fn hue_below(old: int, d: int) -> int {
    if old >= d {
        old - d
    } else {
        old - d + HUE_TURN
    }
}

/// The hue `d` steps below `old`, where `d` lies strictly between a fifth
/// and a half of a turn.
pub fn distinct_hue(old: u32, d: u32) -> (h: u32)
    requires
        old < HUE_TURN,
        HUE_DISTINCT < d < HUE_TURN / 2,
    ensures
        h == hue_below(old as int, d as int),
        h < HUE_TURN,
        HUE_DISTINCT < hue_delta(old as int, h as int) <= HUE_TURN / 2,
{
    if old >= d {
        old - d
    } else {
        old + HUE_TURN - d
    }
}

/// A random hue that lies more than a fifth of a turn below `other_hue`,
/// with the colour of that hue.
pub fn random_distinct_color(rng: &mut StdRng, other_hue: u32) -> (r: (u32, Color))
    requires
        other_hue < HUE_TURN,
    ensures
        r.0 < HUE_TURN,
        r.1 == hue_color_spec(r.0 as int),
        HUE_DISTINCT < hue_delta(other_hue as int, r.0 as int) <= HUE_TURN / 2,
        !same_rgb(r.1, hue_color_spec(other_hue as int)),
{
    let d = random_between(rng, (HUE_DISTINCT + 1) as i64, (HUE_TURN / 2 - 1) as i64) as u32;
    let h = distinct_hue(other_hue, d);
    proof {
        lemma_distinct_hues_differ(other_hue as int, h as int);
    }
    (h, hue_color(h))
}

/// Two different hues of the turn give different colours.
pub proof fn lemma_distinct_hues_differ(a: int, b: int)
    requires
        0 <= a < HUE_TURN,
        0 <= b < HUE_TURN,
        a != b,
    ensures
        !same_rgb(hue_color_spec(a), hue_color_spec(b)),
{
    assert(a == (a / 255) * 255 + a % 255) by {
        vstd::arithmetic::div_mod::lemma_fundamental_div_mod(a, 255);
    }
    assert(b == (b / 255) * 255 + b % 255) by {
        vstd::arithmetic::div_mod::lemma_fundamental_div_mod(b, 255);
    }
    assert(0 <= a % 255 < 255 && 0 <= b % 255 < 255) by {
        vstd::arithmetic::div_mod::lemma_mod_bound(a, 255);
        vstd::arithmetic::div_mod::lemma_mod_bound(b, 255);
    }
    assert(0 <= a / 255 < 6 && 0 <= b / 255 < 6) by {
        vstd::arithmetic::div_mod::lemma_div_pos_is_pos(a, 255);
        vstd::arithmetic::div_mod::lemma_div_pos_is_pos(b, 255);
        vstd::arithmetic::div_mod::lemma_multiply_divide_lt(a, 255, 6);
        vstd::arithmetic::div_mod::lemma_multiply_divide_lt(b, 255, 6);
    }
}

/// The opacity of a particle with `k` particles around it, for a target
/// density `d`: `clamp(k / d, 0, 1)` squared. A target of zero gives full
/// opacity.
pub open spec fn density_alpha_spec(k: int, d: int) -> Alpha {
    if d == 0 {
        Alpha { num: 1, den: 1 }
    } else {
        let m = if k < d {
            k
        } else {
            d
        };
        Alpha { num: (m * m) as u64, den: (d * d) as u64 }
    }
}

/// The density opacity for a neighbourhood of `k` particles and the target
/// density `target_display_density`.
pub fn density_alpha(k: usize, target_display_density: u64) -> (a: Alpha)
    requires
        target_display_density < 0x1_0000_0000,
    ensures
        a == density_alpha_spec(k as int, target_display_density as int),
        a.wf(),
{
    let d = target_display_density;
    if d == 0 {
        Alpha::opaque()
    } else {
        let m: u64 = if (k as u128) < (d as u128) {
            k as u64
        } else {
            d
        };
        assert(m * m <= d * d < 0x1_0000_0000_0000_0000) by (nonlinear_arith)
            requires
                m <= d,
                d < 0x1_0000_0000,
        ;
        assert(0 < d * d) by (nonlinear_arith)
            requires
                0 < d,
        ;
        Alpha { num: m * m, den: d * d }
    }
}

/// The hue, in turn steps, of the largest temperature.
pub const HUE_HOTTEST: u32 = 1377;

/// The temperature hue of a particle moving at `speed` where `target` is the
/// configured speed: `(speed / target - 1/2) / 50` of a turn, at least zero
/// and at most nine tenths. A target of zero or less gives the hottest hue.
pub open spec fn temperature_hue_spec(speed: int, target: int) -> int {
    if target <= 0 {
        HUE_HOTTEST as int
    } else {
        let excess = if 2 * speed - target > 0 {
            2 * speed - target
        } else {
            0
        };
        let h = excess * HUE_TURN / (100 * target);
        if h > HUE_HOTTEST {
            HUE_HOTTEST as int
        } else {
            h
        }
    }
}

/// The temperature hue of a particle's speed.
pub fn temperature_hue(speed: i64, target: i64) -> (h: u32)
    requires
        0 <= speed,
    ensures
        h == temperature_hue_spec(speed as int, target as int),
        h <= HUE_HOTTEST,
{
    if target <= 0 {
        HUE_HOTTEST
    } else {
        let excess: i128 = if 2 * (speed as i128) - target as i128 > 0 {
            2 * (speed as i128) - target as i128
        } else {
            0
        };
        assert(0 <= excess <= 0x1_0000_0000_0000_0000);
        let turn: i128 = HUE_TURN as i128;
        assert(excess * turn <= 0x1_0000_0000_0000_0000 * 1530) by (nonlinear_arith)
            requires
                0 <= excess <= 0x1_0000_0000_0000_0000,
                turn == 1530,
        ;
        let num: i128 = excess * turn;
        let den: i128 = 100 * target as i128;
        proof {
            vstd::arithmetic::div_mod::lemma_div_pos_is_pos(num as int, den as int);
        }
        let h: i128 = num / den;
        if h > HUE_HOTTEST as i128 {
            HUE_HOTTEST
        } else {
            h as u32
        }
    }
}

/// Why a colour text was refused.
#[derive(Debug, Clone, Copy, PartialEq, Eq, Structural)]
pub enum ColorError {
    MissingHash,
    TooShort,
    InvalidDigit,
}

/// The value of a hexadecimal digit, in either case.
pub open spec fn hex_value(b: u8) -> Option<int> {
    if 48 <= b <= 57 {
        Some(b - 48)
    } else if 97 <= b <= 102 {
        Some(b - 87)
    } else if 65 <= b <= 70 {
        Some(b - 55)
    } else {
        None
    }
}

fn hex_digit(b: u8) -> (r: Option<u8>)
    ensures
        r is Some <==> hex_value(b) is Some,
        r is Some ==> r->0 == hex_value(b)->0 && r->0 < 16,
{
    if 48 <= b && b <= 57 {
        Some(b - 48)
    } else if 97 <= b && b <= 102 {
        Some(b - 87)
    } else if 65 <= b && b <= 70 {
        Some(b - 55)
    } else {
        None
    }
}

/// The channel written by the two digits at `i` and `i + 1`.
pub open spec fn channel_at(s: Seq<u8>, i: int) -> Option<int> {
    match (hex_value(s[i]), hex_value(s[i + 1])) {
        (Some(h), Some(l)) => Some(16 * h + l),
        _ => None,
    }
}

/// What a colour text `#rrggbb…` denotes: the six digits after the hash,
/// two per channel; characters after the seventh are ignored.
pub open spec fn parse_hex_spec(s: Seq<u8>) -> Result<Color, ColorError> {
    if s.len() == 0 || s[0] != 35 {
        Err(ColorError::MissingHash)
    } else if s.len() < 7 {
        Err(ColorError::TooShort)
    } else {
        match (channel_at(s, 1), channel_at(s, 3), channel_at(s, 5)) {
            (Some(r), Some(g), Some(b)) => Ok(
                Color { r: r as u8, g: g as u8, b: b as u8, a: Alpha { num: 1, den: 1 } },
            ),
            _ => Err(ColorError::InvalidDigit),
        }
    }
}

fn channel(s: &[u8], i: usize) -> (r: Option<u8>)
    requires
        i + 1 < s@.len(),
    ensures
        r is Some <==> channel_at(s@, i as int) is Some,
        r is Some ==> r->0 == channel_at(s@, i as int)->0,
{
    match (hex_digit(s[i]), hex_digit(s[i + 1])) {
        (Some(h), Some(l)) => Some(16 * h + l),
        _ => None,
    }
}

/// Reads an opaque colour from text of the form `#rrggbb`.
pub fn color_from_hex(color_hex: &str) -> (r: Result<Color, ColorError>)
    ensures
        r == parse_hex_spec(color_hex.spec_bytes()),
{
    let s = color_hex.as_bytes();
    if s.len() == 0 || s[0] != 35 {
        return Err(ColorError::MissingHash);
    }
    if s.len() < 7 {
        return Err(ColorError::TooShort);
    }
    match (channel(s, 1), channel(s, 3), channel(s, 5)) {
        (Some(r), Some(g), Some(b)) => Ok(Color::rgb(r, g, b)),
        _ => Err(ColorError::InvalidDigit),
    }
}

} // verus!
