//! The single place that defines the hub's look: a warm palette, hierarchy by
//! bold and dim contrast, accent reserved for focus and state.

use vstd::prelude::*;

verus! {

/// A colour by its three channels.
#[derive(Clone, Copy, Debug, PartialEq, Eq, Structural)]
pub struct Rgb {
    pub r: u8,
    pub g: u8,
    pub b: u8,
}

/// How a piece of text is drawn. What is absent is left as it was.
#[derive(Clone, Copy, Debug, PartialEq, Eq, Structural)]
pub struct Style {
    pub fg: Option<Rgb>,
    pub bg: Option<Rgb>,
    pub bold: bool,
}

impl Style {
    /// No styling at all.
    #[verifier::allow_in_spec]
    pub fn plain() -> Style
        returns
            (Style { fg: None, bg: None, bold: false }),
    {
        Style { fg: None, bg: None, bold: false }
    }

    /// A foreground colour alone.
    #[verifier::allow_in_spec]
    pub fn fg(r: u8, g: u8, b: u8) -> Style
        returns
            (Style { fg: Some(Rgb { r, g, b }), bg: None, bold: false }),
    {
        Style { fg: Some(Rgb { r, g, b }), bg: None, bold: false }
    }

    /// The same style in bold.
    #[verifier::allow_in_spec]
    pub fn bolded(self) -> Style
        returns
            (Style { fg: self.fg, bg: self.bg, bold: true }),
    {
        Style { fg: self.fg, bg: self.bg, bold: true }
    }

    /// This style with everything that `over` sets put on top.
    #[verifier::allow_in_spec]
    pub fn patch(self, over: Style) -> Style
        returns
            (Style {
                fg: if over.fg is Some {
                    over.fg
                } else {
                    self.fg
                },
                bg: if over.bg is Some {
                    over.bg
                } else {
                    self.bg
                },
                bold: self.bold || over.bold,
            }),
    {
        Style {
            fg: if over.fg.is_some() {
                over.fg
            } else {
                self.fg
            },
            bg: if over.bg.is_some() {
                over.bg
            } else {
                self.bg
            },
            bold: self.bold || over.bold,
        }
    }
}

/// The hub's background and default text.
#[verifier::allow_in_spec]
pub fn bg() -> Style
    returns
        (Style {
            fg: Some(Rgb { r: 0xe9, g: 0xe3, b: 0xd8 }),
            bg: Some(Rgb { r: 0x16, g: 0x13, b: 0x0f }),
            bold: false,
        }),
{
    Style {
        fg: Some(Rgb { r: 0xe9, g: 0xe3, b: 0xd8 }),
        bg: Some(Rgb { r: 0x16, g: 0x13, b: 0x0f }),
        bold: false,
    }
}

/// Ordinary text.
#[verifier::allow_in_spec]
pub fn text() -> Style
    returns
        Style::fg(0xe9, 0xe3, 0xd8),
{
    Style::fg(0xe9, 0xe3, 0xd8)
}

/// Secondary text.
#[verifier::allow_in_spec]
pub fn dim() -> Style
    returns
        Style::fg(0x8a, 0x81, 0x78),
{
    Style::fg(0x8a, 0x81, 0x78)
}

/// Barely visible text.
#[verifier::allow_in_spec]
pub fn faint() -> Style
    returns
        Style::fg(0x57, 0x4f, 0x47),
{
    Style::fg(0x57, 0x4f, 0x47)
}

/// The accent, bold.
#[verifier::allow_in_spec]
pub fn accent() -> Style
    returns
        Style::fg(0xd9, 0x77, 0x57).bolded(),
{
    Style::fg(0xd9, 0x77, 0x57).bolded()
}

/// The dark end of the accent.
#[verifier::allow_in_spec]
pub fn accent_dim() -> Style
    returns
        Style::fg(0xa8, 0x5e, 0x44),
{
    Style::fg(0xa8, 0x5e, 0x44)
}

/// The soft end of the accent.
#[verifier::allow_in_spec]
pub fn accent_soft() -> Style
    returns
        Style::fg(0xe8, 0xa9, 0x8f),
{
    Style::fg(0xe8, 0xa9, 0x8f)
}

/// Something needs attention.
#[verifier::allow_in_spec]
pub fn alert() -> Style
    returns
        Style::fg(0xcf, 0x6b, 0x54),
{
    Style::fg(0xcf, 0x6b, 0x54)
}

/// Selected tab: accent text, bold, no full-width bar.
#[verifier::allow_in_spec]
pub fn selected_tab() -> Style
    returns
        Style::fg(0xd9, 0x77, 0x57).bolded(),
{
    Style::fg(0xd9, 0x77, 0x57).bolded()
}

/// Focused row in a list: a background bar, so that focus does not collide with
/// accent-coloured state markers.
#[verifier::allow_in_spec]
pub fn selection() -> Style
    returns
        (Style { fg: None, bg: Some(Rgb { r: 0x33, g: 0x2c, b: 0x24 }), bold: false }),
{
    Style { fg: None, bg: Some(Rgb { r: 0x33, g: 0x2c, b: 0x24 }), bold: false }
}

/// Background of modal and spinner surfaces.
#[verifier::allow_in_spec]
pub fn panel() -> Style
    returns
        (Style {
            fg: Some(Rgb { r: 0xe9, g: 0xe3, b: 0xd8 }),
            bg: Some(Rgb { r: 0x1c, g: 0x19, b: 0x17 }),
            bold: false,
        }),
{
    Style {
        fg: Some(Rgb { r: 0xe9, g: 0xe3, b: 0xd8 }),
        bg: Some(Rgb { r: 0x1c, g: 0x19, b: 0x17 }),
        bold: false,
    }
}

/// Position in the pulse: up for twenty frames, down for twenty.
pub open spec fn triangle(frame: u64) -> int {
    let phase = frame as int % 40;
    if phase < 20 {
        phase
    } else {
        40 - phase
    }
}

/// The value `t` twentieths of the way from `a` to `b`.
pub open spec fn blend(a: int, b: int, t: int) -> int {
    a + (b - a) * t / 20
}

fn lerp(a: u8, b: u8, t: i32) -> (r: u8)
    requires
        a <= b,
        0 <= t <= 20,
    ensures
        r == blend(a as int, b as int, t as int),
{
    let d: i32 = b as i32 - a as i32;
    assert(0 <= d * t <= d * 20) by (nonlinear_arith)
        requires
            0 <= d,
            0 <= t <= 20,
    ;
    let p: i32 = d * t;
    (a as i32 + p / 20) as u8
}

/// The breathing pulse of a frame, between the dark and the full accent.
pub open spec fn pulse_style(frame: u64) -> Style {
    Style {
        fg: Some(
            Rgb {
                r: blend(0xa8, 0xd9, triangle(frame)) as u8,
                g: blend(0x5e, 0x77, triangle(frame)) as u8,
                b: blend(0x44, 0x57, triangle(frame)) as u8,
            },
        ),
        bg: None,
        bold: true,
    }
}

/// The active marker's breathing pulse between the dark and the full accent.
pub fn pulse(frame: u64) -> (r: Style)
    ensures
        r == pulse_style(frame),
{
    let phase: i32 = (frame % 40) as i32;
    let t: i32 = if phase < 20 {
        phase
    } else {
        40 - phase
    };
    Style {
        fg: Some(Rgb { r: lerp(0xa8, 0xd9, t), g: lerp(0x5e, 0x77, t), b: lerp(0x44, 0x57, t) }),
        bg: None,
        bold: true,
    }
}

/// Number of glyphs in the spinner cycle.
pub const SPINNER_LEN: u64 = 6;

/// The glyphs of the spinner cycle, in order.
pub open spec fn spinner_glyph(i: int) -> Seq<char> {
    if i == 0 {
        "✻"@
    } else if i == 1 {
        "✸"@
    } else if i == 2 {
        "✦"@
    } else if i == 3 {
        "✶"@
    } else if i == 4 {
        "✷"@
    } else {
        "✵"@
    }
}

/// The spinner glyph of a frame.
pub fn spinner_frame(frame: u64) -> (r: &'static str)
    ensures
        r@ == spinner_glyph(frame as int % SPINNER_LEN as int),
{
    match frame % SPINNER_LEN {
        0 => "✻",
        1 => "✸",
        2 => "✦",
        3 => "✶",
        4 => "✷",
        _ => "✵",
    }
}

/// The spinner repeats after a full cycle.
pub proof fn spinner_is_periodic(frame: u64)
    requires
        frame + SPINNER_LEN <= u64::MAX,
    ensures
        spinner_glyph((frame + SPINNER_LEN) % SPINNER_LEN as int) == spinner_glyph(
            frame as int % SPINNER_LEN as int,
        ),
{
}

/// The pulse goes up for twenty frames and down for twenty, and begins anew.
pub proof fn the_pulse_goes_up_and_down(frame: u64)
    ensures
        0 <= triangle(frame) <= 20,
        frame % 40 == 0 ==> triangle(frame) == 0,
        frame % 40 == 20 ==> triangle(frame) == 20,
        frame < u64::MAX && frame % 40 < 20 ==> triangle((frame + 1) as u64) == triangle(frame) + 1,
        frame < u64::MAX && frame % 40 >= 20 ==> triangle((frame + 1) as u64) == triangle(frame) - 1,
{
}

} // verus!
