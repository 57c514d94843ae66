//! Colour special effects: alpha blending of two layers, and fading
//! towards white or black, per five-bit RGB555 channel.
use vstd::prelude::*;

use crate::io::IoRegs;

verus! {

/// The colour effect selected by BLDCNT bits 6-7.
#[derive(Debug, Clone, Copy, PartialEq, Eq, Structural)]
pub enum BlendMode {
    Off,
    Alpha,
    Brighten,
    Darken,
}

/// The decoded BLDCNT, BLDALPHA and BLDY registers.
#[derive(Debug, Clone, Copy, PartialEq, Eq, Structural)]
pub struct EffectConfig {
    pub mode: BlendMode,
    pub first_target_mask: u16,
    pub second_target_mask: u16,
    pub eva: u8,
    pub evb: u8,
    pub evy: u8,
}

/// The red channel (bits 0-4) of an RGB555 colour.
pub open spec fn red(c: u16) -> int {
    c as int % 32
}

/// The green channel (bits 5-9) of an RGB555 colour.
pub open spec fn green(c: u16) -> int {
    (c as int / 32) % 32
}

/// The blue channel (bits 10-14) of an RGB555 colour.
pub open spec fn blue(c: u16) -> int {
    (c as int / 1024) % 32
}

/// The RGB555 colour of three channels.
pub open spec fn rgb(r: int, g: int, b: int) -> u16 {
    (r + g * 32 + b * 1024) as u16
}

pub open spec fn min_int(a: int, b: int) -> int {
    if a < b {
        a
    } else {
        b
    }
}

/// A blended channel: (top * eva + bottom * evb) / 16, at most 31.
pub open spec fn alpha_channel_spec(top: int, bottom: int, eva: int, evb: int) -> int {
    min_int((top * eva + bottom * evb) / 16, 31)
}

/// A channel faded towards 31 by evy/16 of the distance.
pub open spec fn brighten_channel_spec(value: int, evy: int) -> int {
    min_int(value + ((31 - value) * evy) / 16, 31)
}

/// A channel faded towards 0 by evy/16 of its value.
pub open spec fn darken_channel_spec(value: int, evy: int) -> int {
    let delta = (value * evy) / 16;
    if value >= delta {
        value - delta
    } else {
        0
    }
}

/// Two colours blended with weights eva/16 and evb/16.
pub open spec fn alpha_blend_spec(top: u16, bottom: u16, eva: u8, evb: u8) -> u16 {
    rgb(
        alpha_channel_spec(red(top), red(bottom), eva as int, evb as int),
        alpha_channel_spec(green(top), green(bottom), eva as int, evb as int),
        alpha_channel_spec(blue(top), blue(bottom), eva as int, evb as int),
    )
}

/// A colour faded towards white by evy/16.
pub open spec fn brighten_spec(color: u16, evy: u8) -> u16 {
    rgb(
        brighten_channel_spec(red(color), evy as int),
        brighten_channel_spec(green(color), evy as int),
        brighten_channel_spec(blue(color), evy as int),
    )
}

/// A colour faded towards black by evy/16.
pub open spec fn darken_spec(color: u16, evy: u8) -> u16 {
    rgb(
        darken_channel_spec(red(color), evy as int),
        darken_channel_spec(green(color), evy as int),
        darken_channel_spec(blue(color), evy as int),
    )
}

pub open spec fn blend_mode_spec(bldcnt: u16) -> BlendMode {
    let sel = (bldcnt >> 6u16) & 0x0003;
    if sel == 1 {
        BlendMode::Alpha
    } else if sel == 2 {
        BlendMode::Brighten
    } else if sel == 3 {
        BlendMode::Darken
    } else {
        BlendMode::Off
    }
}

/// A five-bit coefficient field clamped to 16.
pub open spec fn coefficient(v: u16) -> u8 {
    (if (v & 0x001f) < 16 {
        v & 0x001f
    } else {
        16
    }) as u8
}

/// The effect configuration held in BLDCNT, BLDALPHA and BLDY.
pub open spec fn effect_config_spec(bldcnt: u16, bldalpha: u16, bldy: u16) -> EffectConfig {
    EffectConfig {
        mode: blend_mode_spec(bldcnt),
        first_target_mask: bldcnt & 0x003f,
        second_target_mask: (bldcnt >> 8u16) & 0x003f,
        eva: coefficient(bldalpha),
        evb: coefficient(bldalpha >> 8u16),
        evy: coefficient(bldy),
    }
}

fn clamp_coefficient(v: u16) -> (r: u8)
    ensures
        r == coefficient(v),
{
    let field = v & 0x001f;
    if field < 16 {
        field as u8
    } else {
        16
    }
}

impl EffectConfig {
    pub fn new(
        mode: BlendMode,
        first_target_mask: u16,
        second_target_mask: u16,
        eva: u8,
        evb: u8,
        evy: u8,
    ) -> (r: Self)
        ensures
            r == (EffectConfig { mode, first_target_mask, second_target_mask, eva, evb, evy }),
    {
        EffectConfig { mode, first_target_mask, second_target_mask, eva, evb, evy }
    }

    /// Decode BLDCNT, BLDALPHA and BLDY.
    pub fn from_io(io: &IoRegs) -> (r: Self)
        ensures
            r == effect_config_spec(io@.bldcnt, io@.bldalpha, io@.bldy),
    {
        let bldcnt = io.bldcnt();
        let bldalpha = io.bldalpha();
        let bldy = io.bldy();
        let sel = (bldcnt >> 6u16) & 0x0003;
        let mode = if sel == 1 {
            BlendMode::Alpha
        } else if sel == 2 {
            BlendMode::Brighten
        } else if sel == 3 {
            BlendMode::Darken
        } else {
            BlendMode::Off
        };
        EffectConfig {
            mode,
            first_target_mask: bldcnt & 0x003f,
            second_target_mask: (bldcnt >> 8u16) & 0x003f,
            eva: clamp_coefficient(bldalpha),
            evb: clamp_coefficient(bldalpha >> 8u16),
            evy: clamp_coefficient(bldy),
        }
    }

    /// Whether the layer with target bit `target_bit` is a first target.
    pub fn first_target_enabled(&self, target_bit: u16) -> (r: bool)
        ensures
            r == (self.first_target_mask & target_bit != 0),
    {
        (self.first_target_mask & target_bit) != 0
    }

    /// Whether the layer with target bit `target_bit` is a second target.
    pub fn second_target_enabled(&self, target_bit: u16) -> (r: bool)
        ensures
            r == (self.second_target_mask & target_bit != 0),
    {
        (self.second_target_mask & target_bit) != 0
    }
}

fn alpha_channel(top: u16, bottom: u16, eva: u8, evb: u8) -> (r: u16)
    requires
        top < 32,
        bottom < 32,
    ensures
        r == alpha_channel_spec(top as int, bottom as int, eva as int, evb as int),
        r <= 31,
{
    assert(top * eva <= 31 * 255 && bottom * evb <= 31 * 255) by (nonlinear_arith)
        requires
            top < 32,
            bottom < 32,
            eva <= 255,
            evb <= 255,
    ;
    let value = (top * (eva as u16) + bottom * (evb as u16)) / 16;
    if value < 31 {
        value
    } else {
        31
    }
}

fn brighten_channel(value: u16, evy: u8) -> (r: u16)
    requires
        value < 32,
    ensures
        r == brighten_channel_spec(value as int, evy as int),
        r <= 31,
{
    assert((31 - value) * evy <= 31 * 255) by (nonlinear_arith)
        requires
            value < 32,
            evy <= 255,
    ;
    let delta = ((31 - value) * (evy as u16)) / 16;
    if value + delta < 31 {
        value + delta
    } else {
        31
    }
}

fn darken_channel(value: u16, evy: u8) -> (r: u16)
    requires
        value < 32,
    ensures
        r == darken_channel_spec(value as int, evy as int),
        r <= 31,
{
    assert(value * evy <= 31 * 255) by (nonlinear_arith)
        requires
            value < 32,
            evy <= 255,
    ;
    let delta = (value * (evy as u16)) / 16;
    if value >= delta {
        value - delta
    } else {
        0
    }
}

/// Which per-channel operation `blend_channels` applies.
#[derive(Debug, Clone, Copy, PartialEq, Eq, Structural)]
enum BlendChannels {
    Alpha,
    Brighten,
    Darken,
}

/// `top` (and, for alpha blending, `bottom`) combined channel by channel:
/// alpha with weights `a`/16 and `b`/16, or a fade by `a`/16.
fn blend_channels(top: u16, bottom: u16, a: u8, b: u8, mode: BlendChannels) -> (r: u16)
    ensures
        r == match mode {
            BlendChannels::Alpha => alpha_blend_spec(top, bottom, a, b),
            BlendChannels::Brighten => brighten_spec(top, a),
            BlendChannels::Darken => darken_spec(top, a),
        },
{
    let tr = top % 32;
    let tg = (top / 32) % 32;
    let tb = (top / 1024) % 32;
    let br = bottom % 32;
    let bg = (bottom / 32) % 32;
    let bb = (bottom / 1024) % 32;
    let (r, g, b) = match mode {
        BlendChannels::Alpha => (
            alpha_channel(tr, br, a, b),
            alpha_channel(tg, bg, a, b),
            alpha_channel(tb, bb, a, b),
        ),
        BlendChannels::Brighten => (brighten_channel(tr, a), brighten_channel(tg, a), brighten_channel(tb, a)),
        BlendChannels::Darken => (darken_channel(tr, a), darken_channel(tg, a), darken_channel(tb, a)),
    };
    r + g * 32 + b * 1024
}

/// Two colours blended channel by channel with weights eva/16 and evb/16,
/// each channel saturating at 31.
pub fn alpha_blend(top: u16, bottom: u16, eva: u8, evb: u8) -> (r: u16)
    ensures
        r == alpha_blend_spec(top, bottom, eva, evb),
{
    blend_channels(top, bottom, eva, evb, BlendChannels::Alpha)
}

/// A colour faded towards white by evy/16.
pub fn brighten(color: u16, evy: u8) -> (r: u16)
    ensures
        r == brighten_spec(color, evy),
{
    blend_channels(color, 0, evy, 0, BlendChannels::Brighten)
}

/// A colour faded towards black by evy/16.
pub fn darken(color: u16, evy: u8) -> (r: u16)
    ensures
        r == darken_spec(color, evy),
{
    blend_channels(color, 0, evy, 0, BlendChannels::Darken)
}

/// Blended channels stay five-bit; fading to white never lowers a channel
/// and fading to black never raises one; the full first weight alone and
/// a zero fade leave a channel as it was; the full second weight alone
/// gives the second channel, equal weights of 8 their average (rounded
/// down); a full fade (16) gives white (31) or black (0).
pub proof fn lemma_channel_effects(v: int, w: int, k: int)
    requires
        0 <= v < 32,
        0 <= w < 32,
        0 <= k <= 255,
    ensures
        0 <= alpha_channel_spec(v, w, k, k) <= 31,
        alpha_channel_spec(v, w, 16, 0) == v,
        alpha_channel_spec(v, w, 0, 16) == w,
        alpha_channel_spec(v, w, 8, 8) == (v + w) / 2,
        v <= brighten_channel_spec(v, k) <= 31,
        0 <= darken_channel_spec(v, k) <= v,
        brighten_channel_spec(v, 0) == v,
        darken_channel_spec(v, 0) == v,
        brighten_channel_spec(v, 16) == 31,
        darken_channel_spec(v, 16) == 0,
{
    assert(0 <= v * k + w * k) by (nonlinear_arith)
        requires
            0 <= v,
            0 <= w,
            0 <= k,
    ;
    assert(0 <= (31 - v) * k) by (nonlinear_arith)
        requires
            v < 32,
            0 <= k,
    ;
    assert(0 <= v * k) by (nonlinear_arith)
        requires
            0 <= v,
            0 <= k,
    ;
}

/// An RGB555 colour is its three five-bit channels: red in bits 0-4, green
/// in bits 5-9, blue in bits 10-14; taking a colour apart and putting it
/// back together gives it back (bit 15 aside), and channels put together
/// come back out unchanged.
pub proof fn lemma_channels_round_trip(c: u16, r: int, g: int, b: int)
    requires
        0 <= r < 32,
        0 <= g < 32,
        0 <= b < 32,
    ensures
        red(rgb(r, g, b)) == r,
        green(rgb(r, g, b)) == g,
        blue(rgb(r, g, b)) == b,
        c < 0x8000 ==> rgb(red(c), green(c), blue(c)) == c,
{
}

} // verus!
