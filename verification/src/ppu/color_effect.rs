use crate::utils::{bit_of, Bitable};
use vstd::prelude::*;

verus! {

/// The layers a colour special effect applies to.
#[derive(Debug, PartialEq, Eq, Structural, Clone, Copy)]
pub struct InternalColorEffect {
    pub bg0: bool,
    pub bg1: bool,
    pub bg2: bool,
    pub bg3: bool,
    pub obj: bool,
    pub bd: bool,
}

impl InternalColorEffect {
    pub open spec fn decoded(value: u32) -> Self {
        InternalColorEffect {
            bg0: bit_of(value, 0),
            bg1: bit_of(value, 1),
            bg2: bit_of(value, 2),
            bg3: bit_of(value, 3),
            obj: bit_of(value, 4),
            bd: bit_of(value, 5),
        }
    }

    pub fn from(value: u32) -> (r: Self)
        ensures
            r == Self::decoded(value),
    {
        InternalColorEffect {
            bg0: value.bit_is_high(0),
            bg1: value.bit_is_high(1),
            bg2: value.bit_is_high(2),
            bg3: value.bit_is_high(3),
            obj: value.bit_is_high(4),
            bd: value.bit_is_high(5),
        }
    }
}

/// A blending or brightness coefficient, in sixteenths.
#[derive(Debug, PartialEq, Eq, Structural, Clone, Copy)]
pub struct EffectCoef(pub u32);

impl EffectCoef {
    /// The low four bits of `value`, capped at 16.
    pub open spec fn decoded(value: u32) -> Self {
        let x = value & 0b1111;
        if x > 16 {
            EffectCoef(16)
        } else {
            EffectCoef(x)
        }
    }

    pub fn from(value: u32) -> (r: Self)
        ensures
            r == Self::decoded(value),
            r.0 <= 16,
    {
        let x = value & 0b1111;
        proof {
            crate::utils::lemma_word_fields(value, 0);
        }
        if x > 16 {
            EffectCoef(16)
        } else {
            EffectCoef(x)
        }
    }
}

#[derive(Debug, PartialEq, Eq, Structural, Clone, Copy)]
pub enum ColorEffect {
    AlphaBlending { eva: EffectCoef, evb: EffectCoef },
    BrightnessIncrease(EffectCoef),
    BrightnessDecrease(EffectCoef),
}

/// The colour special effect selection: its two target layer sets and the effect.
#[derive(Debug, PartialEq, Eq, Structural, Clone, Copy)]
pub struct ColorEffectSelection {
    pub first_target: InternalColorEffect,
    pub second_target: InternalColorEffect,
    pub effect: Option<ColorEffect>,
}

impl ColorEffectSelection {
    /// Decodes the selection register and the brightness coefficient register: bits 6..7
    /// choose no effect, alpha blending (coefficients from bits 15 and 23 on), or a brightness
    /// change by the second register.
    pub open spec fn decoded(value: (u32, u32)) -> Self {
        let mode = (value.0 >> 6u32) & 0b11;
        ColorEffectSelection {
            first_target: InternalColorEffect::decoded(value.0 & 0x1f),
            second_target: InternalColorEffect::decoded(value.0 >> 8u32),
            effect: if mode == 0 {
                None
            } else if mode == 1 {
                Some(
                    ColorEffect::AlphaBlending {
                        eva: EffectCoef::decoded(value.0 >> 15u32),
                        evb: EffectCoef::decoded(value.0 >> 23u32),
                    },
                )
            } else if mode == 2 {
                Some(ColorEffect::BrightnessIncrease(EffectCoef(value.1)))
            } else {
                Some(ColorEffect::BrightnessDecrease(EffectCoef(value.1)))
            },
        }
    }

    pub fn from(value: (u32, u32)) -> (r: Self)
        ensures
            r == Self::decoded(value),
    {
        proof {
            crate::utils::lemma_word_fields(value.0, 6);
        }
        let effect = match (value.0 >> 6) & 0b11 {
            0 => None,
            1 => Some(
                ColorEffect::AlphaBlending {
                    eva: EffectCoef::from(value.0 >> 15),
                    evb: EffectCoef::from(value.0 >> 23),
                },
            ),
            2 => Some(ColorEffect::BrightnessIncrease(EffectCoef(value.1))),
            _ => Some(ColorEffect::BrightnessDecrease(EffectCoef(value.1))),
        };
        ColorEffectSelection {
            first_target: InternalColorEffect::from(value.0 & 0x1f),
            second_target: InternalColorEffect::from(value.0 >> 8),
            effect,
        }
    }
}

} // verus!
