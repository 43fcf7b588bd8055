//! What the machine exchanges with its peripherals: which physical key stands
//! for which keypad code, and when the tone starts and stops.

use vstd::prelude::*;

verus! {

/// A physical key, as the keyboard reports it. The sixteen keys of the left
/// hand block stand for the sixteen keypad codes; any other key is `Other`.
#[derive(Clone, Copy, Debug, PartialEq, Eq, Structural)]
pub enum Key {
    Num1,
    Num2,
    Num3,
    Num4,
    Q,
    W,
    E,
    R,
    A,
    S,
    D,
    F,
    Z,
    X,
    C,
    V,
    Other,
}

/// The keypad code a key stands for.
pub open spec fn keypad_spec(key: Key) -> Option<u8> {
    match key {
        Key::Num1 => Some(0x1u8),
        Key::Num2 => Some(0x2u8),
        Key::Num3 => Some(0x3u8),
        Key::Num4 => Some(0xCu8),
        Key::Q => Some(0x4u8),
        Key::W => Some(0x5u8),
        Key::E => Some(0x6u8),
        Key::R => Some(0xDu8),
        Key::A => Some(0x7u8),
        Key::S => Some(0x8u8),
        Key::D => Some(0x9u8),
        Key::F => Some(0xEu8),
        Key::Z => Some(0xAu8),
        Key::X => Some(0x0u8),
        Key::C => Some(0xBu8),
        Key::V => Some(0xFu8),
        Key::Other => None,
    }
}

/// The keypad code `key` stands for, if any.
pub fn keypad_code(key: Key) -> (r: Option<u8>)
    ensures
        r == keypad_spec(key),
        r matches Some(k) ==> k < 16,
{
    match key {
        Key::Num1 => Some(0x1),
        Key::Num2 => Some(0x2),
        Key::Num3 => Some(0x3),
        Key::Num4 => Some(0xC),
        Key::Q => Some(0x4),
        Key::W => Some(0x5),
        Key::E => Some(0x6),
        Key::R => Some(0xD),
        Key::A => Some(0x7),
        Key::S => Some(0x8),
        Key::D => Some(0x9),
        Key::F => Some(0xE),
        Key::Z => Some(0xA),
        Key::X => Some(0x0),
        Key::C => Some(0xB),
        Key::V => Some(0xF),
        Key::Other => None,
    }
}

/// What to do with the audio device.
#[derive(Clone, Copy, Debug, PartialEq, Eq, Structural)]
pub enum Tone {
    /// The tone should sound and is silent: start it.
    Start,
    /// The tone should be silent and is sounding: stop it.
    Stop,
    /// The device already does what it should.
    Keep,
}

/// The change that brings a device that is `playing` in line with whether
/// the tone should be `sounding`.
pub open spec fn tone_spec(sounding: bool, playing: bool) -> Tone {
    if sounding && !playing {
        Tone::Start
    } else if !sounding && playing {
        Tone::Stop
    } else {
        Tone::Keep
    }
}

/// The change that brings a device that is `playing` in line with whether
/// the tone should be `sounding`: a change only when the two differ.
pub fn tone_change(sounding: bool, playing: bool) -> (r: Tone)
    ensures
        r == tone_spec(sounding, playing),
{
    if sounding && !playing {
        Tone::Start
    } else if !sounding && playing {
        Tone::Stop
    } else {
        Tone::Keep
    }
}

} // verus!
