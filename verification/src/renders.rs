//! The draw records and their bytes.
//!
//! A record is one byte that names its kind, then its fields in order, each
//! in little-endian byte order, with nothing in between. Fields that are
//! binary32 numbers are held by their bit patterns.

use vstd::prelude::*;

verus! {

/// The four bytes of a 32-bit pattern, lowest first.
pub open spec fn le_bytes(value: u32) -> Seq<u8> {
    seq![
        (value % 256) as u8,
        (value / 256 % 256) as u8,
        (value / 65536 % 256) as u8,
        (value / 16777216) as u8,
    ]
}

/// The byte of a signed 8-bit number, in two's complement.
pub open spec fn signed_byte(value: i8) -> u8 {
    if value < 0 {
        (value + 256) as u8
    } else {
        value as u8
    }
}

fn push_u32(out: &mut Vec<u8>, value: u32)
    ensures
        final(out)@ == old(out)@ + le_bytes(value),
{
    out.push((value % 256) as u8);
    out.push((value / 256 % 256) as u8);
    out.push((value / 65536 % 256) as u8);
    out.push((value / 16777216) as u8);
    assert(out@ =~= old(out)@ + le_bytes(value));
}

fn push_i8(out: &mut Vec<u8>, value: i8)
    ensures
        final(out)@ == old(out)@.push(signed_byte(value)),
{
    let byte: u8 = if value < 0 {
        (value as i16 + 256) as u8
    } else {
        value as u8
    };
    out.push(byte);
}

/// A record that can be written as bytes.
pub trait Dense {
    spec fn bytes_spec(&self) -> Seq<u8>;

    /// The bytes of the record.
    fn to_bytes(&self) -> (bytes: Vec<u8>)
        ensures
            bytes@ == self.bytes_spec(),
    ;
}

/// A judgement line, from one edge of the screen to another.
#[derive(Clone, Copy, Debug, PartialEq, Eq, Structural)]
pub struct RendLine {
    pub x1: u32,
    pub y1: u32,
    pub x2: u32,
    pub y2: u32,
    pub alpha: u32,
}

impl Dense for RendLine {
    open spec fn bytes_spec(&self) -> Seq<u8> {
        seq![1u8] + le_bytes(self.x1) + le_bytes(self.y1) + le_bytes(self.x2) + le_bytes(self.y2)
            + le_bytes(self.alpha)
    }

    fn to_bytes(&self) -> (bytes: Vec<u8>) {
        let mut bytes: Vec<u8> = Vec::new();
        bytes.push(1);
        assert(bytes@ =~= seq![1u8]);
        push_u32(&mut bytes, self.x1);
        push_u32(&mut bytes, self.y1);
        push_u32(&mut bytes, self.x2);
        push_u32(&mut bytes, self.y2);
        push_u32(&mut bytes, self.alpha);
        bytes
    }
}

/// A note, or one of the three parts of a hold. The kind is one to four for
/// a tap, a drag, a hold and a flick, five for the head of a hold, six for
/// its body and seven for its end.
#[derive(Clone, Copy, Debug, PartialEq, Eq, Structural)]
pub struct RendNote {
    pub note_type: i8,
    pub x: u32,
    pub y: u32,
    pub rotate: u32,
    pub height: u32,
    pub high_light: i8,
}

impl Dense for RendNote {
    open spec fn bytes_spec(&self) -> Seq<u8> {
        (seq![2u8, signed_byte(self.note_type)] + le_bytes(self.x) + le_bytes(self.y) + le_bytes(
            self.rotate,
        ) + le_bytes(self.height)).push(signed_byte(self.high_light))
    }

    fn to_bytes(&self) -> (bytes: Vec<u8>) {
        let mut bytes: Vec<u8> = Vec::new();
        bytes.push(2);
        push_i8(&mut bytes, self.note_type);
        assert(bytes@ =~= seq![2u8, signed_byte(self.note_type)]);
        push_u32(&mut bytes, self.x);
        push_u32(&mut bytes, self.y);
        push_u32(&mut bytes, self.rotate);
        push_u32(&mut bytes, self.height);
        push_i8(&mut bytes, self.high_light);
        bytes
    }
}

/// A hit effect: where it plays, which of its thirty frames shows, and its
/// tint.
#[derive(Clone, Copy, Debug, PartialEq, Eq, Structural)]
pub struct RendClickEffect {
    pub x: u32,
    pub y: u32,
    pub frame: i8,
    pub tint_type: i8,
}

impl Dense for RendClickEffect {
    open spec fn bytes_spec(&self) -> Seq<u8> {
        (seq![3u8] + le_bytes(self.x) + le_bytes(self.y)).push(signed_byte(self.frame)).push(
            signed_byte(self.tint_type),
        )
    }

    fn to_bytes(&self) -> (bytes: Vec<u8>) {
        let mut bytes: Vec<u8> = Vec::new();
        bytes.push(3);
        assert(bytes@ =~= seq![3u8]);
        push_u32(&mut bytes, self.x);
        push_u32(&mut bytes, self.y);
        push_i8(&mut bytes, self.frame);
        push_i8(&mut bytes, self.tint_type);
        bytes
    }
}

/// A touch point.
#[derive(Clone, Copy, Debug, PartialEq, Eq, Structural)]
pub struct RendPoint {
    pub x: u32,
    pub y: u32,
}

impl Dense for RendPoint {
    open spec fn bytes_spec(&self) -> Seq<u8> {
        seq![4u8] + le_bytes(self.x) + le_bytes(self.y)
    }

    fn to_bytes(&self) -> (bytes: Vec<u8>) {
        let mut bytes: Vec<u8> = Vec::new();
        bytes.push(4);
        assert(bytes@ =~= seq![4u8]);
        push_u32(&mut bytes, self.x);
        push_u32(&mut bytes, self.y);
        bytes
    }
}

/// The combo, the longest combo, the score and the accuracy.
#[derive(Clone, Copy, Debug, PartialEq, Eq, Structural)]
pub struct RendStatistics {
    pub combo: u32,
    pub max_combo: u32,
    pub score: u32,
    pub accurate: u32,
}

impl Dense for RendStatistics {
    open spec fn bytes_spec(&self) -> Seq<u8> {
        seq![5u8] + le_bytes(self.combo) + le_bytes(self.max_combo) + le_bytes(self.score)
            + le_bytes(self.accurate)
    }

    fn to_bytes(&self) -> (bytes: Vec<u8>) {
        let mut bytes: Vec<u8> = Vec::new();
        bytes.push(5);
        assert(bytes@ =~= seq![5u8]);
        push_u32(&mut bytes, self.combo);
        push_u32(&mut bytes, self.max_combo);
        push_u32(&mut bytes, self.score);
        push_u32(&mut bytes, self.accurate);
        bytes
    }
}

/// A splash effect: where it plays, which of its thirty frames shows, and
/// its tint.
#[derive(Clone, Copy, Debug, PartialEq, Eq, Structural)]
pub struct RendSplashEffect {
    pub x: u32,
    pub y: u32,
    pub frame: i8,
    pub tint_type: i8,
}

impl Dense for RendSplashEffect {
    open spec fn bytes_spec(&self) -> Seq<u8> {
        (seq![6u8] + le_bytes(self.x) + le_bytes(self.y)).push(signed_byte(self.frame)).push(
            signed_byte(self.tint_type),
        )
    }

    fn to_bytes(&self) -> (bytes: Vec<u8>) {
        let mut bytes: Vec<u8> = Vec::new();
        bytes.push(6);
        assert(bytes@ =~= seq![6u8]);
        push_u32(&mut bytes, self.x);
        push_u32(&mut bytes, self.y);
        push_i8(&mut bytes, self.frame);
        push_i8(&mut bytes, self.tint_type);
        bytes
    }
}

/// How many sounds of each kind to play.
#[derive(Clone, Copy, Debug, PartialEq, Eq, Structural)]
pub struct RendSound {
    pub tap_sound: u32,
    pub drag_sound: u32,
    pub flick_sound: u32,
}

impl Dense for RendSound {
    open spec fn bytes_spec(&self) -> Seq<u8> {
        seq![7u8] + le_bytes(self.tap_sound) + le_bytes(self.drag_sound) + le_bytes(
            self.flick_sound,
        )
    }

    fn to_bytes(&self) -> (bytes: Vec<u8>) {
        let mut bytes: Vec<u8> = Vec::new();
        bytes.push(7);
        assert(bytes@ =~= seq![7u8]);
        push_u32(&mut bytes, self.tap_sound);
        push_u32(&mut bytes, self.drag_sound);
        push_u32(&mut bytes, self.flick_sound);
        bytes
    }
}

} // verus!
