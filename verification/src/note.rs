//! A musical note packed into one 32-bit word: pitch name in bits 0-2,
//! octave in bits 3-5, accidental in bits 6-8, note value in bits 9-11, tie
//! flag in bit 12, loudness in the upper half.

use vstd::prelude::*;

verus! {

/// The pitch names, `Rest` for silence.
#[derive(Clone, Copy, Debug, PartialEq, Eq, Structural)]
pub enum PitchName {
    Rest,
    A,
    B,
    C,
    D,
    E,
    F,
    G,
}

/// How a pitch name is packed: the low three bits of its letter's code,
/// zero for a rest.
pub open spec fn pitch_code(name: PitchName) -> u32 {
    match name {
        PitchName::Rest => 0,
        PitchName::A => 1,
        PitchName::B => 2,
        PitchName::C => 3,
        PitchName::D => 4,
        PitchName::E => 5,
        PitchName::F => 6,
        PitchName::G => 7,
    }
}

/// The accidental of a note.
#[derive(Clone, Copy, Debug, PartialEq, Eq, Structural)]
pub enum Accidental {
    Natural,
    Sharp,
    Flat,
}

/// How an accidental is packed.
pub open spec fn accidental_code(a: Accidental) -> u32 {
    match a {
        Accidental::Natural => 0,
        Accidental::Sharp => 1,
        Accidental::Flat => 2,
    }
}

/// The note value, as in a 1/2^value note. The code for a sixty-fourth is 7
/// and the code for a hundred-twenty-eighth is 8, as the format fixed them.
#[derive(Clone, Copy, Debug, PartialEq, Eq, Structural)]
pub enum NoteValue {
    Full,
    Half,
    Quarter,
    V8,
    V16,
    V32,
    V64,
    V128,
}

/// How a note value is packed.
pub open spec fn value_code(v: NoteValue) -> u32 {
    match v {
        NoteValue::Full => 0,
        NoteValue::Half => 1,
        NoteValue::Quarter => 2,
        NoteValue::V8 => 3,
        NoteValue::V16 => 4,
        NoteValue::V32 => 5,
        NoteValue::V64 => 7,
        NoteValue::V128 => 8,
    }
}

/// One note, bit-packed.
#[derive(Clone, Copy, Debug, PartialEq, Eq, Structural)]
pub struct Note(pub u32);

fn pitch_code_exec(name: PitchName) -> (r: u32)
    ensures
        r == pitch_code(name),
{
    match name {
        PitchName::Rest => 0,
        PitchName::A => 1,
        PitchName::B => 2,
        PitchName::C => 3,
        PitchName::D => 4,
        PitchName::E => 5,
        PitchName::F => 6,
        PitchName::G => 7,
    }
}

fn accidental_code_exec(a: Accidental) -> (r: u32)
    ensures
        r == accidental_code(a),
{
    match a {
        Accidental::Natural => 0,
        Accidental::Sharp => 1,
        Accidental::Flat => 2,
    }
}

fn value_code_exec(v: NoteValue) -> (r: u32)
    ensures
        r == value_code(v),
{
    match v {
        NoteValue::Full => 0,
        NoteValue::Half => 1,
        NoteValue::Quarter => 2,
        NoteValue::V8 => 3,
        NoteValue::V16 => 4,
        NoteValue::V32 => 5,
        NoteValue::V64 => 7,
        NoteValue::V128 => 8,
    }
}

impl Note {
    /// The same note with the pitch name replaced; every other field stays.
    pub fn with_name(self, name: PitchName) -> (r: Self)
        ensures
            r.0 == (self.0 & !0x7u32) | pitch_code(name),
            r.0 & 0x7 == pitch_code(name),
            r.0 & !0x7u32 == self.0 & !0x7u32,
    {
        let code = pitch_code_exec(name);
        let r = Self((self.0 & !0x7u32) | code);
        proof {
            let x = self.0;
            let c = pitch_code(name);
            assert(((x & !0x7u32) | c) & 0x7 == c && ((x & !0x7u32) | c) & !0x7u32 == x
                & !0x7u32) by (bit_vector)
                requires
                    c < 8u32,
            ;
        }
        r
    }

    /// The octave field, bits 3 to 5.
    pub fn octave(self) -> (r: u8)
        ensures
            r == (self.0 & 0x38u32) >> 3u32,
    {
        proof {
            let x = self.0;
            assert((x & 0x38u32) >> 3u32 < 256) by (bit_vector);
        }
        ((self.0 & 0x38) >> 3) as u8
    }

    /// The same note with the octave field replaced, as far as the octave
    /// fits its three bits; every other field stays when it does.
    pub fn with_octave(self, octave: u8) -> (r: Self)
        ensures
            r.0 == (self.0 & !0x38u32) | ((octave << 3u8) as u32),
            octave <= 7 ==> (r.0 & 0x38u32) >> 3u32 == octave,
            octave <= 7 ==> r.0 & !0x38u32 == self.0 & !0x38u32,
    {
        let r = Self((self.0 & !0x38u32) | ((octave << 3) as u32));
        proof {
            let x = self.0;
            let o = octave;
            assert(o <= 7u8 ==> ((((x & !0x38u32) | ((o << 3u8) as u32)) & 0x38u32) >> 3u32
                == o && ((x & !0x38u32) | ((o << 3u8) as u32)) & !0x38u32 == x
                & !0x38u32)) by (bit_vector);
        }
        r
    }

    /// The same note with the accidental replaced; every other field stays.
    pub fn with_accidental(self, accidental: Accidental) -> (r: Self)
        ensures
            r.0 == (self.0 & !0x1C0u32) | (accidental_code(accidental) << 6u32),
            (r.0 & 0x1C0u32) >> 6u32 == accidental_code(accidental),
            r.0 & !0x1C0u32 == self.0 & !0x1C0u32,
    {
        let code = accidental_code_exec(accidental);
        let r = Self((self.0 & !0x1C0u32) | (code << 6));
        proof {
            let x = self.0;
            let c = accidental_code(accidental);
            assert((((x & !0x1C0u32) | (c << 6u32)) & 0x1C0u32) >> 6u32 == c && ((x & !0x1C0u32)
                | (c << 6u32)) & !0x1C0u32 == x & !0x1C0u32) by (bit_vector)
                requires
                    c < 8u32,
            ;
        }
        r
    }

    /// The same note with the note value replaced. The hundred-twenty-eighth
    /// value's code does not fit the three bits of the field, so only the
    /// other values leave the rest of the note untouched.
    pub fn with_value(self, value: NoteValue) -> (r: Self)
        ensures
            r.0 == (self.0 & !0xE00u32) | (value_code(value) << 9u32),
            value_code(value) < 8 ==> (r.0 & 0xE00u32) >> 9u32 == value_code(value),
            value_code(value) < 8 ==> r.0 & !0xE00u32 == self.0 & !0xE00u32,
    {
        let code = value_code_exec(value);
        let r = Self((self.0 & !0xE00u32) | (code << 9));
        proof {
            let x = self.0;
            let c = value_code(value);
            assert(c < 8u32 ==> ((((x & !0xE00u32) | (c << 9u32)) & 0xE00u32) >> 9u32 == c && ((x
                & !0xE00u32) | (c << 9u32)) & !0xE00u32 == x & !0xE00u32)) by (bit_vector)
                requires
                    c <= 8u32,
            ;
        }
        r
    }

    /// Whether the note is tied to the next one.
    pub fn tie(self) -> (r: bool)
        ensures
            r == (self.0 & 0x1000u32 == 0x1000u32),
    {
        (self.0 & 0x1000) == 0x1000
    }

    /// The same note with the tie flag replaced; every other field stays.
    pub fn with_tie(self, tie: bool) -> (r: Self)
        ensures
            r.0 == (self.0 & !0x1000u32) | (if tie {
                0x1000u32
            } else {
                0u32
            }),
            (r.0 & 0x1000u32 == 0x1000u32) == tie,
            r.0 & !0x1000u32 == self.0 & !0x1000u32,
    {
        let bit: u32 = if tie {
            0x1000
        } else {
            0
        };
        let r = Self((self.0 & !0x1000u32) | bit);
        proof {
            let x = self.0;
            let b = bit;
            assert((((x & !0x1000u32) | b) & 0x1000u32 == 0x1000u32) == (b == 0x1000u32) && ((x
                & !0x1000u32) | b) & !0x1000u32 == x & !0x1000u32) by (bit_vector)
                requires
                    b == 0x1000u32 || b == 0u32,
            ;
        }
        r
    }
}

impl Default for Note {
    /// The default note: A4, a quarter, at a quarter loudness.
    fn default() -> (r: Self)
        ensures
            r.0 == 0x2000_0000u32 | 0b0000_010_000_100_001u32,
    {
        Self(0x2000_0000 | 0b0000_010_000_100_001)
    }
}

} // verus!
