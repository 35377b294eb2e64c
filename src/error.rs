use vstd::prelude::*;

verus! {

/// Failure to read one romanized syllable.
#[derive(Debug, Clone, Copy, PartialEq, Eq, Structural)]
pub enum PinyinError {
    /// The syllable (without its tone digit) holds no letters; the length found is carried.
    InvalidLength(usize),
    /// The trailing digit is not one of 0, 1, 2, 3, 4.
    InvalidTone(u8),
}

/// Failure to read a whole idiom (word plus pinyin line).
#[derive(Debug, Clone, Copy, PartialEq, Eq, Structural)]
pub enum IdiomError {
    /// Character count, syllable count and the idiom length disagree: (characters, syllables, expected).
    InconsistentLength(usize, usize, usize),
    /// One of the syllables could not be read.
    InvalidPinyin(PinyinError),
}

} // verus!
