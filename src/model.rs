use vstd::prelude::*;
use vstd::string::StringExecFns;

use crate::error::PinyinError;

verus! {

/// Number of characters in an idiom.
pub const IDIOM_LENGTH: usize = 4;

/// Number of guesses after which a game is over.
pub const MAX_ATTEMPT_COUNT: usize = 10;

/// The hidden idiom of a game, with its explanation.
#[derive(Debug, Clone)]
pub struct Answer {
    pub word: String,
    pub pinyin: String,
    pub explanation: String,
}

/// A guessed idiom: its characters and the pinyin line (one syllable per character).
#[derive(Debug, Clone)]
pub struct Attempt {
    pub word: String,
    pub pinyin: String,
    pub verified: Option<bool>,
}

/// One scoring request: the answer and the guesses made so far, oldest first.
#[derive(Debug)]
pub struct Input {
    pub answer: Attempt,
    pub attempts: Vec<Attempt>,
}

/// The four marked tones.
#[derive(Clone, Copy, Debug, PartialEq, Eq, Structural)]
pub enum ToneExplicit {
    High,
    Rising,
    Low,
    Falling,
}

/// The leading consonant (or consonant cluster) of a syllable, if any.
#[derive(Debug)]
pub struct Initial(pub Option<String>);

impl View for Initial {
    type V = Option<Seq<char>>;

    open spec fn view(&self) -> Option<Seq<char>> {
        match self.0 {
            Some(s) => Some(s@),
            None => None,
        }
    }
}

impl Initial {
    /// A copy with the same text.
    pub fn duplicate(&self) -> (r: Initial)
        ensures
            r@ == self@,
    {
        match &self.0 {
            Some(s) => Initial(Some(s.clone())),
            None => Initial(None),
        }
    }
}

/// The tone of a syllable; `None` is the neutral (unmarked) tone.
#[derive(Clone, Copy, Debug, PartialEq, Eq, Structural)]
pub struct Tone(pub Option<ToneExplicit>);

/// The tone that a tone number stands for, or the error for a number outside 0..=4.
pub open spec fn tone_from_num(tone: Option<u8>) -> Result<Tone, PinyinError> {
    match tone {
        None => Ok(Tone(None)),
        Some(n) => if n == 0 {
            Ok(Tone(None))
        } else if n == 1 {
            Ok(Tone(Some(ToneExplicit::High)))
        } else if n == 2 {
            Ok(Tone(Some(ToneExplicit::Rising)))
        } else if n == 3 {
            Ok(Tone(Some(ToneExplicit::Low)))
        } else if n == 4 {
            Ok(Tone(Some(ToneExplicit::Falling)))
        } else {
            Err(PinyinError::InvalidTone(n))
        },
    }
}

/// The digit that renders a tone: "1" to "4", empty for the neutral tone.
pub open spec fn tone_digits(tone: Tone) -> Seq<char> {
    match tone.0 {
        Some(ToneExplicit::High) => seq!['1'],
        Some(ToneExplicit::Rising) => seq!['2'],
        Some(ToneExplicit::Low) => seq!['3'],
        Some(ToneExplicit::Falling) => seq!['4'],
        None => Seq::empty(),
    }
}

impl Tone {
    /// Reads a tone number; absent and 0 both mean the neutral tone.
    pub fn from_num(tone: Option<u8>) -> (r: Result<Tone, PinyinError>)
        ensures
            r == tone_from_num(tone),
    {
        match tone {
            None => Ok(Tone(None)),
            Some(0) => Ok(Tone(None)),
            Some(1) => Ok(Tone(Some(ToneExplicit::High))),
            Some(2) => Ok(Tone(Some(ToneExplicit::Rising))),
            Some(3) => Ok(Tone(Some(ToneExplicit::Low))),
            Some(4) => Ok(Tone(Some(ToneExplicit::Falling))),
            Some(num) => Err(PinyinError::InvalidTone(num)),
        }
    }

    /// The tone as text: its digit, or the empty string for the neutral tone.
    pub fn to_string(&self) -> (r: String)
        ensures
            r@ == tone_digits(*self),
    {
        proof {
            reveal_strlit("1");
            reveal_strlit("2");
            reveal_strlit("3");
            reveal_strlit("4");
            reveal_strlit("");
        }
        match self.0 {
            Some(ToneExplicit::High) => String::from_str("1"),
            Some(ToneExplicit::Rising) => String::from_str("2"),
            Some(ToneExplicit::Low) => String::from_str("3"),
            Some(ToneExplicit::Falling) => String::from_str("4"),
            None => String::from_str(""),
        }
    }
}

/// A decomposed syllable: `pronunciation` is the syllable without its tone digit,
/// split into an optional `initial` and the `vowel` that follows it.
#[derive(Debug)]
pub struct Pinyin {
    pub pronunciation: String,
    pub initial: Initial,
    pub vowel: String,
    pub tone: Tone,
}

/// The five attributes on which a guessed character is scored.
#[derive(Clone, Copy, Debug, PartialEq, Eq, Structural)]
pub enum Attr {
    Whole,
    Pronunciation,
    Initial,
    Vowel,
    Tone,
}

/// The value of one attribute of a character; `None` where the attribute is not defined
/// (no initial, neutral tone).
pub open spec fn attr_value(literal: Seq<char>, p: Pinyin, a: Attr) -> Option<Seq<char>> {
    match a {
        Attr::Whole => Some(literal),
        Attr::Pronunciation => Some(p.pronunciation@),
        Attr::Initial => p.initial@,
        Attr::Vowel => Some(p.vowel@),
        Attr::Tone => match p.tone.0 {
            Some(_) => Some(tone_digits(p.tone)),
            None => None,
        },
    }
}

/// Read access shared by plain and scored characters.
pub trait CharInfo {
    spec fn literal_view(&self) -> Seq<char>;

    spec fn pinyin_view(&self) -> Pinyin;

    fn literal(&self) -> (r: String)
        ensures
            r@ == self.literal_view(),
    ;

    fn pronunciation(&self) -> (r: String)
        ensures
            r@ == self.pinyin_view().pronunciation@,
    ;

    fn initial(&self) -> (r: Initial)
        ensures
            r@ == self.pinyin_view().initial@,
    ;

    fn vowel(&self) -> (r: String)
        ensures
            r@ == self.pinyin_view().vowel@,
    ;

    fn tone(&self) -> (r: Tone)
        ensures
            r == self.pinyin_view().tone,
    ;
}

/// One character of an idiom with its syllable.
#[derive(Debug)]
pub struct Character {
    pub literal: String,
    pub pinyin: Pinyin,
}

impl CharInfo for Character {
    open spec fn literal_view(&self) -> Seq<char> {
        self.literal@
    }

    open spec fn pinyin_view(&self) -> Pinyin {
        self.pinyin
    }

    fn literal(&self) -> (r: String) {
        self.literal.clone()
    }

    fn pronunciation(&self) -> (r: String) {
        self.pinyin.pronunciation.clone()
    }

    fn initial(&self) -> (r: Initial) {
        self.pinyin.initial.duplicate()
    }

    fn vowel(&self) -> (r: String) {
        self.pinyin.vowel.clone()
    }

    fn tone(&self) -> (r: Tone) {
        self.pinyin.tone
    }
}

/// Feedback for one attribute of one guessed character.
#[derive(Clone, Copy, Debug, PartialEq, Eq, Structural)]
pub enum State {
    Correct,
    Misplaced,
    Missing,
}

impl Default for State {
    fn default() -> (r: State)
        ensures
            r == State::Missing,
    {
        State::Missing
    }
}

impl State {
    /// The state as its lower-case name.
    pub fn to_string(&self) -> (r: String)
        ensures
            r@ == state_name(*self),
    {
        proof {
            reveal_strlit("correct");
            reveal_strlit("misplaced");
            reveal_strlit("missing");
        }
        match self {
            State::Correct => String::from_str("correct"),
            State::Misplaced => String::from_str("misplaced"),
            State::Missing => String::from_str("missing"),
        }
    }
}

/// The lower-case name of a state.
pub open spec fn state_name(s: State) -> Seq<char> {
    match s {
        State::Correct => "correct"@,
        State::Misplaced => "misplaced"@,
        State::Missing => "missing"@,
    }
}

/// Feedback for the five attributes of one guessed character.
#[derive(Clone, Copy, Debug, PartialEq, Eq, Structural)]
pub struct CharacterResult {
    pub whole: State,
    pub pronunciation: State,
    pub initial: State,
    pub vowel: State,
    pub tone: State,
}

impl CharacterResult {
    /// The state recorded for attribute `a`.
    pub open spec fn state_of(self, a: Attr) -> State {
        match a {
            Attr::Whole => self.whole,
            Attr::Pronunciation => self.pronunciation,
            Attr::Initial => self.initial,
            Attr::Vowel => self.vowel,
            Attr::Tone => self.tone,
        }
    }
}

impl Default for CharacterResult {
    fn default() -> (r: CharacterResult)
        ensures
            forall|a: Attr| r.state_of(a) == State::Missing,
    {
        CharacterResult {
            whole: State::Missing,
            pronunciation: State::Missing,
            initial: State::Missing,
            vowel: State::Missing,
            tone: State::Missing,
        }
    }
}

/// A guessed character with its feedback.
#[derive(Debug)]
pub struct CalculatedCharacter {
    pub literal: String,
    pub pinyin: Pinyin,
    pub result: CharacterResult,
}

impl CharInfo for CalculatedCharacter {
    open spec fn literal_view(&self) -> Seq<char> {
        self.literal@
    }

    open spec fn pinyin_view(&self) -> Pinyin {
        self.pinyin
    }

    fn literal(&self) -> (r: String) {
        self.literal.clone()
    }

    fn pronunciation(&self) -> (r: String) {
        self.pinyin.pronunciation.clone()
    }

    fn initial(&self) -> (r: Initial) {
        self.pinyin.initial.duplicate()
    }

    fn vowel(&self) -> (r: String) {
        self.pinyin.vowel.clone()
    }

    fn tone(&self) -> (r: Tone) {
        self.pinyin.tone
    }
}

impl CalculatedCharacter {
    /// Attaches feedback to a character.
    pub fn from_character(character: Character, result: CharacterResult) -> (r: CalculatedCharacter)
        ensures
            r.literal == character.literal,
            r.pinyin == character.pinyin,
            r.result == result,
    {
        CalculatedCharacter { literal: character.literal, pinyin: character.pinyin, result }
    }
}

/// A scored guess: one entry per character of the idiom.
#[derive(Debug)]
pub struct CalculatedAttempt {
    pub characters: Vec<CalculatedCharacter>,
    pub verified: bool,
}

/// The scored guesses of a game, with its attempt limit and whether it is over.
#[derive(Debug)]
pub struct Output {
    pub result: Vec<CalculatedAttempt>,
    pub max_attempt_count: usize,
    pub finished: bool,
}

} // verus!
