use vstd::prelude::*;

use crate::error::PinyinError;
use crate::model::{tone_digits, tone_from_num, Initial, Pinyin, Tone};
use crate::text::{chars_of, string_from_chars};

verus! {

/// Letters that start an initial consonant.
pub open spec fn is_initial_letter(c: char) -> bool {
    c == 'b' || c == 'p' || c == 'm' || c == 'f' || c == 'd' || c == 't' || c == 'n' || c == 'l'
        || c == 'g' || c == 'k' || c == 'h' || c == 'j' || c == 'q' || c == 'x' || c == 'r'
        || c == 'z' || c == 'c' || c == 's' || c == 'y' || c == 'w'
}

/// Initial letters that take a following `h` into the initial (zh, ch, sh).
pub open spec fn is_compound_head(c: char) -> bool {
    c == 'z' || c == 'c' || c == 's'
}

/// The value of a decimal digit.
pub open spec fn digit_value(c: char) -> Option<u8> {
    if '0' <= c && c <= '9' {
        Some((c as u32 - '0' as u32) as u8)
    } else {
        None
    }
}

/// The tone number written at the end of a token, if it ends in a digit.
pub open spec fn tone_number(s: Seq<char>) -> Option<u8> {
    if s.len() > 0 {
        digit_value(s.last())
    } else {
        None
    }
}

/// The token without its tone digit.
pub open spec fn syllable_body(s: Seq<char>) -> Seq<char> {
    if tone_number(s) is Some {
        s.drop_last()
    } else {
        s
    }
}

/// How many leading letters of a syllable body form its initial.
pub open spec fn initial_length(p: Seq<char>) -> int {
    if p.len() > 0 && is_initial_letter(p[0]) {
        if is_compound_head(p[0]) && p.len() > 1 && p[1] == 'h' {
            2
        } else {
            1
        }
    } else {
        0
    }
}

/// The initial of a syllable body.
pub open spec fn syllable_initial(p: Seq<char>) -> Option<Seq<char>> {
    if initial_length(p) > 0 {
        Some(p.take(initial_length(p)))
    } else {
        None
    }
}

/// The vowel of a syllable body: what follows the initial.
pub open spec fn syllable_vowel(p: Seq<char>) -> Seq<char> {
    p.skip(initial_length(p))
}

/// Why a token is not a syllable, if it is not: empty, a bad tone digit, or nothing
/// left once the tone digit is taken off.
pub open spec fn syllable_error(s: Seq<char>) -> Option<PinyinError> {
    if s.len() == 0 {
        Some(PinyinError::InvalidLength(0))
    } else {
        match tone_from_num(tone_number(s)) {
            Err(e) => Some(e),
            Ok(_) => if syllable_body(s).len() == 0 {
                Some(PinyinError::InvalidLength(0))
            } else {
                None
            },
        }
    }
}

/// `p` is the decomposition of the token `s`.
pub open spec fn parses_to(s: Seq<char>, p: Pinyin) -> bool {
    &&& p.pronunciation@ == syllable_body(s)
    &&& p.initial@ == syllable_initial(syllable_body(s))
    &&& p.vowel@ == syllable_vowel(syllable_body(s))
    &&& tone_from_num(tone_number(s)) == Ok::<Tone, PinyinError>(p.tone)
}

fn initial_letter(c: char) -> (r: bool)
    ensures
        r == is_initial_letter(c),
{
    c == 'b' || c == 'p' || c == 'm' || c == 'f' || c == 'd' || c == 't' || c == 'n' || c == 'l'
        || c == 'g' || c == 'k' || c == 'h' || c == 'j' || c == 'q' || c == 'x' || c == 'r'
        || c == 'z' || c == 'c' || c == 's' || c == 'y' || c == 'w'
}

impl Pinyin {
    /// Decomposes one syllable token such as `zhong1`.
    ///
    /// A token that is only a tone digit (so that no letters remain) is refused with
    /// `InvalidLength(0)`, as the empty token is.
    pub fn try_from(value: &str) -> (r: Result<Pinyin, PinyinError>)
        ensures
            match r {
                Ok(p) => syllable_error(value@) is None && parses_to(value@, p),
                Err(e) => syllable_error(value@) == Some(e),
            },
    {
        let mut chars = chars_of(value);
        if chars.len() == 0 {
            return Err(PinyinError::InvalidLength(0));
        }
        let last = chars[chars.len() - 1];
        let tone_num: Option<u8> = if '0' <= last && last <= '9' {
            Some((last as u32 - '0' as u32) as u8)
        } else {
            None
        };
        if tone_num.is_some() {
            chars.pop();
        }
        let tone = match Tone::from_num(tone_num) {
            Ok(t) => t,
            Err(e) => {
                return Err(e);
            },
        };
        if chars.len() == 0 {
            return Err(PinyinError::InvalidLength(0));
        }
        let ghost body = chars@;
        assert(body == syllable_body(value@));
        let pronunciation = string_from_chars(chars.as_slice());

        let first = chars[0];
        let split: usize = if initial_letter(first) {
            if (first == 'z' || first == 'c' || first == 's') && chars.len() > 1 && chars[1] == 'h' {
                2
            } else {
                1
            }
        } else {
            0
        };
        let mut head: Vec<char> = Vec::new();
        let mut tail: Vec<char> = Vec::new();
        let mut i: usize = 0;
        while i < chars.len()
            invariant
                split as int == initial_length(body),
                chars@ == body,
                i <= chars.len(),
                split <= chars.len(),
                head@ == body.take(if i < split { i as int } else { split as int }),
                tail@ == if i < split { Seq::empty() } else { body.subrange(split as int, i as int) },
            decreases chars.len() - i,
        {
            if i < split {
                head.push(chars[i]);
            } else {
                tail.push(chars[i]);
            }
            proof {
                assert(body.take(i as int + 1) =~= body.take(i as int).push(body[i as int]));
                if i >= split {
                    assert(body.subrange(split as int, i as int + 1) =~= body.subrange(split as int, i as int).push(body[i as int]));
                }
            }
            i = i + 1;
        }
        proof {
            assert(tail@ =~= syllable_vowel(body));
        }
        let initial = if split > 0 {
            Initial(Some(string_from_chars(head.as_slice())))
        } else {
            Initial(None)
        };
        Ok(Pinyin { pronunciation, initial, vowel: string_from_chars(tail.as_slice()), tone })
    }
}


/// The initial followed by the vowel spells the pronunciation again.
pub proof fn lemma_initial_then_vowel(s: Seq<char>, p: Pinyin)
    requires
        syllable_error(s) is None,
        parses_to(s, p),
    ensures
        p.pronunciation@ == match p.initial@ {
            Some(i) => i,
            None => Seq::<char>::empty(),
        } + p.vowel@,
{
    let body = syllable_body(s);
    assert(body.take(initial_length(body)) + body.skip(initial_length(body)) =~= body);
    assert(body.take(0) + body.skip(0) =~= body.skip(0));
}

/// A tone digit from 1 to 4 is rendered back as itself; 0 and no digit are rendered as
/// the empty string.
pub proof fn lemma_tone_digit_round_trip(c: char)
    requires
        digit_value(c) is Some,
        digit_value(c)->0 <= 4,
    ensures
        tone_from_num(digit_value(c)) is Ok,
        tone_digits(tone_from_num(digit_value(c))->Ok_0) == if c == '0' {
            Seq::<char>::empty()
        } else {
            seq![c]
        },
        tone_digits(tone_from_num(None)->Ok_0) == Seq::<char>::empty(),
{
}

} // verus!
