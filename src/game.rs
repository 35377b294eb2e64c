use vstd::prelude::*;

use crate::column::{key_view, keys_view, num_in, score_column, column_state};
use crate::error::{IdiomError, PinyinError};
use crate::model::{
    attr_value, tone_digits, tone_from_num, Attempt, Attr, CalculatedAttempt, CalculatedCharacter,
    CharInfo, Character, CharacterResult, Initial, Input, Output, Pinyin, State, Tone, IDIOM_LENGTH,
};
use crate::quota::CountTable;
use crate::syllable::{
    parses_to, syllable_body, syllable_error, syllable_initial, syllable_vowel, tone_number,
};
use crate::text::{chars_of, split_words, string_from_chars, whitespace_words};

verus! {

/// The values of attribute `a` along a sequence of characters.
pub open spec fn column(cs: Seq<Character>, a: Attr) -> Seq<Option<Seq<char>>> {
    cs.map_values(|c: Character| attr_value(c.literal@, c.pinyin, a))
}

/// The value of attribute `a` of the character `literal` read with the syllable `token`.
pub open spec fn token_attr(literal: char, token: Seq<char>, a: Attr) -> Option<Seq<char>> {
    let body = syllable_body(token);
    match a {
        Attr::Whole => Some(seq![literal]),
        Attr::Pronunciation => Some(body),
        Attr::Initial => syllable_initial(body),
        Attr::Vowel => Some(syllable_vowel(body)),
        Attr::Tone => match tone_from_num(tone_number(token)) {
            Ok(t) => match t.0 {
                Some(_) => Some(tone_digits(t)),
                None => None,
            },
            Err(_) => None,
        },
    }
}

/// The values of attribute `a` along an idiom given as its characters and its syllable tokens.
pub open spec fn idiom_column(word: Seq<char>, tokens: Seq<Seq<char>>, a: Attr) -> Seq<Option<Seq<char>>> {
    Seq::new(word.len(), |i: int| token_attr(word[i], tokens[i], a))
}

/// The first syllable error among `tokens[i..]`.
pub open spec fn tokens_error(tokens: Seq<Seq<char>>, i: int) -> Option<PinyinError>
    decreases tokens.len() - i,
{
    if i < 0 || i >= tokens.len() {
        None
    } else {
        match syllable_error(tokens[i]) {
            Some(e) => Some(e),
            None => tokens_error(tokens, i + 1),
        }
    }
}

/// Why an idiom given as characters and syllable tokens is refused, if it is: the first
/// bad syllable, else a count that differs from the idiom length.
pub open spec fn idiom_error(word: Seq<char>, tokens: Seq<Seq<char>>) -> Option<IdiomError> {
    match tokens_error(tokens, 0) {
        Some(e) => Some(IdiomError::InvalidPinyin(e)),
        None => if word.len() != tokens.len() || word.len() != IDIOM_LENGTH {
            Some(IdiomError::InconsistentLength(word.len() as usize, tokens.len() as usize, IDIOM_LENGTH))
        } else {
            None
        },
    }
}

/// `cs` is the idiom `word` read with the syllables `tokens`.
pub open spec fn reads_as(cs: Seq<Character>, word: Seq<char>, tokens: Seq<Seq<char>>) -> bool {
    &&& cs.len() == word.len()
    &&& cs.len() == tokens.len()
    &&& forall|i: int| 0 <= i < cs.len() ==> (#[trigger] cs[i]).literal@ == seq![word[i]] && parses_to(tokens[i], cs[i].pinyin)
}

/// Reading a syllable fixes each of its attribute values.
pub proof fn lemma_attrs_of_reading(cs: Seq<Character>, word: Seq<char>, tokens: Seq<Seq<char>>, a: Attr)
    requires
        reads_as(cs, word, tokens),
    ensures
        column(cs, a) == idiom_column(word, tokens, a),
{
    assert forall|i: int| 0 <= i < cs.len() implies column(cs, a)[i] == idiom_column(word, tokens, a)[i] by {
        let c = cs[i];
        assert(c.literal@ == seq![word[i]] && parses_to(tokens[i], c.pinyin));
    }
    assert(column(cs, a) =~= idiom_column(word, tokens, a));
}

/// The text of attribute `a`, where it is defined.
pub fn attr_key(literal: &String, p: &Pinyin, a: Attr) -> (r: Option<String>)
    ensures
        key_view(r) == attr_value(literal@, *p, a),
{
    match a {
        Attr::Whole => Some(literal.clone()),
        Attr::Pronunciation => Some(p.pronunciation.clone()),
        Attr::Initial => p.initial.duplicate().0,
        Attr::Vowel => Some(p.vowel.clone()),
        Attr::Tone => if p.tone.0.is_some() {
            Some(p.tone.to_string())
        } else {
            None
        },
    }
}

/// The values of attribute `a` along `cs`.
pub fn column_of(cs: &Vec<Character>, a: Attr) -> (r: Vec<Option<String>>)
    ensures
        keys_view(r@) == column(cs@, a),
{
    let mut r: Vec<Option<String>> = Vec::new();
    let mut i: usize = 0;
    while i < cs.len()
        invariant
            i <= cs.len(),
            keys_view(r@) == column(cs@, a).take(i as int),
        decreases cs.len() - i,
    {
        let k = attr_key(&cs[i].literal, &cs[i].pinyin, a);
        proof {
            assert(keys_view(r@.push(k)) =~= keys_view(r@).push(key_view(k)));
            assert(column(cs@, a).take(i as int + 1) =~= column(cs@, a).take(i as int).push(key_view(k)));
        }
        r.push(k);
        i = i + 1;
    }
    proof {
        assert(column(cs@, a).take(i as int) =~= column(cs@, a));
    }
    r
}

/// How many copies of each attribute value of the answer are still unclaimed.
#[derive(Debug)]
pub struct PinyinCount {
    pub literals: CountTable,
    pub pronunciations: CountTable,
    pub initials: CountTable,
    pub vowels: CountTable,
    pub tones: CountTable,
}

/// `new` is `old` with one copy of `k` taken if there was one; `found` tells whether.
pub open spec fn took(old: CountTable, new: CountTable, k: Seq<char>, found: bool) -> bool {
    &&& new.wf()
    &&& found == (old.count(k) > 0)
    &&& new.count(k) == if found { (old.count(k) - 1) as nat } else { old.count(k) }
    &&& forall|w: Seq<char>| w != k ==> new.count(w) == old.count(w)
}

fn add_key(table: &mut CountTable, key: Option<String>, Ghost(bound): Ghost<nat>)
    requires
        old(table).wf(),
        forall|v: Seq<char>| #[trigger] old(table).count(v) <= bound,
        bound < usize::MAX,
    ensures
        final(table).wf(),
        forall|v: Seq<char>| #[trigger] final(table).count(v) == old(table).count(v) + if key_view(key) == Some(v) { 1nat } else { 0 },
{
    match key {
        Some(k) => {
            proof {
                assert(old(table).count(k@) <= bound);
            }
            table.add(k);
        },
        None => {},
    }
}

impl PinyinCount {
    /// The table that holds attribute `a`.
    pub open spec fn table(self, a: Attr) -> CountTable {
        match a {
            Attr::Whole => self.literals,
            Attr::Pronunciation => self.pronunciations,
            Attr::Initial => self.initials,
            Attr::Vowel => self.vowels,
            Attr::Tone => self.tones,
        }
    }

    pub open spec fn wf(self) -> bool {
        &&& self.literals.wf()
        &&& self.pronunciations.wf()
        &&& self.initials.wf()
        &&& self.vowels.wf()
        &&& self.tones.wf()
    }

    /// Counts every attribute value of `answer`; undefined initials and tones are not counted.
    pub fn from_attempt(answer: &Vec<Character>) -> (r: PinyinCount)
        ensures
            r.wf(),
            forall|a: Attr, v: Seq<char>| #[trigger] r.table(a).count(v) == num_in(column(answer@, a), v, answer.len() as int),
    {
        let mut count = PinyinCount {
            literals: CountTable::new(),
            pronunciations: CountTable::new(),
            initials: CountTable::new(),
            vowels: CountTable::new(),
            tones: CountTable::new(),
        };
        let mut i: usize = 0;
        while i < answer.len()
            invariant
                i <= answer.len(),
                count.wf(),
                forall|a: Attr, v: Seq<char>| #[trigger] count.table(a).count(v) == num_in(column(answer@, a), v, i as int),
            decreases answer.len() - i,
        {
            let c = &answer[i];
            proof {
                assert forall|a: Attr, v: Seq<char>| #[trigger] count.table(a).count(v) <= i by {
                    crate::column::lemma_num_in_bounded(column(answer@, a), v, i as int, i as int);
                }
                assert forall|v: Seq<char>| #[trigger] count.literals.count(v) <= i by {
                    assert(count.table(Attr::Whole).count(v) <= i);
                }
                assert forall|v: Seq<char>| #[trigger] count.pronunciations.count(v) <= i by {
                    assert(count.table(Attr::Pronunciation).count(v) <= i);
                }
                assert forall|v: Seq<char>| #[trigger] count.initials.count(v) <= i by {
                    assert(count.table(Attr::Initial).count(v) <= i);
                }
                assert forall|v: Seq<char>| #[trigger] count.vowels.count(v) <= i by {
                    assert(count.table(Attr::Vowel).count(v) <= i);
                }
                assert forall|v: Seq<char>| #[trigger] count.tones.count(v) <= i by {
                    assert(count.table(Attr::Tone).count(v) <= i);
                }
            }
            let ghost before = count;
            let kw = attr_key(&c.literal, &c.pinyin, Attr::Whole);
            let kp = attr_key(&c.literal, &c.pinyin, Attr::Pronunciation);
            let ki = attr_key(&c.literal, &c.pinyin, Attr::Initial);
            let kv = attr_key(&c.literal, &c.pinyin, Attr::Vowel);
            let kt = attr_key(&c.literal, &c.pinyin, Attr::Tone);
            add_key(&mut count.literals, kw, Ghost(i as nat));
            add_key(&mut count.pronunciations, kp, Ghost(i as nat));
            add_key(&mut count.initials, ki, Ghost(i as nat));
            add_key(&mut count.vowels, kv, Ghost(i as nat));
            add_key(&mut count.tones, kt, Ghost(i as nat));
            proof {
                assert forall|a: Attr, v: Seq<char>| #[trigger] count.table(a).count(v) == num_in(column(answer@, a), v, i as int + 1) by {
                    let g = attr_value(answer@[i as int].literal@, answer@[i as int].pinyin, a);
                    assert(column(answer@, a)[i as int] == g);
                    assert(count.table(a).count(v) == before.table(a).count(v) + if g == Some(v) { 1nat } else { 0 });
                }
            }
            i = i + 1;
        }
        count
    }

    /// Claims one copy of `initial`, if one is left.
    pub fn match_initial(&mut self, initial: String) -> (r: bool)
        requires
            old(self).wf(),
        ensures
            final(self).wf(),
            took(old(self).initials, final(self).initials, initial@, r),
            final(self).literals == old(self).literals,
            final(self).pronunciations == old(self).pronunciations,
            final(self).vowels == old(self).vowels,
            final(self).tones == old(self).tones,
    {
        self.initials.take(&initial)
    }

    /// Claims one copy of the character's initial; a character without one claims nothing.
    pub fn match_initial_char<C: CharInfo>(&mut self, character: &C) -> (r: bool)
        requires
            old(self).wf(),
        ensures
            final(self).wf(),
            match character.pinyin_view().initial@ {
                Some(i) => took(old(self).initials, final(self).initials, i, r),
                None => !r && final(self).initials == old(self).initials,
            },
            final(self).literals == old(self).literals,
            final(self).pronunciations == old(self).pronunciations,
            final(self).vowels == old(self).vowels,
            final(self).tones == old(self).tones,
    {
        let initial: Initial = character.initial();
        match initial.0 {
            Some(i) => self.match_initial(i),
            None => false,
        }
    }

    /// Claims one copy of `vowel`, if one is left.
    pub fn match_vowel(&mut self, vowel: String) -> (r: bool)
        requires
            old(self).wf(),
        ensures
            final(self).wf(),
            took(old(self).vowels, final(self).vowels, vowel@, r),
            final(self).literals == old(self).literals,
            final(self).pronunciations == old(self).pronunciations,
            final(self).initials == old(self).initials,
            final(self).tones == old(self).tones,
    {
        self.vowels.take(&vowel)
    }

    /// Claims one copy of the character's vowel.
    pub fn match_vowel_char<C: CharInfo>(&mut self, character: &C) -> (r: bool)
        requires
            old(self).wf(),
        ensures
            final(self).wf(),
            took(old(self).vowels, final(self).vowels, character.pinyin_view().vowel@, r),
            final(self).literals == old(self).literals,
            final(self).pronunciations == old(self).pronunciations,
            final(self).initials == old(self).initials,
            final(self).tones == old(self).tones,
    {
        self.match_vowel(character.vowel())
    }

    /// Claims one copy of `tone`, by its digit, if one is left.
    pub fn match_tone(&mut self, tone: Tone) -> (r: bool)
        requires
            old(self).wf(),
        ensures
            final(self).wf(),
            took(old(self).tones, final(self).tones, tone_digits(tone), r),
            final(self).literals == old(self).literals,
            final(self).pronunciations == old(self).pronunciations,
            final(self).initials == old(self).initials,
            final(self).vowels == old(self).vowels,
    {
        self.tones.take(&tone.to_string())
    }

    /// Claims one copy of the character's tone; the neutral tone claims nothing.
    pub fn match_tone_char<C: CharInfo>(&mut self, character: &C) -> (r: bool)
        requires
            old(self).wf(),
        ensures
            final(self).wf(),
            match character.pinyin_view().tone.0 {
                Some(_) => took(old(self).tones, final(self).tones, tone_digits(character.pinyin_view().tone), r),
                None => !r && final(self).tones == old(self).tones,
            },
            final(self).literals == old(self).literals,
            final(self).pronunciations == old(self).pronunciations,
            final(self).initials == old(self).initials,
            final(self).vowels == old(self).vowels,
    {
        let tone = character.tone();
        if tone.0.is_some() {
            self.match_tone(tone)
        } else {
            false
        }
    }

    /// Claims one copy of `pronunciation`, if one is left.
    pub fn match_pronunciation(&mut self, pronunciation: String) -> (r: bool)
        requires
            old(self).wf(),
        ensures
            final(self).wf(),
            took(old(self).pronunciations, final(self).pronunciations, pronunciation@, r),
            final(self).literals == old(self).literals,
            final(self).initials == old(self).initials,
            final(self).vowels == old(self).vowels,
            final(self).tones == old(self).tones,
    {
        self.pronunciations.take(&pronunciation)
    }

    /// Claims one copy of the character's pronunciation.
    pub fn match_pronunciation_char<C: CharInfo>(&mut self, character: &C) -> (r: bool)
        requires
            old(self).wf(),
        ensures
            final(self).wf(),
            took(old(self).pronunciations, final(self).pronunciations, character.pinyin_view().pronunciation@, r),
            final(self).literals == old(self).literals,
            final(self).initials == old(self).initials,
            final(self).vowels == old(self).vowels,
            final(self).tones == old(self).tones,
    {
        self.match_pronunciation(character.pronunciation())
    }

    /// Claims one copy of the character itself.
    pub fn match_whole_char<C: CharInfo>(&mut self, character: &C) -> (r: bool)
        requires
            old(self).wf(),
        ensures
            final(self).wf(),
            took(old(self).literals, final(self).literals, character.literal_view(), r),
            final(self).pronunciations == old(self).pronunciations,
            final(self).initials == old(self).initials,
            final(self).vowels == old(self).vowels,
            final(self).tones == old(self).tones,
    {
        self.literals.take(&character.literal())
    }
}


/// Reads an idiom from its characters and its pinyin line (one whitespace-separated
/// syllable per character): every syllable is read first, then the three counts are compared.
pub fn parse_idiom(word: &str, pinyin: &str) -> (r: Result<Vec<Character>, IdiomError>)
    ensures
        match r {
            Ok(cs) => idiom_error(word@, whitespace_words(pinyin@)) is None && reads_as(cs@, word@, whitespace_words(pinyin@)),
            Err(e) => idiom_error(word@, whitespace_words(pinyin@)) == Some(e),
        },
{
    let letters = chars_of(word);
    let tokens = split_words(pinyin);
    let ghost toks = whitespace_words(pinyin@);
    let mut syllables: Vec<Pinyin> = Vec::new();
    let mut i: usize = 0;
    while i < tokens.len()
        invariant
            toks == whitespace_words(pinyin@),
            tokens@.map_values(|w: String| w@) == toks,
            i <= tokens.len(),
            syllables.len() == i,
            forall|j: int| 0 <= j < i ==> parses_to(toks[j], #[trigger] syllables@[j]),
            tokens_error(toks, 0) == tokens_error(toks, i as int),
        decreases tokens.len() - i,
    {
        assert(toks[i as int] == tokens@[i as int]@);
        match Pinyin::try_from(tokens[i].as_str()) {
            Ok(p) => {
                syllables.push(p);
            },
            Err(e) => {
                proof {
                    assert(toks.len() == tokens.len());
                    assert(tokens_error(toks, i as int) == Some(e));
                    assert(tokens_error(toks, 0) == Some(e));
                    assert(idiom_error(word@, toks) == Some(IdiomError::InvalidPinyin(e)));
                }
                return Err(IdiomError::InvalidPinyin(e));
            },
        }
        proof {
            assert(toks.len() == tokens.len());
        }
        i = i + 1;
    }
    if letters.len() != syllables.len() || letters.len() != IDIOM_LENGTH {
        return Err(IdiomError::InconsistentLength(letters.len(), syllables.len(), IDIOM_LENGTH));
    }
    let ghost all = syllables@;
    let mut cs: Vec<Character> = Vec::new();
    let mut i: usize = 0;
    while i < letters.len()
        invariant
            letters@ == word@,
            letters.len() == all.len(),
            i <= letters.len(),
            syllables@ == all.skip(i as int),
            cs.len() == i,
            forall|j: int| 0 <= j < i ==> (#[trigger] cs@[j]).literal@ == seq![word@[j]] && cs@[j].pinyin == all[j],
        decreases letters.len() - i,
    {
        let one: Vec<char> = vec![letters[i]];
        let literal = string_from_chars(one.as_slice());
        proof {
            assert(one@ =~= seq![word@[i as int]]);
            assert(all.skip(i as int)[0] == all[i as int]);
        }
        let p = syllables.remove(0);
        proof {
            assert(syllables@ =~= all.skip(i as int + 1));
        }
        cs.push(Character { literal, pinyin: p });
        i = i + 1;
    }
    Ok(cs)
}

/// `r` is the feedback for the guess `word` read with `tokens`, against an answer whose
/// attribute columns are `ans`.
pub open spec fn scored(r: CalculatedAttempt, ans: spec_fn(Attr) -> Seq<Option<Seq<char>>>, word: Seq<char>, tokens: Seq<Seq<char>>) -> bool {
    &&& r.characters.len() == word.len()
    &&& forall|i: int| 0 <= i < r.characters.len() ==> (#[trigger] r.characters@[i]).literal@ == seq![word[i]]
        && parses_to(tokens[i], r.characters@[i].pinyin)
    &&& forall|i: int, a: Attr| 0 <= i < r.characters.len() ==> (#[trigger] r.characters@[i].result.state_of(a))
        == column_state(ans(a), idiom_column(word, tokens, a), i)
}

fn score_attr(count: &mut CountTable, answer: &Vec<Character>, attempt: &Vec<Character>, a: Attr) -> (r: Vec<State>)
    requires
        old(count).wf(),
        answer.len() == attempt.len(),
        forall|v: Seq<char>| #[trigger] old(count).count(v) == num_in(column(answer@, a), v, answer.len() as int),
    ensures
        final(count).wf(),
        r.len() == attempt.len(),
        forall|i: int| 0 <= i < r.len() ==> r[i] == column_state(column(answer@, a), column(attempt@, a), i),
{
    let ans = column_of(answer, a);
    let att = column_of(attempt, a);
    score_column(count, &ans, &att)
}

/// Scores the guessed characters against the answer's, attribute by attribute.
pub fn score_characters(answer: &Vec<Character>, attempt: Vec<Character>, verified: bool) -> (r: CalculatedAttempt)
    requires
        answer.len() == attempt.len(),
    ensures
        r.verified == verified,
        r.characters.len() == attempt.len(),
        forall|i: int| 0 <= i < attempt.len() ==> (#[trigger] r.characters@[i]).literal == attempt@[i].literal
            && r.characters@[i].pinyin == attempt@[i].pinyin,
        forall|i: int, a: Attr| 0 <= i < attempt.len() ==> (#[trigger] r.characters@[i].result.state_of(a))
            == column_state(column(answer@, a), column(attempt@, a), i),
{
    let mut count = PinyinCount::from_attempt(answer);
    proof {
        assert forall|v: Seq<char>| #[trigger] count.literals.count(v) == num_in(column(answer@, Attr::Whole), v, answer.len() as int) by {
            assert(count.table(Attr::Whole).count(v) == num_in(column(answer@, Attr::Whole), v, answer.len() as int));
        }
        assert forall|v: Seq<char>| #[trigger] count.pronunciations.count(v) == num_in(column(answer@, Attr::Pronunciation), v, answer.len() as int) by {
            assert(count.table(Attr::Pronunciation).count(v) == num_in(column(answer@, Attr::Pronunciation), v, answer.len() as int));
        }
        assert forall|v: Seq<char>| #[trigger] count.initials.count(v) == num_in(column(answer@, Attr::Initial), v, answer.len() as int) by {
            assert(count.table(Attr::Initial).count(v) == num_in(column(answer@, Attr::Initial), v, answer.len() as int));
        }
        assert forall|v: Seq<char>| #[trigger] count.vowels.count(v) == num_in(column(answer@, Attr::Vowel), v, answer.len() as int) by {
            assert(count.table(Attr::Vowel).count(v) == num_in(column(answer@, Attr::Vowel), v, answer.len() as int));
        }
        assert forall|v: Seq<char>| #[trigger] count.tones.count(v) == num_in(column(answer@, Attr::Tone), v, answer.len() as int) by {
            assert(count.table(Attr::Tone).count(v) == num_in(column(answer@, Attr::Tone), v, answer.len() as int));
        }
    }
    let whole = score_attr(&mut count.literals, answer, &attempt, Attr::Whole);
    let pronunciation = score_attr(&mut count.pronunciations, answer, &attempt, Attr::Pronunciation);
    let initial = score_attr(&mut count.initials, answer, &attempt, Attr::Initial);
    let vowel = score_attr(&mut count.vowels, answer, &attempt, Attr::Vowel);
    let tone = score_attr(&mut count.tones, answer, &attempt, Attr::Tone);

    let ghost orig = attempt@;
    let n = attempt.len();
    let mut rest = attempt;
    let mut characters: Vec<CalculatedCharacter> = Vec::new();
    let mut i: usize = 0;
    while i < n
        invariant
            n == orig.len(),
            i <= n,
            rest@ == orig.skip(i as int),
            whole.len() == n && pronunciation.len() == n && initial.len() == n && vowel.len() == n && tone.len() == n,
            forall|j: int| 0 <= j < n ==> whole[j] == column_state(column(answer@, Attr::Whole), column(orig, Attr::Whole), j),
            forall|j: int| 0 <= j < n ==> pronunciation[j] == column_state(column(answer@, Attr::Pronunciation), column(orig, Attr::Pronunciation), j),
            forall|j: int| 0 <= j < n ==> initial[j] == column_state(column(answer@, Attr::Initial), column(orig, Attr::Initial), j),
            forall|j: int| 0 <= j < n ==> vowel[j] == column_state(column(answer@, Attr::Vowel), column(orig, Attr::Vowel), j),
            forall|j: int| 0 <= j < n ==> tone[j] == column_state(column(answer@, Attr::Tone), column(orig, Attr::Tone), j),
            characters.len() == i,
            forall|j: int| 0 <= j < i ==> (#[trigger] characters@[j]).literal == orig[j].literal && characters@[j].pinyin == orig[j].pinyin,
            forall|j: int, a: Attr| 0 <= j < i ==> (#[trigger] characters@[j].result.state_of(a))
                == column_state(column(answer@, a), column(orig, a), j),
        decreases n - i,
    {
        let result = CharacterResult {
            whole: whole[i],
            pronunciation: pronunciation[i],
            initial: initial[i],
            vowel: vowel[i],
            tone: tone[i],
        };
        proof {
            assert(orig.skip(i as int)[0] == orig[i as int]);
        }
        let c = rest.remove(0);
        proof {
            assert(rest@ =~= orig.skip(i as int + 1));
        }
        characters.push(CalculatedCharacter::from_character(c, result));
        i = i + 1;
    }
    CalculatedAttempt { characters, verified }
}

impl CalculatedAttempt {
    /// Reads the guess and scores it against the answer's characters.
    pub fn from_attempt(answer: &Vec<Character>, attempt: &Attempt) -> (r: Result<CalculatedAttempt, IdiomError>)
        requires
            answer.len() == IDIOM_LENGTH,
        ensures
            match r {
                Ok(s) => idiom_error(attempt.word@, whitespace_words(attempt.pinyin@)) is None
                    && s.verified == (attempt.verified == Some(true))
                    && scored(s, |a: Attr| column(answer@, a), attempt.word@, whitespace_words(attempt.pinyin@)),
                Err(e) => idiom_error(attempt.word@, whitespace_words(attempt.pinyin@)) == Some(e),
            },
    {
        let characters = match parse_idiom(attempt.word.as_str(), attempt.pinyin.as_str()) {
            Ok(cs) => cs,
            Err(e) => {
                return Err(e);
            },
        };
        let ghost cs = characters@;
        let verified = match attempt.verified {
            Some(v) => v,
            None => false,
        };
        let r = score_characters(answer, characters, verified);
        proof {
            let w = attempt.word@;
            let t = whitespace_words(attempt.pinyin@);
            assert forall|a: Attr| column(cs, a) == idiom_column(w, t, a) by {
                lemma_attrs_of_reading(cs, w, t, a);
            }
            assert forall|i: int| 0 <= i < r.characters.len() implies (#[trigger] r.characters@[i]).literal@ == seq![w[i]]
                && parses_to(t[i], r.characters@[i].pinyin) by {
                assert(cs[i].literal@ == seq![w[i]] && parses_to(t[i], cs[i].pinyin));
            }
        }
        Ok(r)
    }
}


/// Why a guess (or the answer) is refused, if it is.
pub open spec fn attempt_error(a: Attempt) -> Option<IdiomError> {
    idiom_error(a.word@, whitespace_words(a.pinyin@))
}

/// The first refusal among `s[k..]`.
pub open spec fn attempts_error(s: Seq<Attempt>, k: int) -> Option<IdiomError>
    decreases s.len() - k,
{
    if k < 0 || k >= s.len() {
        None
    } else {
        match attempt_error(s[k]) {
            Some(e) => Some(e),
            None => attempts_error(s, k + 1),
        }
    }
}

/// Why a request is refused, if it is: the answer's error first, then the first guess's.
pub open spec fn input_error(input: Input) -> Option<IdiomError> {
    match attempt_error(input.answer) {
        Some(e) => Some(e),
        None => attempts_error(input.attempts@, 0),
    }
}

/// The game is over once the guesses reach the limit or the latest guess is the answer's word.
pub open spec fn is_finished(input: Input, max_attempt_count: usize) -> bool {
    input.attempts.len() >= max_attempt_count || (input.attempts.len() > 0
        && input.attempts@.last().word@ == input.answer.word@)
}

/// Scores every guess of the request against its answer, oldest first, and says whether
/// the game is over. Any refused idiom refuses the whole request.
pub fn score(input: &Input, max_attempt_count: usize) -> (r: Result<Output, IdiomError>)
    ensures
        match r {
            Ok(out) => {
                &&& input_error(*input) is None
                &&& out.max_attempt_count == max_attempt_count
                &&& out.finished == is_finished(*input, max_attempt_count)
                &&& out.result.len() == input.attempts.len()
                &&& forall|k: int| 0 <= k < out.result.len() ==> (#[trigger] out.result@[k]).verified == (input.attempts@[k].verified == Some(true))
                    && scored(out.result@[k], |a: Attr| idiom_column(input.answer.word@, whitespace_words(input.answer.pinyin@), a),
                        input.attempts@[k].word@, whitespace_words(input.attempts@[k].pinyin@))
            },
            Err(e) => input_error(*input) == Some(e),
        },
{
    let n = input.attempts.len();
    let finished = n >= max_attempt_count || (n > 0 && input.attempts[n - 1].word == input.answer.word);
    let answer = match parse_idiom(input.answer.word.as_str(), input.answer.pinyin.as_str()) {
        Ok(cs) => cs,
        Err(e) => {
            return Err(e);
        },
    };
    let ghost aw = input.answer.word@;
    let ghost at = whitespace_words(input.answer.pinyin@);
    proof {
        assert forall|a: Attr| column(answer@, a) == idiom_column(aw, at, a) by {
            lemma_attrs_of_reading(answer@, aw, at, a);
        }
    }
    let mut result: Vec<CalculatedAttempt> = Vec::new();
    let mut k: usize = 0;
    while k < n
        invariant
            n == input.attempts.len(),
            answer.len() == IDIOM_LENGTH,
            aw == input.answer.word@,
            at == whitespace_words(input.answer.pinyin@),
            attempt_error(input.answer) is None,
            forall|a: Attr| column(answer@, a) == idiom_column(aw, at, a),
            k <= n,
            result.len() == k,
            attempts_error(input.attempts@, 0) == attempts_error(input.attempts@, k as int),
            forall|j: int| 0 <= j < k ==> (#[trigger] result@[j]).verified == (input.attempts@[j].verified == Some(true))
                && scored(result@[j], |a: Attr| idiom_column(aw, at, a), input.attempts@[j].word@, whitespace_words(input.attempts@[j].pinyin@)),
        decreases n - k,
    {
        match CalculatedAttempt::from_attempt(&answer, &input.attempts[k]) {
            Ok(s) => {
                proof {
                    let w = input.attempts@[k as int].word@;
                    let t = whitespace_words(input.attempts@[k as int].pinyin@);
                    assert forall|i: int, a: Attr| 0 <= i < s.characters.len() implies (#[trigger] s.characters@[i].result.state_of(a))
                        == column_state(idiom_column(aw, at, a), idiom_column(w, t, a), i) by {
                        assert(column(answer@, a) == idiom_column(aw, at, a));
                    }
                }
                result.push(s);
            },
            Err(e) => {
                return Err(e);
            },
        }
        k = k + 1;
    }
    Ok(Output { result, max_attempt_count, finished })
}


/// Scoring is a function of its inputs: two results for the same answer and guess agree
/// on every character and every attribute.
pub proof fn lemma_scoring_deterministic(
    r1: CalculatedAttempt,
    r2: CalculatedAttempt,
    ans: spec_fn(Attr) -> Seq<Option<Seq<char>>>,
    word: Seq<char>,
    tokens: Seq<Seq<char>>,
)
    requires
        scored(r1, ans, word, tokens),
        scored(r2, ans, word, tokens),
    ensures
        r1.characters.len() == r2.characters.len(),
        forall|i: int, a: Attr| 0 <= i < r1.characters.len() ==> (#[trigger] r1.characters@[i].result.state_of(a))
            == r2.characters@[i].result.state_of(a),
        forall|i: int| 0 <= i < r1.characters.len() ==> (#[trigger] r1.characters@[i]).literal@ == r2.characters@[i].literal@,
{
    assert forall|i: int, a: Attr| 0 <= i < r1.characters.len() implies (#[trigger] r1.characters@[i].result.state_of(a))
        == r2.characters@[i].result.state_of(a) by {
        assert(r1.characters@[i].result.state_of(a) == column_state(ans(a), idiom_column(word, tokens, a), i));
        assert(r2.characters@[i].result.state_of(a) == column_state(ans(a), idiom_column(word, tokens, a), i));
    }
    assert forall|i: int| 0 <= i < r1.characters.len() implies (#[trigger] r1.characters@[i]).literal@ == r2.characters@[i].literal@ by {
        assert(r2.characters@[i].literal@ == seq![word[i]]);
    }
}

} // verus!
