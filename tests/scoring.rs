use handle_core::dict::find_word;
use handle_core::error::{IdiomError, PinyinError};
use handle_core::game::{parse_idiom, score, PinyinCount};
use handle_core::model::{
    Answer, Attempt, CalculatedAttempt, CharInfo, Input, Pinyin, State, Tone, ToneExplicit,
};
use handle_core::quota::CountTable;
use handle_core::response::ImageResponse;

fn attempt(word: &str, pinyin: &str) -> Attempt {
    Attempt { word: word.to_string(), pinyin: pinyin.to_string(), verified: None }
}

fn states(a: &CalculatedAttempt, f: fn(&handle_core::model::CharacterResult) -> State) -> Vec<State> {
    a.characters.iter().map(|c| f(&c.result)).collect()
}

#[test]
fn parses_compound_initial_and_tone() {
    let p = Pinyin::try_from("zhong1").unwrap();
    assert_eq!(p.pronunciation, "zhong");
    assert_eq!(p.initial.0, Some("zh".to_string()));
    assert_eq!(p.vowel, "ong");
    assert_eq!(p.tone, Tone(Some(ToneExplicit::High)));
}

#[test]
fn parses_single_letter_initial() {
    let p = Pinyin::try_from("ca3").unwrap();
    assert_eq!(p.initial.0, Some("c".to_string()));
    assert_eq!(p.vowel, "a");
    assert_eq!(p.tone, Tone(Some(ToneExplicit::Low)));
    let q = Pinyin::try_from("hao").unwrap();
    assert_eq!(q.initial.0, Some("h".to_string()));
    assert_eq!(q.vowel, "ao");
    assert_eq!(q.tone, Tone(None));
}

#[test]
fn parses_syllable_without_initial() {
    let p = Pinyin::try_from("an4").unwrap();
    assert_eq!(p.pronunciation, "an");
    assert_eq!(p.initial.0, None);
    assert_eq!(p.vowel, "an");
    assert_eq!(p.tone, Tone(Some(ToneExplicit::Falling)));
}

#[test]
fn tone_zero_is_neutral() {
    let p = Pinyin::try_from("de0").unwrap();
    assert_eq!(p.pronunciation, "de");
    assert_eq!(p.tone, Tone(None));
    assert_eq!(p.tone.to_string(), "");
}

#[test]
fn tone_marks_are_letters() {
    let p = Pinyin::try_from("yī").unwrap();
    assert_eq!(p.pronunciation, "yī");
    assert_eq!(p.initial.0, Some("y".to_string()));
    assert_eq!(p.vowel, "ī");
    assert_eq!(p.tone, Tone(None));
}

#[test]
fn tone_five_is_invalid() {
    assert_eq!(Pinyin::try_from("ma5").unwrap_err(), PinyinError::InvalidTone(5));
    assert_eq!(Pinyin::try_from("5").unwrap_err(), PinyinError::InvalidTone(5));
    assert_eq!(Tone::from_num(Some(9)), Err(PinyinError::InvalidTone(9)));
}

#[test]
fn empty_token_is_invalid_length() {
    assert_eq!(Pinyin::try_from("").unwrap_err(), PinyinError::InvalidLength(0));
    assert_eq!(Pinyin::try_from("2").unwrap_err(), PinyinError::InvalidLength(0));
}

#[test]
fn initial_and_vowel_spell_pronunciation() {
    for token in ["zhong1", "chi2", "shi4", "an", "er2", "wo3", "zai4", "ci2", "si"] {
        let p = Pinyin::try_from(token).unwrap();
        let mut rebuilt = p.initial.0.clone().unwrap_or_default();
        rebuilt.push_str(&p.vowel);
        assert_eq!(rebuilt, p.pronunciation, "token {}", token);
    }
}

#[test]
fn tone_digits_round_trip() {
    for d in 1u8..=4 {
        let t = Tone::from_num(Some(d)).unwrap();
        assert_eq!(t.to_string(), d.to_string());
        let p = Pinyin::try_from(format!("ma{}", d).as_str()).unwrap();
        assert_eq!(p.tone.to_string(), d.to_string());
    }
    assert_eq!(Tone::from_num(Some(0)).unwrap().to_string(), "");
    assert_eq!(Tone::from_num(None).unwrap().to_string(), "");
}

#[test]
fn identical_guess_is_all_correct_and_finishes() {
    let input = Input {
        answer: attempt("一二三四", "yī èr sān sì"),
        attempts: vec![attempt("一二三四", "yī èr sān sì")],
    };
    let out = score(&input, 10).unwrap();
    assert!(out.finished);
    assert_eq!(out.max_attempt_count, 10);
    assert_eq!(out.result.len(), 1);
    for c in &out.result[0].characters {
        assert_eq!(c.result.whole, State::Correct);
        assert_eq!(c.result.pronunciation, State::Correct);
        assert_eq!(c.result.initial, State::Correct);
        assert_eq!(c.result.vowel, State::Correct);
        assert_eq!(c.result.tone, State::Correct);
    }
}

#[test]
fn three_syllables_for_four_characters_is_inconsistent() {
    let input = Input {
        answer: attempt("一二三四", "yi1 er4 san1 si4"),
        attempts: vec![attempt("一二三四", "yi1 er4 san1")],
    };
    assert_eq!(score(&input, 10).unwrap_err(), IdiomError::InconsistentLength(4, 3, 4));
    assert_eq!(
        parse_idiom("一二三", "yi1 er4 san1").unwrap_err(),
        IdiomError::InconsistentLength(3, 3, 4)
    );
}

#[test]
fn bad_tone_in_guess_refuses_request() {
    let input = Input {
        answer: attempt("一二三四", "yi1 er4 san1 si4"),
        attempts: vec![attempt("一二三四", "yi1 er5 san1 si4")],
    };
    assert_eq!(
        score(&input, 10).unwrap_err(),
        IdiomError::InvalidPinyin(PinyinError::InvalidTone(5))
    );
}

#[test]
fn digit_only_syllable_refuses_idiom() {
    assert_eq!(
        parse_idiom("一二三四", "yi1 3 san1 si4").unwrap_err(),
        IdiomError::InvalidPinyin(PinyinError::InvalidLength(0))
    );
}

#[test]
fn earlier_duplicate_takes_the_only_copy() {
    let answer = parse_idiom("一二三四", "yi1 er4 san1 si4").unwrap();
    let r = CalculatedAttempt::from_attempt(&answer, &attempt("二五二六", "er4 wu3 er4 liu4")).unwrap();
    assert_eq!(
        states(&r, |c| c.whole),
        vec![State::Misplaced, State::Missing, State::Missing, State::Missing]
    );
    assert_eq!(
        states(&r, |c| c.pronunciation),
        vec![State::Misplaced, State::Missing, State::Missing, State::Missing]
    );
}

#[test]
fn attributes_are_scored_independently() {
    let answer = parse_idiom("一二三四", "yi1 er4 san1 si4").unwrap();
    let r = CalculatedAttempt::from_attempt(&answer, &attempt("五山四十", "wu3 shan1 si4 shi2")).unwrap();
    // literal: 四 is in the answer at another place
    assert_eq!(
        states(&r, |c| c.whole),
        vec![State::Missing, State::Missing, State::Misplaced, State::Missing]
    );
    // initial: w/y differ; sh is absent; s is the answer's third and fourth initial
    assert_eq!(
        states(&r, |c| c.initial),
        vec![State::Missing, State::Missing, State::Correct, State::Missing]
    );
    // vowel: "i" at 3 is exact; "an" and the other "i" find spare copies
    assert_eq!(
        states(&r, |c| c.vowel),
        vec![State::Missing, State::Misplaced, State::Misplaced, State::Correct]
    );
    // tone: no exact place; 1 and 4 occur in the answer, 3 and 2 do not
    assert_eq!(
        states(&r, |c| c.tone),
        vec![State::Missing, State::Misplaced, State::Misplaced, State::Missing]
    );
}

#[test]
fn neutral_tone_is_never_misplaced() {
    let answer = parse_idiom("一二三四", "yi er4 san1 si4").unwrap();
    let r = CalculatedAttempt::from_attempt(&answer, &attempt("五六七八", "wu liu4 qi ba1")).unwrap();
    assert_eq!(
        states(&r, |c| c.tone),
        vec![State::Correct, State::Correct, State::Missing, State::Misplaced]
    );
}

#[test]
fn credit_never_exceeds_answer_copies() {
    let answer = parse_idiom("一二三四", "yi1 er4 san1 si4").unwrap();
    let r = CalculatedAttempt::from_attempt(&answer, &attempt("四四四四", "si4 si4 si4 si4")).unwrap();
    let whole = states(&r, |c| c.whole);
    assert_eq!(whole, vec![State::Missing, State::Missing, State::Missing, State::Correct]);
    let credited = whole.iter().filter(|s| **s != State::Missing).count();
    assert!(credited <= 1);
}

#[test]
fn scoring_twice_gives_the_same_result() {
    let input = Input {
        answer: attempt("一二三四", "yi1 er4 san1 si4"),
        attempts: vec![attempt("二五二六", "er4 wu3 er4 liu4"), attempt("五山四十", "wu3 shan1 si4 shi2")],
    };
    let a = score(&input, 10).unwrap();
    let b = score(&input, 10).unwrap();
    assert_eq!(format!("{:?}", a), format!("{:?}", b));
    assert!(!a.finished);
}

#[test]
fn finishes_at_attempt_limit() {
    let input = Input {
        answer: attempt("一二三四", "yi1 er4 san1 si4"),
        attempts: vec![attempt("五山四十", "wu3 shan1 si4 shi2"), attempt("五山四十", "wu3 shan1 si4 shi2")],
    };
    assert!(score(&input, 2).unwrap().finished);
    assert!(!score(&input, 3).unwrap().finished);
}

#[test]
fn verified_flag_is_carried() {
    let answer = parse_idiom("一二三四", "yi1 er4 san1 si4").unwrap();
    let mut a = attempt("一二三四", "yi1 er4 san1 si4");
    a.verified = Some(true);
    assert!(CalculatedAttempt::from_attempt(&answer, &a).unwrap().verified);
    a.verified = None;
    assert!(!CalculatedAttempt::from_attempt(&answer, &a).unwrap().verified);
}

#[test]
fn bad_answer_is_refused_first() {
    let input = Input {
        answer: attempt("一二三", "yi1 er4 san1"),
        attempts: vec![attempt("一二三四", "yi1 er9 san1 si4")],
    };
    assert_eq!(score(&input, 10).unwrap_err(), IdiomError::InconsistentLength(3, 3, 4));
}

#[test]
fn quota_table_counts_and_takes() {
    let mut t = CountTable::new();
    t.add("an".to_string());
    t.add("an".to_string());
    assert!(t.take(&"an".to_string()));
    assert!(t.take(&"an".to_string()));
    assert!(!t.take(&"an".to_string()));
    assert!(!t.take(&"ao".to_string()));
}

#[test]
fn pinyin_count_matches_by_attribute() {
    let answer = parse_idiom("一二三四", "yi1 er4 san1 si4").unwrap();
    let mut count = PinyinCount::from_attempt(&answer);
    assert!(count.match_initial("s".to_string()));
    assert!(count.match_initial("s".to_string()));
    assert!(!count.match_initial("s".to_string()));
    assert!(!count.match_initial_char(&answer[1]));
    assert!(count.match_vowel_char(&answer[0]));
    assert!(count.match_vowel("i".to_string()));
    assert!(!count.match_vowel("i".to_string()));
    assert!(count.match_tone(Tone(Some(ToneExplicit::High))));
    assert!(count.match_tone_char(&answer[2]));
    assert!(!count.match_tone(Tone(Some(ToneExplicit::High))));
    assert!(!count.match_tone(Tone(None)));
    assert!(count.match_pronunciation_char(&answer[3]));
    assert!(!count.match_pronunciation("si".to_string()));
    assert!(count.match_whole_char(&answer[0]));
    assert!(!count.match_whole_char(&answer[0]));
    assert_eq!(answer[0].literal(), "一");
    assert_eq!(answer[1].initial().0, None);
}

#[test]
fn state_names() {
    assert_eq!(State::Correct.to_string(), "correct");
    assert_eq!(State::Misplaced.to_string(), "misplaced");
    assert_eq!(State::Missing.to_string(), "missing");
    assert_eq!(State::default(), State::Missing);
}

#[test]
fn lookup_finds_first_entry() {
    let dict = vec![
        Answer { word: "一二三四".to_string(), pinyin: "yi1 er4 san1 si4".to_string(), explanation: "a".to_string() },
        Answer { word: "五六七八".to_string(), pinyin: "wu3 liu4 qi1 ba1".to_string(), explanation: "b".to_string() },
        Answer { word: "五六七八".to_string(), pinyin: "wu3 liu4 qi1 ba1".to_string(), explanation: "c".to_string() },
    ];
    assert_eq!(find_word(&dict, &"五六七八".to_string()), Some(1));
    assert_eq!(find_word(&dict, &"九九九九".to_string()), None);
}

#[test]
fn image_response_builders() {
    let r = ImageResponse::new("error: x".to_string());
    assert_eq!(r.message, "error: x");
    assert!(r.image_base64.is_none());
    let r = ImageResponse::with_image("ok".to_string(), "AAAA".to_string());
    assert_eq!(r.image_base64, Some("AAAA".to_string()));
}
