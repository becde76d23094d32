use gksrmf::hangul_engine::{convert_eng_to_kor, ComposerStep, HangulComposer};

fn feed_all(composer: &mut HangulComposer, keys: &str) -> (String, String) {
    let mut committed = String::new();
    let mut composing = String::new();
    for ch in keys.chars() {
        let step: ComposerStep = composer.feed_key(ch);
        committed.push_str(&step.committed);
        composing = step.composing;
    }
    (committed, composing)
}

#[test]
fn test_basic() {
    assert_eq!(convert_eng_to_kor("dkssudgktpdy"), "안녕하세요");
}

#[test]
fn test_non_hangul_passthrough() {
    assert_eq!(convert_eng_to_kor("123 ABC!"), "123 ABC!");
}

#[test]
fn test_single_consonant() {
    assert_eq!(convert_eng_to_kor("r"), "ㄱ");
    assert_eq!(convert_eng_to_kor("s"), "ㄴ");
}

#[test]
fn test_single_vowel() {
    assert_eq!(convert_eng_to_kor("k"), "ㅏ");
}

#[test]
fn test_mixed() {
    assert_eq!(convert_eng_to_kor("dkssud123"), "안녕123");
}

#[test]
fn test_double_consonant_jong() {
    assert_eq!(convert_eng_to_kor("ekfr"), "닭");
}

#[test]
fn test_jong_data_alignment_single() {
    assert_eq!(convert_eng_to_kor("rkr"), "각");
    assert_eq!(convert_eng_to_kor("gks"), "한");
    assert_eq!(convert_eng_to_kor("qkq"), "밥");
    assert_eq!(convert_eng_to_kor("wjd"), "정");
}

#[test]
fn test_jong_data_alignment_double() {
    assert_eq!(convert_eng_to_kor("sjrt"), "넋");
    assert_eq!(convert_eng_to_kor("dksw"), "앉");
    assert_eq!(convert_eng_to_kor("dksg"), "않");
    assert_eq!(convert_eng_to_kor("tkfa"), "삶");
    assert_eq!(convert_eng_to_kor("qkfq"), "밟");
    assert_eq!(convert_eng_to_kor("gkfx"), "핥");
    assert_eq!(convert_eng_to_kor("tlfg"), "싫");
    assert_eq!(convert_eng_to_kor("djqt"), "없");
}

#[test]
fn test_jong_split_on_vowel() {
    assert_eq!(convert_eng_to_kor("ekfrl"), "달기");
    assert_eq!(convert_eng_to_kor("djqtdl"), "없이");
    assert_eq!(convert_eng_to_kor("dkswdk"), "앉아");
}

#[test]
fn test_composer_basic() {
    let mut composer = HangulComposer::new();
    let (committed, composing) = feed_all(&mut composer, "gksrmf");
    assert_eq!(format!("{committed}{composing}"), "한글");
}

#[test]
fn test_composer_backspace_syllable() {
    let mut composer = HangulComposer::new();
    feed_all(&mut composer, "gksrmf");
    assert_eq!(composer.backspace_syllable(), "");
    assert_eq!(composer.backspace_syllable(), "");
}

#[test]
fn test_composer_pop_key_step() {
    let mut composer = HangulComposer::new();
    let (committed, composing) = feed_all(&mut composer, "gksrnrdjdl");
    assert_eq!(format!("{committed}{composing}"), "한국어이");
    assert_eq!(composer.preview_text(), "이");
    assert_eq!(composer.pop_key(), "ㅇ");
    assert_eq!(composer.pop_key(), "");
}

#[test]
fn test_composer_backspace_syllable_in_main_flow() {
    let mut composer = HangulComposer::new();
    let (committed, composing) = feed_all(&mut composer, "gksrmf");
    assert_eq!(format!("{committed}{composing}"), "한글");
    assert_eq!(composer.pop_key(), "그");
}

#[test]
fn test_korean_e_backspace_to_ieung() {
    let mut composer = HangulComposer::new();
    let (committed, composing) = feed_all(&mut composer, "gksrnrdjdl");
    assert_eq!(format!("{committed}{composing}"), "한국어이");
    assert_eq!(composer.pop_key(), "ㅇ");
}

#[test]
fn feeding_keys_gives_the_converted_text() {
    for keys in [
        "dkssudgktpdy", "ekfrl", "rtk", "dkswdk", "hk", "rhkd", "1r2k", "djqtdl", "tlfgdj",
        "wnTt", "wnt", "gks rmf!", "RkRk", "QkQk", "dnjs", "zzz", "kkk", "gkfxdk", "abc",
    ] {
        let mut composer = HangulComposer::new();
        let (committed, composing) = feed_all(&mut composer, keys);
        assert_eq!(format!("{committed}{composing}"), convert_eng_to_kor(keys), "{keys}");
        assert_eq!(composer.preview_text(), composing, "{keys}");
        assert!(composing.chars().count() <= 1, "{keys}");
    }
}

#[test]
fn non_keys_separate_syllables() {
    assert_eq!(convert_eng_to_kor("gks rmf"), "한 글");
    assert_eq!(convert_eng_to_kor("gks") + " " + &convert_eng_to_kor("rmf"), "한 글");
    assert_eq!(convert_eng_to_kor("한글 123"), "한글 123");
    assert_eq!(convert_eng_to_kor("rk한k"), "가한ㅏ");
    assert_eq!(convert_eng_to_kor(""), "");
}

#[test]
fn compound_vowels_and_clusters() {
    assert_eq!(convert_eng_to_kor("rhk"), "과");
    assert_eq!(convert_eng_to_kor("rho"), "괘");
    assert_eq!(convert_eng_to_kor("rhl"), "괴");
    assert_eq!(convert_eng_to_kor("dnj"), "워");
    assert_eq!(convert_eng_to_kor("dnp"), "웨");
    assert_eq!(convert_eng_to_kor("dnl"), "위");
    assert_eq!(convert_eng_to_kor("dml"), "의");
    assert_eq!(convert_eng_to_kor("hk"), "ㅘ");
    assert_eq!(convert_eng_to_kor("kk"), "ㅏㅏ");
    assert_eq!(convert_eng_to_kor("rt"), "ㄳ");
    assert_eq!(convert_eng_to_kor("rtk"), "ㄱ사");
    assert_eq!(convert_eng_to_kor("rr"), "ㄱㄱ");
    assert_eq!(convert_eng_to_kor("Ek"), "따");
    assert_eq!(convert_eng_to_kor("rkE"), "가ㄸ");
    assert_eq!(convert_eng_to_kor("rkEk"), "가따");
    assert_eq!(convert_eng_to_kor("rkTk"), "가싸");
    assert_eq!(convert_eng_to_kor("rkT"), "갔");
    assert_eq!(convert_eng_to_kor("wnT"), "줐");
    assert_eq!(convert_eng_to_kor("glg"), "힣");
}

#[test]
fn text_is_never_longer_than_keys() {
    for keys in ["r", "rt", "rtk", "1", "dkssudgktpdy", "kk", "rkrk"] {
        assert!(convert_eng_to_kor(keys).chars().count() <= keys.chars().count());
    }
}

#[test]
fn composer_clear_and_pending() {
    let mut composer = HangulComposer::default();
    assert!(!composer.has_pending());
    composer.feed_key('g');
    assert!(composer.has_pending());
    let copy = composer.clone();
    assert_eq!(copy.preview_text(), "ㅎ");
    composer.clear();
    assert!(!composer.has_pending());
    assert_eq!(composer.preview_text(), "");
    assert_eq!(composer.pop_key(), "");
    assert_eq!(composer.backspace_syllable(), "");
    let step = ComposerStep::default();
    assert_eq!(step.committed, "");
    assert_eq!(step.composing, "");
}

#[test]
fn composer_backspace_undoes_keys_one_at_a_time() {
    let mut composer = HangulComposer::new();
    feed_all(&mut composer, "gk");
    assert_eq!(composer.preview_text(), "하");
    assert_eq!(composer.pop_key(), "ㅎ");
    assert_eq!(composer.pop_key(), "");
    assert!(!composer.has_pending());
}

#[test]
fn initial_pairs_combine_and_split_like_finals() {
    // ㄹ+ㅂ as initials forms ㄼ, as a final after a vowel too.
    assert_eq!(convert_eng_to_kor("fq"), "ㄼ");
    assert_eq!(convert_eng_to_kor("ekfq"), "닯");
    // A vowel splits the pair again: the first stays, the second starts a syllable.
    assert_eq!(convert_eng_to_kor("fqk"), "ㄹ바");
    assert_eq!(convert_eng_to_kor("ekfqk"), "달바");
    // ㄷ forms no pair, as an initial or as a final.
    assert_eq!(convert_eng_to_kor("eq"), "ㄷㅂ");
    assert_eq!(convert_eng_to_kor("ekeq"), "닫ㅂ");
}
