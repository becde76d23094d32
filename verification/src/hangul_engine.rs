//! Two-set (dubeolsik) Hangul composition: turns a sequence of English key
//! characters into precomposed Hangul text.
use vstd::prelude::*;

use crate::wide_text::{chars_to_string, str_chars};

verus! {

// ---------------------------------------------------------------------------
// Key layout and jamo tables
// ---------------------------------------------------------------------------

/// Position of `c` on the key layout `rRseEfaqQtTdwWczxvgkoiOjpuPhynbml`.
/// Positions below 19 are consonants, 19 and above are vowels.
pub open spec fn spec_key_position(c: char) -> Option<u8> {
    match c {
        'r' => Some(0u8),
        'R' => Some(1u8),
        's' => Some(2u8),
        'e' => Some(3u8),
        'E' => Some(4u8),
        'f' => Some(5u8),
        'a' => Some(6u8),
        'q' => Some(7u8),
        'Q' => Some(8u8),
        't' => Some(9u8),
        'T' => Some(10u8),
        'd' => Some(11u8),
        'w' => Some(12u8),
        'W' => Some(13u8),
        'c' => Some(14u8),
        'z' => Some(15u8),
        'x' => Some(16u8),
        'v' => Some(17u8),
        'g' => Some(18u8),
        'k' => Some(19u8),
        'o' => Some(20u8),
        'i' => Some(21u8),
        'O' => Some(22u8),
        'j' => Some(23u8),
        'p' => Some(24u8),
        'u' => Some(25u8),
        'P' => Some(26u8),
        'h' => Some(27u8),
        'y' => Some(28u8),
        'n' => Some(29u8),
        'b' => Some(30u8),
        'm' => Some(31u8),
        'l' => Some(32u8),
        _ => None,
    }
}

/// Whether `c` is one of the 33 layout keys.
pub open spec fn is_layout_key(c: char) -> bool {
    spec_key_position(c) is Some
}

/// Initial consonants (choseong) in Unicode order: `ㄱㄲㄴㄷㄸㄹㅁㅂㅃㅅㅆㅇㅈㅉㅊㅋㅌㅍㅎ`.
/// A consonant key at position `p` is the initial consonant with index `p`.
pub open spec fn initial_jamo(i: int) -> char {
    if i == 0 { 'ㄱ' }
    else if i == 1 { 'ㄲ' }
    else if i == 2 { 'ㄴ' }
    else if i == 3 { 'ㄷ' }
    else if i == 4 { 'ㄸ' }
    else if i == 5 { 'ㄹ' }
    else if i == 6 { 'ㅁ' }
    else if i == 7 { 'ㅂ' }
    else if i == 8 { 'ㅃ' }
    else if i == 9 { 'ㅅ' }
    else if i == 10 { 'ㅆ' }
    else if i == 11 { 'ㅇ' }
    else if i == 12 { 'ㅈ' }
    else if i == 13 { 'ㅉ' }
    else if i == 14 { 'ㅊ' }
    else if i == 15 { 'ㅋ' }
    else if i == 16 { 'ㅌ' }
    else if i == 17 { 'ㅍ' }
    else { 'ㅎ' }
}

/// Vowels (jungseong) in Unicode order, `ㅏ` .. `ㅣ`: 21 consecutive compatibility jamo.
pub open spec fn medial_jamo(i: int) -> char {
    (0x314F + i) as char
}

/// Final consonants (jongseong), without the empty final:
/// `ㄱㄲㄳㄴㄵㄶㄷㄹㄺㄻㄼㄽㄾㄿㅀㅁㅂㅄㅅㅆㅇㅈㅊㅋㅌㅍㅎ`.
pub open spec fn final_jamo(i: int) -> char {
    if i == 0 { 'ㄱ' }
    else if i == 1 { 'ㄲ' }
    else if i == 2 { 'ㄳ' }
    else if i == 3 { 'ㄴ' }
    else if i == 4 { 'ㄵ' }
    else if i == 5 { 'ㄶ' }
    else if i == 6 { 'ㄷ' }
    else if i == 7 { 'ㄹ' }
    else if i == 8 { 'ㄺ' }
    else if i == 9 { 'ㄻ' }
    else if i == 10 { 'ㄼ' }
    else if i == 11 { 'ㄽ' }
    else if i == 12 { 'ㄾ' }
    else if i == 13 { 'ㄿ' }
    else if i == 14 { 'ㅀ' }
    else if i == 15 { 'ㅁ' }
    else if i == 16 { 'ㅂ' }
    else if i == 17 { 'ㅄ' }
    else if i == 18 { 'ㅅ' }
    else if i == 19 { 'ㅆ' }
    else if i == 20 { 'ㅇ' }
    else if i == 21 { 'ㅈ' }
    else if i == 22 { 'ㅊ' }
    else if i == 23 { 'ㅋ' }
    else if i == 24 { 'ㅌ' }
    else if i == 25 { 'ㅍ' }
    else { 'ㅎ' }
}

/// Final index of the consonant key at position `p`; `ㄸ`, `ㅃ`, `ㅉ` cannot end a syllable.
pub open spec fn final_of_consonant(p: int) -> Option<u8> {
    if p == 0 { Some(0u8) }
    else if p == 1 { Some(1u8) }
    else if p == 2 { Some(3u8) }
    else if p == 3 { Some(6u8) }
    else if p == 5 { Some(7u8) }
    else if p == 6 { Some(15u8) }
    else if p == 7 { Some(16u8) }
    else if p == 9 { Some(18u8) }
    else if p == 10 { Some(19u8) }
    else if p == 11 { Some(20u8) }
    else if p == 12 { Some(21u8) }
    else if p == 14 { Some(22u8) }
    else if p == 15 { Some(23u8) }
    else if p == 16 { Some(24u8) }
    else if p == 17 { Some(25u8) }
    else if p == 18 { Some(26u8) }
    else { None }
}

/// Vowel index of the vowel key at position `p` (`ㅏㅐㅑㅒㅓㅔㅕㅖㅗㅛㅜㅠㅡㅣ`).
pub open spec fn medial_of_key(p: int) -> u8 {
    if p == 19 { 0u8 }
    else if p == 20 { 1u8 }
    else if p == 21 { 2u8 }
    else if p == 22 { 3u8 }
    else if p == 23 { 4u8 }
    else if p == 24 { 5u8 }
    else if p == 25 { 6u8 }
    else if p == 26 { 7u8 }
    else if p == 27 { 8u8 }
    else if p == 28 { 12u8 }
    else if p == 29 { 13u8 }
    else if p == 30 { 17u8 }
    else if p == 31 { 18u8 }
    else { 20u8 }
}

/// Double consonant formed when consonant key `p` follows a lone initial `c`
/// (`ㄳ ㄵ ㄶ ㄺ ㄻ ㄼ ㄽ ㄾ ㄿ ㅀ ㅄ`), as a final index.
pub open spec fn combine_initial(c: int, p: int) -> Option<u8> {
    if c == 0 && p == 9 { Some(2u8) }
    else if c == 2 && p == 12 { Some(4u8) }
    else if c == 2 && p == 18 { Some(5u8) }
    else if c == 5 && p == 0 { Some(8u8) }
    else if c == 5 && p == 6 { Some(9u8) }
    else if c == 5 && p == 7 { Some(10u8) }
    else if c == 5 && p == 9 { Some(11u8) }
    else if c == 5 && p == 16 { Some(12u8) }
    else if c == 5 && p == 17 { Some(13u8) }
    else if c == 5 && p == 18 { Some(14u8) }
    else if c == 7 && p == 9 { Some(17u8) }
    else { None }
}

/// Double final formed when consonant key `p` follows the final `j`.
pub open spec fn combine_final(j: int, p: int) -> Option<u8> {
    if j == 0 && p == 9 { Some(2u8) }
    else if j == 3 && p == 12 { Some(4u8) }
    else if j == 3 && p == 18 { Some(5u8) }
    else if j == 7 && p == 0 { Some(8u8) }
    else if j == 7 && p == 6 { Some(9u8) }
    else if j == 7 && p == 7 { Some(10u8) }
    else if j == 7 && p == 9 { Some(11u8) }
    else if j == 7 && p == 16 { Some(12u8) }
    else if j == 7 && p == 17 { Some(13u8) }
    else if j == 7 && p == 18 { Some(14u8) }
    else if j == 16 && p == 9 { Some(17u8) }
    else { None }
}

/// Compound vowel formed when vowel key `p` follows the vowel `v`
/// (`ㅘ ㅙ ㅚ ㅝ ㅞ ㅟ ㅢ`).
pub open spec fn combine_medial(v: int, p: int) -> Option<u8> {
    if v == 8 && p == 19 { Some(9u8) }
    else if v == 8 && p == 20 { Some(10u8) }
    else if v == 8 && p == 32 { Some(11u8) }
    else if v == 13 && p == 23 { Some(14u8) }
    else if v == 13 && p == 24 { Some(15u8) }
    else if v == 13 && p == 32 { Some(16u8) }
    else if v == 18 && p == 32 { Some(19u8) }
    else { None }
}

/// When a vowel follows the final `j`, the final splits into the part kept by
/// the previous syllable (if any) and the initial of the next syllable.
pub open spec fn split_final(j: int) -> (Option<u8>, u8) {
    if j == 2 { (Some(0u8), 9u8) }
    else if j == 4 { (Some(3u8), 12u8) }
    else if j == 5 { (Some(3u8), 18u8) }
    else if j == 8 { (Some(7u8), 0u8) }
    else if j == 9 { (Some(7u8), 6u8) }
    else if j == 10 { (Some(7u8), 7u8) }
    else if j == 11 { (Some(7u8), 9u8) }
    else if j == 12 { (Some(7u8), 16u8) }
    else if j == 13 { (Some(7u8), 17u8) }
    else if j == 14 { (Some(7u8), 18u8) }
    else if j == 17 { (Some(16u8), 9u8) }
    else if j == 0 { (None, 0u8) }
    else if j == 1 { (None, 1u8) }
    else if j == 3 { (None, 2u8) }
    else if j == 6 { (None, 3u8) }
    else if j == 7 { (None, 5u8) }
    else if j == 15 { (None, 6u8) }
    else if j == 16 { (None, 7u8) }
    else if j == 18 { (None, 9u8) }
    else if j == 19 { (None, 10u8) }
    else if j == 20 { (None, 11u8) }
    else if j == 21 { (None, 12u8) }
    else if j == 22 { (None, 14u8) }
    else if j == 23 { (None, 15u8) }
    else if j == 24 { (None, 16u8) }
    else if j == 25 { (None, 17u8) }
    else { (None, 18u8) }
}

/// An initial `ㄱ ㄴ ㄹ ㅂ` combines with a following consonant key exactly as
/// the same consonant does when it stands as a final; no other initial combines.
pub proof fn lemma_initial_combines_like_final(c: int, p: int)
    ensures
        combine_initial(c, p) == (match final_of_consonant(c) {
            Some(j) => combine_final(j as int, p),
            None => None,
        }),
{
}

/// Splitting a double final gives back what combining it took: the first
/// consonant stays as a final, the second becomes the next initial.
pub proof fn lemma_split_undoes_combine_final(j: int, p: int)
    ensures
        combine_final(j, p) matches Some(k) ==> split_final(k as int) == (Some(j as u8), p as u8),
{
}

/// A double consonant that two initials formed splits back into the first as a
/// final and the second as the next initial.
pub proof fn lemma_split_undoes_combine_initial(c: int, p: int)
    ensures
        combine_initial(c, p) matches Some(k) ==> split_final(k as int) == (
            final_of_consonant(c),
            p as u8,
        ),
{
}

/// A consonant key that has a final form closes a syllable as that same
/// consonant: when the jamo of consonant key `p` is the final `j`, `p` gives
/// the final `j`.
pub proof fn lemma_consonant_final_is_same_jamo(p: int, j: int)
    requires
        0 <= p < 19,
        0 <= j < 27,
        final_jamo(j) == initial_jamo(p),
    ensures
        final_of_consonant(p) == Some(j as u8),
{
}

/// A final that a consonant key gives is that consonant's own jamo, and a
/// consonant with no final form (`ㄸ ㅃ ㅉ`) gives none.
pub proof fn lemma_consonant_final_sound(p: int)
    requires
        0 <= p < 19,
    ensures
        final_of_consonant(p) matches Some(j) ==> j < 27 && final_jamo(j as int) == initial_jamo(p),
        (forall|j: int| 0 <= j < 27 ==> final_jamo(j) != initial_jamo(p)) ==> final_of_consonant(
            p,
        ) is None,
{
    if final_of_consonant(p) is Some {
        let j = final_of_consonant(p)->0 as int;
        assert(final_jamo(j) == initial_jamo(p));
    }
}

/// A single final (a consonant that is also an initial) moves whole to the next
/// syllable when a vowel follows: the syllable before keeps no final.
pub proof fn lemma_single_final_moves_whole(j: int, c: int)
    requires
        0 <= j < 27,
        0 <= c < 19,
        final_jamo(j) == initial_jamo(c),
    ensures
        split_final(j) == (None::<u8>, c as u8),
{
}

/// Whether final `j` is a double consonant.
pub open spec fn is_double_final(j: int) -> bool {
    j == 2 || j == 4 || j == 5 || (8 <= j <= 14) || j == 17
}

/// A double final splits into a final and a consonant key that combine back
/// into it.
pub proof fn lemma_double_final_splits_into_its_pair(j: int)
    requires
        is_double_final(j),
    ensures
        split_final(j).0 is Some,
        combine_final(split_final(j).0->0 as int, split_final(j).1 as int) == Some(j as u8),
{
}

/// The precomposed syllable `0xAC00 + (initial * 21 + vowel) * 28 + final slot`,
/// where the final slot is 0 for no final and `j + 1` for final `j`.
pub open spec fn syllable(c: int, v: int, f: Option<u8>) -> char {
    let slot: int = match f {
        Some(j) => j + 1,
        None => 0,
    };
    (0xAC00 + c * 588 + v * 28 + slot) as char
}

// ---------------------------------------------------------------------------
// The composition automaton
// ---------------------------------------------------------------------------

/// The jamo held while a syllable is being composed.
#[derive(Clone, Copy, Debug)]
pub enum Composition {
    /// Nothing pending.
    Empty,
    /// A lone initial consonant (initial index).
    Initial(u8),
    /// A lone vowel (vowel index).
    Medial(u8),
    /// A lone double consonant, before any vowel (final index).
    Cluster(u8),
    /// Initial and vowel (initial index, vowel index).
    Open(u8, u8),
    /// Initial, vowel and final (initial index, vowel index, final index).
    Closed(u8, u8, u8),
}

/// Indices are within their tables; a lone cluster is a double consonant.
pub open spec fn composition_wf(st: Composition) -> bool {
    match st {
        Composition::Empty => true,
        Composition::Initial(c) => c < 19,
        Composition::Medial(v) => v < 21,
        Composition::Cluster(j) => is_double_final(j as int),
        Composition::Open(c, v) => c < 19 && v < 21,
        Composition::Closed(c, v, j) => c < 19 && v < 21 && j < 27,
    }
}

/// The text that stands for a pending composition.
pub open spec fn flush(st: Composition) -> Seq<char> {
    match st {
        Composition::Empty => seq![],
        Composition::Initial(c) => seq![initial_jamo(c as int)],
        Composition::Medial(v) => seq![medial_jamo(v as int)],
        Composition::Cluster(j) => seq![final_jamo(j as int)],
        Composition::Open(c, v) => seq![syllable(c as int, v as int, None)],
        Composition::Closed(c, v, j) => seq![syllable(c as int, v as int, Some(j))],
    }
}

/// A consonant key `p` (`p < 19`): the text it completes and the new composition.
pub open spec fn consonant_step(st: Composition, p: u8) -> (Seq<char>, Composition) {
    match st {
        Composition::Empty => (seq![], Composition::Initial(p)),
        Composition::Initial(c) => match combine_initial(c as int, p as int) {
            Some(j) => (seq![], Composition::Cluster(j)),
            None => (seq![initial_jamo(c as int)], Composition::Initial(p)),
        },
        Composition::Medial(v) => (seq![medial_jamo(v as int)], Composition::Initial(p)),
        Composition::Cluster(j) => (seq![final_jamo(j as int)], Composition::Initial(p)),
        Composition::Open(c, v) => match final_of_consonant(p as int) {
            Some(j) => (seq![], Composition::Closed(c, v, j)),
            None => (seq![syllable(c as int, v as int, None)], Composition::Initial(p)),
        },
        Composition::Closed(c, v, j) => match combine_final(j as int, p as int) {
            Some(j2) => (seq![], Composition::Closed(c, v, j2)),
            None => (seq![syllable(c as int, v as int, Some(j))], Composition::Initial(p)),
        },
    }
}

/// A vowel key `p` (`19 <= p < 33`): the text it completes and the new composition.
pub open spec fn vowel_step(st: Composition, p: u8) -> (Seq<char>, Composition) {
    let v = medial_of_key(p as int);
    match st {
        Composition::Empty => (seq![], Composition::Medial(v)),
        Composition::Initial(c) => (seq![], Composition::Open(c, v)),
        Composition::Medial(v0) => match combine_medial(v0 as int, p as int) {
            Some(v2) => (seq![], Composition::Medial(v2)),
            None => (seq![medial_jamo(v0 as int)], Composition::Medial(v)),
        },
        Composition::Open(c, v0) => match combine_medial(v0 as int, p as int) {
            Some(v2) => (seq![], Composition::Open(c, v2)),
            None => (seq![syllable(c as int, v0 as int, None)], Composition::Medial(v)),
        },
        Composition::Cluster(j) => {
            let (keep, next) = split_final(j as int);
            let kept = match keep {
                Some(k) => seq![final_jamo(k as int)],
                None => seq![],
            };
            (kept, Composition::Open(next, v))
        },
        Composition::Closed(c, v0, j) => {
            let (keep, next) = split_final(j as int);
            (seq![syllable(c as int, v0 as int, keep)], Composition::Open(next, v))
        },
    }
}

/// One input character: the text it completes and the new composition.
/// A character that is not a layout key completes the pending text and is kept as it is.
pub open spec fn step(st: Composition, ch: char) -> (Seq<char>, Composition) {
    match spec_key_position(ch) {
        None => (flush(st).push(ch), Composition::Empty),
        Some(p) => if p < 19 {
            consonant_step(st, p)
        } else {
            vowel_step(st, p)
        },
    }
}

/// Runs the automaton from `st` over `s`: the completed text and the final composition.
pub open spec fn run(st: Composition, s: Seq<char>) -> (Seq<char>, Composition)
    decreases s.len(),
{
    if s.len() == 0 {
        (seq![], st)
    } else {
        let (done, mid) = run(st, s.drop_last());
        let (more, next) = step(mid, s.last());
        (done + more, next)
    }
}

/// The Hangul text for the key sequence `s`: completed text followed by the pending composition.
pub open spec fn spec_convert_eng_to_kor(s: Seq<char>) -> Seq<char> {
    let (done, st) = run(Composition::Empty, s);
    done + flush(st)
}

// ---------------------------------------------------------------------------
// Executable tables
// ---------------------------------------------------------------------------

fn key_position(c: char) -> (p: Option<u8>)
    ensures
        p == spec_key_position(c),
{
    match c {
        'r' => Some(0),
        'R' => Some(1),
        's' => Some(2),
        'e' => Some(3),
        'E' => Some(4),
        'f' => Some(5),
        'a' => Some(6),
        'q' => Some(7),
        'Q' => Some(8),
        't' => Some(9),
        'T' => Some(10),
        'd' => Some(11),
        'w' => Some(12),
        'W' => Some(13),
        'c' => Some(14),
        'z' => Some(15),
        'x' => Some(16),
        'v' => Some(17),
        'g' => Some(18),
        'k' => Some(19),
        'o' => Some(20),
        'i' => Some(21),
        'O' => Some(22),
        'j' => Some(23),
        'p' => Some(24),
        'u' => Some(25),
        'P' => Some(26),
        'h' => Some(27),
        'y' => Some(28),
        'n' => Some(29),
        'b' => Some(30),
        'm' => Some(31),
        'l' => Some(32),
        _ => None,
    }
}

fn initial_jamo_char(i: u8) -> (c: char)
    ensures
        c == initial_jamo(i as int),
{
    match i {
        0 => 'ㄱ',
        1 => 'ㄲ',
        2 => 'ㄴ',
        3 => 'ㄷ',
        4 => 'ㄸ',
        5 => 'ㄹ',
        6 => 'ㅁ',
        7 => 'ㅂ',
        8 => 'ㅃ',
        9 => 'ㅅ',
        10 => 'ㅆ',
        11 => 'ㅇ',
        12 => 'ㅈ',
        13 => 'ㅉ',
        14 => 'ㅊ',
        15 => 'ㅋ',
        16 => 'ㅌ',
        17 => 'ㅍ',
        _ => 'ㅎ',
    }
}

fn final_jamo_char(i: u8) -> (c: char)
    ensures
        c == final_jamo(i as int),
{
    match i {
        0 => 'ㄱ',
        1 => 'ㄲ',
        2 => 'ㄳ',
        3 => 'ㄴ',
        4 => 'ㄵ',
        5 => 'ㄶ',
        6 => 'ㄷ',
        7 => 'ㄹ',
        8 => 'ㄺ',
        9 => 'ㄻ',
        10 => 'ㄼ',
        11 => 'ㄽ',
        12 => 'ㄾ',
        13 => 'ㄿ',
        14 => 'ㅀ',
        15 => 'ㅁ',
        16 => 'ㅂ',
        17 => 'ㅄ',
        18 => 'ㅅ',
        19 => 'ㅆ',
        20 => 'ㅇ',
        21 => 'ㅈ',
        22 => 'ㅊ',
        23 => 'ㅋ',
        24 => 'ㅌ',
        25 => 'ㅍ',
        _ => 'ㅎ',
    }
}

fn final_of_consonant_key(p: u8) -> (j: Option<u8>)
    ensures
        j == final_of_consonant(p as int),
{
    match p {
        0 => Some(0),
        1 => Some(1),
        2 => Some(3),
        3 => Some(6),
        5 => Some(7),
        6 => Some(15),
        7 => Some(16),
        9 => Some(18),
        10 => Some(19),
        11 => Some(20),
        12 => Some(21),
        14 => Some(22),
        15 => Some(23),
        16 => Some(24),
        17 => Some(25),
        18 => Some(26),
        _ => None,
    }
}

fn medial_of_vowel_key(p: u8) -> (v: u8)
    ensures
        v == medial_of_key(p as int),
{
    match p {
        19 => 0,
        20 => 1,
        21 => 2,
        22 => 3,
        23 => 4,
        24 => 5,
        25 => 6,
        26 => 7,
        27 => 8,
        28 => 12,
        29 => 13,
        30 => 17,
        31 => 18,
        _ => 20,
    }
}

fn try_combine_initial(c: u8, p: u8) -> (j: Option<u8>)
    ensures
        j == combine_initial(c as int, p as int),
{
    match (c, p) {
        (0, 9) => Some(2),
        (2, 12) => Some(4),
        (2, 18) => Some(5),
        (5, 0) => Some(8),
        (5, 6) => Some(9),
        (5, 7) => Some(10),
        (5, 9) => Some(11),
        (5, 16) => Some(12),
        (5, 17) => Some(13),
        (5, 18) => Some(14),
        (7, 9) => Some(17),
        _ => None,
    }
}

fn try_combine_final(j: u8, p: u8) -> (r: Option<u8>)
    ensures
        r == combine_final(j as int, p as int),
{
    match (j, p) {
        (0, 9) => Some(2),
        (3, 12) => Some(4),
        (3, 18) => Some(5),
        (7, 0) => Some(8),
        (7, 6) => Some(9),
        (7, 7) => Some(10),
        (7, 9) => Some(11),
        (7, 16) => Some(12),
        (7, 17) => Some(13),
        (7, 18) => Some(14),
        (16, 9) => Some(17),
        _ => None,
    }
}

fn try_combine_medial(v: u8, p: u8) -> (r: Option<u8>)
    ensures
        r == combine_medial(v as int, p as int),
{
    match (v, p) {
        (8, 19) => Some(9),
        (8, 20) => Some(10),
        (8, 32) => Some(11),
        (13, 23) => Some(14),
        (13, 24) => Some(15),
        (13, 32) => Some(16),
        (18, 32) => Some(19),
        _ => None,
    }
}

fn split_final_consonant(j: u8) -> (r: (Option<u8>, u8))
    ensures
        r == split_final(j as int),
{
    match j {
        2 => (Some(0), 9),
        4 => (Some(3), 12),
        5 => (Some(3), 18),
        8 => (Some(7), 0),
        9 => (Some(7), 6),
        10 => (Some(7), 7),
        11 => (Some(7), 9),
        12 => (Some(7), 16),
        13 => (Some(7), 17),
        14 => (Some(7), 18),
        17 => (Some(16), 9),
        0 => (None, 0),
        1 => (None, 1),
        3 => (None, 2),
        6 => (None, 3),
        7 => (None, 5),
        15 => (None, 6),
        16 => (None, 7),
        18 => (None, 9),
        19 => (None, 10),
        20 => (None, 11),
        21 => (None, 12),
        22 => (None, 14),
        23 => (None, 15),
        24 => (None, 16),
        25 => (None, 17),
        _ => (None, 18),
    }
}

/// Wraps `char::from_u32`: the character with code point `code`, when `code`
/// is a Unicode scalar value, and `None` for surrogates and values above `0x10FFFF`.
#[verifier::external_body]
fn char_from_u32(code: u32) -> (r: Option<char>)
    ensures
        (code < 0xD800 || (0xE000 <= code && code <= 0x10FFFF)) ==> r == Some(code as char),
        !(code < 0xD800 || (0xE000 <= code && code <= 0x10FFFF)) ==> r is None,
{
    char::from_u32(code)
}

fn medial_jamo_char(v: u8) -> (c: char)
    requires
        v < 21,
    ensures
        c == medial_jamo(v as int),
{
    match char_from_u32(0x314F + v as u32) {
        Some(c) => c,
        None => '\0',
    }
}

fn syllable_char(c: u8, v: u8, f: Option<u8>) -> (r: char)
    requires
        c < 19,
        v < 21,
        f matches Some(j) ==> j < 27,
    ensures
        r == syllable(c as int, v as int, f),
{
    let slot: u32 = match f {
        Some(j) => j as u32 + 1,
        None => 0,
    };
    let code: u32 = 0xAC00 + c as u32 * 588 + v as u32 * 28 + slot;
    match char_from_u32(code) {
        Some(ch) => ch,
        None => '\0',
    }
}

// ---------------------------------------------------------------------------
// The automaton in code
// ---------------------------------------------------------------------------

/// Every step keeps the composition well formed.
proof fn lemma_step_wf(st: Composition, ch: char)
    requires
        composition_wf(st),
    ensures
        composition_wf(step(st, ch).1),
{
}

/// Appends the text of a pending composition to `out`.
fn emit_flush(st: Composition, out: &mut Vec<char>)
    requires
        composition_wf(st),
    ensures
        final(out)@ == old(out)@ + flush(st),
{
    match st {
        Composition::Empty => {},
        Composition::Initial(c) => out.push(initial_jamo_char(c)),
        Composition::Medial(v) => out.push(medial_jamo_char(v)),
        Composition::Cluster(j) => out.push(final_jamo_char(j)),
        Composition::Open(c, v) => out.push(syllable_char(c, v, None)),
        Composition::Closed(c, v, j) => out.push(syllable_char(c, v, Some(j))),
    }
}

/// Feeds one character to the automaton, appending the text it completes to `out`.
fn feed_char(st: Composition, ch: char, out: &mut Vec<char>) -> (next: Composition)
    requires
        composition_wf(st),
    ensures
        final(out)@ == old(out)@ + step(st, ch).0,
        next == step(st, ch).1,
        composition_wf(next),
{
    proof {
        lemma_step_wf(st, ch);
    }
    let p = match key_position(ch) {
        None => {
            emit_flush(st, out);
            out.push(ch);
            return Composition::Empty;
        },
        Some(p) => p,
    };
    if p < 19 {
        match st {
            Composition::Empty => Composition::Initial(p),
            Composition::Initial(c) => match try_combine_initial(c, p) {
                Some(j) => Composition::Cluster(j),
                None => {
                    out.push(initial_jamo_char(c));
                    Composition::Initial(p)
                },
            },
            Composition::Medial(v) => {
                out.push(medial_jamo_char(v));
                Composition::Initial(p)
            },
            Composition::Cluster(j) => {
                out.push(final_jamo_char(j));
                Composition::Initial(p)
            },
            Composition::Open(c, v) => match final_of_consonant_key(p) {
                Some(j) => Composition::Closed(c, v, j),
                None => {
                    out.push(syllable_char(c, v, None));
                    Composition::Initial(p)
                },
            },
            Composition::Closed(c, v, j) => match try_combine_final(j, p) {
                Some(j2) => Composition::Closed(c, v, j2),
                None => {
                    out.push(syllable_char(c, v, Some(j)));
                    Composition::Initial(p)
                },
            },
        }
    } else {
        let v = medial_of_vowel_key(p);
        match st {
            Composition::Empty => Composition::Medial(v),
            Composition::Initial(c) => Composition::Open(c, v),
            Composition::Medial(v0) => match try_combine_medial(v0, p) {
                Some(v2) => Composition::Medial(v2),
                None => {
                    out.push(medial_jamo_char(v0));
                    Composition::Medial(v)
                },
            },
            Composition::Open(c, v0) => match try_combine_medial(v0, p) {
                Some(v2) => Composition::Open(c, v2),
                None => {
                    out.push(syllable_char(c, v0, None));
                    Composition::Medial(v)
                },
            },
            Composition::Cluster(j) => {
                let (keep, next) = split_final_consonant(j);
                match keep {
                    Some(k) => out.push(final_jamo_char(k)),
                    None => {},
                }
                Composition::Open(next, v)
            },
            Composition::Closed(c, v0, j) => {
                let (keep, next) = split_final_consonant(j);
                out.push(syllable_char(c, v0, keep));
                Composition::Open(next, v)
            },
        }
    }
}

/// Converts a sequence of key characters, as characters.
fn convert_chars(src: &[char]) -> (out: Vec<char>)
    ensures
        out@ == spec_convert_eng_to_kor(src@),
{
    let mut out: Vec<char> = Vec::new();
    let mut st = Composition::Empty;
    let mut i: usize = 0;
    while i < src.len()
        invariant
            i <= src@.len(),
            composition_wf(st),
            (out@, st) == run(Composition::Empty, src@.take(i as int)),
        decreases src@.len() - i,
    {
        let ghost before = src@.take(i as int);
        assert(src@.take(i + 1).drop_last() == before);
        st = feed_char(st, src[i], &mut out);
        i = i + 1;
    }
    assert(src@.take(i as int) == src@);
    emit_flush(st, &mut out);
    out
}


// ---------------------------------------------------------------------------
// Facts about the automaton
// ---------------------------------------------------------------------------

/// Running over `a + b` is running over `a`, then over `b` from where `a` left off.
pub proof fn lemma_run_concat(st: Composition, a: Seq<char>, b: Seq<char>)
    ensures
        run(st, a + b).0 == run(st, a).0 + run(run(st, a).1, b).0,
        run(st, a + b).1 == run(run(st, a).1, b).1,
    decreases b.len(),
{
    if b.len() == 0 {
        assert(a + b =~= a);
    } else {
        lemma_run_concat(st, a, b.drop_last());
        assert((a + b).drop_last() =~= a + b.drop_last());
        assert((a + b).last() == b.last());
        let mid = run(st, a).1;
        let (d1, _) = run(st, a);
        let (d2, m2) = run(mid, b.drop_last());
        let (d3, _) = step(m2, b.last());
        assert(d1 + d2 + d3 =~= d1 + (d2 + d3));
    }
}

/// Every composition reached from the empty one is well formed.
proof fn lemma_run_wf(st: Composition, s: Seq<char>)
    requires
        composition_wf(st),
    ensures
        composition_wf(run(st, s).1),
    decreases s.len(),
{
    if s.len() > 0 {
        lemma_run_wf(st, s.drop_last());
        lemma_step_wf(run(st, s.drop_last()).1, s.last());
    }
}

/// A pending composition stands for exactly one character.
proof fn lemma_flush_len(st: Composition)
    ensures
        flush(st).len() == (if st is Empty { 0int } else { 1int }),
{
}

/// After a layout key something is pending; after any other character nothing is.
proof fn lemma_run_last_pending(s: Seq<char>)
    requires
        s.len() > 0,
    ensures
        is_layout_key(s.last()) <==> !(run(Composition::Empty, s).1 is Empty),
{
}

/// The run over a single character, and over a consonant followed by a vowel.
proof fn lemma_run_short(a: char, b: char)
    ensures
        run(Composition::Empty, seq![a]) == step(Composition::Empty, a),
        run(Composition::Empty, seq![a, b]).0 == step(Composition::Empty, a).0 + step(
            step(Composition::Empty, a).1,
            b,
        ).0,
        run(Composition::Empty, seq![a, b]).1 == step(step(Composition::Empty, a).1, b).1,
{
    let e = Seq::<char>::empty();
    assert(seq![a].drop_last() =~= e);
    assert(seq![a].last() == a);
    assert(run(Composition::Empty, e) == (e, Composition::Empty));
    assert(e + step(Composition::Empty, a).0 =~= step(Composition::Empty, a).0);
    assert(run(Composition::Empty, seq![a]) == step(Composition::Empty, a));
    assert(seq![a, b].drop_last() =~= seq![a]);
    assert(seq![a, b].last() == b);
}

/// Running over one more character is one more step.
proof fn lemma_run_push(st: Composition, s: Seq<char>, x: char)
    ensures
        run(st, s.push(x)) == (run(st, s).0 + step(run(st, s).1, x).0, step(run(st, s).1, x).1),
{
    assert(s.push(x).drop_last() =~= s);
    assert(s.push(x).last() == x);
}

/// A consonant that has a final form closes the syllable before it: initial,
/// vowel and that consonant make one syllable with the consonant as its final.
pub proof fn lemma_consonant_closes_syllable(a: char, b: char, c: char, j: int)
    requires
        spec_key_position(a) matches Some(pa) && pa < 19,
        spec_key_position(b) matches Some(pb) && pb >= 19,
        spec_key_position(c) matches Some(pc) && pc < 19,
        0 <= j < 27,
        final_jamo(j) == initial_jamo(spec_key_position(c)->0 as int),
    ensures
        spec_convert_eng_to_kor(seq![a, b, c]) == seq![
            syllable(
                spec_key_position(a)->0 as int,
                medial_of_key(spec_key_position(b)->0 as int) as int,
                Some(j as u8),
            ),
        ],
{
    let pa = spec_key_position(a)->0;
    let pb = spec_key_position(b)->0;
    let pc = spec_key_position(c)->0;
    lemma_consonant_final_is_same_jamo(pc as int, j);
    let e = Seq::<char>::empty();
    let st0 = Composition::Empty;
    assert(run(st0, e) == (e, st0));
    lemma_run_push(st0, e, a);
    assert(e.push(a) =~= seq![a]);
    assert(run(st0, seq![a]) == (e, Composition::Initial(pa)));
    lemma_run_push(st0, seq![a], b);
    assert(seq![a].push(b) =~= seq![a, b]);
    let v = medial_of_key(pb as int);
    assert(run(st0, seq![a, b]) == (e, Composition::Open(pa, v)));
    lemma_run_push(st0, seq![a, b], c);
    assert(seq![a, b].push(c) =~= seq![a, b, c]);
    assert(run(st0, seq![a, b, c]) == (e, Composition::Closed(pa, v, j as u8)));
    assert(e + seq![syllable(pa as int, v as int, Some(j as u8))] =~= seq![
        syllable(pa as int, v as int, Some(j as u8)),
    ]);
}

/// A vowel after a syllable closed by a single final takes that consonant as
/// its initial, and the syllable before is left without a final.
pub proof fn lemma_single_final_moves_to_vowel(a: char, b: char, c: char, d: char, j: int)
    requires
        spec_key_position(a) matches Some(pa) && pa < 19,
        spec_key_position(b) matches Some(pb) && pb >= 19,
        spec_key_position(c) matches Some(pc) && pc < 19,
        spec_key_position(d) matches Some(pd) && pd >= 19,
        0 <= j < 27,
        final_jamo(j) == initial_jamo(spec_key_position(c)->0 as int),
    ensures
        spec_convert_eng_to_kor(seq![a, b, c, d]) == seq![
            syllable(
                spec_key_position(a)->0 as int,
                medial_of_key(spec_key_position(b)->0 as int) as int,
                None,
            ),
            syllable(
                spec_key_position(c)->0 as int,
                medial_of_key(spec_key_position(d)->0 as int) as int,
                None,
            ),
        ],
{
    let pa = spec_key_position(a)->0;
    let pb = spec_key_position(b)->0;
    let pc = spec_key_position(c)->0;
    let pd = spec_key_position(d)->0;
    lemma_consonant_final_is_same_jamo(pc as int, j);
    lemma_single_final_moves_whole(j, pc as int);
    let e = Seq::<char>::empty();
    let st0 = Composition::Empty;
    assert(run(st0, e) == (e, st0));
    lemma_run_push(st0, e, a);
    assert(e.push(a) =~= seq![a]);
    assert(run(st0, seq![a]) == (e, Composition::Initial(pa)));
    lemma_run_push(st0, seq![a], b);
    assert(seq![a].push(b) =~= seq![a, b]);
    let v = medial_of_key(pb as int);
    assert(run(st0, seq![a, b]) == (e, Composition::Open(pa, v)));
    lemma_run_push(st0, seq![a, b], c);
    assert(seq![a, b].push(c) =~= seq![a, b, c]);
    assert(run(st0, seq![a, b, c]) == (e, Composition::Closed(pa, v, j as u8)));
    lemma_run_push(st0, seq![a, b, c], d);
    assert(seq![a, b, c].push(d) =~= seq![a, b, c, d]);
    let w = medial_of_key(pd as int);
    let first = syllable(pa as int, v as int, None);
    assert(run(st0, seq![a, b, c, d]) == (e + seq![first], Composition::Open(pc, w)));
    assert(e + seq![first] + seq![syllable(pc as int, w as int, None)] =~= seq![
        first,
        syllable(pc as int, w as int, None),
    ]);
}

/// When a final consonant is pending, the last key was the consonant that the
/// final hands to the next syllable.
proof fn lemma_final_came_last(s: Seq<char>)
    requires
        run(Composition::Empty, s).1 is Cluster || run(Composition::Empty, s).1 is Closed,
    ensures
        s.len() > 0,
        spec_key_position(s.last()) == Some(
            split_final(
                match run(Composition::Empty, s).1 {
                    Composition::Cluster(j) => j as int,
                    Composition::Closed(_, _, j) => j as int,
                    _ => 0int,
                },
            ).1,
        ),
{
    if s.len() > 0 {
        lemma_run_wf(Composition::Empty, s.drop_last());
    }
}

/// Precomposed syllables are determined by their jamo indices.
proof fn lemma_syllable_injective(c1: int, v1: int, f1: Option<u8>, c2: int, v2: int, f2: Option<u8>)
    requires
        0 <= c1 < 19,
        0 <= v1 < 21,
        f1 matches Some(j) ==> j < 27,
        0 <= c2 < 19,
        0 <= v2 < 21,
        f2 matches Some(j) ==> j < 27,
        syllable(c1, v1, f1) == syllable(c2, v2, f2),
    ensures
        c1 == c2,
        v1 == v2,
        f1 == f2,
{
    let s1: int = match f1 {
        Some(j) => j + 1,
        None => 0,
    };
    let s2: int = match f2 {
        Some(j) => j + 1,
        None => 0,
    };
    let n1 = c1 * 588 + v1 * 28 + s1;
    let n2 = c2 * 588 + v2 * 28 + s2;
    assert(0 <= n1 < 11172);
    assert(0 <= n2 < 11172);
    assert(n1 == n2);
    assert(c1 == c2 && v1 == v2 && s1 == s2) by (nonlinear_arith)
        requires
            n1 == c1 * 588 + v1 * 28 + s1,
            n2 == c2 * 588 + v2 * 28 + s2,
            n1 == n2,
            0 <= v1 < 21,
            0 <= v2 < 21,
            0 <= s1 < 28,
            0 <= s2 < 28,
            0 <= c1,
            0 <= c2,
    ;
}

/// The compatibility jamo: initial and final consonants lie in `U+3131..U+314E`,
/// vowels in `U+314F..U+3163`.
proof fn lemma_jamo_ranges(i: int)
    ensures
        0 <= i < 19 ==> 0x3131 <= initial_jamo(i) as int <= 0x314E,
        0 <= i < 27 ==> 0x3131 <= final_jamo(i) as int <= 0x314E,
        0 <= i < 21 ==> medial_jamo(i) as int == 0x314F + i,
{
}

/// Distinct well-formed pending compositions stand for distinct characters.
proof fn lemma_flush_injective(a: Composition, b: Composition)
    requires
        composition_wf(a),
        composition_wf(b),
        !(a is Empty),
        !(b is Empty),
        flush(a) == flush(b),
    ensures
        a == b,
{
    let x = flush(a)[0];
    assert(x == flush(b)[0]);
    match a {
        Composition::Initial(c) => lemma_jamo_ranges(c as int),
        Composition::Medial(v) => lemma_jamo_ranges(v as int),
        Composition::Cluster(j) => lemma_jamo_ranges(j as int),
        _ => {},
    }
    match b {
        Composition::Initial(c) => lemma_jamo_ranges(c as int),
        Composition::Medial(v) => lemma_jamo_ranges(v as int),
        Composition::Cluster(j) => lemma_jamo_ranges(j as int),
        _ => {},
    }
    match (a, b) {
        (Composition::Open(c1, v1), Composition::Open(c2, v2)) => {
            lemma_syllable_injective(c1 as int, v1 as int, None, c2 as int, v2 as int, None);
        },
        (Composition::Open(c1, v1), Composition::Closed(c2, v2, j2)) => {
            lemma_syllable_injective(c1 as int, v1 as int, None, c2 as int, v2 as int, Some(j2));
        },
        (Composition::Closed(c1, v1, j1), Composition::Open(c2, v2)) => {
            lemma_syllable_injective(c1 as int, v1 as int, Some(j1), c2 as int, v2 as int, None);
        },
        (Composition::Closed(c1, v1, j1), Composition::Closed(c2, v2, j2)) => {
            lemma_syllable_injective(
                c1 as int,
                v1 as int,
                Some(j1),
                c2 as int,
                v2 as int,
                Some(j2),
            );
        },
        _ => {},
    }
}

/// The converted text never gets shorter when a character is appended.
pub(crate) proof fn lemma_convert_len_monotone(s: Seq<char>)
    requires
        s.len() > 0,
    ensures
        spec_convert_eng_to_kor(s.drop_last()).len() <= spec_convert_eng_to_kor(s).len(),
        spec_convert_eng_to_kor(s).len() >= 1,
{
    lemma_flush_len(run(Composition::Empty, s.drop_last()).1);
    lemma_flush_len(run(Composition::Empty, s).1);
    lemma_run_last_pending(s);
}


/// The number of keys a pending composition needs at least.
spec fn keys_held(st: Composition) -> int {
    match st {
        Composition::Empty => 0,
        Composition::Initial(_) => 1,
        Composition::Medial(_) => 1,
        Composition::Cluster(_) => 2,
        Composition::Open(_, _) => 2,
        Composition::Closed(_, _, _) => 3,
    }
}

proof fn lemma_run_len(s: Seq<char>)
    ensures
        run(Composition::Empty, s).0.len() + keys_held(run(Composition::Empty, s).1) <= s.len(),
    decreases s.len(),
{
    if s.len() > 0 {
        lemma_run_len(s.drop_last());
    }
}

/// The Hangul text is never longer than the key sequence.
pub proof fn lemma_convert_not_longer(s: Seq<char>)
    ensures
        spec_convert_eng_to_kor(s).len() <= s.len(),
{
    lemma_run_len(s);
    lemma_flush_len(run(Composition::Empty, s).1);
}

/// A character that is not a layout key ends the syllable before it and is kept
/// as it is: the text of `a`, then `c`, then `b` is the text of `a`, `c`, and
/// the text of `b`.
pub proof fn lemma_non_key_separates(a: Seq<char>, c: char, b: Seq<char>)
    requires
        !is_layout_key(c),
    ensures
        spec_convert_eng_to_kor(a + seq![c] + b) == spec_convert_eng_to_kor(a) + seq![c]
            + spec_convert_eng_to_kor(b),
{
    let ac = a.push(c);
    assert(a + seq![c] =~= ac);
    lemma_run_concat(Composition::Empty, ac, b);
    assert(ac.drop_last() =~= a);
    assert(ac.last() == c);
    let (d, st) = run(Composition::Empty, a);
    let (d2, st2) = run(Composition::Empty, b);
    assert(run(Composition::Empty, ac) == (d + flush(st).push(c), Composition::Empty));
    assert(d + flush(st).push(c) + d2 + flush(st2) =~= (d + flush(st)) + seq![c] + (d2 + flush(
        st2,
    )));
}

/// Text without layout keys is kept as it is.
pub proof fn lemma_non_keys_unchanged(s: Seq<char>)
    requires
        forall|i: int| 0 <= i < s.len() ==> !is_layout_key(#[trigger] s[i]),
    ensures
        spec_convert_eng_to_kor(s) == s,
    decreases s.len(),
{
    if s.len() > 0 {
        let front = s.drop_last();
        assert forall|i: int| 0 <= i < front.len() implies !is_layout_key(#[trigger] front[i]) by {
            assert(front[i] == s[i]);
        }
        lemma_non_keys_unchanged(front);
        lemma_non_key_separates(front, s.last(), seq![]);
        assert(front + seq![s.last()] + Seq::<char>::empty() =~= s);
        assert(spec_convert_eng_to_kor(Seq::<char>::empty()) =~= Seq::<char>::empty());
    }
}

// ---------------------------------------------------------------------------
// The composer: committed text and the syllable still being composed
// ---------------------------------------------------------------------------

/// The first position from `i` at which the keys that follow convert to
/// `target`; 0 (all of the keys) when there is none.
pub open spec fn suffix_start_from(keys: Seq<char>, target: Seq<char>, i: int) -> int
    decreases keys.len() - i,
{
    if i < 0 || i >= keys.len() {
        0
    } else if spec_convert_eng_to_kor(keys.skip(i)) == target {
        i
    } else {
        suffix_start_from(keys, target, i + 1)
    }
}

/// Feeding `key` to a composer holding `keys`: the committed text, the text
/// still being composed, and the keys kept for it.
/// When the text has two or more characters, all but the last are committed,
/// and the composer keeps the first (longest) suffix of its keys that converts
/// to the last character.
pub open spec fn feed_result(keys: Seq<char>, key: char) -> (Seq<char>, Seq<char>, Seq<char>) {
    let all = keys.push(key);
    let text = spec_convert_eng_to_kor(all);
    if text.len() <= 1 {
        (seq![], text, all)
    } else {
        let composing = seq![text.last()];
        (text.drop_last(), composing, all.skip(suffix_start_from(all, composing, 0)))
    }
}

/// Feeding each of `inputs` in turn to a composer holding `keys`: all committed
/// text, and the keys held at the end.
pub open spec fn feed_keys(keys: Seq<char>, inputs: Seq<char>) -> (Seq<char>, Seq<char>)
    decreases inputs.len(),
{
    if inputs.len() == 0 {
        (seq![], keys)
    } else {
        let (committed, held) = feed_keys(keys, inputs.drop_last());
        let (more, _, next) = feed_result(held, inputs.last());
        (committed + more, next)
    }
}

/// What the search for a suffix finds, starting at `i`.
proof fn lemma_suffix_search(keys: Seq<char>, target: Seq<char>, i: int)
    requires
        0 <= i,
    ensures
        ({
            let r = suffix_start_from(keys, target, i);
            ||| (r == 0 && forall|j: int|
                i <= j < keys.len() ==> spec_convert_eng_to_kor(#[trigger] keys.skip(j))
                    != target)
            ||| (i <= r < keys.len() && spec_convert_eng_to_kor(keys.skip(r)) == target
                && forall|j: int|
                i <= j < r ==> spec_convert_eng_to_kor(#[trigger] keys.skip(j)) != target)
        }),
    decreases keys.len() - i,
{
    if i < keys.len() && spec_convert_eng_to_kor(keys.skip(i)) != target {
        lemma_suffix_search(keys, target, i + 1);
    }
}

/// With at most one character pending before `key`, some suffix of the keys
/// converts to the last character of the new text, and runs to the same composition
/// with no completed text (or, after a character that is no layout key, to that
/// character alone).
#[verifier::spinoff_prover]
#[verifier::rlimit(60)]
proof fn lemma_tail_witness(keys: Seq<char>, key: char) -> (w: int)
    requires
        spec_convert_eng_to_kor(keys).len() <= 1,
        spec_convert_eng_to_kor(keys.push(key)).len() >= 2,
    ensures
        0 <= w < keys.len() + 1,
        spec_convert_eng_to_kor(keys.push(key).skip(w)) == seq![
            spec_convert_eng_to_kor(keys.push(key)).last(),
        ],
{
    let all = keys.push(key);
    let (done, st) = run(Composition::Empty, keys);
    let (more, next) = step(st, key);
    assert(all.drop_last() =~= keys);
    assert(all.last() == key);
    assert(run(Composition::Empty, all) == (done + more, next));
    lemma_flush_len(st);
    lemma_flush_len(next);
    lemma_run_wf(Composition::Empty, keys);
    let text = spec_convert_eng_to_kor(all);
    assert(text == done + more + flush(next));
    if !is_layout_key(key) {
        assert(all.skip(keys.len() as int) =~= seq![key]);
        lemma_run_short(key, key);
        assert(text.last() == key);
        assert(spec_convert_eng_to_kor(seq![key]) =~= seq![key]);
        keys.len() as int
    } else if (next is Cluster || next is Closed) || ((next is Initial || next is Medial) && next
        == step(Composition::Empty, key).1) {
        // The new composition starts at `key`.
        assert(all.skip(keys.len() as int) =~= seq![key]);
        lemma_run_short(key, key);
        assert(flush(next).len() == 1);
        assert(text.last() == flush(next)[0]);
        if next is Cluster || next is Closed {
            // A final only ever follows an initial in the same run, so text.len() < 2.
            assert(more.len() == 0);
            assert(done.len() + flush(st).len() <= 1);
            if !(st is Empty) {
                assert(done.len() == 0);
            }
            assert(false);
        }
        assert(spec_convert_eng_to_kor(seq![key]) =~= seq![flush(next)[0]]);
        keys.len() as int
    } else {
        // A vowel splits a pending final: the new syllable starts at the key before.
        assert(st is Cluster || st is Closed);
        lemma_final_came_last(keys);
        let q = keys.last();
        assert(all.skip(keys.len() - 1) =~= seq![q, key]);
        lemma_run_short(q, key);
        assert(text.last() == flush(next)[0]);
        assert(spec_convert_eng_to_kor(seq![q, key]) =~= seq![flush(next)[0]]);
        keys.len() - 1
    }
}

/// With at most one character pending, feeding a key commits text that the
/// kept keys no longer produce, and the kept keys run to the same composition.
#[verifier::spinoff_prover]
#[verifier::rlimit(60)]
proof fn lemma_feed_result(keys: Seq<char>, key: char)
    requires
        spec_convert_eng_to_kor(keys).len() <= 1,
    ensures
        ({
            let (committed, composing, held) = feed_result(keys, key);
            &&& spec_convert_eng_to_kor(held).len() <= 1
            &&& composing == spec_convert_eng_to_kor(held)
            &&& run(Composition::Empty, keys.push(key)).0 == committed + run(
                Composition::Empty,
                held,
            ).0
            &&& run(Composition::Empty, keys.push(key)).1 == run(Composition::Empty, held).1
        }),
{
    let all = keys.push(key);
    let text = spec_convert_eng_to_kor(all);
    let (committed, composing, held) = feed_result(keys, key);
    if text.len() <= 1 {
        assert(seq![] + run(Composition::Empty, all).0 =~= run(Composition::Empty, all).0);
    } else {
        let w = lemma_tail_witness(keys, key);
        lemma_suffix_search(all, composing, 0);
        let r = suffix_start_from(all, composing, 0);
        assert(all.skip(w) == all.skip(w));
        assert(0 <= r < all.len());
        assert(held == all.skip(r));
        assert(held.len() > 0);
        assert(held.last() == key);
        let (d_all, st_all) = run(Composition::Empty, all);
        let (d_held, st_held) = run(Composition::Empty, held);
        lemma_flush_len(st_all);
        lemma_flush_len(st_held);
        lemma_run_last_pending(all);
        lemma_run_last_pending(held);
        lemma_run_wf(Composition::Empty, all);
        lemma_run_wf(Composition::Empty, held);
        assert(text == d_all + flush(st_all));
        assert(spec_convert_eng_to_kor(held) == d_held + flush(st_held));
        if is_layout_key(key) {
            assert(d_held.len() == 0);
            assert(flush(st_held) =~= composing);
            assert(flush(st_all) =~= seq![text.last()]);
            lemma_flush_injective(st_all, st_held);
            assert(committed =~= d_all);
            assert(d_all =~= committed + d_held);
        } else {
            assert(flush(st_all).len() == 0);
            assert(flush(st_held).len() == 0);
            assert(d_held =~= composing);
            assert(d_all =~= committed + d_held);
        }
    }
}

/// Committing never changes the final text: whatever keys follow, the text
/// committed by feeding `key` followed by the text of the kept keys and the
/// following keys is the text of all the keys.
#[verifier::spinoff_prover]
#[verifier::rlimit(60)]
pub proof fn lemma_feed_keeps_text(keys: Seq<char>, key: char, rest: Seq<char>)
    requires
        spec_convert_eng_to_kor(keys).len() <= 1,
    ensures
        ({
            let (committed, composing, held) = feed_result(keys, key);
            &&& spec_convert_eng_to_kor(held).len() <= 1
            &&& composing == spec_convert_eng_to_kor(held)
            &&& committed + spec_convert_eng_to_kor(held + rest) == spec_convert_eng_to_kor(
                keys.push(key) + rest,
            )
        }),
{
    let all = keys.push(key);
    let (committed, composing, held) = feed_result(keys, key);
    lemma_feed_result(keys, key);
    lemma_run_concat(Composition::Empty, all, rest);
    lemma_run_concat(Composition::Empty, held, rest);
    let (d_all, st) = run(Composition::Empty, all);
    let (d_held, _) = run(Composition::Empty, held);
    let (d_rest, fin) = run(st, rest);
    assert(committed + (d_held + d_rest + flush(fin)) =~= (committed + d_held) + d_rest + flush(
        fin,
    ));
}

/// Feeding keys one at a time to a composer that holds `keys` (at most one
/// character pending): the committed text followed by the text of the keys held
/// at the end, and of any keys that follow, is the text of all the keys.
#[verifier::spinoff_prover]
#[verifier::rlimit(60)]
pub proof fn lemma_feed_keys_text(keys: Seq<char>, inputs: Seq<char>, rest: Seq<char>)
    requires
        spec_convert_eng_to_kor(keys).len() <= 1,
    ensures
        ({
            let (committed, held) = feed_keys(keys, inputs);
            &&& spec_convert_eng_to_kor(held).len() <= 1
            &&& committed + spec_convert_eng_to_kor(held + rest) == spec_convert_eng_to_kor(
                keys + inputs + rest,
            )
        }),
    decreases inputs.len(),
{
    if inputs.len() == 0 {
        assert(keys + inputs =~= keys);
        assert(seq![] + spec_convert_eng_to_kor(keys + rest) =~= spec_convert_eng_to_kor(
            keys + rest,
        ));
    } else {
        let x = inputs.last();
        let front = inputs.drop_last();
        let later = seq![x] + rest;
        lemma_feed_keys_text(keys, front, later);
        let (c1, h1) = feed_keys(keys, front);
        let (c2, _, h2) = feed_result(h1, x);
        lemma_feed_keeps_text(h1, x, rest);
        assert(h1 + later =~= h1.push(x) + rest);
        assert(keys + front + later =~= keys + inputs + rest);
        assert(c1 + c2 + spec_convert_eng_to_kor(h2 + rest) =~= c1 + (c2
            + spec_convert_eng_to_kor(h2 + rest)));
    }
}

/// A key adds at most one completed character; with at most one character
/// pending, the text after one more character has at most two characters.
#[verifier::spinoff_prover]
#[verifier::rlimit(60)]
pub proof fn lemma_feed_text_len(keys: Seq<char>, key: char)
    requires
        spec_convert_eng_to_kor(keys).len() <= 1,
    ensures
        spec_convert_eng_to_kor(keys.push(key)).len() <= 2,
        feed_result(keys, key).0.len() <= 1,
        feed_result(keys, key).1.len() <= 1,
{
    let all = keys.push(key);
    let (done, st) = run(Composition::Empty, keys);
    let (more, next) = step(st, key);
    assert(all.drop_last() =~= keys);
    assert(all.last() == key);
    assert(run(Composition::Empty, all) == (done + more, next));
    lemma_flush_len(st);
    lemma_flush_len(next);
    lemma_feed_result(keys, key);
}

// ---------------------------------------------------------------------------
// Executable interface
// ---------------------------------------------------------------------------

/// Converts an English key sequence into two-set Hangul precomposed text.
/// Characters that are not layout keys (digits, symbols, spaces, Hangul, ...)
/// are kept as they are, and end the syllable being composed.
pub fn convert_eng_to_kor(src: &str) -> (out: String)
    ensures
        out@ == spec_convert_eng_to_kor(src@),
{
    let chars = str_chars(src);
    let text = convert_chars(chars.as_slice());
    chars_to_string(text.as_slice(), text.len())
}

/// One step of the composer: text that is final, and the text still being composed.
#[derive(Debug, Clone)]
pub struct ComposerStep {
    pub committed: String,
    pub composing: String,
}

impl Default for ComposerStep {
    fn default() -> (step: Self)
        ensures
            step.committed@ == Seq::<char>::empty(),
            step.composing@ == Seq::<char>::empty(),
    {
        ComposerStep { committed: String::new(), composing: String::new() }
    }
}

/// Composes Hangul from keys fed one at a time. It holds only the keys of the
/// syllable still being composed; completed syllables are handed out as committed text.
#[derive(Debug)]
pub struct HangulComposer {
    keys: Vec<char>,
}

impl View for HangulComposer {
    type V = Seq<char>;

    /// The keys held for the syllable being composed.
    closed spec fn view(&self) -> Seq<char> {
        self.keys@
    }
}

impl Clone for HangulComposer {
    fn clone(&self) -> (c: Self)
        ensures
            c@ == self@,
    {
        proof {
            use_type_invariant(self);
        }
        HangulComposer { keys: vstd::slice::slice_to_vec(self.keys.as_slice()) }
    }
}

impl Default for HangulComposer {
    fn default() -> (c: Self)
        ensures
            c@ == Seq::<char>::empty(),
            spec_convert_eng_to_kor(c@).len() <= 1,
    {
        HangulComposer { keys: Vec::new() }
    }
}

impl HangulComposer {
    /// The held keys convert to at most one character.
    #[verifier::type_invariant]
    closed spec fn holds_one_syllable(self) -> bool {
        spec_convert_eng_to_kor(self.keys@).len() <= 1
    }

    /// A composer holding no keys.
    pub fn new() -> (c: Self)
        ensures
            c@ == Seq::<char>::empty(),
            spec_convert_eng_to_kor(c@).len() <= 1,
    {
        HangulComposer { keys: Vec::new() }
    }

    /// Drops the keys being composed.
    pub fn clear(&mut self)
        ensures
            final(self)@ == Seq::<char>::empty(),
            spec_convert_eng_to_kor(final(self)@).len() <= 1,
    {
        self.keys = Vec::new();
    }

    /// Whether keys are being composed.
    pub fn has_pending(&self) -> (r: bool)
        ensures
            r == (self@.len() > 0),
    {
        !self.keys.is_empty()
    }

    /// Feeds one key. Returns the text that is now final and the text still
    /// being composed, and keeps only the keys of the latter.
    pub fn feed_key(&mut self, key: char) -> (step: ComposerStep)
        ensures
            step.committed@ == feed_result(old(self)@, key).0,
            step.composing@ == feed_result(old(self)@, key).1,
            final(self)@ == feed_result(old(self)@, key).2,
            spec_convert_eng_to_kor(old(self)@).len() <= 1,
            spec_convert_eng_to_kor(final(self)@).len() <= 1,
    {
        proof {
            use_type_invariant(&*self);
        }
        let ghost old_keys = self.keys@;
        let mut all = vstd::slice::slice_to_vec(self.keys.as_slice());
        all.push(key);
        let text = convert_chars(all.as_slice());
        if text.len() <= 1 {
            proof {
                lemma_convert_len_monotone(all@);
                assert(all@.drop_last() =~= old_keys);
                assert(text@.take(text@.len() as int) =~= text@);
            }
            self.keys = all;
            return ComposerStep {
                committed: String::new(),
                composing: chars_to_string(text.as_slice(), text.len()),
            };
        }
        let last = text[text.len() - 1];
        let committed = chars_to_string(text.as_slice(), text.len() - 1);
        let composing = chars_to_string(&[last], 1);
        proof {
            assert(committed@ =~= text@.drop_last());
        }
        let ghost target = seq![last];
        let mut start: usize = 0;
        let mut found: Option<usize> = None;
        while start < all.len()
            invariant_except_break
                found is None,
            invariant
                start <= all@.len(),
                all@ == old_keys.push(key),
                target == seq![last],
                forall|j: int|
                    0 <= j < start ==> spec_convert_eng_to_kor(#[trigger] all@.skip(j)) != target,
            ensures
                found matches Some(s) ==> s == start && start < all@.len()
                    && spec_convert_eng_to_kor(all@.skip(start as int)) == target,
                found is None ==> start == all@.len(),
            decreases all@.len() - start,
        {
            let cand = vstd::slice::slice_subrange(all.as_slice(), start, all.len());
            assert(cand@ =~= all@.skip(start as int));
            let conv = convert_chars(cand);
            if conv.len() == 1 && conv[0] == last {
                assert(conv@ =~= target);
                found = Some(start);
                break;
            }
            assert(conv@ != target);
            start = start + 1;
        }
        proof {
            lemma_suffix_search(all@, target, 0);
            lemma_feed_result(old_keys, key);
            assert(text@.last() == last);
            assert(target =~= feed_result(old_keys, key).1);
        }
        let held = match found {
            Some(s) => {
                let mut front = all;
                front.split_off(s)
            },
            None => all,
        };
        proof {
            let r = suffix_start_from(all@, target, 0);
            if found is None {
                assert(r == 0);
                assert(all@.skip(0) =~= all@);
            }
            assert(held@ =~= all@.skip(r));
        }
        self.keys = held;
        ComposerStep { committed, composing }
    }

    /// Takes back the last key. Returns the text of the keys still held.
    pub fn pop_key(&mut self) -> (text: String)
        ensures
            final(self)@ == (if old(self)@.len() > 0 {
                old(self)@.drop_last()
            } else {
                old(self)@
            }),
            text@ == spec_convert_eng_to_kor(final(self)@),
            spec_convert_eng_to_kor(final(self)@).len() <= 1,
    {
        proof {
            use_type_invariant(&*self);
        }
        let mut keys = vstd::slice::slice_to_vec(self.keys.as_slice());
        keys.pop();
        proof {
            if self.keys@.len() > 0 {
                lemma_convert_len_monotone(self.keys@);
                assert(keys@ =~= self.keys@.drop_last());
            }
        }
        self.keys = keys;
        let text = convert_chars(self.keys.as_slice());
        chars_to_string(text.as_slice(), text.len())
    }

    /// The text of the keys held.
    pub fn preview_text(&self) -> (text: String)
        ensures
            text@ == spec_convert_eng_to_kor(self@),
            text@.len() <= 1,
    {
        proof {
            use_type_invariant(self);
        }
        let text = convert_chars(self.keys.as_slice());
        chars_to_string(text.as_slice(), text.len())
    }

    /// Takes back keys until the text held is one character shorter. Since a
    /// composer holds a single syllable, this drops every key held.
    pub fn backspace_syllable(&mut self) -> (text: String)
        ensures
            text@ == Seq::<char>::empty(),
            final(self)@ == Seq::<char>::empty(),
    {
        proof {
            use_type_invariant(&*self);
        }
        if self.keys.is_empty() {
            return String::new();
        }
        let current = convert_chars(self.keys.as_slice());
        let target_len = current.len() - 1;
        proof {
            lemma_convert_len_monotone(self.keys@);
        }
        let mut keys = vstd::slice::slice_to_vec(self.keys.as_slice());
        while !keys.is_empty()
            invariant
                target_len == 0,
                spec_convert_eng_to_kor(keys@).len() <= 1,
            decreases keys@.len(),
        {
            let ghost before = keys@;
            keys.pop();
            proof {
                lemma_convert_len_monotone(before);
                assert(keys@ =~= before.drop_last());
                if keys@.len() > 0 {
                    lemma_convert_len_monotone(keys@);
                }
            }
            let next = convert_chars(keys.as_slice());
            if next.len() <= target_len {
                self.keys = keys;
                return chars_to_string(next.as_slice(), next.len());
            }
        }
        self.keys = keys;
        String::new()
    }
}

} // verus!
