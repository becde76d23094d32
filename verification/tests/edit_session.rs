use gksrmf::edit_session::{
    client_size, command_for, delete_word_before, is_minimize_command, map_physical_key_to_eng,
    mode_label_text, toggled_mode, Command, EditOp, EditSession, InputMode, KeyOutcome,
    VK_BACKSPACE,
};

fn describe(ops: &[EditOp]) -> Vec<String> {
    ops.iter()
        .map(|op| match op {
            EditOp::Select(a, b) => format!("select {a} {b}"),
            EditOp::ReplaceSelection(t) => format!("replace {t}"),
        })
        .collect()
}

#[test]
fn test_map_physical_key_to_eng() {
    assert_eq!(map_physical_key_to_eng('R' as u32, false), Some('r'));
    assert_eq!(map_physical_key_to_eng('R' as u32, true), Some('R'));
    assert_eq!(map_physical_key_to_eng('G' as u32, false), Some('g'));
    assert_eq!(map_physical_key_to_eng('G' as u32, true), Some('g'));
    assert_eq!(map_physical_key_to_eng(VK_BACKSPACE, false), None);
}

#[test]
fn map_physical_key_shifted_vowels_and_bounds() {
    assert_eq!(map_physical_key_to_eng('O' as u32, true), Some('O'));
    assert_eq!(map_physical_key_to_eng('P' as u32, true), Some('P'));
    assert_eq!(map_physical_key_to_eng('K' as u32, true), Some('k'));
    assert_eq!(map_physical_key_to_eng('A' as u32, false), Some('a'));
    assert_eq!(map_physical_key_to_eng('Z' as u32, false), Some('z'));
    assert_eq!(map_physical_key_to_eng('@' as u32, false), None);
    assert_eq!(map_physical_key_to_eng('[' as u32, false), None);
    assert_eq!(map_physical_key_to_eng('a' as u32, false), None);
}

#[test]
fn mode_toggle_and_labels() {
    assert_eq!(toggled_mode(InputMode::Han), InputMode::Eng);
    assert_eq!(toggled_mode(toggled_mode(InputMode::Han)), InputMode::Han);
    assert_eq!(mode_label_text(InputMode::Han), "[한] | 영");
    assert_eq!(mode_label_text(InputMode::Eng), "한 | [영]");
    let mut s = EditSession::new();
    assert_eq!(s.toggle_input_mode(), "한 | [영]");
    assert_eq!(s.mode(), InputMode::Eng);
    assert_eq!(s.toggle_input_mode(), "[한] | 영");
}

#[test]
fn composing_in_the_edit_control() {
    let mut s = EditSession::new();
    // 'G' at caret 5: composition starts there, 'ㅎ' is shown.
    let r = s.on_key_down('G' as u32, false, false, (5, 5));
    assert_eq!(r.outcome, KeyOutcome::Handled);
    assert_eq!(describe(&r.ops), vec!["select 5 5", "replace ㅎ", "select 6 6"]);
    assert!(s.on_char('g' as usize));
    assert!(!s.on_char('g' as usize));
    let r = s.on_key_down('K' as u32, false, false, (6, 6));
    assert_eq!(describe(&r.ops), vec!["select 5 6", "replace 하", "select 6 6"]);
    let r = s.on_key_down('S' as u32, false, false, (6, 6));
    assert_eq!(describe(&r.ops), vec!["select 5 6", "replace 한", "select 6 6"]);
    // 'R': 한 is committed, ㄱ composed after it; 'M' makes it 그.
    let r = s.on_key_down('R' as u32, false, false, (6, 6));
    assert_eq!(
        describe(&r.ops),
        vec!["select 5 6", "replace 한", "select 6 6", "select 6 6", "replace ㄱ", "select 7 7"]
    );
    let r = s.on_key_down('M' as u32, false, false, (7, 7));
    assert_eq!(describe(&r.ops), vec!["select 6 7", "replace 그", "select 7 7"]);
    // Backspace takes back one key of the composition.
    let r = s.on_key_down(VK_BACKSPACE, false, false, (7, 7));
    assert_eq!(r.outcome, KeyOutcome::Handled);
    assert_eq!(describe(&r.ops), vec!["select 6 7", "replace ㄱ", "select 7 7"]);
    let r = s.on_key_down(VK_BACKSPACE, false, false, (7, 7));
    assert_eq!(describe(&r.ops), vec!["select 6 7", "replace ", "select 6 6"]);
    assert!(!s.has_pending());
    // With nothing composed, Backspace goes to the control.
    let r = s.on_key_down(VK_BACKSPACE, false, false, (6, 6));
    assert_eq!(r.outcome, KeyOutcome::PassThrough);
    assert!(r.ops.is_empty());
}

#[test]
fn selection_is_replaced_when_composing_starts() {
    let mut s = EditSession::new();
    let r = s.on_key_down('D' as u32, false, false, (2, 4));
    assert_eq!(
        describe(&r.ops),
        vec!["select 2 4", "replace ", "select 2 2", "select 2 2", "replace ㅇ", "select 3 3"]
    );
}

#[test]
fn ctrl_keys_and_eng_mode() {
    let mut s = EditSession::new();
    s.on_key_down('G' as u32, false, false, (0, 0));
    assert!(s.has_pending());
    let r = s.on_key_down('A' as u32, true, false, (1, 1));
    assert_eq!(r.outcome, KeyOutcome::Handled);
    assert_eq!(describe(&r.ops), vec![format!("select 0 {}", u32::MAX)]);
    assert!(!s.has_pending());
    s.on_key_down('G' as u32, false, false, (1, 1));
    let r = s.on_key_down('C' as u32, true, false, (2, 2));
    assert_eq!(r.outcome, KeyOutcome::PassThrough);
    assert!(!s.has_pending());
    // Ctrl+Backspace: deletes the composing syllable, else the selection, else asks for a word.
    s.on_key_down('G' as u32, false, false, (2, 2));
    let r = s.on_key_down(VK_BACKSPACE, true, false, (3, 3));
    assert_eq!(describe(&r.ops), vec!["select 2 3", "replace ", "select 2 2"]);
    let r = s.on_key_down(VK_BACKSPACE, true, false, (1, 3));
    assert_eq!(describe(&r.ops), vec!["select 1 3", "replace ", "select 1 1"]);
    let r = s.on_key_down(VK_BACKSPACE, true, false, (3, 3));
    assert_eq!(r.outcome, KeyOutcome::DeleteWordBefore);
    assert!(s.on_char(0x7F));
    s.toggle_input_mode();
    let r = s.on_key_down('G' as u32, false, false, (3, 3));
    assert_eq!(r.outcome, KeyOutcome::PassThrough);
    assert!(!s.has_pending());
    // A key that is not a letter commits in Han mode.
    s.toggle_input_mode();
    s.on_key_down('G' as u32, false, false, (3, 3));
    let r = s.on_key_down(0x20, false, false, (4, 4));
    assert_eq!(r.outcome, KeyOutcome::PassThrough);
    assert!(!s.has_pending());
    s.on_key_down('G' as u32, false, false, (4, 4));
    s.on_mouse_down();
    assert!(!s.has_pending());
}

#[test]
fn ctrl_backspace_deletes_the_whole_syllable() {
    let mut s = EditSession::new();
    s.on_key_down('D' as u32, false, false, (3, 3));
    s.on_key_down('K' as u32, false, false, (4, 4));
    let r = s.on_key_down('S' as u32, false, false, (4, 4));
    assert_eq!(describe(&r.ops), vec!["select 3 4", "replace 안", "select 4 4"]);
    assert!(s.on_char('s' as usize));
    // The whole syllable 안 goes, not only its last key.
    let r = s.on_key_down(VK_BACKSPACE, true, false, (4, 4));
    assert_eq!(r.outcome, KeyOutcome::Handled);
    assert_eq!(describe(&r.ops), vec!["select 3 4", "replace ", "select 3 3"]);
    assert!(!s.has_pending());
    assert!(s.on_char(0x7F));
    // A new key starts a new composition at the caret.
    let r = s.on_key_down('G' as u32, false, false, (3, 3));
    assert_eq!(describe(&r.ops), vec!["select 3 3", "replace ㅎ", "select 4 4"]);
    // Committed text before the composing syllable stays.
    s.on_key_down('K' as u32, false, false, (4, 4));
    s.on_key_down('S' as u32, false, false, (4, 4));
    s.on_key_down('R' as u32, false, false, (4, 4));
    let r = s.on_key_down(VK_BACKSPACE, true, false, (5, 5));
    assert_eq!(describe(&r.ops), vec!["select 4 5", "replace ", "select 4 4"]);
    assert!(!s.has_pending());
}

#[test]
fn word_deletion_before_the_caret() {
    let text: Vec<char> = "입력한다? 입".chars().collect();
    let ops = delete_word_before(&text, text.len(), 7);
    assert_eq!(describe(&ops), vec!["select 6 7", "replace ", "select 6 6"]);
    let text: Vec<char> = "one two   ".chars().collect();
    let ops = delete_word_before(&text, text.len(), 10);
    assert_eq!(describe(&ops), vec!["select 4 10", "replace ", "select 4 4"]);
    // Caret past the end is clamped to the end.
    let ops = delete_word_before(&text, text.len(), 99);
    assert_eq!(describe(&ops), vec!["select 4 10", "replace ", "select 4 4"]);
    assert!(delete_word_before(&text, text.len(), 0).is_empty());
    assert!(delete_word_before(&[], 0, 3).is_empty());
}

#[test]
fn window_messages() {
    assert_eq!(command_for(2002, false), Command::ToggleMode);
    assert_eq!(command_for((1 << 16) | 2002, false), Command::Ignore);
    assert_eq!(command_for(2001, false), Command::ToggleAlwaysOnTop);
    assert_eq!(command_for(1001, false), Command::ToggleAlwaysOnTop);
    assert_eq!(command_for(1002, false), Command::ToggleStartWithWindows);
    assert_eq!(command_for(1003, false), Command::Exit);
    assert_eq!(command_for((0x0300 << 16) | 1003, true), Command::Ignore);
    assert_eq!(command_for((0x0300 << 16) | 1003, false), Command::Exit);
    assert_eq!(command_for(4242, false), Command::Ignore);
    assert!(is_minimize_command(0xF020));
    assert!(is_minimize_command(0xF022));
    assert!(!is_minimize_command(0xF060));
    assert_eq!(client_size((300 << 16) | 640), (640, 300));
    assert_eq!(client_size(-1), (0xFFFF, 0xFFFF));
}
