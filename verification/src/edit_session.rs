//! The editor's input handling: physical keys are composed into Hangul in the
//! edit control. Each event is answered with the edits to make (selection
//! changes and replacements) and whether the control should also see the event;
//! the application performs them.
use vstd::prelude::*;

use crate::editor_window::{IDC_ALWAYS_ON_TOP_CHECK, IDC_MODE_TOGGLE};
use crate::hangul_engine::{feed_result, is_layout_key, spec_convert_eng_to_kor, HangulComposer};
use crate::tray_manager::{IDM_ALWAYS_ON_TOP, IDM_EXIT, IDM_START_WITH_WINDOWS};
use crate::wide_text::{spec_is_white_space, utf16_encode, utf16_len, is_white_space};

verus! {

/// Virtual-key code of Backspace.
pub const VK_BACKSPACE: u32 = 0x08;

/// Virtual-key code of F1, which toggles the input mode.
pub const VK_F1: u32 = 0x70;

/// The window message of a key going down.
pub const WM_KEYDOWN: u32 = 0x0100;

/// The Delete character that Ctrl+Backspace produces as `WM_CHAR`.
pub const CHAR_DELETE: usize = 0x7F;

/// Input mode.
#[derive(Debug, Clone, Copy, PartialEq, Eq, Structural)]
pub enum InputMode {
    /// Keys are composed into Hangul.
    Han,
    /// Keys go to the edit control as they are.
    Eng,
}

/// The other mode.
pub open spec fn spec_toggled(mode: InputMode) -> InputMode {
    match mode {
        InputMode::Han => InputMode::Eng,
        InputMode::Eng => InputMode::Han,
    }
}

/// The other mode.
pub fn toggled_mode(mode: InputMode) -> (m: InputMode)
    ensures
        m == spec_toggled(mode),
{
    match mode {
        InputMode::Han => InputMode::Eng,
        InputMode::Eng => InputMode::Han,
    }
}

/// Toggling the mode twice gives the mode back.
pub proof fn lemma_toggle_twice(mode: InputMode)
    ensures
        spec_toggled(spec_toggled(mode)) == mode,
{
}

/// The mode button's caption, with the current mode in brackets.
pub fn mode_label_text(mode: InputMode) -> (text: &'static str)
    ensures
        text@ == (match mode {
            InputMode::Han => "[한] | 영"@,
            InputMode::Eng => "한 | [영]"@,
        }),
{
    match mode {
        InputMode::Han => "[한] | 영",
        InputMode::Eng => "한 | [영]",
    }
}

/// The key character of a physical letter key `vk` (`A`..`Z`): the lower-case
/// letter, or, with Shift, the upper-case letter for the five keys that have a
/// doubled jamo (`R E Q T W`) and the two with a second vowel (`O P`).
/// Other keys have none.
pub open spec fn spec_key_char(vk: u32, shift: bool) -> Option<char> {
    if 0x41 <= vk <= 0x5A {
        let lower = (vk + 32) as char;
        let has_shifted = lower == 'r' || lower == 'e' || lower == 'q' || lower == 't' || lower
            == 'w' || lower == 'o' || lower == 'p';
        if shift && has_shifted {
            Some(vk as char)
        } else {
            Some(lower)
        }
    } else {
        None
    }
}

/// A letter key always gives a layout key: the upper-case letter exactly when
/// Shift is held and that letter is itself a layout key (`R E Q T W O P`),
/// else the lower-case letter.
pub proof fn lemma_key_char_is_layout_key(vk: u32, shift: bool)
    requires
        0x41 <= vk <= 0x5A,
    ensures
        spec_key_char(vk, shift) == Some(
            if shift && is_layout_key(vk as char) {
                vk as char
            } else {
                (vk + 32) as char
            },
        ),
        is_layout_key(spec_key_char(vk, shift)->0),
{
}

/// Maps a physical key to the key character the composer takes.
pub fn map_physical_key_to_eng(vk: u32, shift: bool) -> (c: Option<char>)
    ensures
        c == spec_key_char(vk, shift),
{
    if vk < 0x41 || vk > 0x5A {
        return None;
    }
    let upper = vk as u8 as char;
    let lower = (vk + 32) as u8 as char;
    proof {
        assert(upper == vk as char);
        assert(lower == (vk + 32) as char);
    }
    if shift && (lower == 'r' || lower == 'e' || lower == 'q' || lower == 't' || lower == 'w'
        || lower == 'o' || lower == 'p') {
        Some(upper)
    } else {
        Some(lower)
    }
}

// ---------------------------------------------------------------------------
// Edits
// ---------------------------------------------------------------------------

/// An edit of the control, in UTF-16 positions.
#[derive(Debug, Clone)]
pub enum EditOp {
    /// Select from the first position to the second.
    Select(u32, u32),
    /// Replace the selection with the text (leaving the caret after it).
    ReplaceSelection(String),
}

/// What an edit does, as a value.
pub enum EditStep {
    Select(u32, u32),
    Replace(Seq<char>),
}

pub open spec fn edit_step(op: EditOp) -> EditStep {
    match op {
        EditOp::Select(a, b) => EditStep::Select(a, b),
        EditOp::ReplaceSelection(t) => EditStep::Replace(t@),
    }
}

/// The steps of a list of edits.
pub open spec fn edit_steps(ops: Seq<EditOp>) -> Seq<EditStep> {
    ops.map_values(|op: EditOp| edit_step(op))
}

/// Select `start..end`, replace it with `text`, and put the caret at `caret`.
pub open spec fn replace_steps(start: int, end: int, text: Seq<char>, caret: int) -> Seq<EditStep> {
    seq![
        EditStep::Select(start as u32, end as u32),
        EditStep::Replace(text),
        EditStep::Select(caret as u32, caret as u32),
    ]
}

fn replace_ops(start: u32, end: u32, text: String, caret: u32, ops: &mut Vec<EditOp>)
    ensures
        edit_steps(final(ops)@) == edit_steps(old(ops)@) + replace_steps(
            start as int,
            end as int,
            text@,
            caret as int,
        ),
{
    let ghost before = ops@;
    let ghost t = text@;
    ops.push(EditOp::Select(start, end));
    ops.push(EditOp::ReplaceSelection(text));
    ops.push(EditOp::Select(caret, caret));
    assert(edit_steps(ops@) =~= edit_steps(before) + replace_steps(
        start as int,
        end as int,
        t,
        caret as int,
    ));
}

// ---------------------------------------------------------------------------
// Session state
// ---------------------------------------------------------------------------

/// The state of the editor's input handling, as values.
pub struct SessionState {
    /// Keys of the syllable being composed.
    pub keys: Seq<char>,
    /// Where the composed text starts in the control, once composition has begun.
    pub compose_start: Option<u32>,
    /// UTF-16 length of the composing text shown in the control.
    pub compose_len: u32,
    /// The input mode.
    pub mode: InputMode,
    /// The next `WM_CHAR` is swallowed (its key was already handled).
    pub suppress_next_char: bool,
}

/// The editor's input handling.
pub struct EditSession {
    composer: HangulComposer,
    compose_start: Option<u32>,
    compose_len: u32,
    mode: InputMode,
    suppress_next_char: bool,
}

impl View for EditSession {
    type V = SessionState;

    closed spec fn view(&self) -> SessionState {
        SessionState {
            keys: self.composer@,
            compose_start: self.compose_start,
            compose_len: self.compose_len,
            mode: self.mode,
            suppress_next_char: self.suppress_next_char,
        }
    }
}

/// The number of UTF-16 code units of a text.
pub open spec fn units(text: Seq<char>) -> int {
    utf16_encode(text).len() as int
}

/// Where composition starts (0 before it has begun).
pub open spec fn compose_base(s: SessionState) -> int {
    match s.compose_start {
        Some(p) => p as int,
        None => 0,
    }
}

/// Composition forgotten: no keys, no position.
pub open spec fn cleared(s: SessionState) -> SessionState {
    SessionState { keys: seq![], compose_start: None, compose_len: 0, ..s }
}

/// Committing the composition: the text shown stays, the composition is forgotten.
pub open spec fn committed(s: SessionState) -> SessionState {
    if s.keys.len() > 0 {
        cleared(s)
    } else {
        s
    }
}

/// Shows `text` in place of the composing text; the caret goes after it.
pub open spec fn render(s: SessionState, text: Seq<char>) -> (Seq<EditStep>, SessionState) {
    let start = compose_base(s);
    (
        replace_steps(start, start + s.compose_len, text, start + units(text)),
        SessionState { compose_len: units(text) as u32, ..s },
    )
}

/// Writes committed `text` in place of the composing text; composition goes on after it.
pub open spec fn append_committed(s: SessionState, text: Seq<char>) -> (
    Seq<EditStep>,
    SessionState,
) {
    if text.len() == 0 {
        (seq![], s)
    } else {
        let start = compose_base(s);
        let next = start + units(text);
        (
            replace_steps(start, start + s.compose_len, text, next),
            SessionState { compose_start: Some(next as u32), compose_len: 0, ..s },
        )
    }
}

/// Composition starts at the caret; a selection is deleted first.
pub open spec fn start_at_caret(s: SessionState, sel: (u32, u32)) -> (
    Seq<EditStep>,
    SessionState,
) {
    let steps = if sel.0 != sel.1 {
        replace_steps(sel.0 as int, sel.1 as int, seq![], sel.0 as int)
    } else {
        seq![]
    };
    (steps, SessionState { keys: seq![], compose_start: Some(sel.0), compose_len: 0, ..s })
}

/// Takes back one composed key and shows the rest; when nothing is left the
/// composition is forgotten.
pub open spec fn pop_and_render(s: SessionState) -> (Seq<EditStep>, SessionState) {
    let keys = s.keys.drop_last();
    let text = spec_convert_eng_to_kor(keys);
    let (steps, s2) = render(SessionState { keys: keys, ..s }, text);
    (steps, if text.len() == 0 {
        cleared(s2)
    } else {
        s2
    })
}

/// Drops the whole syllable being composed: its text is removed from the
/// control and the composition is forgotten.
pub open spec fn drop_syllable_and_render(s: SessionState) -> (Seq<EditStep>, SessionState) {
    let (steps, s2) = render(SessionState { keys: seq![], ..s }, seq![]);
    (steps, cleared(s2))
}

/// Feeds a key character: composition starts at the caret if it has not begun
/// or text is selected, committed text is written, and the composing text shown.
pub open spec fn compose_key(s: SessionState, sel: (u32, u32), key: char) -> (
    Seq<EditStep>,
    SessionState,
) {
    let (steps1, s1) = if s.compose_start is None || sel.0 != sel.1 {
        start_at_caret(s, sel)
    } else {
        (seq![], s)
    };
    let (done, composing, kept) = feed_result(s1.keys, key);
    let (steps2, s2) = append_committed(SessionState { keys: kept, ..s1 }, done);
    let (steps3, s3) = render(s2, composing);
    (steps1 + steps2 + steps3, s3)
}

/// How a key press ends.
#[derive(Debug, Clone, Copy, PartialEq, Eq, Structural)]
pub enum KeyOutcome {
    /// The key was handled; the control does not see it.
    Handled,
    /// The control handles the key as usual.
    PassThrough,
    /// Ctrl+Backspace with nothing composed or selected: delete the word before
    /// the caret (see `delete_word_before`).
    DeleteWordBefore,
}

/// The answer to a key press.
pub struct KeyResponse {
    pub ops: Vec<EditOp>,
    pub outcome: KeyOutcome,
}

/// `s` with the next character message swallowed.
pub open spec fn suppressing(s: SessionState) -> SessionState {
    SessionState { suppress_next_char: true, ..s }
}

/// The answer to a key press `vk` (with Ctrl and Shift states) while `sel` is
/// selected, and the state after it.
/// - Ctrl+A commits and selects everything.
/// - Ctrl+Backspace deletes the syllable being composed; else deletes the
///   selection; else asks for the word before the caret to be deleted.
/// - Backspace takes back one composed key, or goes to the control.
/// - Other Ctrl keys commit and go to the control.
/// - In Han mode a letter key is composed; other keys commit and go to the control.
/// - In Eng mode keys commit and go to the control.
pub open spec fn key_down(s: SessionState, vk: u32, ctrl: bool, shift: bool, sel: (u32, u32)) -> (
    Seq<EditStep>,
    KeyOutcome,
    SessionState,
) {
    if ctrl && vk == 0x41 {
        (seq![EditStep::Select(0, u32::MAX)], KeyOutcome::Handled, suppressing(committed(s)))
    } else if ctrl && vk == VK_BACKSPACE {
        if s.keys.len() > 0 {
            let (steps, s2) = drop_syllable_and_render(s);
            (steps, KeyOutcome::Handled, suppressing(s2))
        } else if sel.0 != sel.1 {
            (
                replace_steps(sel.0 as int, sel.1 as int, seq![], sel.0 as int),
                KeyOutcome::Handled,
                suppressing(s),
            )
        } else {
            (seq![], KeyOutcome::DeleteWordBefore, suppressing(s))
        }
    } else if ctrl {
        (seq![], KeyOutcome::PassThrough, committed(s))
    } else if vk == VK_BACKSPACE {
        if s.keys.len() > 0 {
            let (steps, s2) = pop_and_render(s);
            (steps, KeyOutcome::Handled, suppressing(s2))
        } else {
            (seq![], KeyOutcome::PassThrough, s)
        }
    } else if s.mode == InputMode::Han && spec_key_char(vk, shift) is Some {
        let (steps, s2) = compose_key(s, sel, spec_key_char(vk, shift)->0);
        (steps, KeyOutcome::Handled, suppressing(s2))
    } else {
        (seq![], KeyOutcome::PassThrough, committed(s))
    }
}

/// A key that goes on to the edit control leaves no composition behind (it is
/// committed first), and a key handled here swallows its character message.
pub proof fn lemma_key_down_commits(s: SessionState, vk: u32, ctrl: bool, shift: bool, sel: (
    u32,
    u32,
))
    ensures
        key_down(s, vk, ctrl, shift, sel).1 == KeyOutcome::PassThrough ==> key_down(
            s,
            vk,
            ctrl,
            shift,
            sel,
        ).2.keys.len() == 0,
        key_down(s, vk, ctrl, shift, sel).1 != KeyOutcome::PassThrough ==> key_down(
            s,
            vk,
            ctrl,
            shift,
            sel,
        ).2.suppress_next_char,
{
}

/// Backspace while composing takes back exactly the last key and keeps the
/// composition where it was; when that was the only key, no composition is
/// left (no keys, no position), so the next letter is composed at the caret.
/// Ctrl+Backspace while composing drops every key and leaves no composition.
pub proof fn lemma_backspace_while_composing(s: SessionState, shift: bool, sel: (u32, u32))
    requires
        s.keys.len() > 0,
    ensures
        key_down(s, VK_BACKSPACE, false, shift, sel).1 == KeyOutcome::Handled,
        key_down(s, VK_BACKSPACE, false, shift, sel).2.keys == s.keys.drop_last(),
        key_down(s, VK_BACKSPACE, false, shift, sel).2.mode == s.mode,
        s.keys.len() == 1 ==> key_down(s, VK_BACKSPACE, false, shift, sel).2.compose_start is None
            && key_down(s, VK_BACKSPACE, false, shift, sel).2.compose_len == 0,
        s.keys.len() > 1 ==> key_down(s, VK_BACKSPACE, false, shift, sel).2.compose_start
            == s.compose_start,
        key_down(s, VK_BACKSPACE, true, shift, sel).1 == KeyOutcome::Handled,
        key_down(s, VK_BACKSPACE, true, shift, sel).2.keys.len() == 0,
        key_down(s, VK_BACKSPACE, true, shift, sel).2.compose_start is None,
        key_down(s, VK_BACKSPACE, true, shift, sel).2.compose_len == 0,
{
    let keys = s.keys.drop_last();
    if s.keys.len() == 1 {
        assert(keys =~= Seq::<char>::empty());
        assert(spec_convert_eng_to_kor(keys).len() == 0);
    } else {
        crate::hangul_engine::lemma_convert_len_monotone(keys);
    }
}

/// Positions stay within `u32` while handling a key: composition and the
/// selection start leave room for the few code units a key can add.
pub open spec fn has_room(s: SessionState, sel_start: u32) -> bool {
    compose_base(s) + s.compose_len + 4 <= u32::MAX && sel_start + 4 <= u32::MAX
}

impl EditSession {
    /// A session in Han mode with nothing composed.
    pub fn new() -> (s: Self)
        ensures
            s@.keys == Seq::<char>::empty(),
            s@.compose_start is None,
            s@.compose_len == 0,
            s@.mode == InputMode::Han,
            !s@.suppress_next_char,
    {
        EditSession {
            composer: HangulComposer::new(),
            compose_start: None,
            compose_len: 0,
            mode: InputMode::Han,
            suppress_next_char: false,
        }
    }

    /// The input mode.
    pub fn mode(&self) -> (m: InputMode)
        ensures
            m == self@.mode,
    {
        self.mode
    }

    /// Whether keys are being composed.
    pub fn has_pending(&self) -> (r: bool)
        ensures
            r == (self@.keys.len() > 0),
    {
        self.composer.has_pending()
    }

    /// Whether a key press can be handled with `sel_start` selected.
    pub fn has_room_for(&self, sel_start: u32) -> (r: bool)
        ensures
            r == has_room(self@, sel_start),
    {
        let base: u32 = match self.compose_start {
            Some(p) => p,
            None => 0,
        };
        base <= u32::MAX - 4 && self.compose_len <= u32::MAX - 4 - base && sel_start <= u32::MAX
            - 4
    }

    /// Forgets the composition; the text shown stays.
    fn clear_tracking(&mut self)
        ensures
            final(self)@ == cleared(old(self)@),
    {
        self.compose_start = None;
        self.compose_len = 0;
        self.composer.clear();
    }

    /// Commits the composition.
    pub fn commit(&mut self)
        ensures
            final(self)@ == committed(old(self)@),
    {
        if self.composer.has_pending() {
            self.clear_tracking();
        }
    }

    /// A mouse button went down in the control: the composition is committed.
    pub fn on_mouse_down(&mut self)
        ensures
            final(self)@ == committed(old(self)@),
    {
        self.commit();
    }

    /// Switches between Han and Eng (F1 or the mode button), committing the
    /// composition. Returns the new caption of the mode button.
    pub fn toggle_input_mode(&mut self) -> (label: &'static str)
        ensures
            final(self)@ == (SessionState {
                mode: spec_toggled(old(self)@.mode),
                ..committed(old(self)@)
            }),
            label@ == (match final(self)@.mode {
                InputMode::Han => "[한] | 영"@,
                InputMode::Eng => "한 | [영]"@,
            }),
    {
        self.commit();
        self.mode = toggled_mode(self.mode);
        mode_label_text(self.mode)
    }

    /// A character message: swallowed (`true`) when it is the Delete character
    /// or its key was already handled; the swallowing is used up either way.
    pub fn on_char(&mut self, code: usize) -> (swallow: bool)
        ensures
            swallow == (code == CHAR_DELETE || old(self)@.suppress_next_char),
            final(self)@ == (if swallow {
                SessionState { suppress_next_char: false, ..old(self)@ }
            } else {
                old(self)@
            }),
    {
        if code == CHAR_DELETE || self.suppress_next_char {
            self.suppress_next_char = false;
            true
        } else {
            false
        }
    }

    /// Shows `text` in place of the composing text.
    fn render_text(&mut self, text: String, ops: &mut Vec<EditOp>)
        requires
            compose_base(old(self)@) + old(self)@.compose_len <= u32::MAX,
            compose_base(old(self)@) + 2 <= u32::MAX,
            text@.len() <= 1,
        ensures
            edit_steps(final(ops)@) == edit_steps(old(ops)@) + render(old(self)@, text@).0,
            final(self)@ == render(old(self)@, text@).1,
    {
        proof {
            crate::wide_text::lemma_utf16_len_bound(text@);
        }
        let start: u32 = match self.compose_start {
            Some(p) => p,
            None => 0,
        };
        let end = start + self.compose_len;
        let n = utf16_len(text.as_str());
        proof {
            vstd::arithmetic::div_mod::lemma_small_mod(units(text@) as nat, 0x1_0000_0000);
        }
        let next = start + n;
        replace_ops(start, end, text, next, ops);
        self.compose_len = n;
    }

    /// Writes committed `text` in place of the composing text.
    fn append_committed_text(&mut self, text: String, ops: &mut Vec<EditOp>)
        requires
            compose_base(old(self)@) + old(self)@.compose_len + 2 <= u32::MAX,
            text@.len() <= 1,
        ensures
            edit_steps(final(ops)@) == edit_steps(old(ops)@) + append_committed(
                old(self)@,
                text@,
            ).0,
            final(self)@ == append_committed(old(self)@, text@).1,
            compose_base(final(self)@) <= compose_base(old(self)@) + 2,
    {
        proof {
            crate::wide_text::lemma_utf16_len_bound(text@);
        }
        if text.as_str().is_empty() {
            proof {
                assert(edit_steps(ops@) =~= edit_steps(ops@) + Seq::<EditStep>::empty());
            }
            return;
        }
        let start: u32 = match self.compose_start {
            Some(p) => p,
            None => 0,
        };
        let end = start + self.compose_len;
        let n = utf16_len(text.as_str());
        proof {
            vstd::arithmetic::div_mod::lemma_small_mod(units(text@) as nat, 0x1_0000_0000);
        }
        let next = start + n;
        replace_ops(start, end, text, next, ops);
        self.compose_start = Some(next);
        self.compose_len = 0;
    }

    /// Takes back one composed key and shows the rest.
    fn pop_and_render_text(&mut self, ops: &mut Vec<EditOp>)
        requires
            compose_base(old(self)@) + old(self)@.compose_len + 2 <= u32::MAX,
            old(self)@.keys.len() > 0,
        ensures
            edit_steps(final(ops)@) == edit_steps(old(ops)@) + pop_and_render(old(self)@).0,
            final(self)@ == pop_and_render(old(self)@).1,
    {
        let text = self.composer.pop_key();
        let empty = text.as_str().is_empty();
        self.render_text(text, ops);
        if empty {
            self.clear_tracking();
        }
    }

    /// Drops the whole syllable being composed and forgets the composition.
    fn drop_syllable_and_render_text(&mut self, ops: &mut Vec<EditOp>)
        requires
            compose_base(old(self)@) + old(self)@.compose_len + 2 <= u32::MAX,
        ensures
            edit_steps(final(ops)@) == edit_steps(old(ops)@) + drop_syllable_and_render(
                old(self)@,
            ).0,
            final(self)@ == drop_syllable_and_render(old(self)@).1,
    {
        let text = self.composer.backspace_syllable();
        self.render_text(text, ops);
        self.clear_tracking();
    }

    /// Handles a key press `vk` with the Ctrl and Shift states, while `sel` is
    /// selected. With `KeyOutcome::DeleteWordBefore` the caller deletes the word
    /// before the caret with `delete_word_before`.
    #[verifier::spinoff_prover]
    #[verifier::rlimit(30)]
    pub fn on_key_down(&mut self, vk: u32, ctrl: bool, shift: bool, sel: (u32, u32)) -> (r:
        KeyResponse)
        requires
            has_room(old(self)@, sel.0),
        ensures
            edit_steps(r.ops@) == key_down(old(self)@, vk, ctrl, shift, sel).0,
            r.outcome == key_down(old(self)@, vk, ctrl, shift, sel).1,
            final(self)@ == key_down(old(self)@, vk, ctrl, shift, sel).2,
    {
        let mut ops: Vec<EditOp> = Vec::new();
        proof {
            assert(edit_steps(ops@) =~= Seq::<EditStep>::empty());
        }
        if ctrl && vk == 0x41 {
            self.commit();
            ops.push(EditOp::Select(0, u32::MAX));
            self.suppress_next_char = true;
            proof {
                assert(edit_steps(ops@) =~= seq![EditStep::Select(0, u32::MAX)]);
            }
            return KeyResponse { ops, outcome: KeyOutcome::Handled };
        }
        if ctrl && vk == VK_BACKSPACE {
            let outcome = if self.composer.has_pending() {
                self.drop_syllable_and_render_text(&mut ops);
                KeyOutcome::Handled
            } else if sel.0 != sel.1 {
                replace_ops(sel.0, sel.1, String::new(), sel.0, &mut ops);
                KeyOutcome::Handled
            } else {
                KeyOutcome::DeleteWordBefore
            };
            self.suppress_next_char = true;
            return KeyResponse { ops, outcome };
        }
        if ctrl {
            self.commit();
            return KeyResponse { ops, outcome: KeyOutcome::PassThrough };
        }
        if vk == VK_BACKSPACE {
            if self.composer.has_pending() {
                self.pop_and_render_text(&mut ops);
                self.suppress_next_char = true;
                return KeyResponse { ops, outcome: KeyOutcome::Handled };
            }
            return KeyResponse { ops, outcome: KeyOutcome::PassThrough };
        }
        if self.mode == InputMode::Han {
            if let Some(key) = map_physical_key_to_eng(vk, shift) {
                if self.compose_start.is_none() || sel.0 != sel.1 {
                    if sel.0 != sel.1 {
                        replace_ops(sel.0, sel.1, String::new(), sel.0, &mut ops);
                    }
                    self.compose_start = Some(sel.0);
                    self.compose_len = 0;
                    self.composer.clear();
                }
                let ghost keys_before = self.composer@;
                let step = self.composer.feed_key(key);
                proof {
                    crate::hangul_engine::lemma_feed_text_len(keys_before, key);
                }
                self.append_committed_text(step.committed, &mut ops);
                self.render_text(step.composing, &mut ops);
                self.suppress_next_char = true;
                proof {
                    assert(edit_steps(ops@) =~= key_down(old(self)@, vk, ctrl, shift, sel).0);
                }
                return KeyResponse { ops, outcome: KeyOutcome::Handled };
            }
        }
        self.commit();
        KeyResponse { ops, outcome: KeyOutcome::PassThrough }
    }
}

// ---------------------------------------------------------------------------
// Deleting the word before the caret
// ---------------------------------------------------------------------------

/// Moving back from `i` over characters that are (`white`) or are not white space.
pub open spec fn skip_back(text: Seq<char>, i: int, white: bool) -> int
    decreases i,
{
    if i <= 0 {
        0
    } else if spec_is_white_space(text[i - 1]) == white {
        skip_back(text, i - 1, white)
    } else {
        i
    }
}

/// Where the word before position `i` starts: back over white space, then over
/// the word.
pub open spec fn word_start(text: Seq<char>, i: int) -> int {
    skip_back(text, skip_back(text, i, true), false)
}

proof fn lemma_skip_back_bounds(text: Seq<char>, i: int, white: bool)
    requires
        0 <= i <= text.len(),
    ensures
        0 <= skip_back(text, i, white) <= i,
    decreases i,
{
    if i > 0 && spec_is_white_space(text[i - 1]) == white {
        lemma_skip_back_bounds(text, i - 1, white);
    }
}

fn skip_back_exec(text: &[char], i: usize, white: bool) -> (r: usize)
    requires
        i <= text@.len(),
    ensures
        r == skip_back(text@, i as int, white),
{
    let mut j = i;
    while j > 0 && is_white_space(text[j - 1]) == white
        invariant
            j <= i <= text@.len(),
            skip_back(text@, j as int, white) == skip_back(text@, i as int, white),
        decreases j,
    {
        j = j - 1;
    }
    j
}

/// The edits deleting the word before the caret: the caret `sel_start` (as a
/// character index, at most the text's length) moves back over white space
/// and then over the word, and that stretch is deleted. Nothing happens when
/// the control is empty (`text_units` is its length) or the caret is at the start.
pub open spec fn spec_delete_word_before(text: Seq<char>, text_units: usize, sel_start: u32) -> Seq<
    EditStep,
> {
    if text_units == 0 || sel_start == 0 {
        seq![]
    } else {
        let cursor = if sel_start < text.len() {
            sel_start as int
        } else {
            text.len() as int
        };
        let from = word_start(text, cursor);
        replace_steps(from, cursor, seq![], from)
    }
}

/// Where the word before `i` starts, described by the text: the stretch from it
/// to `i` is a word (no white space) followed by white space, and neither part
/// can be extended further back.
pub proof fn lemma_word_start_bounds_a_word(text: Seq<char>, i: int)
    requires
        0 <= i <= text.len(),
    ensures
        ({
            let b = skip_back(text, i, true);
            let a = word_start(text, i);
            &&& 0 <= a <= b <= i
            &&& forall|k: int| b <= k < i ==> spec_is_white_space(#[trigger] text[k])
            &&& forall|k: int| a <= k < b ==> !spec_is_white_space(#[trigger] text[k])
            &&& (b == 0 || !spec_is_white_space(text[b - 1]))
            &&& (a == 0 || spec_is_white_space(text[a - 1]))
        }),
{
    lemma_skip_back_run(text, i, true);
    lemma_skip_back_run(text, skip_back(text, i, true), false);
}

/// Moving back from `i` over characters whose white-space-ness is `white`
/// passes only such characters and stops before one that is not.
proof fn lemma_skip_back_run(text: Seq<char>, i: int, white: bool)
    requires
        0 <= i <= text.len(),
    ensures
        0 <= skip_back(text, i, white) <= i,
        forall|k: int|
            skip_back(text, i, white) <= k < i ==> spec_is_white_space(#[trigger] text[k])
                == white,
        skip_back(text, i, white) == 0 || spec_is_white_space(
            text[skip_back(text, i, white) - 1],
        ) != white,
    decreases i,
{
    if i > 0 && spec_is_white_space(text[i - 1]) == white {
        lemma_skip_back_run(text, i - 1, white);
    }
}

/// Ctrl+Backspace deletes the stretch that ends at the caret (at the end of the
/// text when the caret lies past it) and starts where the word before it
/// starts; the caret is left at that start. Nothing is deleted when the text is
/// empty or the caret is at its start.
pub proof fn lemma_word_deletion_ends_at_caret(text: Seq<char>, text_units: usize, sel_start: u32)
    ensures
        text_units == 0 || sel_start == 0 ==> spec_delete_word_before(
            text,
            text_units,
            sel_start,
        ) == Seq::<EditStep>::empty(),
        text_units > 0 && 0 < sel_start && sel_start <= text.len() ==> spec_delete_word_before(
            text,
            text_units,
            sel_start,
        ) == seq![
            EditStep::Select(word_start(text, sel_start as int) as u32, sel_start),
            EditStep::Replace(Seq::<char>::empty()),
            EditStep::Select(
                word_start(text, sel_start as int) as u32,
                word_start(text, sel_start as int) as u32,
            ),
        ],
        text_units > 0 && sel_start > text.len() ==> spec_delete_word_before(
            text,
            text_units,
            sel_start,
        ) == seq![
            EditStep::Select(word_start(text, text.len() as int) as u32, text.len() as u32),
            EditStep::Replace(Seq::<char>::empty()),
            EditStep::Select(
                word_start(text, text.len() as int) as u32,
                word_start(text, text.len() as int) as u32,
            ),
        ],
{
}

/// Ctrl+Backspace outside composition: deletes the word before the caret.
pub fn delete_word_before(text: &[char], text_units: usize, sel_start: u32) -> (ops: Vec<EditOp>)
    ensures
        edit_steps(ops@) == spec_delete_word_before(text@, text_units, sel_start),
{
    let mut ops: Vec<EditOp> = Vec::new();
    if text_units == 0 || sel_start == 0 {
        proof {
            assert(edit_steps(ops@) =~= Seq::<EditStep>::empty());
        }
        return ops;
    }
    let cursor: usize = if (sel_start as usize) < text.len() {
        sel_start as usize
    } else {
        text.len()
    };
    let after_space = skip_back_exec(text, cursor, true);
    proof {
        lemma_skip_back_bounds(text@, cursor as int, true);
    }
    let from = skip_back_exec(text, after_space, false);
    proof {
        lemma_skip_back_bounds(text@, after_space as int, false);
        assert(edit_steps(ops@) =~= Seq::<EditStep>::empty());
    }
    replace_ops(from as u32, cursor as u32, String::new(), from as u32, &mut ops);
    proof {
        assert(edit_steps(ops@) =~= spec_delete_word_before(text@, text_units, sel_start));
    }
    ops
}

// ---------------------------------------------------------------------------
// Window messages
// ---------------------------------------------------------------------------

/// `EN_CHANGE`, sent by the edit control when its text changed.
pub const EN_CHANGE: u16 = 0x0300;

/// `BN_CLICKED`.
pub const BN_CLICKED: u16 = 0;

/// `SC_MINIMIZE`.
pub const SC_MINIMIZE: u32 = 0xF020;

/// What a `WM_COMMAND` asks for.
#[derive(Debug, Clone, Copy, PartialEq, Eq, Structural)]
pub enum Command {
    /// Nothing (an edit-control notification, or an unknown command).
    Ignore,
    /// Switch between Han and Eng.
    ToggleMode,
    /// Flip "always on top".
    ToggleAlwaysOnTop,
    /// Flip "start with Windows".
    ToggleStartWithWindows,
    /// Save, clean up and quit.
    Exit,
}

/// The command for a `WM_COMMAND` whose `wParam` holds the control id (low
/// word) and notification (high word); `from_edit` says whether `lParam` is
/// the edit control. The edit control's change notifications are ignored; the
/// buttons act on a click; menu items act directly.
pub open spec fn spec_command_for(wparam: usize, from_edit: bool) -> Command {
    let id = wparam as int % 65536;
    let notif = (wparam as int / 65536) % 65536;
    if notif == EN_CHANGE && from_edit {
        Command::Ignore
    } else if id == IDC_MODE_TOGGLE {
        if notif == BN_CLICKED {
            Command::ToggleMode
        } else {
            Command::Ignore
        }
    } else if id == IDC_ALWAYS_ON_TOP_CHECK {
        if notif == BN_CLICKED {
            Command::ToggleAlwaysOnTop
        } else {
            Command::Ignore
        }
    } else if id == IDM_ALWAYS_ON_TOP {
        Command::ToggleAlwaysOnTop
    } else if id == IDM_START_WITH_WINDOWS {
        Command::ToggleStartWithWindows
    } else if id == IDM_EXIT {
        Command::Exit
    } else {
        Command::Ignore
    }
}

/// Decodes a `WM_COMMAND`.
pub fn command_for(wparam: usize, from_edit: bool) -> (c: Command)
    ensures
        c == spec_command_for(wparam, from_edit),
{
    let id = (wparam % 65536) as u32;
    let notif = ((wparam / 65536) % 65536) as u16;
    if notif == EN_CHANGE && from_edit {
        Command::Ignore
    } else if id == IDC_MODE_TOGGLE {
        if notif == BN_CLICKED {
            Command::ToggleMode
        } else {
            Command::Ignore
        }
    } else if id == IDC_ALWAYS_ON_TOP_CHECK {
        if notif == BN_CLICKED {
            Command::ToggleAlwaysOnTop
        } else {
            Command::Ignore
        }
    } else if id == IDM_ALWAYS_ON_TOP {
        Command::ToggleAlwaysOnTop
    } else if id == IDM_START_WITH_WINDOWS {
        Command::ToggleStartWithWindows
    } else if id == IDM_EXIT {
        Command::Exit
    } else {
        Command::Ignore
    }
}

/// Whether a message taken from the queue is F1 going down, which switches the
/// input mode before the message reaches any window (the key code is the low
/// 32 bits of `wParam`).
pub fn is_mode_toggle_key(msg: u32, wparam: usize) -> (r: bool)
    ensures
        r == (msg == WM_KEYDOWN && wparam as int % 0x1_0000_0000 == VK_F1),
{
    msg == WM_KEYDOWN && (wparam as u64) % 0x1_0000_0000 == VK_F1 as u64
}

/// Whether a `WM_SYSCOMMAND` is "minimize", which hides the window to the tray.
pub fn is_minimize_command(wparam: usize) -> (r: bool)
    ensures
        r == ((wparam as int % 65536) / 16 * 16 == SC_MINIMIZE),
{
    let low = wparam % 65536;
    low / 16 * 16 == SC_MINIMIZE as usize
}

/// The client size in a `WM_SIZE` `lParam`: width in the low word, height in the next.
pub fn client_size(lparam: isize) -> (size: (i32, i32))
    ensures
        size.0 as int == (lparam as int) % 65536,
        size.1 as int == ((lparam as int) / 65536) % 65536,
{
    let w = (lparam % 65536 + 65536) % 65536;
    let q = if lparam >= 0 || lparam % 65536 == 0 {
        lparam / 65536
    } else {
        lparam / 65536 - 1
    };
    let h = (q % 65536 + 65536) % 65536;
    (w as i32, h as i32)
}

} // verus!
