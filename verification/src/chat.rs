//! The editor state machine: buffer and cursor editing, history navigation,
//! word-boundary movement, hint cycling, and the open/close protocol.
//!
//! Every mutating method is specified against [`ChatModel`], a mathematical
//! image of the whole engine state, so each event's effect is pinned exactly.

use vstd::prelude::*;

use crate::keys::KEY_BACKSPACE;
use crate::keys::KEY_DELETE;
use crate::keys::KEY_DOWN;
use crate::keys::KEY_END;
use crate::keys::KEY_ENTER;
use crate::keys::KEY_ESCAPE;
use crate::keys::KEY_HOME;
use crate::keys::KEY_KP_ENTER;
use crate::keys::KEY_LCTRL;
use crate::keys::KEY_LEFT;
use crate::keys::KEY_LSHIFT;
use crate::keys::KEY_RCTRL;
use crate::keys::KEY_RIGHT;
use crate::keys::KEY_RSHIFT;
use crate::keys::KEY_SLASH;
use crate::keys::KEY_TAB;
use crate::keys::KEY_UP;

verus! {

/// Mathematical image of the engine state: sequences in place of vectors,
/// unbounded integers in place of machine integers.
#[verifier::ext_equal]
pub ghost struct ChatModel {
    /// Whether the chat input is open (consuming characters).
    pub is_open: bool,
    /// The buffer being edited, as a sequence of code points.
    pub text: Seq<char>,
    /// Insertion point; always within `0 ..= text.len()`.
    pub cursor: int,
    /// One-shot suppression of the character the host synthesizes from the
    /// keystroke that opened the chat.
    pub dedupe_open_key: bool,
    /// Previously submitted buffers, oldest first.
    pub history: Seq<Seq<char>>,
    /// 0 = live buffer; N > 0 = showing the N-th most recent history entry.
    pub history_pos: int,
    /// Snapshot of the live buffer taken when navigation leaves position 0.
    pub history_restore: Option<Seq<char>>,
    /// The query of the last successful search, kept for rendering.
    pub search: Option<Seq<char>>,
    /// Candidates of the last successful search: match offset and text.
    pub hints: Option<Seq<(usize, Seq<char>)>>,
    /// Index of the currently displayed candidate.
    pub hint_pos: int,
    /// Held modifiers.
    pub lctrl: bool,
    pub rctrl: bool,
    pub lshift: bool,
    pub rshift: bool,
    /// Configured key that opens the chat (0 when unbound).
    pub open_chat_key: u32,
    /// Configured key that sends the chat (0 when unbound).
    pub send_chat_key: u32,
}

impl ChatModel {
    /// Structural invariant of the engine: the cursor stays inside the
    /// buffer, history navigation stays inside the history, and the hint
    /// index stays inside the candidate list (and is 0 when there are no
    /// hints, with a query recorded whenever hints exist).
    pub open spec fn wf(self) -> bool {
        &&& 0 <= self.cursor <= self.text.len()
        &&& 0 <= self.history_pos <= self.history.len()
        &&& match self.hints {
            Some(h) => 0 <= self.hint_pos < h.len() && self.search is Some,
            None => self.hint_pos == 0,
        }
    }

    /// Either control key is held.
    pub open spec fn ctrl_held(self) -> bool {
        self.lctrl || self.rctrl
    }

    /// Either shift key is held.
    pub open spec fn shift_held(self) -> bool {
        self.lshift || self.rshift
    }

    /// How many hint candidates are present (0 when hints are absent).
    pub open spec fn hint_count(self) -> int {
        match self.hints {
            Some(h) => h.len() as int,
            None => 0,
        }
    }
}

/// View of a history vector: the sequence of its buffers' contents.
pub open spec fn texts_view(h: Seq<Vec<char>>) -> Seq<Seq<char>> {
    h.map_values(|v: Vec<char>| v@)
}

/// View of a candidate vector: offsets kept, texts abstracted to sequences.
pub open spec fn cands_view(h: Seq<(usize, Vec<char>)>) -> Seq<(usize, Seq<char>)> {
    h.map_values(|p: (usize, Vec<char>)| (p.0, p.1@))
}

/// The chat input and autocomplete engine.
pub struct Chat {
    pub(crate) is_open: bool,
    pub(crate) text: Vec<char>,
    pub(crate) cursor_pos: usize,
    pub(crate) dedupe_open_key: bool,
    pub(crate) history: Vec<Vec<char>>,
    pub(crate) history_pos: usize,
    pub(crate) history_restore: Option<Vec<char>>,
    pub(crate) search: Option<Vec<char>>,
    pub(crate) hints: Option<Vec<(usize, Vec<char>)>>,
    pub(crate) hint_pos: usize,
    pub(crate) lctrl_held: bool,
    pub(crate) rctrl_held: bool,
    pub(crate) lshift_held: bool,
    pub(crate) rshift_held: bool,
    pub(crate) open_chat_key: u32,
    pub(crate) send_chat_key: u32,
}

impl View for Chat {
    type V = ChatModel;

    open(crate) spec fn view(&self) -> ChatModel {
        ChatModel {
            is_open: self.is_open,
            text: self.text@,
            cursor: self.cursor_pos as int,
            dedupe_open_key: self.dedupe_open_key,
            history: texts_view(self.history@),
            history_pos: self.history_pos as int,
            history_restore: match self.history_restore {
                Some(v) => Some(v@),
                None => None,
            },
            search: match self.search {
                Some(v) => Some(v@),
                None => None,
            },
            hints: match self.hints {
                Some(h) => Some(cands_view(h@)),
                None => None,
            },
            hint_pos: self.hint_pos as int,
            lctrl: self.lctrl_held,
            rctrl: self.rctrl_held,
            lshift: self.lshift_held,
            rshift: self.rshift_held,
            open_chat_key: self.open_chat_key,
            send_chat_key: self.send_chat_key,
        }
    }
}

/// Copies a character vector.
pub fn clone_chars(v: &Vec<char>) -> (r: Vec<char>)
    ensures
        r@ == v@,
{
    let mut r: Vec<char> = Vec::new();
    proof {
        assert(r@ =~= v@.subrange(0, 0));
    }
    let mut i: usize = 0;
    while i < v.len()
        invariant
            i <= v@.len(),
            r@ == v@.subrange(0, i as int),
        decreases v@.len() - i,
    {
        r.push(v[i]);
        i = i + 1;
        proof {
            assert(r@ =~= v@.subrange(0, i as int));
        }
    }
    proof {
        assert(r@ =~= v@);
    }
    r
}

impl Chat {
    /// A fresh, closed engine bound to the configured open and send keys
    /// (0 for an unbound key).
    pub fn new(open_chat_key: u32, send_chat_key: u32) -> (c: Chat)
        ensures
            c@ == spec_new(open_chat_key, send_chat_key),
            c@.wf(),
    {
        let c = Chat {
            is_open: false,
            text: Vec::new(),
            cursor_pos: 0,
            dedupe_open_key: false,
            history: Vec::new(),
            history_pos: 0,
            history_restore: None,
            search: None,
            hints: None,
            hint_pos: 0,
            lctrl_held: false,
            rctrl_held: false,
            lshift_held: false,
            rshift_held: false,
            open_chat_key,
            send_chat_key,
        };
        proof {
            assert(c@ =~~= spec_new(open_chat_key, send_chat_key));
        }
        c
    }

    /// The buffer content.
    pub fn get_text(&self) -> (r: Vec<char>)
        ensures
            r@ == self@.text,
    {
        clone_chars(&self.text)
    }

    /// Replaces the whole buffer and moves the cursor to its end. The host
    /// layer replicates the replacement to the host's own display.
    pub fn set_text(&mut self, text: Vec<char>)
        ensures
            final(self)@ == spec_set_text(old(self)@, text@),
    {
        self.cursor_pos = text.len();
        self.text = text;
        proof {
            assert(self@ =~~= spec_set_text(old(self)@, self.text@));
        }
    }
}

/// The state of a fresh engine.
pub open spec fn spec_new(open_chat_key: u32, send_chat_key: u32) -> ChatModel {
    ChatModel {
        is_open: false,
        text: Seq::empty(),
        cursor: 0,
        dedupe_open_key: false,
        history: Seq::empty(),
        history_pos: 0,
        history_restore: None,
        search: None,
        hints: None,
        hint_pos: 0,
        lctrl: false,
        rctrl: false,
        lshift: false,
        rshift: false,
        open_chat_key,
        send_chat_key,
    }
}

/// Effect of a bulk buffer replacement.
pub open spec fn spec_set_text(m: ChatModel, t: Seq<char>) -> ChatModel {
    ChatModel { text: t, cursor: t.len() as int, ..m }
}

/// Where a control-left scan from `cur` stops: it walks left over trailing
/// spaces, then over the previous word, and stops one position past the
/// space before that word (or at the start of the buffer).
pub open spec fn word_left_pos(s: Seq<char>, cur: int, found_non_space: bool) -> int
    decreases cur,
{
    if cur <= 0 {
        0
    } else {
        let c = s[cur - 1];
        if c == ' ' && found_non_space {
            cur - 1
        } else {
            word_left_pos(s, cur - 1, found_non_space || c != ' ')
        }
    }
}

/// Where a control-right scan from `cur` stops: it walks right over the rest
/// of the current word, then over the following spaces, and stops at the
/// first character of the next word (or at the end of the buffer).
pub open spec fn word_right_pos(s: Seq<char>, cur: int, found_space: bool) -> int
    decreases s.len() - cur,
{
    if cur >= s.len() {
        s.len() as int
    } else {
        let c = s[cur];
        if c != ' ' && found_space {
            cur
        } else {
            word_right_pos(s, cur + 1, found_space || c == ' ')
        }
    }
}

/// Where a control-backspace scan from `cur` stops: like the control-left
/// scan, but it keeps the space before the removed word, so it stops one
/// position later.
pub open spec fn word_backspace_pos(s: Seq<char>, cur: int, found_non_space: bool) -> int
    decreases cur,
{
    if cur <= 0 {
        0
    } else {
        let c = s[cur - 1];
        if c == ' ' && found_non_space {
            cur
        } else {
            word_backspace_pos(s, cur - 1, found_non_space || c != ' ')
        }
    }
}

/// The control-left scan never leaves the prefix it started in.
pub proof fn lemma_word_left_pos_bounds(s: Seq<char>, cur: int, found: bool)
    requires
        0 <= cur <= s.len(),
    ensures
        0 <= word_left_pos(s, cur, found) <= cur,
    decreases cur,
{
    if cur > 0 {
        let c = s[cur - 1];
        if !(c == ' ' && found) {
            lemma_word_left_pos_bounds(s, cur - 1, found || c != ' ');
        }
    }
}

/// The control-right scan never leaves the suffix it started in.
pub proof fn lemma_word_right_pos_bounds(s: Seq<char>, cur: int, found: bool)
    requires
        0 <= cur <= s.len(),
    ensures
        cur <= word_right_pos(s, cur, found) <= s.len(),
    decreases s.len() - cur,
{
    if cur < s.len() {
        let c = s[cur];
        if !(c != ' ' && found) {
            lemma_word_right_pos_bounds(s, cur + 1, found || c == ' ');
        }
    }
}

/// The control-backspace scan never leaves the prefix it started in.
pub proof fn lemma_word_backspace_pos_bounds(s: Seq<char>, cur: int, found: bool)
    requires
        0 <= cur <= s.len(),
    ensures
        0 <= word_backspace_pos(s, cur, found) <= cur,
    decreases cur,
{
    if cur > 0 {
        let c = s[cur - 1];
        if !(c == ' ' && found) {
            lemma_word_backspace_pos_bounds(s, cur - 1, found || c != ' ');
        }
    }
}

/// Runs the control-left scan.
fn scan_word_left(text: &Vec<char>, start: usize) -> (r: usize)
    requires
        start <= text@.len(),
    ensures
        r == word_left_pos(text@, start as int, false),
        r <= start,
{
    let mut cur = start;
    let mut found = false;
    loop
        invariant
            cur <= start <= text@.len(),
            word_left_pos(text@, start as int, false) == word_left_pos(text@, cur as int, found),
        decreases cur,
    {
        if cur == 0 {
            return 0;
        }
        let c = text[cur - 1];
        cur = cur - 1;
        if c == ' ' && found {
            return cur;
        }
        if c != ' ' {
            found = true;
        }
    }
}

/// Runs the control-right scan.
fn scan_word_right(text: &Vec<char>, start: usize) -> (r: usize)
    requires
        start <= text@.len(),
    ensures
        r == word_right_pos(text@, start as int, false),
        start <= r <= text@.len(),
{
    let mut cur = start;
    let mut found = false;
    loop
        invariant
            start <= cur <= text@.len(),
            word_right_pos(text@, start as int, false) == word_right_pos(text@, cur as int, found),
        decreases text@.len() - cur,
    {
        if cur == text.len() {
            return cur;
        }
        let c = text[cur];
        if c != ' ' && found {
            return cur;
        }
        if c == ' ' {
            found = true;
        }
        cur = cur + 1;
    }
}

/// Runs the control-backspace scan, removing each scanned character.
fn remove_word_before(text: &mut Vec<char>, start: usize) -> (r: usize)
    requires
        start <= old(text)@.len(),
    ensures
        r == word_backspace_pos(old(text)@, start as int, false),
        r <= start,
        final(text)@ == old(text)@.subrange(0, r as int) + old(text)@.subrange(
            start as int,
            old(text)@.len() as int,
        ),
{
    let ghost s = old(text)@;
    let mut cur = start;
    let mut found = false;
    proof {
        assert(text@ =~= s.subrange(0, cur as int) + s.subrange(start as int, s.len() as int));
    }
    loop
        invariant
            s == old(text)@,
            cur <= start <= s.len(),
            text@ == s.subrange(0, cur as int) + s.subrange(start as int, s.len() as int),
            word_backspace_pos(s, start as int, false) == word_backspace_pos(s, cur as int, found),
        decreases cur,
    {
        if cur == 0 {
            return 0;
        }
        let c = text[cur - 1];
        if c == ' ' && found {
            return cur;
        }
        if c != ' ' {
            found = true;
        }
        text.remove(cur - 1);
        cur = cur - 1;
        proof {
            assert(text@ =~= s.subrange(0, cur as int) + s.subrange(start as int, s.len() as int));
        }
    }
}

/// What the host must do after an event is handled.
#[derive(Clone, Copy, Debug, PartialEq, Eq, Structural)]
pub enum KeyOutcome {
    /// No outside effect.
    Quiet,
    /// The buffer changed: run a fresh hint search, then re-render.
    Refresh,
    /// The buffer was replaced from the hint set: replicate it to the host
    /// display, then re-render the existing hints.
    Cycled,
    /// Re-render the existing hints only.
    Render,
}

/// Effect of the left arrow: word-wise with control held, else one step.
pub open spec fn spec_move_left(m: ChatModel) -> ChatModel {
    if m.ctrl_held() {
        ChatModel { cursor: word_left_pos(m.text, m.cursor, false), ..m }
    } else if m.cursor > 0 {
        ChatModel { cursor: m.cursor - 1, ..m }
    } else {
        m
    }
}

/// Effect of the right arrow: word-wise with control held, else one step.
pub open spec fn spec_move_right(m: ChatModel) -> ChatModel {
    if m.ctrl_held() {
        ChatModel { cursor: word_right_pos(m.text, m.cursor, false), ..m }
    } else if m.cursor < m.text.len() {
        ChatModel { cursor: m.cursor + 1, ..m }
    } else {
        m
    }
}

/// Effect of backspace: with control held, removes the previous word
/// (keeping the space before it); else removes one character.
pub open spec fn spec_backspace(m: ChatModel) -> ChatModel {
    if m.ctrl_held() {
        let q = word_backspace_pos(m.text, m.cursor, false);
        ChatModel {
            text: m.text.subrange(0, q) + m.text.subrange(m.cursor, m.text.len() as int),
            cursor: q,
            ..m
        }
    } else if m.cursor > 0 {
        ChatModel { text: m.text.remove(m.cursor - 1), cursor: m.cursor - 1, ..m }
    } else {
        m
    }
}

/// Effect of delete: removes the character at the cursor, if any.
pub open spec fn spec_delete(m: ChatModel) -> ChatModel {
    if m.cursor < m.text.len() {
        ChatModel { text: m.text.remove(m.cursor), ..m }
    } else {
        m
    }
}

/// Effect of the up arrow without control: snapshot the live buffer when
/// navigation starts, then show the next older history entry, if any.
pub open spec fn spec_history_up(m: ChatModel) -> ChatModel {
    let m1 = if m.history_pos == 0 {
        ChatModel { history_restore: Some(m.text), ..m }
    } else {
        m
    };
    if m1.history_pos < m1.history.len() {
        let t = m1.history[m1.history.len() - m1.history_pos - 1];
        ChatModel { history_pos: m1.history_pos + 1, text: t, cursor: t.len() as int, ..m1 }
    } else {
        m1
    }
}

/// Effect of the down arrow without control: show the next more recent
/// entry; at position 1, return to the snapshot; at position 0, restore the
/// snapshot if present, else clear. The cursor always moves to the end.
pub open spec fn spec_history_down(m: ChatModel) -> ChatModel {
    let t = if m.history_pos > 1 {
        m.history[m.history.len() - (m.history_pos - 1)]
    } else if m.history_pos == 1 {
        match m.history_restore {
            Some(r) => r,
            None => m.text,
        }
    } else {
        match m.history_restore {
            Some(r) => r,
            None => Seq::empty(),
        }
    };
    let p = if m.history_pos > 0 {
        m.history_pos - 1
    } else {
        0
    };
    ChatModel { history_pos: p, text: t, cursor: t.len() as int, ..m }
}

/// Effect of tab while hints exist: advance the hint index (backward with
/// shift held), wrapping around, then replace the buffer with the candidate
/// one position behind the new index (also wrapping).
pub open spec fn spec_tab(m: ChatModel) -> ChatModel {
    match m.hints {
        None => m,
        Some(h) => {
            let n = h.len() as int;
            let new_pos = if m.shift_held() {
                if m.hint_pos > 0 {
                    m.hint_pos - 1
                } else {
                    n - 1
                }
            } else {
                if m.hint_pos + 1 < n {
                    m.hint_pos + 1
                } else {
                    0
                }
            };
            let show = if new_pos >= 1 {
                new_pos - 1
            } else {
                n - 1
            };
            let t = h[show].1;
            ChatModel { hint_pos: new_pos, text: t, cursor: t.len() as int, ..m }
        },
    }
}

/// Effect of a key while the chat is open: one editing transition, plus what
/// the host must do afterwards.
pub open spec fn spec_handle_key(m: ChatModel, key: u32) -> (ChatModel, KeyOutcome) {
    if key == KEY_LEFT {
        (spec_move_left(m), KeyOutcome::Quiet)
    } else if key == KEY_RIGHT {
        (spec_move_right(m), KeyOutcome::Quiet)
    } else if key == KEY_BACKSPACE {
        (spec_backspace(m), KeyOutcome::Refresh)
    } else if key == KEY_DELETE {
        (spec_delete(m), KeyOutcome::Refresh)
    } else if key == KEY_HOME {
        (ChatModel { cursor: 0, ..m }, KeyOutcome::Quiet)
    } else if key == KEY_END {
        (ChatModel { cursor: m.text.len() as int, ..m }, KeyOutcome::Quiet)
    } else if key == KEY_UP {
        if m.ctrl_held() {
            (m, KeyOutcome::Quiet)
        } else {
            (spec_history_up(m), KeyOutcome::Refresh)
        }
    } else if key == KEY_DOWN {
        if m.ctrl_held() {
            (ChatModel { cursor: m.text.len() as int, ..m }, KeyOutcome::Quiet)
        } else {
            (spec_history_down(m), KeyOutcome::Refresh)
        }
    } else if key == KEY_TAB {
        (
            spec_tab(m),
            if m.hints is Some {
                KeyOutcome::Cycled
            } else {
                KeyOutcome::Render
            },
        )
    } else {
        (m, KeyOutcome::Quiet)
    }
}

/// Effect of a key on the held-modifier record.
pub open spec fn spec_held_update(m: ChatModel, key: u32, down: bool) -> ChatModel {
    if key == KEY_LCTRL {
        ChatModel { lctrl: down, ..m }
    } else if key == KEY_RCTRL {
        ChatModel { rctrl: down, ..m }
    } else if key == KEY_LSHIFT {
        ChatModel { lshift: down, ..m }
    } else if key == KEY_RSHIFT {
        ChatModel { rshift: down, ..m }
    } else {
        m
    }
}

/// Effect of the open transition: reset the buffer, navigation and hints;
/// insert a slash when the slash key opened the chat; arm the one-shot
/// character suppression unless the opener was the enter key.
pub open spec fn spec_open_chat(m: ChatModel, key: u32) -> ChatModel {
    let base = ChatModel {
        is_open: true,
        text: Seq::empty(),
        cursor: 0,
        history_pos: 0,
        history_restore: None,
        hints: None,
        hint_pos: 0,
        ..m
    };
    let with_slash = if key == KEY_SLASH {
        ChatModel { text: seq!['/'], cursor: 1, ..base }
    } else {
        base
    };
    if key != KEY_ENTER {
        ChatModel { dedupe_open_key: true, ..with_slash }
    } else {
        with_slash
    }
}

/// Effect of the close transition: append the buffer to the history when the
/// chat was sent (not cancelled), then reset.
pub open spec fn spec_close_chat(m: ChatModel, push_history: bool) -> ChatModel {
    let h = if push_history {
        m.history.push(m.text)
    } else {
        m.history
    };
    ChatModel {
        is_open: false,
        text: Seq::empty(),
        cursor: 0,
        history: h,
        history_pos: 0,
        history_restore: None,
        hints: None,
        hint_pos: 0,
        ..m
    }
}

/// Effect of a key-down event: a non-repeat key may open the chat while it
/// is closed, or submit or cancel it while it is open (consuming the event
/// either way), or update the held modifiers; while open, the key is then
/// dispatched to the editing transitions.
pub open spec fn spec_key_down(m: ChatModel, key: u32, repeat: bool) -> (ChatModel, KeyOutcome) {
    if !repeat && !m.is_open && (key == m.open_chat_key || key == KEY_SLASH) {
        (spec_open_chat(m, key), KeyOutcome::Render)
    } else if !repeat && m.is_open && (key == m.send_chat_key || key == KEY_KP_ENTER || key
        == KEY_ESCAPE) {
        (spec_close_chat(m, key == m.send_chat_key || key == KEY_KP_ENTER), KeyOutcome::Render)
    } else {
        let m1 = if !repeat {
            spec_held_update(m, key, true)
        } else {
            m
        };
        if m1.is_open {
            spec_handle_key(m1, key)
        } else {
            (m1, KeyOutcome::Quiet)
        }
    }
}

/// Effect of a character-press event: consumed only while open; the first
/// character after an armed open-key suppression is swallowed; otherwise the
/// character is inserted at the cursor.
pub open spec fn spec_key_press(m: ChatModel, ch: char) -> (ChatModel, KeyOutcome) {
    if !m.is_open {
        (m, KeyOutcome::Quiet)
    } else if m.dedupe_open_key {
        (ChatModel { dedupe_open_key: false, ..m }, KeyOutcome::Quiet)
    } else {
        (
            ChatModel { text: m.text.insert(m.cursor, ch), cursor: m.cursor + 1, ..m },
            KeyOutcome::Refresh,
        )
    }
}

/// Appending a buffer to a history keeps the views aligned.
pub proof fn lemma_texts_view_push(s: Seq<Vec<char>>, v: Vec<char>)
    ensures
        texts_view(s.push(v)) == texts_view(s).push(v@),
{
    assert(texts_view(s.push(v)) =~= texts_view(s).push(v@));
}

/// Every editing transition preserves the structural invariant.
pub proof fn lemma_handle_key_wf(m: ChatModel, key: u32)
    requires
        m.wf(),
    ensures
        spec_handle_key(m, key).0.wf(),
{
    if key == KEY_LEFT && m.ctrl_held() {
        lemma_word_left_pos_bounds(m.text, m.cursor, false);
    }
    if key == KEY_RIGHT && m.ctrl_held() {
        lemma_word_right_pos_bounds(m.text, m.cursor, false);
    }
    if key == KEY_BACKSPACE && m.ctrl_held() {
        lemma_word_backspace_pos_bounds(m.text, m.cursor, false);
    }
}

/// Every key-down transition preserves the structural invariant.
pub proof fn lemma_key_down_wf(m: ChatModel, key: u32, repeat: bool)
    requires
        m.wf(),
    ensures
        spec_key_down(m, key, repeat).0.wf(),
{
    if !(!repeat && !m.is_open && (key == m.open_chat_key || key == KEY_SLASH)) && !(!repeat
        && m.is_open && (key == m.send_chat_key || key == KEY_KP_ENTER || key == KEY_ESCAPE)) {
        let m1 = if !repeat {
            spec_held_update(m, key, true)
        } else {
            m
        };
        lemma_handle_key_wf(m1, key);
    }
}

/// Every character-press transition preserves the structural invariant.
pub proof fn lemma_key_press_wf(m: ChatModel, ch: char)
    requires
        m.wf(),
    ensures
        spec_key_press(m, ch).0.wf(),
{
}

impl Chat {
    /// Either control key is held.
    fn is_ctrl_held(&self) -> (r: bool)
        ensures
            r == self@.ctrl_held(),
    {
        self.lctrl_held || self.rctrl_held
    }

    /// Either shift key is held.
    fn is_shift_held(&self) -> (r: bool)
        ensures
            r == self@.shift_held(),
    {
        self.lshift_held || self.rshift_held
    }

    /// Records a modifier key going down or up; other keys are ignored.
    fn handle_held_keys(&mut self, key: u32, down: bool)
        ensures
            final(self)@ == spec_held_update(old(self)@, key, down),
    {
        if key == KEY_LCTRL {
            self.lctrl_held = down;
        } else if key == KEY_RCTRL {
            self.rctrl_held = down;
        } else if key == KEY_LSHIFT {
            self.lshift_held = down;
        } else if key == KEY_RSHIFT {
            self.rshift_held = down;
        }
    }

    /// Inserts one character at the cursor and steps the cursor past it.
    fn handle_char_insert(&mut self, chr: char)
        requires
            old(self)@.wf(),
            old(self)@.text.len() < usize::MAX,
        ensures
            final(self)@ == (ChatModel {
                text: old(self)@.text.insert(old(self)@.cursor, chr),
                cursor: old(self)@.cursor + 1,
                ..old(self)@
            }),
            final(self)@.wf(),
    {
        self.text.insert(self.cursor_pos, chr);
        self.cursor_pos = self.cursor_pos + 1;
    }

    /// Dispatches one key to the editing transitions while the chat is open.
    #[verifier::rlimit(100)]
    #[verifier::spinoff_prover]
    fn handle_key(&mut self, key: u32) -> (o: KeyOutcome)
        requires
            old(self)@.wf(),
        ensures
            final(self)@ == spec_handle_key(old(self)@, key).0,
            o == spec_handle_key(old(self)@, key).1,
            final(self)@.wf(),
    {
        proof {
            lemma_handle_key_wf(old(self)@, key);
        }
        if key == KEY_LEFT {
            if self.is_ctrl_held() {
                self.cursor_pos = scan_word_left(&self.text, self.cursor_pos);
            } else if self.cursor_pos > 0 {
                self.cursor_pos = self.cursor_pos - 1;
            }
            KeyOutcome::Quiet
        } else if key == KEY_RIGHT {
            if self.is_ctrl_held() {
                self.cursor_pos = scan_word_right(&self.text, self.cursor_pos);
            } else if self.cursor_pos < self.text.len() {
                self.cursor_pos = self.cursor_pos + 1;
            }
            KeyOutcome::Quiet
        } else if key == KEY_BACKSPACE {
            if self.is_ctrl_held() {
                self.cursor_pos = remove_word_before(&mut self.text, self.cursor_pos);
                proof {
                    assert(self@ =~~= spec_backspace(old(self)@));
                }
            } else if self.cursor_pos > 0 {
                self.text.remove(self.cursor_pos - 1);
                self.cursor_pos = self.cursor_pos - 1;
            }
            KeyOutcome::Refresh
        } else if key == KEY_DELETE {
            if self.cursor_pos < self.text.len() {
                self.text.remove(self.cursor_pos);
            }
            KeyOutcome::Refresh
        } else if key == KEY_HOME {
            self.cursor_pos = 0;
            KeyOutcome::Quiet
        } else if key == KEY_END {
            self.cursor_pos = self.text.len();
            KeyOutcome::Quiet
        } else if key == KEY_UP {
            if self.is_ctrl_held() {
                return KeyOutcome::Quiet;
            }
            if self.history_pos == 0 {
                self.history_restore = Some(clone_chars(&self.text));
            }
            if self.history_pos < self.history.len() {
                self.history_pos = self.history_pos + 1;
                let idx = self.history.len() - self.history_pos;
                self.text = clone_chars(&self.history[idx]);
                self.cursor_pos = self.text.len();
            }
            proof {
                assert(self@ =~~= spec_history_up(old(self)@));
            }
            KeyOutcome::Refresh
        } else if key == KEY_DOWN {
            if self.is_ctrl_held() {
                self.cursor_pos = self.text.len();
                return KeyOutcome::Quiet;
            }
            if self.history_pos > 1 {
                self.history_pos = self.history_pos - 1;
                let idx = self.history.len() - self.history_pos;
                self.text = clone_chars(&self.history[idx]);
            } else if self.history_pos == 1 {
                self.history_pos = 0;
                match &self.history_restore {
                    Some(r) => {
                        self.text = clone_chars(r);
                    },
                    None => {},
                }
            } else {
                match &self.history_restore {
                    Some(r) => {
                        self.text = clone_chars(r);
                    },
                    None => {
                        self.text.clear();
                    },
                }
            }
            self.cursor_pos = self.text.len();
            proof {
                assert(self@ =~~= spec_history_down(old(self)@));
            }
            KeyOutcome::Refresh
        } else if key == KEY_TAB {
            let hints_len: usize = match &self.hints {
                Some(h) => h.len(),
                None => 0,
            };
            if hints_len > 0 {
                if self.is_shift_held() {
                    if self.hint_pos > 0 {
                        self.hint_pos = self.hint_pos - 1;
                    } else {
                        self.hint_pos = hints_len - 1;
                    }
                } else {
                    if self.hint_pos + 1 < hints_len {
                        self.hint_pos = self.hint_pos + 1;
                    } else {
                        self.hint_pos = 0;
                    }
                }
                let show_pos: usize = if self.hint_pos >= 1 {
                    self.hint_pos - 1
                } else {
                    hints_len - 1
                };
                let sentence: Vec<char> = match &self.hints {
                    Some(h) => clone_chars(&h[show_pos].1),
                    None => Vec::new(),
                };
                self.set_text(sentence);
                proof {
                    assert(self@ =~~= spec_tab(old(self)@));
                }
                KeyOutcome::Cycled
            } else {
                // A present hint set is never empty, so there are no hints.
                proof {
                    assert(self@.hints is None);
                }
                KeyOutcome::Render
            }
        } else {
            KeyOutcome::Quiet
        }
    }

    /// Handles one key-down event from the host. A non-repeat key may open
    /// the chat while it is closed, submit or cancel it while it is open, or
    /// update the held modifiers; while open, the key is then dispatched to
    /// the editing handlers.
    pub fn handle_key_down(&mut self, key: u32, repeat: bool) -> (o: KeyOutcome)
        requires
            old(self)@.wf(),
        ensures
            final(self)@ == spec_key_down(old(self)@, key, repeat).0,
            o == spec_key_down(old(self)@, key, repeat).1,
            final(self)@.wf(),
    {
        proof {
            lemma_key_down_wf(old(self)@, key, repeat);
        }
        if !repeat {
            if !self.is_open && (key == self.open_chat_key || key == KEY_SLASH) {
                self.is_open = true;
                self.text.clear();
                self.cursor_pos = 0;
                self.history_pos = 0;
                self.history_restore = None;
                self.hints = None;
                self.hint_pos = 0;
                if key == KEY_SLASH {
                    self.handle_char_insert('/');
                }
                if key != KEY_ENTER {
                    self.dedupe_open_key = true;
                }
                proof {
                    assert(self@ =~~= spec_open_chat(old(self)@, key));
                }
                return KeyOutcome::Render;
            }
            let send_success = key == self.send_chat_key || key == KEY_KP_ENTER;
            if self.is_open && (send_success || key == KEY_ESCAPE) {
                if send_success {
                    let snapshot = clone_chars(&self.text);
                    proof {
                        lemma_texts_view_push(self.history@, snapshot);
                    }
                    self.history.push(snapshot);
                }
                self.is_open = false;
                self.text.clear();
                self.cursor_pos = 0;
                self.history_pos = 0;
                self.history_restore = None;
                self.hints = None;
                self.hint_pos = 0;
                proof {
                    assert(self@ =~~= spec_close_chat(old(self)@, key == old(self)@.send_chat_key
                        || key == KEY_KP_ENTER));
                }
                return KeyOutcome::Render;
            }
            self.handle_held_keys(key, true);
        }
        if self.is_open {
            let o = self.handle_key(key);
            return o;
        }
        KeyOutcome::Quiet
    }

    /// Handles one key-up event from the host: releases a held modifier.
    pub fn handle_key_up(&mut self, key: u32)
        requires
            old(self)@.wf(),
        ensures
            final(self)@ == spec_held_update(old(self)@, key, false),
            final(self)@.wf(),
    {
        self.handle_held_keys(key, false);
    }

    /// Handles one character-press event from the host. The buffer must be
    /// below the address-space limit, so that the insertion can step the
    /// cursor without overflow.
    pub fn handle_key_press(&mut self, ch: char) -> (o: KeyOutcome)
        requires
            old(self)@.wf(),
            old(self)@.text.len() < usize::MAX,
        ensures
            final(self)@ == spec_key_press(old(self)@, ch).0,
            o == spec_key_press(old(self)@, ch).1,
            final(self)@.wf(),
    {
        proof {
            lemma_key_press_wf(old(self)@, ch);
        }
        if !self.is_open {
            return KeyOutcome::Quiet;
        }
        if self.dedupe_open_key {
            self.dedupe_open_key = false;
            return KeyOutcome::Quiet;
        }
        self.handle_char_insert(ch);
        KeyOutcome::Refresh
    }
}

} // verus!
