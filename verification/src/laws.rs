//! Global properties of the transition model, each proved once and for all
//! inputs: cursor bounds under every event, word-navigation bounds and round
//! trips, the history round trip, and the cyclicity of hint cycling.

use vstd::prelude::*;

use crate::chat::lemma_key_down_wf;
use crate::chat::lemma_key_press_wf;
use crate::chat::lemma_handle_key_wf;
use crate::chat::lemma_word_left_pos_bounds;
use crate::chat::lemma_word_right_pos_bounds;
use crate::chat::spec_handle_key;
use crate::chat::spec_held_update;
use crate::chat::spec_key_down;
use crate::chat::spec_key_press;
use crate::chat::word_left_pos;
use crate::chat::word_right_pos;
use crate::chat::ChatModel;
use crate::keys::KEY_DOWN;
use crate::keys::KEY_TAB;
use crate::keys::KEY_UP;

verus! {

/// Every event transition keeps the engine well formed. In particular,
/// across any sequence of inserts and deletions at valid cursor positions —
/// and any other key, character or modifier events — the cursor stays within
/// `0 ..= text.len()`.
pub proof fn lemma_events_keep_cursor_in_bounds(m: ChatModel, key: u32, repeat: bool, ch: char)
    requires
        m.wf(),
    ensures
        spec_key_down(m, key, repeat).0.wf(),
        spec_key_press(m, ch).0.wf(),
        spec_held_update(m, key, false).wf(),
        0 <= spec_key_down(m, key, repeat).0.cursor <= spec_key_down(m, key, repeat).0.text.len(),
        0 <= spec_key_press(m, ch).0.cursor <= spec_key_press(m, ch).0.text.len(),
{
    lemma_key_down_wf(m, key, repeat);
    lemma_key_press_wf(m, ch);
}

/// The word-boundary scans land inside the buffer from every position.
pub proof fn lemma_word_nav_in_bounds(s: Seq<char>, p: int)
    requires
        0 <= p <= s.len(),
    ensures
        0 <= word_left_pos(s, p, false) <= p,
        p <= word_right_pos(s, p, false) <= s.len(),
{
    lemma_word_left_pos_bounds(s, p, false);
    lemma_word_right_pos_bounds(s, p, false);
}

/// A control-left scan over non-spaces only runs to the buffer start.
proof fn lemma_word_left_no_space(s: Seq<char>, cur: int, found: bool)
    requires
        0 <= cur <= s.len(),
        forall|i: int| 0 <= i < cur ==> s[i] != ' ',
    ensures
        word_left_pos(s, cur, found) == 0,
    decreases cur,
{
    if cur > 0 {
        lemma_word_left_no_space(s, cur - 1, found || s[cur - 1] != ' ');
    }
}

/// When no space precedes a non-space in the prefix (at most one word stands
/// before the cursor), the control-left scan reaches the buffer start.
proof fn lemma_word_left_single_word(s: Seq<char>, cur: int)
    requires
        0 <= cur <= s.len(),
        forall|i: int, j: int| 0 <= i < j < cur && s[i] == ' ' ==> s[j] == ' ',
    ensures
        word_left_pos(s, cur, false) == 0,
    decreases cur,
{
    if cur > 0 {
        let c = s[cur - 1];
        if c == ' ' {
            lemma_word_left_single_word(s, cur - 1);
        } else {
            assert forall|i: int| 0 <= i < cur - 1 implies s[i] != ' ' by {
                if s[i] == ' ' {
                    assert(s[cur - 1] == ' ');
                }
            }
            lemma_word_left_no_space(s, cur - 1, true);
        }
    }
}

/// A control-right scan does not stop before `p` while the text up to `p`
/// still follows the word-then-spaces pattern it started in.
proof fn lemma_word_right_reaches(s: Seq<char>, cur: int, p: int, found: bool)
    requires
        0 <= cur <= p <= s.len(),
        forall|i: int, j: int| cur <= i < j < p && s[i] == ' ' ==> s[j] == ' ',
        found ==> forall|i: int| cur <= i < p ==> s[i] == ' ',
    ensures
        word_right_pos(s, cur, found) >= p,
    decreases p - cur,
{
    if cur < p {
        let c = s[cur];
        assert(!(c != ' ' && found));
        assert forall|i: int| cur + 1 <= i < p && (found || c == ' ') implies s[i] == ' ' by {
            if !found && c == ' ' {
                assert(s[cur] == ' ');
            }
        }
        lemma_word_right_reaches(s, cur + 1, p, found || c == ' ');
    } else {
        lemma_word_right_pos_bounds(s, cur, found);
    }
}

/// Word-navigation round trip: from a position with at most one word before
/// it (no space precedes a non-space in the prefix), control-left followed by
/// control-right lands at or beyond the starting position. From positions
/// inside a later word the pair can land further left — for the buffer
/// `"ab cd"` with the cursor after the `d`, it lands at the start of `cd` —
/// but by `lemma_word_nav_in_bounds` it never leaves the buffer.
pub proof fn lemma_word_round_trip(s: Seq<char>, p: int)
    requires
        0 <= p <= s.len(),
        forall|i: int, j: int| 0 <= i < j < p && s[i] == ' ' ==> s[j] == ' ',
    ensures
        word_right_pos(s, word_left_pos(s, p, false), false) >= p,
{
    lemma_word_left_single_word(s, p);
    lemma_word_right_reaches(s, 0, p, false);
}

/// History round trip: from the live buffer (no navigation in progress, no
/// control held), pressing Up and then Down restores the buffer exactly and
/// returns navigation to the live position — also when the history is empty.
pub proof fn lemma_history_round_trip(m: ChatModel)
    requires
        m.wf(),
        m.history_pos == 0,
        !m.ctrl_held(),
    ensures
        ({
            let m1 = spec_handle_key(m, KEY_UP).0;
            let m2 = spec_handle_key(m1, KEY_DOWN).0;
            m2.text == m.text && m2.history_pos == 0
        }),
{
}

/// The hint state after `k` Tab presses.
pub open spec fn tab_times(m: ChatModel, k: nat) -> ChatModel
    decreases k,
{
    if k == 0 {
        m
    } else {
        spec_handle_key(tab_times(m, (k - 1) as nat), KEY_TAB).0
    }
}

/// One Tab press without shift advances the hint index by one, wrapping, and
/// leaves the hint set and the modifiers unchanged.
proof fn lemma_tab_step(m: ChatModel)
    requires
        m.wf(),
        m.hints is Some,
        !m.shift_held(),
    ensures
        ({
            let m1 = spec_handle_key(m, KEY_TAB).0;
            &&& m1.wf()
            &&& m1.hints == m.hints
            &&& m1.lshift == m.lshift
            &&& m1.rshift == m.rshift
            &&& m1.hint_pos == (if m.hint_pos + 1 < m.hint_count() {
                m.hint_pos + 1
            } else {
                0
            })
        }),
{
    lemma_handle_key_wf(m, KEY_TAB);
}

/// After `k <= N` Tab presses the hint index has advanced by `k`, wrapping
/// around the candidate count `N` at most once.
proof fn lemma_tab_times_pos(m: ChatModel, k: nat)
    requires
        m.wf(),
        m.hints is Some,
        !m.shift_held(),
        k <= m.hint_count(),
    ensures
        ({
            let mk = tab_times(m, k);
            &&& mk.wf()
            &&& mk.hints == m.hints
            &&& mk.lshift == m.lshift
            &&& mk.rshift == m.rshift
            &&& mk.hint_pos == (if m.hint_pos + k < m.hint_count() {
                m.hint_pos + k
            } else {
                m.hint_pos + k - m.hint_count()
            })
        }),
    decreases k,
{
    if k > 0 {
        lemma_tab_times_pos(m, (k - 1) as nat);
        lemma_tab_step(tab_times(m, (k - 1) as nat));
    }
}

/// Hint cycling is cyclic: pressing Tab exactly as many times as there are
/// candidates returns the hint index to its starting value.
pub proof fn lemma_tab_cycles(m: ChatModel)
    requires
        m.wf(),
        m.hints is Some,
        !m.shift_held(),
    ensures
        tab_times(m, m.hint_count() as nat).hint_pos == m.hint_pos,
{
    lemma_tab_times_pos(m, m.hint_count() as nat);
}

} // verus!
