//! Editing, history and open/close behaviour, driven through the public
//! event handlers exactly as the host would drive them.

use chat_input::keys::KEY_BACKSPACE;
use chat_input::keys::KEY_DOWN;
use chat_input::keys::KEY_END;
use chat_input::keys::KEY_ESCAPE;
use chat_input::keys::KEY_HOME;
use chat_input::keys::KEY_LCTRL;
use chat_input::keys::KEY_LEFT;
use chat_input::keys::KEY_RIGHT;
use chat_input::keys::KEY_SLASH;
use chat_input::keys::KEY_UP;
use chat_input::Chat;
use chat_input::KeyOutcome;

const F5: u32 = 5;
const ENTER: u32 = 91;

fn chars_of(s: &str) -> Vec<char> {
    s.chars().collect()
}

fn text_of(chat: &Chat) -> String {
    chat.get_text().iter().collect()
}

#[test]
fn open_with_slash_inserts_slash() {
    let mut chat = Chat::new(0, ENTER);
    let o = chat.handle_key_down(KEY_SLASH, false);
    assert_eq!(o, KeyOutcome::Render);
    assert_eq!(text_of(&chat), "/");
}

#[test]
fn open_type_send_scenario() {
    // Open with the slash key, type "help", send: the submission lands in
    // the history and the chat closes with an empty buffer.
    let mut chat = Chat::new(0, ENTER);
    chat.handle_key_down(KEY_SLASH, false);
    assert_eq!(text_of(&chat), "/");
    // The host synthesizes a character for the opening keystroke; it is
    // swallowed once.
    assert_eq!(chat.handle_key_press('/'), KeyOutcome::Quiet);
    for c in "help".chars() {
        assert_eq!(chat.handle_key_press(c), KeyOutcome::Refresh);
    }
    assert_eq!(text_of(&chat), "/help");
    let o = chat.handle_key_down(ENTER, false);
    assert_eq!(o, KeyOutcome::Render);
    assert_eq!(text_of(&chat), "");
    // The chat is closed: characters are no longer consumed.
    assert_eq!(chat.handle_key_press('x'), KeyOutcome::Quiet);
    assert_eq!(text_of(&chat), "");
    // The submission is in the history: reopen and navigate up.
    chat.handle_key_down(KEY_SLASH, false);
    chat.handle_key_down(KEY_UP, false);
    assert_eq!(text_of(&chat), "/help");
}

#[test]
fn closed_chat_ignores_characters() {
    let mut chat = Chat::new(F5, ENTER);
    assert_eq!(chat.handle_key_press('x'), KeyOutcome::Quiet);
    assert_eq!(text_of(&chat), "");
}

#[test]
fn dedupe_swallows_exactly_one_character() {
    let mut chat = Chat::new(F5, ENTER);
    chat.handle_key_down(F5, false);
    assert_eq!(chat.handle_key_press('x'), KeyOutcome::Quiet);
    assert_eq!(text_of(&chat), "");
    assert_eq!(chat.handle_key_press('y'), KeyOutcome::Refresh);
    assert_eq!(text_of(&chat), "y");
}

#[test]
fn open_with_enter_key_arms_no_dedupe() {
    let mut chat = Chat::new(ENTER, ENTER);
    chat.handle_key_down(ENTER, false);
    assert_eq!(chat.handle_key_press('a'), KeyOutcome::Refresh);
    assert_eq!(text_of(&chat), "a");
    // While open, the same key now sends.
    chat.handle_key_down(ENTER, false);
    assert_eq!(text_of(&chat), "");
    chat.handle_key_down(ENTER, false);
    chat.handle_key_down(KEY_UP, false);
    assert_eq!(text_of(&chat), "a");
}

#[test]
fn cursor_moves_bound_and_insert_at_cursor() {
    let mut chat = Chat::new(F5, ENTER);
    chat.handle_key_down(F5, false);
    chat.handle_key_press('x');  // swallowed by the dedupe flag
    for c in "abc".chars() {
        chat.handle_key_press(c);
    }
    chat.handle_key_down(KEY_LEFT, false);
    chat.handle_key_press('X');
    assert_eq!(text_of(&chat), "abXc");
    chat.handle_key_down(KEY_HOME, false);
    chat.handle_key_press('Y');
    assert_eq!(text_of(&chat), "YabXc");
    // Left at the start and right at the end stay in bounds.
    chat.handle_key_down(KEY_HOME, false);
    chat.handle_key_down(KEY_LEFT, false);
    chat.handle_key_press('Z');
    assert_eq!(text_of(&chat), "ZYabXc");
    chat.handle_key_down(KEY_END, false);
    chat.handle_key_down(KEY_RIGHT, false);
    chat.handle_key_press('W');
    assert_eq!(text_of(&chat), "ZYabXcW");
}

#[test]
fn backspace_and_delete_edges() {
    let mut chat = Chat::new(F5, ENTER);
    chat.handle_key_down(F5, false);
    chat.handle_key_press('x');  // swallowed
    chat.handle_key_press('a');
    chat.handle_key_press('b');
    assert_eq!(chat.handle_key_down(KEY_BACKSPACE, false), KeyOutcome::Refresh);
    assert_eq!(text_of(&chat), "a");
    chat.handle_key_down(KEY_BACKSPACE, false);
    assert_eq!(text_of(&chat), "");
    // Backspace on an empty buffer is a no-op, not a failure.
    assert_eq!(chat.handle_key_down(KEY_BACKSPACE, false), KeyOutcome::Refresh);
    assert_eq!(text_of(&chat), "");
    chat.handle_key_press('c');
    chat.handle_key_down(KEY_HOME, false);
    let delete = chat_input::keys::KEY_DELETE;
    chat.handle_key_down(delete, false);
    assert_eq!(text_of(&chat), "");
    // Delete at the end of the buffer is a no-op.
    chat.handle_key_down(delete, false);
    assert_eq!(text_of(&chat), "");
}

#[test]
fn ctrl_left_stops_on_space_before_word() {
    let mut chat = Chat::new(F5, ENTER);
    chat.handle_key_down(F5, false);
    chat.handle_key_press('q');  // swallowed by the dedupe flag
    chat.set_text(chars_of("ab cd"));
    chat.handle_key_down(KEY_LCTRL, false);
    chat.handle_key_down(KEY_LEFT, false);
    chat.handle_key_up(KEY_LCTRL);
    chat.handle_key_press('X');
    assert_eq!(text_of(&chat), "abX cd");
}

#[test]
fn ctrl_right_stops_at_next_word_start() {
    let mut chat = Chat::new(F5, ENTER);
    chat.handle_key_down(F5, false);
    chat.handle_key_press('q');  // swallowed by the dedupe flag
    chat.set_text(chars_of("ab cd"));
    chat.handle_key_down(KEY_HOME, false);
    chat.handle_key_down(KEY_LCTRL, false);
    chat.handle_key_down(KEY_RIGHT, false);
    chat.handle_key_up(KEY_LCTRL);
    chat.handle_key_press('X');
    assert_eq!(text_of(&chat), "ab Xcd");
}

#[test]
fn ctrl_backspace_removes_previous_word() {
    let mut chat = Chat::new(F5, ENTER);
    chat.handle_key_down(F5, false);
    chat.set_text(chars_of("ab cd"));
    chat.handle_key_down(KEY_LCTRL, false);
    assert_eq!(chat.handle_key_down(KEY_BACKSPACE, false), KeyOutcome::Refresh);
    chat.handle_key_up(KEY_LCTRL);
    assert_eq!(text_of(&chat), "ab ");
}

#[test]
fn ctrl_up_is_a_no_op_and_ctrl_down_jumps_to_end() {
    let mut chat = Chat::new(F5, ENTER);
    chat.handle_key_down(F5, false);
    chat.handle_key_press('q');  // swallowed by the dedupe flag
    chat.set_text(chars_of("abc"));
    chat.handle_key_down(KEY_HOME, false);
    chat.handle_key_down(KEY_LCTRL, false);
    assert_eq!(chat.handle_key_down(KEY_UP, false), KeyOutcome::Quiet);
    assert_eq!(text_of(&chat), "abc");
    assert_eq!(chat.handle_key_down(KEY_DOWN, false), KeyOutcome::Quiet);
    chat.handle_key_up(KEY_LCTRL);
    chat.handle_key_press('X');
    assert_eq!(text_of(&chat), "abcX");
}

#[test]
fn history_up_down_restores_live_buffer() {
    let mut chat = Chat::new(F5, ENTER);
    chat.handle_key_down(F5, false);
    chat.set_text(chars_of("first"));
    chat.handle_key_down(ENTER, false);
    chat.handle_key_down(F5, false);
    chat.set_text(chars_of("live"));
    assert_eq!(chat.handle_key_down(KEY_UP, false), KeyOutcome::Refresh);
    assert_eq!(text_of(&chat), "first");
    assert_eq!(chat.handle_key_down(KEY_DOWN, false), KeyOutcome::Refresh);
    assert_eq!(text_of(&chat), "live");
}

#[test]
fn history_walks_both_directions() {
    let mut chat = Chat::new(F5, ENTER);
    chat.handle_key_down(F5, false);
    chat.set_text(chars_of("one"));
    chat.handle_key_down(ENTER, false);
    chat.handle_key_down(F5, false);
    chat.set_text(chars_of("two"));
    chat.handle_key_down(ENTER, false);
    chat.handle_key_down(F5, false);
    chat.handle_key_down(KEY_UP, false);
    assert_eq!(text_of(&chat), "two");
    chat.handle_key_down(KEY_UP, false);
    assert_eq!(text_of(&chat), "one");
    // Up past the oldest entry stays there.
    chat.handle_key_down(KEY_UP, false);
    assert_eq!(text_of(&chat), "one");
    chat.handle_key_down(KEY_DOWN, false);
    assert_eq!(text_of(&chat), "two");
    chat.handle_key_down(KEY_DOWN, false);
    assert_eq!(text_of(&chat), "");
}

#[test]
fn down_without_snapshot_clears_buffer() {
    let mut chat = Chat::new(F5, ENTER);
    chat.handle_key_down(F5, false);
    chat.set_text(chars_of("xyz"));
    assert_eq!(chat.handle_key_down(KEY_DOWN, false), KeyOutcome::Refresh);
    assert_eq!(text_of(&chat), "");
}

#[test]
fn escape_cancels_without_history() {
    let mut chat = Chat::new(F5, ENTER);
    chat.handle_key_down(F5, false);
    chat.set_text(chars_of("abc"));
    assert_eq!(chat.handle_key_down(KEY_ESCAPE, false), KeyOutcome::Render);
    assert_eq!(text_of(&chat), "");
    chat.handle_key_down(F5, false);
    chat.handle_key_down(KEY_UP, false);
    assert_eq!(text_of(&chat), "");
}

#[test]
fn send_and_escape_while_closed_are_not_consumed() {
    let mut chat = Chat::new(F5, ENTER);
    assert_eq!(chat.handle_key_down(ENTER, false), KeyOutcome::Quiet);
    assert_eq!(chat.handle_key_down(KEY_ESCAPE, false), KeyOutcome::Quiet);
    // No empty submission was recorded: after reopening, navigating up finds
    // no history entry and leaves the buffer alone.
    chat.handle_key_down(F5, false);
    chat.set_text(chars_of("live"));
    chat.handle_key_down(KEY_UP, false);
    assert_eq!(text_of(&chat), "live");
}

#[test]
fn repeated_open_key_does_not_reopen() {
    // A repeat key-down never triggers the open transition.
    let mut chat = Chat::new(F5, ENTER);
    chat.handle_key_down(F5, true);
    chat.handle_key_press('x');
    assert_eq!(text_of(&chat), "");
}

#[test]
fn key_names_resolve_to_identifiers() {
    assert_eq!(chat_input::keys::get_key_from_input_name("None"), Some(0));
    assert_eq!(chat_input::keys::get_key_from_input_name("Enter"), Some(91));
    assert_eq!(chat_input::keys::get_key_from_input_name("Slash"), Some(122));
    assert_eq!(chat_input::keys::get_key_from_input_name("KeypadEnter"), Some(116));
    assert_eq!(chat_input::keys::get_key_from_input_name("ControlLeft"), Some(38));
    assert_eq!(chat_input::keys::get_key_from_input_name("NoSuchKey"), None);
}
