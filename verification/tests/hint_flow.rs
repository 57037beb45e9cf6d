//! Hint search, filtering, rendering and cycling, driven as the host drives
//! them: begin a refresh, hand over the provider's results, render.

use chat_input::keys::KEY_LSHIFT;
use chat_input::keys::KEY_TAB;
use chat_input::Chat;
use chat_input::KeyOutcome;
use chat_input::RenderOutcome;

const OPEN: u32 = 5;
const SEND: u32 = 91;

fn cv(s: &str) -> Vec<char> {
    s.chars().collect()
}

fn sv(v: &[char]) -> String {
    v.iter().collect()
}

fn status_of(chat: &Chat) -> String {
    match chat.render_hints() {
        RenderOutcome::Status(s) => sv(&s),
        RenderOutcome::OffsetMismatch { stored, found } => {
            panic!("unexpected offset mismatch: {} vs {:?}", stored, found)
        },
    }
}

#[test]
fn short_trimmed_input_asks_for_no_search() {
    let mut chat = Chat::new(OPEN, SEND);
    chat.set_text(cv(" a"));
    assert!(chat.begin_update_hints().is_none());
    chat.set_text(cv("   "));
    assert!(chat.begin_update_hints().is_none());
    chat.set_text(cv(""));
    assert!(chat.begin_update_hints().is_none());
    chat.set_text(cv("ab"));
    assert_eq!(chat.begin_update_hints().map(|q| sv(&q)), Some("ab".to_string()));
    chat.set_text(cv("  kill sound  "));
    assert_eq!(chat.begin_update_hints().map(|q| sv(&q)), Some("kill sound".to_string()));
}

#[test]
fn render_highlights_query_within_candidate() {
    let mut chat = Chat::new(OPEN, SEND);
    chat.set_text(cv("kill"));
    let q = chat.begin_update_hints().unwrap();
    chat.finish_update_hints(q, vec![(0, cv("kill sound one")), (0, cv("kill sound two"))]);
    assert_eq!(status_of(&chat), "kill&7 sound one");
}

#[test]
fn render_with_left_context_mutes_both_sides() {
    let mut chat = Chat::new(OPEN, SEND);
    chat.set_text(cv("kill"));
    let q = chat.begin_update_hints().unwrap();
    chat.finish_update_hints(q, vec![(4, cv("say kill now"))]);
    assert_eq!(status_of(&chat), "&7say &fkill&7 now");
}

#[test]
fn render_fully_matched_candidate_plainly() {
    let mut chat = Chat::new(OPEN, SEND);
    chat.set_text(cv("kill"));
    let q = chat.begin_update_hints().unwrap();
    chat.finish_update_hints(q, vec![(0, cv("kill"))]);
    assert_eq!(status_of(&chat), "kill");
}

#[test]
fn render_shifts_long_display_without_left_context() {
    let mut chat = Chat::new(OPEN, SEND);
    chat.set_text(cv("abcd"));
    let q = chat.begin_update_hints().unwrap();
    let tail: String = std::iter::repeat('x').take(70).collect();
    let candidate = format!("abcd{}", tail);
    chat.finish_update_hints(q, vec![(0, cv(&candidate))]);
    // Composed display "abcd&7xxx..." has 76 characters, over the 64-wide
    // status line, so the first (query length - 2) characters are dropped.
    assert_eq!(status_of(&chat), format!("cd&7{}", tail));
}

#[test]
fn render_with_left_context_is_never_shifted() {
    let mut chat = Chat::new(OPEN, SEND);
    chat.set_text(cv("abcd"));
    let q = chat.begin_update_hints().unwrap();
    let tail: String = std::iter::repeat('x').take(70).collect();
    let candidate = format!("Zabcd{}", tail);
    chat.finish_update_hints(q, vec![(1, cv(&candidate))]);
    // Over the display limit, but the left context keeps the window as is.
    assert_eq!(status_of(&chat), format!("&7Z&fabcd&7{}", tail));
}

#[test]
fn begin_update_hints_clears_previous_hints() {
    let mut chat = Chat::new(OPEN, SEND);
    chat.set_text(cv("kill"));
    let q = chat.begin_update_hints().unwrap();
    chat.finish_update_hints(q, vec![(0, cv("kill sound one"))]);
    assert_eq!(status_of(&chat), "kill&7 sound one");
    chat.set_text(cv(" a"));
    assert!(chat.begin_update_hints().is_none());
    assert_eq!(status_of(&chat), "");
}

#[test]
fn render_reports_wrong_stored_offset() {
    let mut chat = Chat::new(OPEN, SEND);
    chat.set_text(cv("kill"));
    let q = chat.begin_update_hints().unwrap();
    chat.finish_update_hints(q, vec![(3, cv("kill sound one"))]);
    match chat.render_hints() {
        RenderOutcome::OffsetMismatch { stored, found } => {
            assert_eq!(stored, 3);
            assert_eq!(found, Some(0));
        },
        RenderOutcome::Status(s) => panic!("expected a diagnostic, got status {:?}", sv(&s)),
    }
}

#[test]
fn render_reports_query_absent_from_candidate() {
    let mut chat = Chat::new(OPEN, SEND);
    chat.set_text(cv("kill"));
    let q = chat.begin_update_hints().unwrap();
    chat.finish_update_hints(q, vec![(2, cv("zzz zzz zzz"))]);
    match chat.render_hints() {
        RenderOutcome::OffsetMismatch { stored, found } => {
            assert_eq!(stored, 2);
            assert_eq!(found, None);
        },
        RenderOutcome::Status(s) => panic!("expected a diagnostic, got status {:?}", sv(&s)),
    }
}

#[test]
fn overlong_candidates_are_dropped() {
    let mut chat = Chat::new(OPEN, SEND);
    chat.set_text(cv("kill"));
    let q = chat.begin_update_hints().unwrap();
    let tail: String = std::iter::repeat('x').take(188).collect();
    let too_long = format!("kill {}", tail);
    let kept = format!("kill{}", tail);
    assert_eq!(too_long.len(), 193);
    assert_eq!(kept.len(), 192);
    chat.finish_update_hints(q, vec![(0, cv(&too_long)), (0, cv(&kept))]);
    // Only the 192-character candidate survives; its display is shifted left
    // by (query length - 2).
    assert_eq!(status_of(&chat), format!("ll&7{}", tail));
}

#[test]
fn no_surviving_candidate_leaves_hints_absent() {
    let mut chat = Chat::new(OPEN, SEND);
    chat.set_text(cv("kill"));
    let q = chat.begin_update_hints().unwrap();
    let too_long: String = std::iter::repeat('k').take(200).collect();
    chat.finish_update_hints(q, vec![(0, cv(&too_long))]);
    assert_eq!(status_of(&chat), "");
}

#[test]
fn empty_results_render_empty_status() {
    let mut chat = Chat::new(OPEN, SEND);
    chat.set_text(cv("kill"));
    let q = chat.begin_update_hints().unwrap();
    chat.finish_update_hints(q, vec![]);
    assert_eq!(status_of(&chat), "");
}

#[test]
fn tab_twice_with_two_candidates_returns_to_displayed_candidate() {
    let mut chat = Chat::new(OPEN, SEND);
    chat.handle_key_down(OPEN, false);
    chat.set_text(cv("kill"));
    let q = chat.begin_update_hints().unwrap();
    chat.finish_update_hints(q, vec![(0, cv("kill sound one")), (0, cv("kill sound two"))]);
    let before = status_of(&chat);
    assert_eq!(chat.handle_key_down(KEY_TAB, false), KeyOutcome::Cycled);
    // The buffer is replaced with the candidate one behind the new index.
    assert_eq!(sv(&chat.get_text()), "kill sound one");
    assert_eq!(status_of(&chat), "kill&7 sound two");
    assert_eq!(chat.handle_key_down(KEY_TAB, false), KeyOutcome::Cycled);
    assert_eq!(sv(&chat.get_text()), "kill sound two");
    assert_eq!(status_of(&chat), before);
}

#[test]
fn shift_tab_cycles_backward() {
    let mut chat = Chat::new(OPEN, SEND);
    chat.handle_key_down(OPEN, false);
    chat.set_text(cv("kill"));
    let q = chat.begin_update_hints().unwrap();
    chat.finish_update_hints(
        q,
        vec![(0, cv("kill one")), (0, cv("kill two")), (0, cv("kill three"))],
    );
    chat.handle_key_down(KEY_LSHIFT, false);
    assert_eq!(chat.handle_key_down(KEY_TAB, false), KeyOutcome::Cycled);
    chat.handle_key_up(KEY_LSHIFT);
    // Backward from index 0 wraps to index 2 and shows the candidate before
    // it, index 1.
    assert_eq!(sv(&chat.get_text()), "kill two");
    assert_eq!(status_of(&chat), "kill&7 three");
}

#[test]
fn tab_without_hints_only_rerenders() {
    let mut chat = Chat::new(OPEN, SEND);
    chat.handle_key_down(OPEN, false);
    assert_eq!(chat.handle_key_down(KEY_TAB, false), KeyOutcome::Render);
    assert_eq!(sv(&chat.get_text()), "");
}

#[test]
fn buffer_edits_signal_a_hint_refresh() {
    let mut chat = Chat::new(OPEN, SEND);
    chat.handle_key_down(OPEN, false);
    chat.handle_key_press('x');  // swallowed by the dedupe flag
    assert_eq!(chat.handle_key_press('a'), KeyOutcome::Refresh);
    assert_eq!(chat.handle_key_down(chat_input::keys::KEY_BACKSPACE, false), KeyOutcome::Refresh);
    // Pure cursor movement asks for nothing.
    assert_eq!(chat.handle_key_down(chat_input::keys::KEY_LEFT, false), KeyOutcome::Quiet);
    assert_eq!(chat.handle_key_down(chat_input::keys::KEY_END, false), KeyOutcome::Quiet);
}
