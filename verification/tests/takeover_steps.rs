use image_style_studio::takeover::{takeover_step, TakeoverAction, TakeoverEvent, TakeoverState};

fn is_state(s: &TakeoverState, expected: &str) -> bool {
    match s {
        TakeoverState::Start => expected == "start",
        TakeoverState::Probing(i) => expected == format!("probing {i}"),
        TakeoverState::Done => expected == "done",
    }
}

fn action_text(a: &TakeoverAction) -> String {
    match a {
        TakeoverAction::Skip => "skip".to_string(),
        TakeoverAction::ProbeCandidate(i) => format!("probe {i}"),
        TakeoverAction::CopyDb(i) => format!("copy {i}"),
        TakeoverAction::CopyImagesThenMark(i) => format!("images {i}"),
        TakeoverAction::Mark => "mark".to_string(),
    }
}

#[test]
fn existing_marker_or_database_skips() {
    let (s, a) = takeover_step(TakeoverState::Start, TakeoverEvent::Found { marker: true, target_db: false }, 3);
    assert!(is_state(&s, "done"));
    assert_eq!(action_text(&a), "skip");
    let (s, a) = takeover_step(TakeoverState::Start, TakeoverEvent::Found { marker: false, target_db: true }, 3);
    assert!(is_state(&s, "done"));
    assert_eq!(action_text(&a), "skip");
}

#[test]
fn candidates_are_tried_in_order_until_a_copy_succeeds() {
    let (s, a) = takeover_step(TakeoverState::Start, TakeoverEvent::Found { marker: false, target_db: false }, 3);
    assert!(is_state(&s, "probing 0"));
    assert_eq!(action_text(&a), "probe 0");
    let (s, a) = takeover_step(s, TakeoverEvent::LegacyDb(false), 3);
    assert!(is_state(&s, "probing 1"));
    assert_eq!(action_text(&a), "probe 1");
    let (s, a) = takeover_step(s, TakeoverEvent::LegacyDb(true), 3);
    assert!(is_state(&s, "probing 1"));
    assert_eq!(action_text(&a), "copy 1");
    let (s, a) = takeover_step(s, TakeoverEvent::Copied(false), 3);
    assert!(is_state(&s, "probing 2"));
    assert_eq!(action_text(&a), "probe 2");
    let (s, a) = takeover_step(s, TakeoverEvent::LegacyDb(true), 3);
    assert_eq!(action_text(&a), "copy 2");
    let (s, a) = takeover_step(s, TakeoverEvent::Copied(true), 3);
    assert!(is_state(&s, "done"));
    assert_eq!(action_text(&a), "images 2");
    let (s, a) = takeover_step(s, TakeoverEvent::LegacyDb(true), 3);
    assert!(is_state(&s, "done"));
    assert_eq!(action_text(&a), "skip");
}

#[test]
fn marker_is_written_when_no_candidate_has_data() {
    let (s, _) = takeover_step(TakeoverState::Start, TakeoverEvent::Found { marker: false, target_db: false }, 1);
    let (s, a) = takeover_step(s, TakeoverEvent::LegacyDb(false), 1);
    assert!(is_state(&s, "done"));
    assert_eq!(action_text(&a), "mark");
    let (s, a) = takeover_step(TakeoverState::Start, TakeoverEvent::Found { marker: false, target_db: false }, 0);
    assert!(is_state(&s, "done"));
    assert_eq!(action_text(&a), "mark");
}
