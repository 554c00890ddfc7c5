use cucumber::runner::log_frames::{push_frame_suffix, read_log_frames, FrameError};

#[test]
fn frames_name_their_scenario() {
    let (frames, err) = read_log_frames("hello__42__cucumber__scenarioworld__unknown__cucumber__scenario");
    assert_eq!(err, None);
    assert_eq!(frames, vec![(Some(42), "hello".to_string()), (None, "world".to_string())]);
}

#[test]
fn frame_errors_stop_reading() {
    let (frames, err) = read_log_frames("a__1__cucumber__scenariob__unknownx__cucumber__scenarioc__2__cucumber__scenario");
    assert_eq!(frames, vec![(Some(1), "a".to_string())]);
    assert_eq!(err, Some(FrameError::WrongSeparator));

    let (frames, err) = read_log_frames("no marker__cucumber__scenario");
    assert!(frames.is_empty());
    assert_eq!(err, Some(FrameError::MissingSeparator));

    let (frames, err) = read_log_frames("x__y__cucumber__scenario");
    assert!(frames.is_empty());
    assert_eq!(err, Some(FrameError::InvalidId));

    let (frames, err) = read_log_frames("x__99999999999999999999__cucumber__scenario");
    assert!(frames.is_empty());
    assert_eq!(err, Some(FrameError::InvalidId));
}

#[test]
fn the_last_marker_counts_and_an_empty_text_has_no_frame() {
    let (frames, err) = read_log_frames("a__b__+7__cucumber__scenario");
    assert_eq!(err, None);
    assert_eq!(frames, vec![(Some(7), "a__b".to_string())]);
    let (frames, err) = read_log_frames("");
    assert!(frames.is_empty());
    assert_eq!(err, None);
    let (frames, err) = read_log_frames("unterminated__3");
    assert_eq!(frames, vec![(Some(3), "unterminated".to_string())]);
    assert_eq!(err, None);
}

#[test]
fn written_frames_read_back_in_order() {
    let messages: Vec<(Option<u64>, String)> = vec![
        (Some(42), "first_ message".to_string()),
        (None, "no scenario __unknown here".to_string()),
        (Some(0), String::new()),
        (Some(u64::MAX), "ünïcödé_".to_string()),
    ];
    let mut text = String::new();
    for (id, msg) in &messages {
        text.push_str(msg);
        push_frame_suffix(&mut text, *id);
    }
    assert!(text.starts_with("first_ message__42__cucumber__scenario"));
    let (frames, err) = read_log_frames(&text);
    assert_eq!(err, None);
    assert_eq!(frames, messages);
}
