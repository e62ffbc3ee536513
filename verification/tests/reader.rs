use ledcat::select::{ExitCondition, Reader};

#[test]
fn whole_frames_come_out_in_completion_order() {
    // Two inputs, three-byte frames: the second input completes first.
    let mut r = Reader::from(2, 3, ExitCondition::AllClosed, None);
    r.begin_pass();
    assert!(!r.on_data(0, &vec![10, 11]));
    assert!(r.on_data(1, &vec![20, 21, 22]));
    assert!(r.has_winner());
    assert_eq!(vec![20, 21, 22], r.take_frame());
    r.begin_pass();
    assert_eq!(1, r.capacity_remaining(0));
    assert!(r.on_data(0, &vec![12]));
    assert_eq!(vec![10, 11, 12], r.take_frame());
}

#[test]
fn conservation_two_frames_then_eof() {
    // Six bytes in, no partial tails: exactly two frames out, and with
    // every input closed the reader reports the end of the stream.
    let mut r = Reader::from(2, 3, ExitCondition::AllClosed, None);
    let mut frames = 0;
    r.begin_pass();
    if r.on_data(0, &vec![1, 2, 3]) {
        r.take_frame();
        frames += 1;
    }
    r.begin_pass();
    if r.on_data(1, &vec![4, 5, 6]) {
        r.take_frame();
        frames += 1;
    }
    assert_eq!(2, frames);
    r.begin_pass();
    r.on_closed();
    r.on_closed();
    assert!(r.should_close());
}

#[test]
fn never_exit_condition_never_closes() {
    let mut r = Reader::from(2, 3, ExitCondition::Never, None);
    r.begin_pass();
    r.on_closed();
    r.on_closed();
    assert!(!r.should_close());
}

#[test]
fn one_closed_exits_without_winner() {
    let mut r = Reader::from(2, 3, ExitCondition::OneClosed, None);
    r.begin_pass();
    r.on_closed();
    assert!(r.should_close());

    // With a frame ready in the same pass, the frame wins.
    let mut r = Reader::from(2, 3, ExitCondition::OneClosed, None);
    r.begin_pass();
    r.on_closed();
    assert!(r.on_data(1, &vec![1, 2, 3]));
    assert!(!r.should_close());
}

#[test]
fn timeout_discards_partial_frames() {
    let mut r = Reader::from(1, 4, ExitCondition::AllClosed, Some(100));
    r.begin_pass();
    assert!(!r.on_data(0, &vec![1, 2, 3]));
    assert_eq!(1, r.capacity_remaining(0));
    r.on_timeout();
    assert_eq!(4, r.capacity_remaining(0));
    r.begin_pass();
    assert!(r.on_data(0, &vec![9, 9, 9, 9]));
    assert_eq!(vec![9, 9, 9, 9], r.take_frame());
}

#[test]
fn retry_wait_follows_clear_timeout() {
    let r = Reader::from(1, 1, ExitCondition::AllClosed, Some(250));
    assert_eq!(250, r.retry_wait_ms());
    let r = Reader::from(1, 1, ExitCondition::AllClosed, None);
    assert_eq!(10, r.retry_wait_ms());
}
