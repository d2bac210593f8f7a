use rpi_control::frame_receiver::{FrameReceiver, ReceiverAction};

fn feed(r: &mut FrameReceiver, bytes: &[u8]) -> Vec<ReceiverAction> {
    bytes.iter().map(|b| r.step(*b)).collect()
}

fn completed(actions: &[ReceiverAction]) -> Vec<[u8; 192]> {
    actions
        .iter()
        .filter_map(|a| match a {
            ReceiverAction::FrameComplete(f) => Some(*f),
            _ => None,
        })
        .collect()
}

#[test]
fn short_frame_is_padded_with_zeros() {
    let mut r = FrameReceiver::new();
    let actions = feed(&mut r, b"#abc?");
    assert!(matches!(actions[0], ReceiverAction::FrameStarted));
    assert!(actions[1..4].iter().all(|a| matches!(a, ReceiverAction::Nothing)));
    let frames = completed(&actions);
    assert_eq!(frames.len(), 1);
    assert_eq!(&frames[0][0..3], b"abc");
    assert!(frames[0][3..].iter().all(|b| *b == 0));
}

#[test]
fn noise_outside_frames_is_ignored() {
    let mut r = FrameReceiver::new();
    let actions = feed(&mut r, b"hello?world");
    assert!(actions.iter().all(|a| matches!(a, ReceiverAction::Nothing)));
    let actions = feed(&mut r, b"#x?");
    let frames = completed(&actions);
    assert_eq!(frames.len(), 1);
    assert_eq!(frames[0][0], b'x');
}

#[test]
fn first_byte_is_data_even_if_end_byte() {
    let mut r = FrameReceiver::new();
    let frames = completed(&feed(&mut r, b"#??"));
    assert_eq!(frames.len(), 1);
    assert_eq!(frames[0][0], b'?');
    assert!(frames[0][1..].iter().all(|b| *b == 0));
}

#[test]
fn start_byte_inside_frame_is_data() {
    let mut r = FrameReceiver::new();
    let frames = completed(&feed(&mut r, b"#a#b?"));
    assert_eq!(&frames[0][0..3], b"a#b");
}

#[test]
fn overlong_frame_keeps_last_byte_in_last_slot() {
    let mut r = FrameReceiver::new();
    let mut bytes = vec![b'#'];
    for k in 0..200u32 {
        bytes.push((k % 50) as u8 + 1);
    }
    bytes.push(b'?');
    let frames = completed(&feed(&mut r, &bytes));
    assert_eq!(frames.len(), 1);
    for k in 0..191 {
        assert_eq!(frames[0][k], (k % 50) as u8 + 1);
    }
    assert_eq!(frames[0][191], (199 % 50) as u8 + 1);
}

#[test]
fn full_frame_fills_every_slot() {
    let mut r = FrameReceiver::new();
    let mut bytes = vec![b'#'];
    bytes.extend(std::iter::repeat(7u8).take(192));
    bytes.push(b'?');
    let frames = completed(&feed(&mut r, &bytes));
    assert!(frames[0].iter().all(|b| *b == 7));
}

#[test]
fn consecutive_frames_start_from_zero() {
    let mut r = FrameReceiver::new();
    let frames = completed(&feed(&mut r, b"#abcdef?#xy?"));
    assert_eq!(frames.len(), 2);
    assert_eq!(&frames[1][0..2], b"xy");
    assert!(frames[1][2..].iter().all(|b| *b == 0));
}
