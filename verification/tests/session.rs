use romoto::resize::resize_escape;
use romoto::session::{requested_size, GuestInput, PtySize, SharedState, BUFFER_LIMIT};

fn size(cols: u16, rows: u16) -> PtySize {
    PtySize { rows, cols, pixel_width: 0, pixel_height: 0 }
}

#[test]
fn a_session_starts_empty() {
    let s = SharedState::new();
    assert_eq!(s.replay(), None);
    assert_eq!(s.last_size, size(80, 24));
}

#[test]
fn output_is_replayed() {
    let mut s = SharedState::new();
    s.record_output(b"one ");
    s.record_output(b"");
    s.record_output(b"two");
    assert_eq!(s.replay(), Some(b"one two".to_vec()));
}

#[test]
fn only_the_latest_output_is_kept() {
    let mut s = SharedState::new();
    s.record_output(&vec![1u8; BUFFER_LIMIT]);
    assert_eq!(s.buffer.len(), 65536);
    s.record_output(&[2, 3]);
    assert_eq!(s.buffer.len(), 65536);
    assert_eq!(s.buffer[65533..], [1, 2, 3]);
    s.record_output(&vec![4u8; 70000]);
    assert_eq!(s.buffer, vec![4u8; 65536]);
}

#[test]
fn pieces_make_no_difference() {
    let data: Vec<u8> = (0..100_000u32).map(|i| i as u8).collect();
    let mut whole = SharedState::new();
    whole.record_output(&data);
    let mut pieces = SharedState::new();
    for chunk in data.chunks(777) {
        pieces.record_output(chunk);
    }
    assert_eq!(whole.buffer, pieces.buffer);
    assert_eq!(whole.buffer, data[100_000 - 65536..].to_vec());
}

#[test]
fn a_restart_forgets_output_and_keeps_the_size() {
    let mut s = SharedState::new();
    s.record_output(b"old run");
    s.client_resize(size(100, 30), true);
    let restart = s.restart();
    assert_eq!(restart.size, size(100, 30));
    assert_eq!(restart.broadcast, b"\x1b[2J\x1b[H".to_vec());
    assert_eq!(s.last_size, size(100, 30));
    assert_eq!(s.replay(), None);
    s.record_output(b"new run");
    assert_eq!(s.replay(), Some(b"new run".to_vec()));
}

#[test]
fn sizes_keep_their_low_bits() {
    assert_eq!(requested_size(120, 40), size(120, 40));
    assert_eq!(requested_size(65535, 65536), size(65535, 0));
    assert_eq!(requested_size(4294967295, 65537), size(65535, 1));
}

#[test]
fn only_applied_sizes_of_clients_are_remembered() {
    let mut s = SharedState::new();
    s.client_resize(size(1, 1), false);
    assert_eq!(s.last_size, size(80, 24));
    s.client_resize(size(1, 1), true);
    assert_eq!(s.last_size, size(1, 1));
}

#[test]
fn guest_input_sets_the_size() {
    let mut s = SharedState::new();
    s.record_output(b"x");
    match s.guest_input(&resize_escape(120, 40)) {
        GuestInput::Resize(to) => assert_eq!(to, size(120, 40)),
        GuestInput::Keys(_) => panic!("taken for keys"),
    }
    assert_eq!(s.last_size, size(120, 40));
    assert_eq!(s.replay(), Some(b"x".to_vec()));
}

#[test]
fn guest_input_passes_keys() {
    let mut s = SharedState::new();
    for data in [&b"ls\r"[..], &b""[..], &b"\x1b]romoto;resize;65536;1\x07"[..], &b"\xff\x00"[..]] {
        match s.guest_input(data) {
            GuestInput::Keys(keys) => assert_eq!(keys, data.to_vec()),
            GuestInput::Resize(_) => panic!("taken for a size"),
        }
    }
    assert_eq!(s.last_size, size(80, 24));
}

#[test]
fn direct_and_relayed_sizes_agree() {
    let mut s = SharedState::new();
    for (cols, rows) in [(0, 0), (80, 24), (65535, 65535)] {
        match s.guest_input(&resize_escape(cols, rows)) {
            GuestInput::Resize(to) => assert_eq!(to, requested_size(cols, rows)),
            GuestInput::Keys(_) => panic!("taken for keys"),
        }
    }
}
