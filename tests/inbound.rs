use mgindb::inbound::{Frame, ReadAction, Reader};

fn read_all(frames: Vec<Frame>) -> Vec<String> {
    let mut out = Vec::new();
    let mut reader = Reader::new();
    for f in frames {
        match reader.on_frame(f) {
            ReadAction::Forward(t) => out.push(t),
            ReadAction::Skip => {}
            ReadAction::Stop => {}
        }
    }
    out
}

#[test]
fn text_frame_is_forwarded_unchanged() {
    assert_eq!(
        Reader::new().on_frame(Frame::Text("OK".to_string())),
        ReadAction::Forward("OK".to_string())
    );
}

#[test]
fn other_frame_is_skipped() {
    assert_eq!(Reader::new().on_frame(Frame::Other), ReadAction::Skip);
}

#[test]
fn failed_read_stops_reader() {
    assert_eq!(Reader::new().on_frame(Frame::Failed), ReadAction::Stop);
}

#[test]
fn frames_arrive_in_receipt_order() {
    let frames: Vec<Frame> = (0..5).map(|i| Frame::Text(format!("r{}", i))).collect();
    assert_eq!(read_all(frames), vec!["r0", "r1", "r2", "r3", "r4"]);
}

#[test]
fn non_text_frames_do_not_disturb_order() {
    let frames = vec![
        Frame::Text("a".to_string()),
        Frame::Other,
        Frame::Text("b".to_string()),
        Frame::Other,
        Frame::Text("c".to_string()),
    ];
    assert_eq!(read_all(frames), vec!["a", "b", "c"]);
}

#[test]
fn nothing_after_read_error_is_forwarded() {
    let frames = vec![
        Frame::Text("a".to_string()),
        Frame::Failed,
        Frame::Text("b".to_string()),
    ];
    assert_eq!(read_all(frames), vec!["a"]);
}

#[test]
fn reader_stays_stopped_after_read_error() {
    let mut reader = Reader::new();
    assert_eq!(reader.on_frame(Frame::Failed), ReadAction::Stop);
    assert!(reader.stopped);
    assert_eq!(reader.on_frame(Frame::Text("late".to_string())), ReadAction::Stop);
    assert_eq!(reader.on_frame(Frame::Other), ReadAction::Stop);
}
