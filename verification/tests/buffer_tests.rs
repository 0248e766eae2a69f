use audio_engine::buffer::SharedBuffer;

#[test]
fn samples_come_out_in_fifo_order() {
    let mut buf = SharedBuffer::new();
    buf.push_samples(&[1, 2, 3]);
    buf.push_samples(&[4, 5]);
    assert_eq!(buf.len(), 5);
    assert_eq!(buf.render(3), vec![1, 2, 3]);
    assert_eq!(buf.render(2), vec![4, 5]);
    assert!(buf.is_empty());
}

#[test]
fn interleaved_pushes_and_renders_preserve_order() {
    let mut buf = SharedBuffer::new();
    buf.push_samples(&[10, 20]);
    assert_eq!(buf.render(1), vec![10]);
    buf.push_samples(&[30]);
    assert_eq!(buf.render(2), vec![20, 30]);
}

#[test]
fn underrun_degrades_to_silence() {
    let mut buf = SharedBuffer::new();
    buf.push_samples(&[7, 8]);
    assert_eq!(buf.render(5), vec![7, 8, 0, 0, 0]);
    assert_eq!(buf.render(2), vec![0, 0]);
}

#[test]
fn paused_buffer_renders_silence_and_keeps_samples() {
    let mut buf = SharedBuffer::new();
    buf.push_samples(&[5, 6, 7]);
    buf.pause();
    assert!(buf.is_paused());
    assert_eq!(buf.render(3), vec![0, 0, 0]);
    assert_eq!(buf.len(), 3);
    buf.resume();
    assert!(!buf.is_paused());
    assert_eq!(buf.render(3), vec![5, 6, 7]);
}

#[test]
fn clear_discards_samples_but_not_the_pause_flag() {
    let mut buf = SharedBuffer::new();
    buf.push_samples(&[1, 2]);
    buf.pause();
    buf.clear();
    assert!(buf.is_empty());
    assert!(buf.is_paused());
}

#[test]
fn render_zero_yields_nothing() {
    let mut buf = SharedBuffer::new();
    buf.push_samples(&[9]);
    assert_eq!(buf.render(0), Vec::<i16>::new());
    assert_eq!(buf.len(), 1);
}
