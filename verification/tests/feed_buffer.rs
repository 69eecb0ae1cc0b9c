use phantom::daemon::feed_buffer::{BufferSizes, FeedBuffer};

#[test]
fn push_and_trim() {
    let mut buf = FeedBuffer::new(5);
    buf.push("test", &[1.0, 2.0, 3.0, 4.0, 5.0, 6.0, 7.0]);
    assert_eq!(buf.len("test"), 5);
    let snap = buf.snapshot("test").unwrap();
    assert_eq!(snap, vec![3.0, 4.0, 5.0, 6.0, 7.0]);
}

#[test]
fn incremental_push() {
    let mut buf = FeedBuffer::new(4);
    buf.push("a", &[1.0, 2.0]);
    buf.push("a", &[3.0, 4.0]);
    assert_eq!(buf.len("a"), 4);
    buf.push("a", &[5.0]);
    assert_eq!(buf.len("a"), 4);
    assert_eq!(buf.snapshot("a").unwrap(), vec![2.0, 3.0, 4.0, 5.0]);
}

#[test]
fn unknown_feed_returns_none() {
    let buf: FeedBuffer<f64> = FeedBuffer::new(10);
    assert!(buf.get("nope").is_none());
    assert_eq!(buf.len("nope"), 0);
}

#[test]
fn push_leaves_other_feeds_alone() {
    let mut buf = FeedBuffer::new(3);
    buf.push("weather", &[60.0, 61.0]);
    buf.push("price", &[1.0, 2.0, 3.0, 4.0]);
    assert_eq!(buf.snapshot("weather").unwrap(), vec![60.0, 61.0]);
    assert_eq!(buf.snapshot("price").unwrap(), vec![2.0, 3.0, 4.0]);
    assert_eq!(buf.get("price").unwrap().len(), 3);
}

#[test]
fn batches_give_same_window_as_one_push() {
    let mut split = FeedBuffer::new(4);
    split.push("s", &[1u64, 2, 3]);
    split.push("s", &[4, 5, 6]);
    let mut whole = FeedBuffer::new(4);
    whole.push("s", &[1u64, 2, 3, 4, 5, 6]);
    assert_eq!(split.snapshot("s"), whole.snapshot("s"));
    assert_eq!(whole.snapshot("s").unwrap(), vec![3, 4, 5, 6]);
}

#[test]
fn empty_push_creates_empty_series() {
    let mut buf: FeedBuffer<f64> = FeedBuffer::new(4);
    buf.push("fresh", &[]);
    assert_eq!(buf.snapshot("fresh"), Some(vec![]));
    assert!(buf.get("fresh").is_some());
    assert_eq!(buf.len("fresh"), 0);
}

#[test]
fn zero_capacity_keeps_nothing() {
    let mut buf = FeedBuffer::new(0);
    buf.push("x", &[1.0, 2.0]);
    assert_eq!(buf.len("x"), 0);
    assert_eq!(buf.snapshot("x"), Some(vec![]));
}

#[test]
fn default_buffer_holds_a_thousand() {
    let mut buf: FeedBuffer<u32> = FeedBuffer::default();
    let values: Vec<u32> = (0..1500).collect();
    buf.push("p", &values);
    assert_eq!(buf.len("p"), 1000);
    let snap = buf.snapshot("p").unwrap();
    assert_eq!(snap[0], 500);
    assert_eq!(snap[999], 1499);
}

#[test]
fn buffer_sizes_report_each_feed() {
    let mut buf = FeedBuffer::new(10);
    buf.push("weather", &[1.0, 2.0, 3.0]);
    buf.push("seismic", &[4.5]);
    let sizes = BufferSizes::of(&buf);
    assert_eq!(sizes, BufferSizes { weather: 3, price: 0, seismic: 1 });
}
