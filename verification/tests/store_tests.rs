use logview::store::CircularLogBuffer;

#[test]
fn total_lines_counts_every_append() {
    let mut b = CircularLogBuffer::new(3);
    assert_eq!(b.total_lines(), 0);
    for i in 0..10usize {
        b.push(format!("line {}", i));
        assert_eq!(b.total_lines(), i + 1);
    }
}

#[test]
fn retains_exactly_last_capacity() {
    let mut b = CircularLogBuffer::new(3);
    for i in 0..8usize {
        b.push(format!("l{}", i));
    }
    let w = b.get_window(0, 8);
    assert_eq!(w.len(), 3);
    assert_eq!(w[0], (5, "l5".to_string()));
    assert_eq!(w[1], (6, "l6".to_string()));
    assert_eq!(w[2], (7, "l7".to_string()));
}

#[test]
fn window_empty_when_start_not_below_end() {
    let mut b = CircularLogBuffer::new(5);
    for i in 0..5usize {
        b.push(format!("{}", i));
    }
    assert!(b.get_window(3, 3).is_empty());
    assert!(b.get_window(4, 2).is_empty());
    assert!(b.get_window(5, 0).is_empty());
}

#[test]
fn window_idempotent() {
    let mut b = CircularLogBuffer::new(4);
    for i in 0..6usize {
        b.push(format!("row {}", i));
    }
    let w1 = b.get_window(1, 5);
    let w2 = b.get_window(1, 5);
    assert_eq!(w1, w2);
}

#[test]
fn eviction_never_decreases_total() {
    let mut b = CircularLogBuffer::new(2);
    let mut previous = b.total_lines();
    for i in 0..6usize {
        b.push(format!("{}", i));
        let now = b.total_lines();
        assert!(now >= previous);
        previous = now;
    }
    assert_eq!(previous, 6);
}

#[test]
fn window_clamps_to_retained_lines() {
    let mut b = CircularLogBuffer::new(3);
    for i in 0..5usize {
        b.push(format!("v{}", i));
    }
    // lines 0 and 1 are evicted; true absolute indices are reported
    let w = b.get_window(0, 100);
    assert_eq!(w.len(), 3);
    assert_eq!(w[0], (2, "v2".to_string()));
    assert_eq!(w[2], (4, "v4".to_string()));
    let tail = b.get_window(3, 10);
    assert_eq!(tail.len(), 2);
    assert_eq!(tail[0].0, 3);
    assert!(b.get_window(0, 2).is_empty());
}

#[test]
fn window_before_capacity_reached() {
    let mut b = CircularLogBuffer::new(10);
    for i in 0..3usize {
        b.push(format!("w{}", i));
    }
    let w = b.get_window(0, 3);
    assert_eq!(w.len(), 3);
    assert_eq!(w[0], (0, "w0".to_string()));
    assert_eq!(w[2], (2, "w2".to_string()));
    let mid = b.get_window(1, 2);
    assert_eq!(mid, vec![(1, "w1".to_string())]);
}
