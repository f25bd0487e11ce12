use controller::EdgeFlag;

#[test]
fn edge_flag_reads_once() {
    let mut f = EdgeFlag::new(false);
    assert!(!f.take());
    f.raise();
    f.raise();
    assert!(f.take());
    assert!(!f.take());
}
