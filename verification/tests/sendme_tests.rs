//! Tests for flow-control windows and the messages they count.

use chanmgr::relaycell::{
    cell_counts_towards_windows, msg_counts_towards_windows, Begin, Data, RelayCell, RelayMsg,
};
use chanmgr::sendme::{RecvWindow, SendWindow, StreamParams};

#[test]
fn what_counts() {
    let m: RelayMsg = Begin::new("www.torproject.org", 443, 0).unwrap().into();
    assert!(!msg_counts_towards_windows(&m));
    assert!(!cell_counts_towards_windows(&RelayCell::new(77.into(), m)));

    let m: RelayMsg = Data::new(&b"Education is not a prerequisite to political control-political control is the cause of popular education."[..]).unwrap().into(); // Du Bois
    assert!(msg_counts_towards_windows(&m));
    assert!(cell_counts_towards_windows(&RelayCell::new(128.into(), m)));
}

#[test]
fn recvwindow() {
    let mut w: RecvWindow<StreamParams> = RecvWindow::new(500);

    for _ in 0..49 {
        assert!(!w.take().unwrap());
    }
    assert!(w.take().unwrap());
    assert_eq!(w.window, 450);

    assert!(w.decrement_n(123).is_ok());
    assert_eq!(w.window, 327);

    w.put();
    assert_eq!(w.window, 377);

    // failing decrement.
    assert!(w.decrement_n(400).is_err());
    // failing take.
    assert!(w.decrement_n(377).is_ok());
    assert!(w.take().is_err());
}

#[test]
fn sendwindow_take_and_put() {
    let mut w: SendWindow<StreamParams> = SendWindow::new(500);

    // Taking records a tag whenever the window crosses an increment
    // boundary.
    let tag = vec![7u8; 20];
    for i in 0..50 {
        let left = w.try_take(&tag).unwrap();
        assert_eq!(left, 499 - i);
    }
    assert_eq!(w.window, 450);
    assert_eq!(w.tags.len(), 1);

    // A matching acknowledgment reopens the window by the increment.
    let n = w.put(Some(&vec![7u8; 20]));
    assert_eq!(n, Some(500));
    assert_eq!(w.tags.len(), 0);

    // An acknowledgment with no tag recorded is refused.
    let n = w.put(Some(&vec![7u8; 20]));
    assert_eq!(n, None);
    assert_eq!(w.window, 500);
}

#[test]
fn sendwindow_bad_put() {
    let mut w: SendWindow<StreamParams> = SendWindow::new(500);
    let correct = vec![1u8; 20];
    for _ in 0..250 {
        w.try_take(&correct).unwrap();
    }
    assert_eq!(w.window, 250);

    // wrong tag: refused, nothing changes.
    let wrong = vec![2u8; 20];
    assert_eq!(w.put(Some(&wrong)), None);
    assert_eq!(w.window, 250);

    // right tag accepted, twice.
    assert_eq!(w.put(Some(&correct)), Some(300));
    assert_eq!(w.put(Some(&correct)), Some(350));

    // an empty window blocks further sending until an acknowledgment.
    let mut w2: SendWindow<StreamParams> = SendWindow::new(0);
    assert_eq!(w2.try_take(&correct), None);
}
