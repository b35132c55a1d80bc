use mpsc_core::channel::channel;
use mpsc_core::channel::Inner;
use mpsc_core::channel::RecvError;
use mpsc_core::channel::TryRecvError;

use std::collections::VecDeque;

#[test]
fn basic_send_recv() {
    let (tx, mut rx) = channel();
    tx.send(42).unwrap();
    assert_eq!(rx.recv().unwrap(), 42);
}

#[test]
fn sender_disconnect() {
    let (tx, mut rx) = channel::<i32>();
    let tx_clone = tx.clone();
    drop(tx);
    assert!(rx.try_recv().is_err());
    drop(tx_clone);
    assert!(matches!(rx.recv(), Err(RecvError)));
}

#[test]
fn non_blocking_receive() {
    let (tx, mut rx) = channel();
    assert!(matches!(rx.try_recv(), Err(TryRecvError::Empty)));

    tx.send(10).unwrap();
    assert_eq!(rx.try_recv().unwrap(), 10);

    drop(tx);
    assert!(matches!(rx.try_recv(), Err(TryRecvError::Disconnected)));
}

#[test]
fn fifo_order_one_producer() {
    let (tx, mut rx) = channel();
    tx.send(1).unwrap();
    tx.send(2).unwrap();
    tx.send(3).unwrap();
    assert_eq!(rx.recv().unwrap(), 1);
    assert_eq!(rx.recv().unwrap(), 2);
    assert_eq!(rx.recv().unwrap(), 3);
}

#[test]
fn interleaved_producers_keep_lock_order() {
    let (tx_a, mut rx) = channel();
    let tx_b = tx_a.clone();
    tx_a.send(1).unwrap();
    tx_b.send(10).unwrap();
    tx_a.send(2).unwrap();
    tx_b.send(20).unwrap();
    assert_eq!(rx.recv().unwrap(), 1);
    assert_eq!(rx.recv().unwrap(), 10);
    assert_eq!(rx.recv().unwrap(), 2);
    assert_eq!(rx.recv().unwrap(), 20);
    assert!(matches!(rx.try_recv(), Err(TryRecvError::Empty)));
}

#[test]
fn clones_dropped_without_sending_disconnect() {
    let (tx, mut rx) = channel::<u32>();
    let tx1 = tx.clone();
    let tx2 = tx.clone();
    let tx3 = tx.clone();
    drop(tx);
    drop(tx1);
    drop(tx2);
    drop(tx3);
    assert!(matches!(rx.try_recv(), Err(TryRecvError::Disconnected)));
}

#[test]
fn drain_before_disconnect() {
    let (tx, mut rx) = channel();
    tx.send(7).unwrap();
    tx.send(8).unwrap();
    drop(tx);
    assert_eq!(rx.try_recv().unwrap(), 7);
    assert_eq!(rx.try_recv().unwrap(), 8);
    assert!(matches!(rx.try_recv(), Err(TryRecvError::Disconnected)));
}

#[test]
fn disconnection_is_permanent() {
    let (tx, mut rx) = channel::<u8>();
    drop(tx);
    for _ in 0..5 {
        assert!(matches!(rx.try_recv(), Err(TryRecvError::Disconnected)));
        assert!(matches!(rx.recv(), Err(RecvError)));
    }
}

#[test]
fn many_producers_no_loss_no_duplication() {
    let (tx, mut rx) = channel::<u32>();
    let mut senders = Vec::new();
    for _ in 0..10 {
        senders.push(tx.clone());
    }
    drop(tx);
    // Round-robin over the ten producers, each contributing 100 distinct values.
    for round in 0..100u32 {
        for (i, s) in senders.iter().enumerate() {
            s.send((i as u32) * 100 + round).unwrap();
        }
    }
    drop(senders);

    let mut seen = vec![false; 1000];
    let mut count = 0;
    loop {
        match rx.try_recv() {
            Ok(v) => {
                let v = v as usize;
                assert!(v < 1000);
                assert!(!seen[v]);
                seen[v] = true;
                count += 1;
            }
            Err(TryRecvError::Disconnected) => break,
            Err(TryRecvError::Empty) => panic!("channel claimed empty while open"),
        }
    }
    assert_eq!(count, 1000);
    assert!(seen.iter().all(|&b| b));
}

#[test]
fn send_step_on_disconnected_state_returns_the_value() {
    // No send through a live handle can see the disconnected state (a live
    // handle keeps the producer count positive), so the rejection branch is
    // exercised on the shared state directly.
    let mut inner: Inner<u32> = Inner { queue: VecDeque::new(), senders: 0, disconnected: true };
    let (r, wake) = inner.send_step(41);
    match r {
        Err(e) => assert_eq!(e.0, 41),
        Ok(()) => panic!("a disconnected channel must reject the send"),
    }
    assert!(!wake);
    assert!(inner.queue.is_empty());
}

#[test]
fn send_step_wakes_only_on_first_item() {
    let mut inner: Inner<u32> = Inner { queue: VecDeque::new(), senders: 1, disconnected: false };
    let (r1, wake1) = inner.send_step(1);
    assert!(r1.is_ok());
    assert!(wake1);
    let (r2, wake2) = inner.send_step(2);
    assert!(r2.is_ok());
    assert!(!wake2);
}

#[test]
fn drop_step_wakes_all_only_at_zero() {
    let mut inner: Inner<u32> = Inner { queue: VecDeque::new(), senders: 2, disconnected: false };
    assert!(!inner.drop_step());
    assert!(!inner.disconnected);
    assert!(inner.drop_step());
    assert!(inner.disconnected);
}

#[test]
fn sends_outlive_the_consumer() {
    let (tx, rx) = channel::<String>();
    tx.send(String::from("kept")).unwrap();
    drop(rx);
    // The queue is unbounded and producers never learn of the consumer's
    // fate, so sending still succeeds.
    tx.send(String::from("into the void")).unwrap();
}
