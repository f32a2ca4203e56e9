#[test]
fn tests_test_one() {
    let (tx, rx) = async_fifo::new();

    tx.send("Test");
    let results = rx.try_recv();

    assert_eq!(results, Some("Test"));

    core::mem::drop(tx);
    assert!(rx.no_producers());
}

#[test]
fn test_zero_sized() {
    let (tx, rx) = async_fifo::new();
    let array = [(); 16];

    tx.send_iter(array.to_vec());
    let results = rx.try_recv_array();

    assert_eq!(results, Some(array));

    core::mem::drop(tx);
    assert!(rx.no_producers());
}

#[test]
fn test_multiple() {
    let (tx, rx) = async_fifo::new();

    let to_send: Vec<_> = (0..12).collect();
    tx.send_iter(to_send.clone());

    let mut results = Vec::new();
    rx.try_recv_many(&mut results);

    assert_eq!(results, to_send);

    core::mem::drop(tx);
    assert!(rx.no_producers());
}

#[test]
fn test_10k() {
    let (tx, rx) = async_fifo::new();

    let to_send: Vec<_> = (0..10000).collect();
    tx.send_iter(to_send.iter().cloned().collect());

    let mut results = Vec::new();
    rx.try_recv_many(&mut results);

    assert_eq!(results, to_send);

    core::mem::drop(tx);
    assert!(rx.no_producers());
}

#[test]
fn tests_test_multi_steps() {
    let (tx, rx) = async_fifo::fifo::BlockSize::<256, 32>::channel();
    let mut results = Vec::new();
    let mut input = Vec::new();

    for _ in 0..8 {
        let to_send: Vec<_> = (0..100).collect();
        tx.send_iter(to_send.iter().map(|i| *i).collect());
        input.extend(to_send);
        rx.try_recv_many(&mut results);
    }

    assert_eq!(results, input);

    core::mem::drop(tx);
    assert!(rx.no_producers());
}
