use async_fifo::fifo::BlockSize;

#[test]
fn test_one() {
    let (tx, [rx]) = async_fifo::fifo::new();

    tx.send_iter(vec!["Test"]);
    let mut results = Vec::new();
    rx.try_recv_many(&mut results);

    assert_eq!(results, vec!["Test"]);
}

#[test]
fn test_many() {
    let (tx, [rx]) = async_fifo::fifo::new();

    let to_send: Vec<_> = (0..12).collect();
    tx.send_iter(to_send.clone());

    let mut results = Vec::new();
    rx.try_recv_many(&mut results);

    assert_eq!(results, to_send);
}

#[test]
fn test_awful_lot() {
    let (tx, [rx]) = async_fifo::fifo::new();

    let to_send: Vec<_> = (0..10000).collect();
    tx.send_iter(to_send.iter().cloned().collect());

    let mut results = Vec::new();
    rx.try_recv_many(&mut results);

    assert_eq!(results, to_send);
}

#[test]
fn test_multi_steps() {
    let (tx, [rx]) = BlockSize::<256, 32>::build::<1, _>();
    let mut results = Vec::new();
    let mut input = Vec::new();

    for _ in 0..8 {
        let to_send: Vec<_> = (0..100).collect();
        tx.send_iter(to_send.clone());
        input.extend(to_send);
        rx.try_recv_many(&mut results);
    }

    assert_eq!(results, input);
}

