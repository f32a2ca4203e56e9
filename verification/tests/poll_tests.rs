use std::sync::atomic::{AtomicUsize, Ordering};
use std::sync::Arc;
use std::task::{Wake, Waker};

use async_fifo::channel::oneshot;
use async_fifo::fifo;
use async_fifo::task::Polled;
use async_fifo::Closed;

struct CountingWaker {
    wakes: AtomicUsize,
}

impl Wake for CountingWaker {
    fn wake(self: Arc<Self>) {
        self.wakes.fetch_add(1, Ordering::SeqCst);
    }
}

fn counting_waker() -> (Arc<CountingWaker>, Waker) {
    let inner = Arc::new(CountingWaker { wakes: AtomicUsize::new(0) });
    (inner.clone(), Waker::from(inner))
}

#[test]
fn channel_recv_steps() {
    let (tx, mut rx) = async_fifo::new::<char>();
    let (counter, waker) = counting_waker();
    {
        let mut recv = rx.recv();
        assert!(matches!(recv.poll_with(waker.clone()), Polled::Pending));
    }
    // the subscribed receiver is woken up by the next send
    assert_eq!(tx.send('a'), 1);
    assert_eq!(counter.wakes.load(Ordering::SeqCst), 1);
    {
        let mut recv = rx.recv();
        assert!(matches!(recv.poll_with(waker.clone()), Polled::Ready(Ok('a'))));
    }
    tx.send_iter(vec!['b', 'c', 'd']);
    {
        let mut recv = rx.recv_array::<2>();
        assert!(matches!(recv.poll_with(waker.clone()), Polled::Ready(Ok(['b', 'c']))));
    }
    let mut vec = Vec::new();
    {
        let mut fill = rx.recv_many(&mut vec);
        assert!(matches!(fill.poll_with(waker.clone()), Polled::Ready(Ok(1))));
    }
    assert_eq!(vec, vec!['d']);
    drop(tx);
    {
        let mut recv = rx.recv();
        assert!(matches!(recv.poll_with(waker.clone()), Polled::Ready(Err(Closed))));
    }
    let mut buffer = ['_'; 2];
    {
        let mut fill = rx.recv_exact(&mut buffer);
        assert!(matches!(fill.poll_with(waker.clone()), Polled::Ready(Err(Closed))));
    }
    assert_eq!(buffer, ['_'; 2]);
}

#[test]
fn fifo_fill_keeps_storage_until_items_come() {
    let (tx, [rx]) = fifo::new::<1, u8>();
    let (_counter, waker) = counting_waker();
    let mut vec = vec![9];
    {
        let mut fill = rx.recv_many(&mut vec);
        assert!(matches!(fill.poll_with(waker.clone()), Polled::Pending));
    }
    assert_eq!(vec, vec![9]);
    tx.send_iter(vec![1, 2]);
    {
        let mut fill = rx.recv_many(&mut vec);
        assert!(matches!(fill.poll_with(waker), Polled::Ready(Ok(2))));
    }
    assert_eq!(vec, vec![9, 1, 2]);
}

#[test]
fn channel_items_outlive_senders() {
    let (tx, mut rx) = async_fifo::new::<u8>();
    let (_counter, waker) = counting_waker();
    tx.send_iter(vec![1, 2]);
    drop(tx);
    assert!(rx.no_senders());
    let mut buffer = [0u8; 2];
    {
        let mut fill = rx.recv_exact(&mut buffer);
        assert!(matches!(fill.poll_with(waker.clone()), Polled::Ready(Ok(2))));
    }
    assert_eq!(buffer, [1, 2]);
    let mut recv = rx.recv();
    assert!(matches!(recv.poll_with(waker), Polled::Ready(Err(Closed))));
}

#[test]
fn channel_read_steps() {
    let (tx, mut rx) = async_fifo::new::<u8>();
    let (_counter, waker) = counting_waker();
    let mut buf = [0u8; 4];
    assert!(matches!(rx.poll_read_with(waker.clone(), &mut buf), Polled::Pending));
    tx.send_iter(vec![5, 6]);
    assert!(matches!(rx.poll_read_with(waker.clone(), &mut buf), Polled::Ready(Ok(2))));
    assert_eq!(buf, [5, 6, 0, 0]);
    drop(tx);
    assert!(matches!(rx.poll_read_with(waker, &mut buf), Polled::Ready(Err(Closed))));
}

#[test]
fn fifo_recv_steps() {
    let (tx, [rx]) = fifo::new::<1, u32>();
    let (counter, waker) = counting_waker();
    {
        let mut recv = rx.recv();
        assert!(matches!(recv.poll_with(waker.clone()), Polled::Pending));
    }
    tx.send(4);
    assert_eq!(counter.wakes.load(Ordering::SeqCst), 1);
    {
        let mut recv = rx.recv();
        assert!(matches!(recv.poll_with(waker.clone()), Polled::Ready(Ok(4))));
    }
    drop(tx);
    let mut recv = rx.recv();
    assert!(matches!(recv.poll_with(waker), Polled::Ready(Err(Closed))));
}

#[test]
fn oneshot_steps() {
    let (tx, rx) = oneshot::new::<u8>();
    let (counter, waker) = counting_waker();
    assert!(matches!(rx.poll_with(waker.clone()), Polled::Pending));
    tx.send(Box::new(72));
    assert_eq!(counter.wakes.load(Ordering::SeqCst), 1);
    match rx.poll_with(waker) {
        Polled::Ready(item) => assert_eq!(*item, 72),
        Polled::Pending => panic!("no item"),
    }
}

#[test]
fn waker_box_reused_unless_closed() {
    let (_counter, waker) = counting_waker();
    let (_other_counter, other) = counting_waker();
    assert!(fifo::async_api::waker_to_insert(true, Some(Box::new(other.clone())), waker.clone()).is_none());
    let fresh = fifo::async_api::waker_to_insert(false, None, waker.clone()).unwrap();
    assert!(fresh.will_wake(&waker));
    let reused = fifo::async_api::waker_to_insert(false, Some(Box::new(other.clone())), waker.clone()).unwrap();
    assert!(reused.will_wake(&waker));
    assert!(!reused.will_wake(&other));
}

#[test]
fn outcome_after_wait_decides() {
    assert!(matches!(async_fifo::task::outcome_after_wait(true, Some(3u8)), Polled::Ready(Ok(3))));
    assert!(matches!(async_fifo::task::outcome_after_wait(false, Some(4u8)), Polled::Ready(Ok(4))));
    assert!(matches!(async_fifo::task::outcome_after_wait::<u8>(true, None), Polled::Ready(Err(Closed))));
    assert!(matches!(async_fifo::task::outcome_after_wait::<u8>(false, None), Polled::Pending));
}

#[test]
fn wake_all_counts_and_wakes() {
    let (counter, waker) = counting_waker();
    let n = async_fifo::channel::subscription::wake_all(vec![waker.clone(), waker.clone(), waker]);
    assert_eq!(n, 3);
    assert_eq!(counter.wakes.load(Ordering::SeqCst), 3);
}

#[test]
fn fifo_closed_only_once_empty() {
    let (tx, [rx]) = fifo::new::<1, char>();
    let (_counter, waker) = counting_waker();
    tx.send_iter(vec!['a', 'b']);
    drop(tx);
    {
        let mut recv = rx.recv();
        assert!(matches!(recv.poll_with(waker.clone()), Polled::Ready(Ok('a'))));
    }
    {
        let mut recv = rx.recv();
        assert!(matches!(recv.poll_with(waker.clone()), Polled::Ready(Ok('b'))));
    }
    let mut recv = rx.recv();
    assert!(matches!(recv.poll_with(waker), Polled::Ready(Err(Closed))));
}
