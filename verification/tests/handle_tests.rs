use async_fifo::channel::subscription::must_subscribe;
use async_fifo::fifo::{self, BlockSize, SmallBlockSize};
use async_fifo::slot::{Slot, SlotState};

#[test]
fn fifo_many_consumers_share_items() {
    let (tx, rx) = fifo::new_vec::<u32>(3);
    assert_eq!(rx.len(), 3);
    tx.send_iter((0..6).collect());
    assert_eq!(rx[2].try_recv(), Some(0));
    assert_eq!(rx[0].try_recv_array::<2>(), Some([1, 2]));
    let mut rest = Vec::new();
    assert_eq!(rx[1].try_recv_many(&mut rest), Some(3));
    assert_eq!(rest, vec![3, 4, 5]);
    assert_eq!(rx[0].try_recv(), None);
    assert_eq!(rx[1].try_recv_many(&mut rest), None);
    assert_eq!(rest, vec![3, 4, 5]);
}

#[test]
fn fifo_exact_all_or_nothing() {
    let (tx, [rx]) = fifo::new::<1, char>();
    tx.send_iter(vec!['a', 'b']);
    let mut buffer = ['_'; 3];
    assert_eq!(rx.try_recv_exact(&mut buffer), None);
    assert_eq!(buffer, ['_'; 3]);
    let mut empty: [char; 0] = [];
    assert_eq!(rx.try_recv_exact(&mut empty), None);
    tx.send('c');
    assert_eq!(rx.try_recv_exact(&mut buffer), Some(()));
    assert_eq!(buffer, ['a', 'b', 'c']);
    assert_eq!(rx.try_recv_array::<1>(), None);
}

#[test]
fn fifo_recv_upto() {
    let (tx, rx) = SmallBlockSize::non_blocking::<u8>();
    tx.send_iter(vec![1, 2, 3]);
    let mut buf = [0u8; 2];
    assert_eq!(rx.try_recv_upto(&mut buf), 2);
    assert_eq!(buf, [1, 2]);
    let mut buf = [9u8; 4];
    assert_eq!(rx.try_recv_upto(&mut buf), 1);
    assert_eq!(buf, [3, 9, 9, 9]);
    assert_eq!(rx.try_recv_upto(&mut buf), 0);
}

#[test]
fn producers_counted() {
    let (tx, [rx]) = BlockSize::<16, 2>::build::<1, u8>();
    let tx2 = tx.clone();
    assert!(!rx.no_producers());
    drop(tx);
    assert!(!rx.is_closed());
    tx2.send(7);
    drop(tx2);
    assert!(rx.no_producers());
    assert_eq!(rx.try_recv(), Some(7));
}

#[test]
fn boxed_consumers() {
    let (tx, rx) = fifo::new_box::<2, u8>();
    tx.send(1);
    assert_eq!(rx[1].try_recv(), Some(1));
    assert_eq!(rx[0].try_recv(), None);
}

#[test]
fn wakers_taken_back() {
    let (_tx, [rx]) = fifo::new::<1, u8>();
    assert!(rx.take_waker().is_none());
}

#[test]
fn subscription_dedupe() {
    assert!(must_subscribe(3, None));
    assert!(must_subscribe(3, Some(2)));
    assert!(!must_subscribe(3, Some(3)));
}

#[test]
fn slot_state_transitions() {
    let mut state: SlotState<u8> = SlotState::Empty;
    assert_eq!(state.try_insert(Box::new(1)), Ok(()));
    assert_eq!(state.try_insert(Box::new(2)), Err(Box::new(2)));
    assert_eq!(state.insert(Box::new(3)), Some(Box::new(1)));
    assert!(!state.is_locked());
    assert_eq!(state.try_take(true), Some(Box::new(3)));
    assert!(state.is_locked());
    assert_eq!(state.try_take(false), None);
    assert_eq!(state.try_insert(Box::new(4)), Err(Box::new(4)));
    assert!(state.unlock());
    assert!(!state.unlock());
    assert_eq!(state.try_insert(Box::new(5)), Ok(()));
    assert_eq!(state.try_take(false), Some(Box::new(5)));
    assert_eq!(state.insert(Box::new(6)), None);
}

#[test]
fn slot_shared() {
    let slot = Slot::new(Box::new('x'));
    assert_eq!(slot.try_insert(Box::new('y')), Err(Box::new('y')));
    assert_eq!(slot.try_take(true), Some(Box::new('x')));
    assert!(slot.is_locked());
    assert_eq!(slot.try_insert(Box::new('z')), Err(Box::new('z')));
    assert_eq!(slot.insert(Box::new('w')), None);
    assert!(!slot.is_locked());
    assert_eq!(slot.try_take(false), Some(Box::new('w')));
    assert!(!slot.unlock());
    let empty: Slot<u8> = Slot::none();
    assert_eq!(empty.try_take(false), None);
}

#[test]
fn fifo_zero_array_receives_nothing() {
    let (tx, [rx]) = fifo::new::<1, u8>();
    tx.send(7);
    assert_eq!(rx.try_recv_array::<0>(), None);
    assert_eq!(rx.try_recv(), Some(7));
}
