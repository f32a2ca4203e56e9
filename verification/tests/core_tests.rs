use async_fifo::fifo::block::{Block, BlockPointer};
use async_fifo::fifo::flags::{clear_slot_flags, get_slot_flag, new_slot_flags, set_slot_flag};
use async_fifo::fifo::queue::Fifo;
use async_fifo::fifo::storage::{Storage, TmpArray};

#[test]
fn flags_set_then_get() {
    let mut flags = new_slot_flags(2);
    assert_eq!(flags, vec![0u8, 0u8]);
    set_slot_flag(&mut flags, 9);
    assert_eq!(flags, vec![0u8, 2u8]);
    assert!(get_slot_flag(&flags, 9));
    assert!(!get_slot_flag(&flags, 8));
    assert!(!get_slot_flag(&flags, 1));
    set_slot_flag(&mut flags, 0);
    set_slot_flag(&mut flags, 7);
    assert_eq!(flags, vec![0x81u8, 2u8]);
    clear_slot_flags(&mut flags);
    assert_eq!(flags, vec![0u8, 0u8]);
}

#[test]
fn block_produce_consume() {
    let mut block: Block<&str> = Block::new(1);
    assert_eq!(block.slot_count(), 8);
    assert!(!block.is_produced(3));
    block.produce(3, "a");
    assert!(block.is_produced(3));
    assert!(!block.fully_consumed());
    assert_eq!(block.consume(3), "a");
    assert!(block.is_produced(3));
    for i in 0..8 {
        if i != 3 {
            block.produce(i, "b");
            assert_eq!(block.consume(i), "b");
        }
    }
    assert!(block.fully_consumed());
    block.reset_flags();
    assert!(!block.fully_consumed());
    assert!(!block.is_produced(3));
}

#[test]
fn chain_collect_and_recycle() {
    let mut chain: BlockPointer<u32> = BlockPointer::new();
    assert!(chain.load().is_none());
    chain.append_new(1);
    chain.append_new(1);
    let mut revision = 5usize;
    // first block not consumed: nothing to collect
    assert!(chain.try_collect(&mut revision).is_none());
    assert_eq!(revision, 5);
    for p in 0..8 {
        chain.produce_at(p, p as u32 * 10);
    }
    chain.produce_at(8, 80);
    for p in 0..8 {
        assert_eq!(chain.consume_at(p), p as u32 * 10);
    }
    let collected = chain.try_collect(&mut revision).unwrap();
    assert_eq!(collected.revision, 5);
    assert_eq!(revision, 6);
    assert_eq!(collected.slot_count(), 8);
    // the second block is now first, and records the position after the first
    assert_eq!(chain.load().unwrap().offset, 8);
    // item 80 is now at position 0
    chain.recycle(collected);
    assert_eq!(chain.consume_at(0), 80);
    // the recycled block is at the end, empty
    chain.produce_at(8, 7);
    assert_eq!(chain.consume_at(8), 7);
}

#[test]
fn fifo_send_pull_in_order() {
    let mut fifo: Fifo<u32> = Fifo::new(1);
    assert_eq!(fifo.block_size(), 8);
    assert_eq!(fifo.len(), 0);
    fifo.send_iter((0..20).collect());
    assert_eq!(fifo.len(), 20);
    // exact bounds not met: nothing taken
    assert_eq!(fifo.pull(Some(21), Some(21)), Vec::<u32>::new());
    assert_eq!(fifo.pull(Some(3), Some(3)), vec![0, 1, 2]);
    assert_eq!(fifo.pull(Some(1), Some(5)), vec![3, 4, 5, 6, 7]);
    fifo.send_iter(vec![100, 101]);
    assert_eq!(fifo.pull(None, None), (8..20).chain(100..102).collect::<Vec<u32>>());
    assert_eq!(fifo.len(), 0);
    assert_eq!(fifo.pull(None, None), Vec::<u32>::new());
}

#[test]
fn fifo_run_delivers_in_order() {
    // sends and receives of many shapes over blocks of 8 slots; everything
    // received followed by what is left is everything sent, in order
    let mut fifo: Fifo<u32> = Fifo::new(1);
    let mut sent = Vec::new();
    let mut received = Vec::new();
    let mut next = 0u32;
    for round in 0..50u32 {
        let batch: Vec<u32> = (next..next + round % 13).collect();
        next += round % 13;
        sent.extend(batch.iter().cloned());
        fifo.send_iter(batch);
        let bounds = match round % 4 {
            0 => (None, None),
            1 => (Some(5), Some(5)),
            2 => (Some(1), Some(3)),
            _ => (None, Some(0)),
        };
        let got = fifo.pull(bounds.0, bounds.1);
        if let (Some(lo), Some(hi)) = bounds {
            assert!(got.is_empty() || (lo <= got.len() && got.len() <= hi));
        }
        received.extend(got);
    }
    received.extend(fifo.pull(None, None));
    assert_eq!(received, sent);
}

#[test]
fn fifo_room() {
    let fifo: Fifo<()> = Fifo::new(1);
    assert!(fifo.has_room_for(10));
    assert!(fifo.has_room_for(usize::MAX - 16));
    assert!(!fifo.has_room_for(usize::MAX - 15));
    assert!(!fifo.has_room_for(usize::MAX));
}

#[test]
fn fifo_pull_into_storages() {
    let mut fifo: Fifo<char> = Fifo::new(4);
    fifo.send_iter(vec!['a', 'b', 'c', 'd']);
    let mut one: Option<char> = None;
    assert_eq!(fifo.pull_into(&mut one), 1);
    assert_eq!(one, Some('a'));
    assert_eq!(one.finish(1), Ok('a'));
    let mut array: TmpArray<2, char> = TmpArray::new();
    assert_eq!(array.bounds(), (Some(2), Some(2)));
    assert_eq!(fifo.pull_into(&mut array), 2);
    assert_eq!(array.finish(2).ok(), Some(['b', 'c']));
    let mut three: TmpArray<3, char> = TmpArray::new();
    assert_eq!(fifo.pull_into(&mut three), 0);
    assert!(three.finish(0).is_err());
    assert_eq!(fifo.pull(None, None), vec!['d']);
}

#[test]
fn storage_finish_without_items() {
    let none: Option<u8> = None;
    assert_eq!(none.finish(0), Err(None));
    let array: TmpArray<1, u8> = TmpArray::new();
    assert!(array.finish(1).is_err());
}

#[test]
fn block_reset_empties_held_items() {
    let mut block: Block<u32> = Block::new(1);
    block.produce(2, 5);
    block.produce(4, 6);
    assert_eq!(block.consume(4), 6);
    block.reset_flags();
    assert!(!block.is_produced(2));
    assert!(!block.is_produced(4));
    assert!(!block.fully_consumed());
    block.produce(2, 7);
    assert_eq!(block.consume(2), 7);
}
