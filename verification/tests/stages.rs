use fullnode::channel::{Channel, RecvError, SendError};
use fullnode::fetch_stage::{FetchAction, FetchStage, SocketEvent};
use fullnode::keys::Pubkey;
use fullnode::packet::Blob;
use fullnode::recycler::Recycler;
use fullnode::retransmit_stage::{receive, retransmit_peers};
use fullnode::window::{Arrival, Window};

fn blob(index: u64) -> Blob {
    Blob::new(index, Pubkey { bytes: [1u8; 32] }, vec![index as u8])
}

fn indices(blobs: &[Blob]) -> Vec<u64> {
    blobs.iter().map(|b| b.index).collect()
}

#[test]
fn window_hands_on_in_order_without_gaps() {
    let mut window = Window::new(16, 0);
    assert_eq!(window.insert(blob(2)), Arrival::Inserted);
    assert_eq!(window.insert(blob(1)), Arrival::Inserted);
    assert!(window.deliver().is_empty());
    assert_eq!(window.consumed(), 0);
    assert_eq!(window.received(), 3);
    assert_eq!(window.missing(), vec![0]);
    assert_eq!(window.insert(blob(4)), Arrival::Inserted);
    assert_eq!(window.insert(blob(0)), Arrival::Inserted);
    let handed = window.deliver();
    assert_eq!(handed, vec![blob(0), blob(1), blob(2)]);
    assert_eq!(window.consumed(), 3);
    assert_eq!(window.received(), 5);
    assert_eq!(window.missing(), vec![3]);
    assert_eq!(window.insert(blob(3)), Arrival::Inserted);
    assert_eq!(indices(&window.deliver()), vec![3, 4]);
    assert_eq!(window.consumed(), 5);
    assert_eq!(window.received(), 5);
    assert!(window.missing().is_empty());
    assert!(window.deliver().is_empty());
}

#[test]
fn window_drops_stale_duplicate_and_overrun() {
    let mut window = Window::new(4, 10);
    assert_eq!(window.insert(blob(9)), Arrival::Stale);
    assert_eq!(window.insert(blob(0)), Arrival::Stale);
    assert_eq!(window.insert(blob(14)), Arrival::Overrun);
    assert_eq!(window.insert(blob(u64::MAX)), Arrival::Overrun);
    assert_eq!(window.insert(blob(13)), Arrival::Inserted);
    assert_eq!(window.insert(blob(13)), Arrival::Duplicate);
    let mut other = blob(13);
    other.id = Pubkey { bytes: [2u8; 32] };
    other.data = vec![0xff];
    assert_eq!(window.insert(other), Arrival::Duplicate);
    assert_eq!(window.received(), 14);
    assert_eq!(window.missing(), vec![10, 11, 12]);
    assert_eq!(window.insert(blob(10)), Arrival::Inserted);
    assert_eq!(indices(&window.deliver()), vec![10]);
    assert_eq!(window.insert(blob(10)), Arrival::Stale);
    assert_eq!(window.insert(blob(14)), Arrival::Inserted);
    assert_eq!(window.insert(blob(15)), Arrival::Overrun);
    assert_eq!(window.insert(blob(11)), Arrival::Inserted);
    assert_eq!(window.insert(blob(12)), Arrival::Inserted);
    assert_eq!(window.deliver(), vec![blob(11), blob(12), blob(13), blob(14)]);
}

#[test]
fn window_at_the_end_of_the_index_range() {
    let mut window = Window::new(4, u64::MAX - 2);
    assert_eq!(window.insert(blob(u64::MAX - 1)), Arrival::Inserted);
    assert_eq!(window.insert(blob(u64::MAX)), Arrival::Overrun);
    assert_eq!(window.insert(blob(u64::MAX - 2)), Arrival::Inserted);
    assert_eq!(indices(&window.deliver()), vec![u64::MAX - 2, u64::MAX - 1]);
    assert_eq!(window.consumed(), u64::MAX);
    assert_eq!(window.received(), u64::MAX);
}

#[test]
fn window_without_room_takes_nothing() {
    let mut window = Window::new(0, 0);
    assert_eq!(window.insert(blob(0)), Arrival::Overrun);
    assert!(window.deliver().is_empty());
}

#[test]
fn repairs_wait_for_the_threshold() {
    let mut window = Window::new(16, 0);
    window.insert(blob(1));
    window.insert(blob(3));
    assert_eq!(window.repair_requests(4), Vec::<u64>::new());
    assert_eq!(window.repair_requests(3), vec![0, 2]);
    window.insert(blob(6));
    assert_eq!(window.repair_requests(4), vec![0, 2, 4, 5]);
    assert_eq!(window.repair_requests(7), Vec::<u64>::new());
}

#[test]
fn receive_passes_on_the_new_and_hands_on_the_ready() {
    let mut window = Window::new(4, 0);
    let batch = vec![blob(1), blob(1), blob(0), blob(0), blob(5), blob(3), blob(2), blob(5), blob(4)];
    let reception = receive(&mut window, &batch);
    assert_eq!(indices(&reception.fresh), vec![1, 0, 5, 3, 2, 4]);
    assert_eq!(indices(&reception.ready), vec![0, 1, 2, 3, 4, 5]);
    assert_eq!(window.consumed(), 6);
    let reception = receive(&mut window, &vec![blob(10), blob(9), blob(6)]);
    assert_eq!(indices(&reception.fresh), vec![9, 6]);
    assert_eq!(indices(&reception.ready), vec![6]);
    assert_eq!(window.consumed(), 7);
    assert_eq!(window.missing(), vec![7, 8]);
}

#[test]
fn retransmit_peers_leave_out_self_and_originator() {
    let key = |b: u8| Pubkey { bytes: [b; 32] };
    let peers = vec![key(1), key(2), key(3), key(2), key(4)];
    assert_eq!(retransmit_peers(&peers, &key(2), &key(4)), vec![key(1), key(3)]);
    assert_eq!(retransmit_peers(&peers, &key(9), &key(9)), peers);
    assert_eq!(retransmit_peers(&peers, &key(1), &key(1)), vec![key(2), key(3), key(2), key(4)]);
    assert_eq!(retransmit_peers(&vec![], &key(1), &key(2)), vec![]);
}

#[test]
fn full_channel_hands_the_item_back() {
    let mut channel: Channel<Vec<u8>> = Channel::new(2);
    assert_eq!(channel.send(vec![1]), Ok(()));
    assert_eq!(channel.send(vec![2]), Ok(()));
    assert_eq!(channel.send(vec![3]), Err(SendError::Full(vec![3])));
    assert_eq!(channel.len(), 2);
    assert_eq!(channel.recv(), Ok(vec![1]));
    assert_eq!(channel.send(vec![3]), Ok(()));
    assert_eq!(channel.recv(), Ok(vec![2]));
    assert_eq!(channel.recv(), Ok(vec![3]));
    assert_eq!(channel.recv(), Err(RecvError::Empty));
    assert_eq!(channel.len(), 0);
}

#[test]
fn closed_channel_drains_and_ends() {
    let mut channel: Channel<u32> = Channel::new(4);
    assert_eq!(channel.send(1), Ok(()));
    assert_eq!(channel.send(2), Ok(()));
    assert!(!channel.is_closed());
    channel.close();
    assert!(channel.is_closed());
    assert_eq!(channel.send(3), Err(SendError::Closed(3)));
    assert_eq!(channel.recv(), Ok(1));
    assert_eq!(channel.recv(), Ok(2));
    assert_eq!(channel.recv(), Err(RecvError::Closed));
}

#[test]
fn channel_without_room_takes_nothing() {
    let mut channel: Channel<u32> = Channel::new(0);
    assert_eq!(channel.send(1), Err(SendError::Full(1)));
    assert_eq!(channel.recv(), Err(RecvError::Empty));
}

#[test]
fn recycler_hands_out_wiped_buffers() {
    let mut recycler = Recycler::new();
    assert_eq!(recycler.len(), 0);
    assert_eq!(recycler.allocate(), Vec::<u8>::new());
    assert_eq!(recycler.len(), 0);
    let mut first = Vec::with_capacity(64);
    first.extend_from_slice(&[1, 2, 3]);
    recycler.recycle(first);
    recycler.recycle(vec![4; 1000]);
    assert_eq!(recycler.len(), 2);
    let buffer = recycler.allocate();
    assert!(buffer.is_empty());
    assert!(buffer.capacity() >= 1000);
    let buffer = recycler.allocate();
    assert!(buffer.is_empty());
    assert!(buffer.capacity() >= 64);
    assert_eq!(recycler.len(), 0);
}

#[test]
fn fetch_passes_on_full_batches() {
    let mut stage: FetchStage<u8> = FetchStage::new(3);
    assert_eq!(stage.on_event(SocketEvent::Arrived(1), false), FetchAction::Continue);
    assert_eq!(stage.on_event(SocketEvent::Arrived(2), false), FetchAction::Continue);
    assert_eq!(stage.on_event(SocketEvent::Arrived(3), false), FetchAction::Forward(vec![1, 2, 3]));
    assert_eq!(stage.on_event(SocketEvent::TimedOut, false), FetchAction::Continue);
    assert_eq!(stage.on_event(SocketEvent::Arrived(4), false), FetchAction::Continue);
    assert_eq!(stage.on_event(SocketEvent::TimedOut, false), FetchAction::Forward(vec![4]));
    assert!(!stage.is_stopped());
}

#[test]
fn fetch_stops_without_dropping() {
    let mut stage: FetchStage<u8> = FetchStage::new(8);
    assert_eq!(stage.on_event(SocketEvent::Arrived(1), false), FetchAction::Continue);
    assert_eq!(stage.on_event(SocketEvent::Arrived(2), true), FetchAction::Stop(vec![1, 2]));
    assert!(stage.is_stopped());
    assert_eq!(stage.on_event(SocketEvent::Arrived(3), false), FetchAction::Stop(vec![3]));
    assert_eq!(stage.on_event(SocketEvent::TimedOut, false), FetchAction::Stop(vec![]));
    let mut stage: FetchStage<u8> = FetchStage::new(8);
    assert_eq!(stage.on_event(SocketEvent::Arrived(1), false), FetchAction::Continue);
    assert_eq!(stage.on_event(SocketEvent::Failed, false), FetchAction::Stop(vec![1]));
    assert!(stage.is_stopped());
}

#[test]
fn fetch_with_the_smallest_batches() {
    for size in [0, 1] {
        let mut stage: FetchStage<u8> = FetchStage::new(size);
        assert_eq!(stage.on_event(SocketEvent::Arrived(1), false), FetchAction::Forward(vec![1]));
        assert_eq!(stage.on_event(SocketEvent::Arrived(2), false), FetchAction::Forward(vec![2]));
        assert_eq!(stage.on_event(SocketEvent::TimedOut, false), FetchAction::Continue);
    }
}
