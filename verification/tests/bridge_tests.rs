use proximity_bridge::bridge::{MessageQueue, ThreadLink};
use proximity_bridge::message::BridgeMessage;

#[test]
fn new_link_is_empty() {
    let mut link = ThreadLink::new();
    assert_eq!(link.from.len(), 0);
    assert_eq!(link.to.len(), 0);
    assert!(link.from.drain().is_empty());
    assert!(link.to.drain().is_empty());
}

#[test]
fn drain_of_empty_queue_is_empty() {
    let mut q = MessageQueue::new();
    assert!(q.drain().is_empty());
}

#[test]
fn drain_twice_is_empty_the_second_time() {
    let mut q = MessageQueue::new();
    q.push(BridgeMessage::End);
    q.push(BridgeMessage::CreateLobbyRequest);
    assert_eq!(q.drain().len(), 2);
    assert!(q.drain().is_empty());
}

#[test]
fn drain_yields_pushes_in_order() {
    let mut q = MessageQueue::new();
    q.push(BridgeMessage::LinkCode { code: 1 });
    q.push(BridgeMessage::LinkCode { code: 2 });
    q.push(BridgeMessage::LinkCode { code: 3 });
    let taken = q.drain();
    assert_eq!(taken.len(), 3);
    for (i, m) in taken.iter().enumerate() {
        match m {
            BridgeMessage::LinkCode { code } => assert_eq!(*code, i as u64 + 1),
            _ => panic!("wrong tag"),
        }
    }
}

#[test]
fn drain_leaves_later_pushes_alone() {
    let mut q = MessageQueue::new();
    q.push(BridgeMessage::LinkCode { code: 1 });
    q.drain();
    q.push(BridgeMessage::LinkCode { code: 2 });
    let taken = q.drain();
    assert_eq!(taken.len(), 1);
    match &taken[0] {
        BridgeMessage::LinkCode { code } => assert_eq!(*code, 2),
        _ => panic!("wrong tag"),
    }
}
