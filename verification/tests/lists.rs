use usync::access::{Access, Reply};
use usync::memory::Memory;

fn list_arena(count: usize) -> Vec<usync::list::Node<usize>> {
    (0..count).map(usync::list::Node::new).collect()
}

#[test]
fn list_is_first_in_first_out() {
    let mut nodes = list_arena(3);
    let mut list = usync::list::List::new();
    assert!(list.is_empty());
    list.push_back(&mut nodes, 2);
    list.push_back(&mut nodes, 0);
    list.push_back(&mut nodes, 1);
    assert_eq!(list.pop_front(&mut nodes), Some(2));
    assert_eq!(list.pop_front(&mut nodes), Some(0));
    assert_eq!(list.pop_front(&mut nodes), Some(1));
    assert_eq!(list.pop_front(&mut nodes), None);
    assert!(list.is_empty());
}

#[test]
fn list_pops_from_the_back() {
    let mut nodes = list_arena(3);
    let mut list = usync::list::List::default();
    list.push_back(&mut nodes, 0);
    list.push_back(&mut nodes, 1);
    list.push_back(&mut nodes, 2);
    assert_eq!(list.pop_back(&mut nodes), Some(2));
    assert_eq!(list.pop_back(&mut nodes), Some(1));
    assert_eq!(list.pop_back(&mut nodes), Some(0));
    assert_eq!(list.pop_back(&mut nodes), None);
}

#[test]
fn list_removes_from_the_middle() {
    let mut nodes = list_arena(3);
    let mut list = usync::list::List::new();
    list.push_back(&mut nodes, 0);
    list.push_back(&mut nodes, 1);
    list.push_back(&mut nodes, 2);
    assert!(list.try_remove(&mut nodes, 1));
    assert_eq!(list.pop_front(&mut nodes), Some(0));
    assert_eq!(list.pop_front(&mut nodes), Some(2));
    assert!(list.is_empty());
}

#[test]
fn list_takes_nothing_off_an_empty_list() {
    let mut nodes = list_arena(1);
    let mut list = usync::list::List::new();
    list.push_back(&mut nodes, 0);
    assert!(list.try_remove(&mut nodes, 0));
    assert!(!list.try_remove(&mut nodes, 0));
}

#[test]
fn list_nodes_keep_their_value() {
    let node = usync::list::Node::from(8u8);
    assert_eq!(*node.get(), 8);
    let node: usync::list::Node<u8> = Default::default();
    assert_eq!(*node.get(), 0);
}

fn wait_queue_arena(count: usize) -> Vec<usync::kernel::wait_queue::Node<usize>> {
    (0..count).map(usync::kernel::wait_queue::Node::new).collect()
}

#[test]
fn wait_queue_is_first_in_first_out() {
    let mut nodes = wait_queue_arena(3);
    let mut list = usync::kernel::wait_queue::List::new();
    assert!(list.is_empty());
    list.push_back(&mut nodes, 2);
    list.push_back(&mut nodes, 0);
    list.push_back(&mut nodes, 1);
    assert_eq!(list.pop_front(&mut nodes), Some(2));
    assert_eq!(list.pop_front(&mut nodes), Some(0));
    assert_eq!(list.pop_front(&mut nodes), Some(1));
    assert_eq!(list.pop_front(&mut nodes), None);
    assert!(list.is_empty());
}

#[test]
fn wait_queue_pops_from_the_back() {
    let mut nodes = wait_queue_arena(3);
    let mut list = usync::kernel::wait_queue::List::default();
    list.push_back(&mut nodes, 0);
    list.push_back(&mut nodes, 1);
    list.push_back(&mut nodes, 2);
    assert_eq!(list.pop_back(&mut nodes), Some(2));
    assert_eq!(list.pop_back(&mut nodes), Some(1));
    assert_eq!(list.pop_back(&mut nodes), Some(0));
    assert_eq!(list.pop_back(&mut nodes), None);
}

#[test]
fn wait_queue_removes_from_the_middle() {
    let mut nodes = wait_queue_arena(3);
    let mut list = usync::kernel::wait_queue::List::new();
    list.push_back(&mut nodes, 0);
    list.push_back(&mut nodes, 1);
    list.push_back(&mut nodes, 2);
    assert!(list.try_remove(&mut nodes, 1));
    assert_eq!(list.pop_front(&mut nodes), Some(0));
    assert_eq!(list.pop_front(&mut nodes), Some(2));
    assert!(list.is_empty());
}

#[test]
fn wait_queue_takes_nothing_off_an_empty_list() {
    let mut nodes = wait_queue_arena(1);
    let mut list = usync::kernel::wait_queue::List::new();
    list.push_back(&mut nodes, 0);
    assert!(list.try_remove(&mut nodes, 0));
    assert!(!list.try_remove(&mut nodes, 0));
}

#[test]
fn wait_queue_nodes_keep_their_value() {
    let node = usync::kernel::wait_queue::Node::from(8u8);
    assert_eq!(*node.get(), 8);
    let node: usync::kernel::wait_queue::Node<u8> = Default::default();
    assert_eq!(*node.get(), 0);
}

fn shared_list_arena(count: usize) -> Vec<usync::shared::list::Node<usize>> {
    (0..count).map(usync::shared::list::Node::new).collect()
}

#[test]
fn shared_list_is_first_in_first_out() {
    let mut nodes = shared_list_arena(3);
    let mut list = usync::shared::list::List::new();
    assert!(list.is_empty());
    list.push_back(&mut nodes, 2);
    list.push_back(&mut nodes, 0);
    list.push_back(&mut nodes, 1);
    assert_eq!(list.pop_front(&mut nodes), Some(2));
    assert_eq!(list.pop_front(&mut nodes), Some(0));
    assert_eq!(list.pop_front(&mut nodes), Some(1));
    assert_eq!(list.pop_front(&mut nodes), None);
    assert!(list.is_empty());
}

#[test]
fn shared_list_pops_from_the_back() {
    let mut nodes = shared_list_arena(3);
    let mut list = usync::shared::list::List::default();
    list.push_back(&mut nodes, 0);
    list.push_back(&mut nodes, 1);
    list.push_back(&mut nodes, 2);
    assert_eq!(list.pop_back(&mut nodes), Some(2));
    assert_eq!(list.pop_back(&mut nodes), Some(1));
    assert_eq!(list.pop_back(&mut nodes), Some(0));
    assert_eq!(list.pop_back(&mut nodes), None);
}

#[test]
fn shared_list_removes_from_the_middle() {
    let mut nodes = shared_list_arena(3);
    let mut list = usync::shared::list::List::new();
    list.push_back(&mut nodes, 0);
    list.push_back(&mut nodes, 1);
    list.push_back(&mut nodes, 2);
    assert!(list.try_remove(&mut nodes, 1));
    assert_eq!(list.pop_front(&mut nodes), Some(0));
    assert_eq!(list.pop_front(&mut nodes), Some(2));
    assert!(list.is_empty());
}

#[test]
fn shared_list_takes_nothing_off_an_empty_list() {
    let mut nodes = shared_list_arena(1);
    let mut list = usync::shared::list::List::new();
    list.push_back(&mut nodes, 0);
    assert!(list.try_remove(&mut nodes, 0));
    assert!(!list.try_remove(&mut nodes, 0));
}

#[test]
fn shared_list_nodes_keep_their_value() {
    let node = usync::shared::list::Node::from(8u8);
    assert_eq!(*node.get(), 8);
    let node: usync::shared::list::Node<u8> = Default::default();
    assert_eq!(*node.get(), 0);
}

#[test]
fn list_gives_the_value_back() {
    assert_eq!(usync::list::Node::new(11u8).into_inner(), 11);
}

#[test]
fn list_removes_a_stranger_from_a_list_with_nodes() {
    let mut nodes = list_arena(2);
    let mut list = usync::list::List::new();
    list.push_back(&mut nodes, 0);
    assert!(list.try_remove(&mut nodes, 1));
    assert_eq!(list.pop_front(&mut nodes), Some(0));
}

#[test]
fn shared_list_refuses_a_stranger() {
    let mut nodes = shared_list_arena(2);
    let mut list = usync::shared::list::List::new();
    list.push_back(&mut nodes, 0);
    assert!(!list.try_remove(&mut nodes, 1));
    assert_eq!(list.pop_front(&mut nodes), Some(0));
}

#[test]
fn list_pushes_a_linked_node_to_the_front() {
    let mut nodes = list_arena(2);
    let mut list = usync::list::List::new();
    list.push_back(&mut nodes, 0);
    nodes[1].next = Some(0);
    list.push_front(&mut nodes, 1);
    assert_eq!(list.pop_front(&mut nodes), Some(1));
    assert_eq!(list.pop_front(&mut nodes), Some(0));
    assert_eq!(list.pop_front(&mut nodes), None);
}

#[test]
fn list_does_not_link_a_node_at_the_front() {
    let mut nodes = list_arena(2);
    let mut list = usync::list::List::new();
    list.push_back(&mut nodes, 0);
    list.push_front(&mut nodes, 1);
    assert_eq!(nodes[1].next, None);
    assert_eq!(nodes[0].prev, Some(1));
    assert_eq!(list.pop_front(&mut nodes), Some(1));
    assert!(list.is_empty());
}

#[test]
fn other_lists_link_a_node_at_the_front() {
    let mut nodes = shared_list_arena(2);
    let mut list = usync::shared::list::List::new();
    list.push_back(&mut nodes, 0);
    list.push_front(&mut nodes, 1);
    assert_eq!(list.pop_back(&mut nodes), Some(0));
    assert_eq!(list.pop_back(&mut nodes), Some(1));
    let mut nodes = wait_queue_arena(2);
    let mut list = usync::kernel::wait_queue::List::new();
    list.push(&mut nodes, 0);
    list.push_front(&mut nodes, 1);
    assert_eq!(list.pop(&mut nodes), Some(1));
    assert_eq!(list.pop(&mut nodes), Some(0));
}

#[test]
fn front_of_an_empty_list_gets_no_tail() {
    let mut nodes = shared_list_arena(1);
    let mut list = usync::shared::list::List::new();
    list.push_front(&mut nodes, 0);
    assert_eq!(nodes[0].tail, None);
    assert!(!list.is_empty());
    let mut nodes = wait_queue_arena(1);
    let mut list = usync::kernel::wait_queue::List::new();
    list.push_front(&mut nodes, 0);
    assert_eq!(nodes[0].tail, usync::kernel::wait_queue::Slot::Uninit);
}

#[test]
fn wait_queue_is_walked_and_drained() {
    let mut nodes = wait_queue_arena(3);
    let mut list = usync::kernel::wait_queue::List::new();
    list.push(&mut nodes, 1);
    list.push(&mut nodes, 2);
    list.push(&mut nodes, 0);
    let mut iter = list.iter();
    assert_eq!(iter.next(&nodes), Some(1));
    assert_eq!(iter.next(&nodes), Some(2));
    assert_eq!(iter.next(&nodes), Some(0));
    assert_eq!(iter.next(&nodes), None);
    {
        let mut drain = list.drain();
        assert_eq!(drain.next(&mut nodes), Some(1));
        assert_eq!(drain.next(&mut nodes), Some(2));
    }
    assert!(!list.is_empty());
    {
        let mut drain = list.drain();
        assert_eq!(drain.next(&mut nodes), Some(0));
        assert_eq!(drain.next(&mut nodes), None);
    }
    assert!(list.is_empty());
    assert_eq!(list.drain().next(&mut nodes), None);
}

#[test]
fn pushing_back_is_undone_by_popping_back() {
    let mut nodes = list_arena(3);
    let mut list = usync::list::List::new();
    list.push_back(&mut nodes, 0);
    list.push_back(&mut nodes, 1);
    let links: Vec<_> = nodes.iter().map(|n| (n.prev, n.next)).collect();
    list.push_back(&mut nodes, 2);
    assert_eq!(list.pop_back(&mut nodes), Some(2));
    let after: Vec<_> = nodes.iter().map(|n| (n.prev, n.next)).collect();
    assert_eq!(links, after);
    assert_eq!(nodes[0].tail, Some(1));
}

#[test]
fn lists_do_what_the_accesses_ask() {
    let mut memory = Memory::new(0, 3);
    let mut nodes = list_arena(3);
    let mut list = usync::list::List::new();
    let mut shared_nodes = shared_list_arena(3);
    let mut shared_list = usync::shared::list::List::new();
    let mut wait_nodes = wait_queue_arena(3);
    let mut wait_queue = usync::kernel::wait_queue::List::new();
    for place in [1, 0, 2] {
        memory.perform(Access::PushBack(Memory::address(place)));
        list.push_back(&mut nodes, place);
        shared_list.push_back(&mut shared_nodes, place);
        wait_queue.push_back(&mut wait_nodes, place);
    }
    let reply = memory.perform(Access::Remove(Memory::address(0)));
    assert!(reply.ok);
    assert!(list.try_remove(&mut nodes, 0));
    assert!(shared_list.try_remove(&mut shared_nodes, 0));
    assert!(wait_queue.try_remove(&mut wait_nodes, 0));
    for place in [1, 2] {
        let reply = memory.perform(Access::PopFront);
        assert_eq!(reply, Reply { ok: true, value: Memory::address(place) });
        assert_eq!(list.pop_front(&mut nodes), Some(place));
        assert_eq!(shared_list.pop_front(&mut shared_nodes), Some(place));
        assert_eq!(wait_queue.pop_front(&mut wait_nodes), Some(place));
    }
    assert!(!memory.perform(Access::PopFront).ok);
    assert_eq!(list.pop_front(&mut nodes), None);
    assert_eq!(shared_list.pop_front(&mut shared_nodes), None);
    assert_eq!(wait_queue.pop_front(&mut wait_nodes), None);
}
