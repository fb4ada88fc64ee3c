//! A list of waiters that knows whether a node stands in it.
//!
//! A node outside every list has no tail link, and taking it off a list is
//! refused.
use vstd::prelude::*;
use crate::access::{Access, Reply};
use crate::chain::{
    Links, head_after_push, head_after_removal, in_arena, is_list, pushed_back,
    pushed_back_in_arena, push_back_appends, remove_drops, removed, removed_in_arena, within,
};
use crate::memory::{queues, told, without, without_is_removal, without_stranger};

verus! {

/// A value that can stand in a list. Nodes are named by their place in an arena.
#[derive(Debug)]
pub struct Node<T> {
    pub prev: Option<usize>,
    pub next: Option<usize>,
    pub tail: Option<usize>,
    pub value: T,
}

impl<T> Node<T> {
    pub open spec fn links(self) -> Links {
        Links { prev: self.prev, next: self.next, tail: self.tail }
    }

    pub open spec fn spec_new(value: T) -> Self {
        Node { prev: None, next: None, tail: None, value }
    }

    /// A node outside every list.
    #[verifier::when_used_as_spec(spec_new)]
    pub fn new(value: T) -> (node: Self)
        ensures
            node == Self::spec_new(value),
    {
        Node { prev: None, next: None, tail: None, value }
    }

    pub fn get(&self) -> (value: &T)
        ensures
            *value == self.value,
    {
        &self.value
    }
}

impl<T> From<T> for Node<T> {
    fn from(value: T) -> (node: Self) {
        Node::new(value)
    }
}

impl<T> vstd::std_specs::convert::FromSpecImpl<T> for Node<T> {
    open spec fn obeys_from_spec() -> bool {
        true
    }

    open spec fn from_spec(value: T) -> Self {
        Node::new(value)
    }
}

impl<T: Default> Default for Node<T> {
    fn default() -> (node: Self)
        ensures
            call_ensures(T::default, (), node.value),
            node == Self::spec_new(node.value),
    {
        Node::new(T::default())
    }
}

/// The links of the nodes of an arena.
pub open spec fn links<T>(nodes: Seq<Node<T>>) -> Seq<Links> {
    Seq::new(nodes.len(), |i: int| nodes[i].links())
}

/// The values of the nodes of an arena.
pub open spec fn values<T>(nodes: Seq<Node<T>>) -> Seq<T> {
    Seq::new(nodes.len(), |i: int| nodes[i].value)
}

fn set_prev<T>(nodes: &mut Vec<Node<T>>, node: usize, link: Option<usize>)
    requires
        node < old(nodes).len(),
    ensures
        final(nodes)@ == old(nodes)@.update(
            node as int,
            Node { prev: link, ..old(nodes)@[node as int] },
        ),
{
    nodes[node].prev = link;
}

fn set_next<T>(nodes: &mut Vec<Node<T>>, node: usize, link: Option<usize>)
    requires
        node < old(nodes).len(),
    ensures
        final(nodes)@ == old(nodes)@.update(
            node as int,
            Node { next: link, ..old(nodes)@[node as int] },
        ),
{
    nodes[node].next = link;
}

fn set_tail<T>(nodes: &mut Vec<Node<T>>, node: usize, link: Option<usize>)
    requires
        node < old(nodes).len(),
    ensures
        final(nodes)@ == old(nodes)@.update(
            node as int,
            Node { tail: link, ..old(nodes)@[node as int] },
        ),
{
    nodes[node].tail = link;
}

/// A list of the nodes of an arena, by its first node.
#[derive(Clone, Copy, PartialEq, Eq, Structural, Debug)]
pub struct List {
    pub head: Option<usize>,
}

impl List {
    /// Whether the list holds just the nodes of `queue`, in that order.
    pub open spec fn holds<T>(self, nodes: Seq<Node<T>>, queue: Seq<usize>) -> bool {
        is_list(links(nodes), self.head, queue)
    }

    /// Whether the links of the arena and of the list lead into the arena.
    pub open spec fn valid<T>(self, nodes: Seq<Node<T>>) -> bool {
        &&& in_arena(links(nodes))
        &&& within(self.head, nodes.len())
    }

    pub open spec fn spec_new() -> Self {
        List { head: None }
    }

    #[verifier::when_used_as_spec(spec_new)]
    pub fn new() -> (list: Self)
        ensures
            list == Self::spec_new(),
    {
        List { head: None }
    }

    pub fn is_empty(&self) -> (empty: bool)
        ensures
            empty == (self.head is None),
    {
        self.head.is_none()
    }

    /// Puts a node at the end of the list.
    ///
    /// That is what [`Access::PushBack`] asks of the queue of an operation.
    pub fn push_back<T>(&mut self, nodes: &mut Vec<Node<T>>, node: usize)
        requires
            node < old(nodes).len(),
            old(self).valid(old(nodes)@),
            old(self).head matches Some(first) ==> first != node && links(
                old(nodes)@,
            )[first as int].tail is Some,
        ensures
            links(final(nodes)@) == pushed_back(links(old(nodes)@), old(self).head, node),
            final(self).head == head_after_push(old(self).head, node),
            values(final(nodes)@) == values(old(nodes)@),
            final(nodes).len() == old(nodes).len(),
            final(self).valid(final(nodes)@),
            forall|queue: Seq<usize>|
                old(self).holds(old(nodes)@, queue) && !queue.contains(node)
                    ==> final(self).holds(final(nodes)@, #[trigger] queue.push(node)),
            forall|queue: Seq<usize>|
                #![trigger old(self).holds(old(nodes)@, queue)]
                old(self).holds(old(nodes)@, queue) && !queue.contains(node) ==> exists|
                    after: Seq<usize>,
                |
                    #[trigger] queues(queue, Access::PushBack(node), told(None), after)
                        && final(self).holds(final(nodes)@, after),
    {
        set_next(nodes, node, None);
        set_tail(nodes, node, Some(node));
        match self.head {
            Some(first) => {
                let last = match nodes[first].tail {
                    Some(last) => last,
                    None => first,
                };
                set_prev(nodes, node, Some(last));
                set_next(nodes, last, Some(node));
                set_tail(nodes, first, Some(node));
            },
            None => {
                self.head = Some(node);
                set_prev(nodes, node, None);
            },
        }
        proof {
            let before = links(old(nodes)@);
            assert(links(nodes@) =~= pushed_back(before, old(self).head, node));
            assert(values(nodes@) =~= values(old(nodes)@));
            pushed_back_in_arena(before, old(self).head, node);
            assert forall|queue: Seq<usize>|
                old(self).holds(old(nodes)@, queue) && !queue.contains(node) implies self.holds(
                nodes@,
                #[trigger] queue.push(node),
            ) by {
                push_back_appends(before, old(self).head, queue, node);
            }
            assert forall|queue: Seq<usize>|
                #![trigger old(self).holds(old(nodes)@, queue)]
                old(self).holds(old(nodes)@, queue) && !queue.contains(node) implies exists|
                after: Seq<usize>,
            |
                #[trigger] queues(queue, Access::PushBack(node), told(None), after) && self.holds(
                    nodes@,
                    after,
                ) by {
                assert(self.holds(nodes@, queue.push(node)));
                assert(queues(queue, Access::PushBack(node), told(None), queue.push(node)));
            }
        }
    }

    /// Puts a node at the front of the list. In front of no other node, it keeps
    /// the tail link it has.
    pub fn push_front<T>(&mut self, nodes: &mut Vec<Node<T>>, node: usize)
        requires
            node < old(nodes).len(),
            old(self).valid(old(nodes)@),
        ensures
            final(nodes)@ == pushed_front(old(nodes)@, old(self).head, node),
            final(self).head == Some(node),
            final(self).valid(final(nodes)@),
            forall|queue: Seq<usize>|
                old(self).holds(old(nodes)@, queue) && !queue.contains(node) && (old(self).head is Some || links(old(nodes)@)[node as int].tail == Some(node)) ==> final(self).holds(final(nodes)@, #[trigger] (seq![node] + queue)),
    {
        set_prev(nodes, node, None);
        set_next(nodes, node, self.head);
        let before = self.head;
        self.head = Some(node);
        if let Some(first) = before {
            let last = nodes[first].tail;
            set_tail(nodes, node, last);
            set_prev(nodes, first, Some(node));
        }
        proof {
            assert(nodes@ =~= pushed_front(old(nodes)@, old(self).head, node));
            assert forall|queue: Seq<usize>|
                old(self).holds(old(nodes)@, queue) && !queue.contains(node) && (old(self).head is Some || links(old(nodes)@)[node as int].tail == Some(node)) implies self.holds(nodes@, #[trigger] (seq![node] + queue)) by {
                push_front_prepends(old(nodes)@, *old(self), queue, node);
            }
            let size = nodes.len();
            assert forall|i: int| 0 <= i < size implies {
                &&& within((#[trigger] links(nodes@)[i]).prev, size as nat)
                &&& within(links(nodes@)[i].next, size as nat)
                &&& within(links(nodes@)[i].tail, size as nat)
            } by {
                let before = links(old(nodes)@);
                assert(within(before[i].prev, size as nat));
                assert(within(before[i].next, size as nat));
                assert(within(before[i].tail, size as nat));
                if let Some(first) = old(self).head {
                    assert(within(before[first as int].tail, size as nat));
                }
            }
        }
    }

    /// Takes a node off the list. A node without a tail link stands in none.
    /// Says whether it did.
    ///
    /// That is what [`Access::Remove`] asks of the queue of an operation.
    #[verifier::spinoff_prover]
    #[verifier::rlimit(40)]
    pub fn try_remove<T>(&mut self, nodes: &mut Vec<Node<T>>, node: usize) -> (gone: bool)
        requires
            node < old(nodes).len(),
            old(self).valid(old(nodes)@),
        ensures
            gone == (old(self).head is Some && old(nodes)@[node as int].tail is Some),
            gone ==> {
                &&& links(final(nodes)@) == removed(links(old(nodes)@), old(self).head->0, node)
                &&& final(self).head == head_after_removal(
                    links(old(nodes)@),
                    old(self).head->0,
                    node,
                )
            },
            !gone ==> *final(nodes) == *old(nodes) && *final(self) == *old(self),
            values(final(nodes)@) == values(old(nodes)@),
            final(nodes).len() == old(nodes).len(),
            final(self).valid(final(nodes)@),
            forall|queue: Seq<usize>, k: int|
                old(self).holds(old(nodes)@, queue) && 0 <= k < queue.len() && queue[k] == node
                    ==> gone && final(self).holds(final(nodes)@, #[trigger] queue.remove(k)),
            forall|queue: Seq<usize>|
                #![trigger old(self).holds(old(nodes)@, queue)]
                old(self).holds(old(nodes)@, queue) && (queue.contains(node)
                    || old(nodes)@[node as int].tail is None) ==> exists|after: Seq<usize>|
                    #[trigger] queues(
                        queue,
                        Access::Remove(node),
                        Reply { ok: gone, value: 0 },
                        after,
                    ) && final(self).holds(final(nodes)@, after),
    {
        proof {
            assert forall|queue: Seq<usize>|
                #![trigger old(self).holds(old(nodes)@, queue)]
                old(self).holds(old(nodes)@, queue) && (self.head is None
                    || old(nodes)@[node as int].tail is None) implies exists|after: Seq<usize>|
                #[trigger] queues(
                    queue,
                    Access::Remove(node),
                    Reply { ok: false, value: 0 },
                    after,
                ) && self.holds(nodes@, after) by {
                assert(!queue.contains(node)) by {
                    if queue.contains(node) {
                        let k = choose|k: int| 0 <= k < queue.len() && queue[k] == node;
                        assert(links(nodes@)[queue[k] as int].tail is Some);
                    }
                }
                without_stranger(queue, node);
                assert(queues(queue, Access::Remove(node), Reply { ok: false, value: 0 }, queue));
            }
        }
        if nodes[node].tail.is_none() {
            return false;
        }
        let first = match self.head {
            Some(first) => first,
            None => return false,
        };
        let ghost before = links(nodes@);
        let prev = nodes[node].prev;
        let next = nodes[node].next;
        proof {
            assert(within(before[node as int].prev, before.len()));
            assert(within(before[node as int].next, before.len()));
            assert(within(before[first as int].tail, before.len()));
        }
        if let Some(prev) = prev {
            set_next(nodes, prev, next);
        }
        if let Some(next) = next {
            set_prev(nodes, next, prev);
        }
        if first == node {
            self.head = next;
            if let Some(new_first) = next {
                let last = nodes[first].tail;
                set_tail(nodes, new_first, last);
            }
        } else if nodes[first].tail == Some(node) {
            set_tail(nodes, first, prev);
        }
        set_next(nodes, node, None);
        set_prev(nodes, node, None);
        set_tail(nodes, node, None);
        proof {
            assert(links(nodes@) =~= removed(before, first, node));
            assert(values(nodes@) =~= values(old(nodes)@));
            removed_in_arena(before, first, node);
            assert forall|queue: Seq<usize>, k: int|
                old(self).holds(old(nodes)@, queue) && 0 <= k < queue.len() && queue[k]
                    == node implies self.holds(nodes@, #[trigger] queue.remove(k)) by {
                remove_drops(before, first, queue, k);
            }
            assert forall|queue: Seq<usize>|
                #![trigger old(self).holds(old(nodes)@, queue)]
                old(self).holds(old(nodes)@, queue) && queue.contains(node) implies exists|
                after: Seq<usize>,
            |
                #[trigger] queues(
                    queue,
                    Access::Remove(node),
                    Reply { ok: true, value: 0 },
                    after,
                ) && self.holds(nodes@, after) by {
                let k = choose|k: int| 0 <= k < queue.len() && queue[k] == node;
                without_is_removal(queue, k);
                assert(self.holds(nodes@, queue.remove(k)));
                assert(queues(
                    queue,
                    Access::Remove(node),
                    Reply { ok: true, value: 0 },
                    without(queue, node),
                ));
            }
        }
        true
    }

    /// Takes the first node off the list.
    ///
    /// That is what [`Access::PopFront`] asks of the queue of an operation.
    pub fn pop_front<T>(&mut self, nodes: &mut Vec<Node<T>>) -> (popped: Option<usize>)
        requires
            old(self).valid(old(nodes)@),
            old(self).head matches Some(first) ==> old(nodes)@[first as int].tail is Some,
        ensures
            popped == old(self).head,
            old(self).head matches Some(first) ==> {
                &&& links(final(nodes)@) == removed(links(old(nodes)@), first, first)
                &&& final(self).head == head_after_removal(links(old(nodes)@), first, first)
            },
            popped is None ==> *final(nodes) == *old(nodes) && *final(self) == *old(self),
            values(final(nodes)@) == values(old(nodes)@),
            final(nodes).len() == old(nodes).len(),
            final(self).valid(final(nodes)@),
            forall|queue: Seq<usize>|
                old(self).holds(old(nodes)@, queue) && queue.len() > 0 ==> popped == Some(queue[0])
                    && final(self).holds(final(nodes)@, #[trigger] queue.skip(1)),
            forall|queue: Seq<usize>|
                #![trigger old(self).holds(old(nodes)@, queue)]
                old(self).holds(old(nodes)@, queue) ==> exists|after: Seq<usize>|
                    #[trigger] queues(queue, Access::PopFront, told(popped), after)
                        && final(self).holds(final(nodes)@, after),
    {
        match self.head {
            Some(first) => {
                let gone = self.try_remove(nodes, first);
                proof {
                    assert forall|queue: Seq<usize>|
                        old(self).holds(old(nodes)@, queue) && queue.len() > 0 implies self.holds(
                        nodes@,
                        #[trigger] queue.skip(1),
                    ) by {
                        assert(queue[0] == first);
                        assert(queue.remove(0) =~= queue.skip(1));
                    }
                    assert forall|queue: Seq<usize>|
                        #![trigger old(self).holds(old(nodes)@, queue)]
                        old(self).holds(old(nodes)@, queue) implies exists|after: Seq<usize>|
                        #[trigger] queues(queue, Access::PopFront, told(Some(first)), after)
                            && self.holds(nodes@, after) by {
                        assert(self.holds(nodes@, queue.skip(1)));
                        assert(queues(queue, Access::PopFront, told(Some(first)), queue.skip(1)));
                    }
                }
                Some(first)
            },
            None => {
                proof {
                    assert forall|queue: Seq<usize>|
                        #![trigger old(self).holds(old(nodes)@, queue)]
                        old(self).holds(old(nodes)@, queue) implies exists|after: Seq<usize>|
                        #[trigger] queues(queue, Access::PopFront, told(None), after)
                            && self.holds(nodes@, after) by {
                        assert(queues(queue, Access::PopFront, told(None), queue));
                    }
                }
                None
            },
        }
    }

    /// Takes the last node off the list.
    pub fn pop_back<T>(&mut self, nodes: &mut Vec<Node<T>>) -> (popped: Option<usize>)
        requires
            old(self).valid(old(nodes)@),
            old(self).head matches Some(first) ==> links(old(nodes)@)[first as int].tail is Some,
            old(self).head matches Some(first) ==> old(nodes)@[old(nodes)@[first as int].tail->0 as int].tail
                is Some,
        ensures
            popped == match old(self).head {
                Some(first) => links(old(nodes)@)[first as int].tail,
                None => None,
            },
            old(self).head matches Some(first) ==> {
                &&& links(final(nodes)@) == removed(links(old(nodes)@), first, popped->0)
                &&& final(self).head == head_after_removal(links(old(nodes)@), first, popped->0)
            },
            popped is None ==> *final(nodes) == *old(nodes) && *final(self) == *old(self),
            values(final(nodes)@) == values(old(nodes)@),
            final(nodes).len() == old(nodes).len(),
            final(self).valid(final(nodes)@),
            forall|queue: Seq<usize>|
                old(self).holds(old(nodes)@, queue) && queue.len() > 0 ==> popped == Some(
                    queue.last(),
                ) && final(self).holds(final(nodes)@, #[trigger] queue.drop_last()),
    {
        match self.head {
            Some(first) => {
                proof {
                    assert(within(links(nodes@)[first as int].tail, nodes@.len()));
                }
                let last = match nodes[first].tail {
                    Some(last) => last,
                    None => first,
                };
                let gone = self.try_remove(nodes, last);
                proof {
                    assert forall|queue: Seq<usize>|
                        old(self).holds(old(nodes)@, queue) && queue.len() > 0 implies self.holds(
                        nodes@,
                        #[trigger] queue.drop_last(),
                    ) by {
                        assert(links(old(nodes)@)[queue[0] as int].tail == Some(queue.last()));
                        assert(queue[queue.len() - 1] == last);
                        assert(queue.remove(queue.len() - 1) =~= queue.drop_last());
                    }
                }
                Some(last)
            },
            None => None,
        }
    }
}

impl Default for List {
    fn default() -> (list: Self)
        ensures
            list == Self::spec_new(),
    {
        Self::new()
    }
}

/// The nodes once a node was put at the front of a list.
pub open spec fn pushed_front<T>(
    nodes: Seq<Node<T>>,
    head: Option<usize>,
    node: usize,
) -> Seq<Node<T>> {
    match head {
        Some(first) => {
            let nodes = nodes.update(
                node as int,
                Node {
                    prev: None,
                    next: head,
                    tail: nodes[first as int].tail,
                    ..nodes[node as int]
                },
            );
            nodes.update(first as int, Node { prev: Some(node), ..nodes[first as int] })
        },
        None => nodes.update(
            node as int,
            Node { prev: None, next: None, ..nodes[node as int] },
        ),
    }
}

/// A node that is put at the front of a list is its first one.
proof fn push_front_prepends<T>(
    nodes: Seq<Node<T>>,
    list: List,
    queue: Seq<usize>,
    node: usize,
)
    requires
        list.holds(nodes, queue),
        node < nodes.len(),
        !queue.contains(node),
        (list.head is Some || links(nodes)[node as int].tail == Some(node)),
    ensures
        (List { head: Some(node) }).holds(
            pushed_front(nodes, list.head, node),
            seq![node] + queue,
        ),
{
    let after = pushed_front(nodes, list.head, node);
    let longer = seq![node] + queue;
    assert(links(after).len() == links(nodes).len());
    assert forall|i: int| 0 <= i < queue.len() implies #[trigger] queue[i] != node by {
        assert(queue.contains(queue[i]));
    }
    if queue.len() > 0 {
        assert(links(nodes)[queue[0] as int].tail is Some);
        assert(links(nodes)[queue[0] as int] == nodes[queue[0] as int].links());
        assert forall|i: int| 0 < i < queue.len() implies #[trigger] queue[i] != queue[0] by {
        }
    }
    assert forall|i: int| 1 <= i < longer.len() implies #[trigger] longer[i] == queue[i - 1] by {
    }
    assert forall|i: int| 0 <= i < longer.len() implies #[trigger] longer[i] < nodes.len() by {
        if i > 0 {
            assert(queue[i - 1] < links(nodes).len());
        }
    }
    assert forall|i: int| 0 <= i < longer.len() implies {
        &&& links(after)[(#[trigger] longer[i]) as int].prev == if i == 0 {
            None
        } else {
            Some(longer[i - 1])
        }
        &&& links(after)[longer[i] as int].next == if i == longer.len() - 1 {
            None
        } else {
            Some(longer[i + 1])
        }
        &&& links(after)[longer[i] as int].tail is Some
    } by {
        if i > 0 {
            let old_links = links(nodes)[queue[i - 1] as int];
            assert(old_links == nodes[queue[i - 1] as int].links());
            assert(old_links.prev == if i - 1 == 0 {
                None
            } else {
                Some(queue[i - 2])
            });
            assert(old_links.tail is Some);
        }
    }
    assert(longer.no_duplicates()) by {
        assert forall|i: int, j: int|
            0 <= i < longer.len() && 0 <= j < longer.len() && i != j implies longer[i]
            != longer[j] by {
        }
    }
}

} // verus!
