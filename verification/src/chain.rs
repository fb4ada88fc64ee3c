//! Doubly linked lists through nodes that stand in an arena.
//!
//! A node is named by its place in the arena. Its prev and next links lead to
//! its neighbours; the tail link of the first node of a list leads to the last
//! one. [`is_list`] says which sequence of nodes a list holds, and the lemmas
//! say what inserting and removing a node does to that sequence.
use vstd::prelude::*;

verus! {

/// The links of a node.
pub struct Links {
    pub prev: Option<usize>,
    pub next: Option<usize>,
    pub tail: Option<usize>,
}

pub open spec fn set_prev(links: Seq<Links>, node: usize, link: Option<usize>) -> Seq<Links> {
    links.update(node as int, Links { prev: link, ..links[node as int] })
}

pub open spec fn set_next(links: Seq<Links>, node: usize, link: Option<usize>) -> Seq<Links> {
    links.update(node as int, Links { next: link, ..links[node as int] })
}

pub open spec fn set_tail(links: Seq<Links>, node: usize, link: Option<usize>) -> Seq<Links> {
    links.update(node as int, Links { tail: link, ..links[node as int] })
}

/// Whether a link leads into an arena of the given size, if it leads anywhere.
pub open spec fn within(link: Option<usize>, size: nat) -> bool {
    link matches Some(node) ==> node < size
}

/// Whether every link leads into the arena.
pub open spec fn in_arena(links: Seq<Links>) -> bool {
    forall|i: int|
        0 <= i < links.len() ==> {
            &&& within((#[trigger] links[i]).prev, links.len())
            &&& within(links[i].next, links.len())
            &&& within(links[i].tail, links.len())
        }
}

/// Whether the list with the given first node holds just the nodes of `queue`,
/// in that order.
pub open spec fn is_list(links: Seq<Links>, head: Option<usize>, queue: Seq<usize>) -> bool {
    &&& head == if queue.len() == 0 {
        None
    } else {
        Some(queue[0])
    }
    &&& queue.no_duplicates()
    &&& forall|i: int| 0 <= i < queue.len() ==> #[trigger] queue[i] < links.len()
    &&& forall|i: int|
        0 <= i < queue.len() ==> links[(#[trigger] queue[i]) as int].prev == if i == 0 {
            None
        } else {
            Some(queue[i - 1])
        }
    &&& forall|i: int|
        0 <= i < queue.len() ==> links[(#[trigger] queue[i]) as int].next == if i
            == queue.len() - 1 {
            None
        } else {
            Some(queue[i + 1])
        }
    &&& forall|i: int| 0 <= i < queue.len() ==> links[(#[trigger] queue[i]) as int].tail is Some
    &&& queue.len() > 0 ==> links[queue[0] as int].tail == Some(queue.last())
}

/// The links once a node was put at the end of a list.
pub open spec fn pushed_back(links: Seq<Links>, head: Option<usize>, node: usize) -> Seq<Links> {
    let links = set_tail(set_next(links, node, None), node, Some(node));
    match head {
        Some(first) => {
            let last = links[first as int].tail->0;
            set_prev(
                set_tail(set_next(links, last, Some(node)), first, Some(node)),
                node,
                Some(last),
            )
        },
        None => set_prev(links, node, None),
    }
}

/// The first node of a list once a node was put at its end.
pub open spec fn head_after_push(head: Option<usize>, node: usize) -> Option<usize> {
    match head {
        Some(first) => Some(first),
        None => Some(node),
    }
}

/// The links once the neighbours of a node were joined.
pub open spec fn joined(links: Seq<Links>, node: usize) -> Seq<Links> {
    let prev = links[node as int].prev;
    let next = links[node as int].next;
    let links = match prev {
        Some(before) => set_next(links, before, next),
        None => links,
    };
    match next {
        Some(after) => set_prev(links, after, prev),
        None => links,
    }
}

/// The links once a node was taken off the list with the given first node.
pub open spec fn removed(links: Seq<Links>, first: usize, node: usize) -> Seq<Links> {
    let prev = links[node as int].prev;
    let next = links[node as int].next;
    let links = joined(links, node);
    let links = if first == node {
        match next {
            Some(after) => set_tail(links, after, links[first as int].tail),
            None => links,
        }
    } else if links[first as int].tail == Some(node) {
        set_tail(links, first, prev)
    } else {
        links
    };
    links.update(node as int, Links { prev: None, next: None, tail: None })
}

/// The first node of a list once a node was taken off it.
pub open spec fn head_after_removal(links: Seq<Links>, first: usize, node: usize) -> Option<usize> {
    if first == node {
        links[node as int].next
    } else {
        Some(first)
    }
}

/// Setting links keeps them in the arena, as long as the new ones lead there.
pub proof fn pushed_back_in_arena(links: Seq<Links>, head: Option<usize>, node: usize)
    requires
        in_arena(links),
        node < links.len(),
        within(head, links.len()),
        head matches Some(first) ==> first != node && links[first as int].tail is Some,
    ensures
        pushed_back(links, head, node).len() == links.len(),
        in_arena(pushed_back(links, head, node)),
{
}

pub proof fn removed_in_arena(links: Seq<Links>, first: usize, node: usize)
    requires
        in_arena(links),
        node < links.len(),
        first < links.len(),
    ensures
        removed(links, first, node).len() == links.len(),
        in_arena(removed(links, first, node)),
        within(head_after_removal(links, first, node), links.len()),
{
}

/// A node that is put at the end of a list is its last one.
pub proof fn push_back_appends(
    links: Seq<Links>,
    head: Option<usize>,
    queue: Seq<usize>,
    node: usize,
)
    requires
        is_list(links, head, queue),
        node < links.len(),
        !queue.contains(node),
    ensures
        is_list(
            pushed_back(links, head, node),
            head_after_push(head, node),
            queue.push(node),
        ),
{
    let after = pushed_back(links, head, node);
    let longer = queue.push(node);
    assert forall|i: int| 0 <= i < queue.len() implies queue[i] != node by {
        assert(queue.contains(queue[i]));
    }
    if queue.len() > 0 {
        let last = queue.last();
        assert(links[queue[0] as int].tail == Some(last));
        assert forall|i: int| 0 <= i < queue.len() - 1 implies #[trigger] queue[i] != last by {
            assert(queue[i] != queue[queue.len() - 1]);
        }
        assert forall|i: int| 0 < i < queue.len() implies #[trigger] queue[i] != queue[0] by {
        }
    }
    assert forall|i: int| 0 <= i < longer.len() implies after[(#[trigger] longer[i]) as int].prev
        == if i == 0 {
        None
    } else {
        Some(longer[i - 1])
    } by {
        if i < queue.len() {
            assert(longer[i] == queue[i]);
        }
    }
    assert forall|i: int| 0 <= i < longer.len() implies after[(#[trigger] longer[i]) as int].next
        == if i == longer.len() - 1 {
        None
    } else {
        Some(longer[i + 1])
    } by {
        if i < queue.len() {
            assert(longer[i] == queue[i]);
        }
    }
    assert forall|i: int| 0 <= i < longer.len() implies after[(#[trigger] longer[i]) as int].tail
        is Some by {
        if i < queue.len() {
            assert(longer[i] == queue[i]);
        }
    }
    assert(longer.no_duplicates());
}

/// A node that is taken off a list leaves the others in their order.
#[verifier::spinoff_prover]
#[verifier::rlimit(40)]
pub proof fn remove_drops(
    links: Seq<Links>,
    first: usize,
    queue: Seq<usize>,
    k: int,
)
    requires
        is_list(links, Some(first), queue),
        0 <= k < queue.len(),
    ensures
        is_list(
            removed(links, first, queue[k]),
            head_after_removal(links, first, queue[k]),
            queue.remove(k),
        ),
{
    let node = queue[k];
    let after = removed(links, first, node);
    let shorter = queue.remove(k);
    assert(first == queue[0]);
    assert forall|i: int| 0 <= i < queue.len() && i != k implies #[trigger] queue[i] != node by {
    }
    assert forall|i: int| 0 <= i < shorter.len() implies #[trigger] shorter[i] == queue[if i < k {
        i
    } else {
        i + 1
    }] by {
    }
    assert forall|i: int| 0 <= i < shorter.len() implies #[trigger] shorter[i] < after.len() by {
        let j = if i < k {
            i
        } else {
            i + 1
        };
        assert(queue[j] < links.len());
    }
    if queue.len() > 1 {
        assert(queue[0] != queue.last());
        assert(links[queue[0] as int].tail == Some(queue.last()));
    }
    assert forall|i: int| 0 <= i < shorter.len() implies after[(#[trigger] shorter[i]) as int].prev
        == if i == 0 {
        None
    } else {
        Some(shorter[i - 1])
    } by {
        let j = if i < k {
            i
        } else {
            i + 1
        };
        assert(links[queue[j] as int].prev == if j == 0 {
            None
        } else {
            Some(queue[j - 1])
        });
        assert(links[queue[k] as int].next == if k == queue.len() - 1 {
            None
        } else {
            Some(queue[k + 1])
        });
    }
    assert forall|i: int| 0 <= i < shorter.len() implies after[(#[trigger] shorter[i]) as int].next
        == if i == shorter.len() - 1 {
        None
    } else {
        Some(shorter[i + 1])
    } by {
        let j = if i < k {
            i
        } else {
            i + 1
        };
        assert(links[queue[j] as int].next == if j == queue.len() - 1 {
            None
        } else {
            Some(queue[j + 1])
        });
        assert(links[queue[k] as int].prev == if k == 0 {
            None
        } else {
            Some(queue[k - 1])
        });
    }
    assert forall|i: int| 0 <= i < shorter.len() implies after[(#[trigger] shorter[i]) as int].tail
        is Some by {
        let j = if i < k {
            i
        } else {
            i + 1
        };
        assert(links[queue[j] as int].tail is Some);
        assert(links[queue[0] as int].tail is Some);
    }
    assert(shorter.no_duplicates()) by {
        assert forall|i: int, j: int|
            0 <= i < shorter.len() && 0 <= j < shorter.len() && i != j implies shorter[i]
            != shorter[j] by {
        }
    }
}

/// Taking a node off the end undoes putting it there: the list holds what it
/// held before.
pub proof fn push_back_is_undone(
    links: Seq<Links>,
    head: Option<usize>,
    queue: Seq<usize>,
    node: usize,
)
    requires
        is_list(links, head, queue),
        node < links.len(),
        !queue.contains(node),
    ensures
        ({
            let pushed = pushed_back(links, head, node);
            let first = head_after_push(head, node)->0;
            is_list(removed(pushed, first, node), head_after_removal(pushed, first, node), queue)
        }),
{
    push_back_appends(links, head, queue, node);
    let longer = queue.push(node);
    remove_drops(
        pushed_back(links, head, node),
        head_after_push(head, node)->0,
        longer,
        queue.len() as int,
    );
    assert(longer.remove(queue.len() as int) =~= queue);
}

/// A list holds one sequence of nodes and no other.
pub proof fn list_is_unique(
    links: Seq<Links>,
    head: Option<usize>,
    one: Seq<usize>,
    two: Seq<usize>,
)
    requires
        is_list(links, head, one),
        is_list(links, head, two),
    ensures
        one == two,
{
    same_prefix(links, head, one, two, one.len() as int);
    same_prefix(links, head, two, one, two.len() as int);
    assert(one =~= two);
}

proof fn same_prefix(
    links: Seq<Links>,
    head: Option<usize>,
    one: Seq<usize>,
    two: Seq<usize>,
    n: int,
)
    requires
        is_list(links, head, one),
        is_list(links, head, two),
        0 <= n <= one.len(),
    ensures
        n <= two.len(),
        forall|i: int| 0 <= i < n ==> one[i] == two[i],
    decreases n,
{
    if n == 1 {
        assert(head == Some(one[0]));
    } else if n > 1 {
        same_prefix(links, head, one, two, n - 1);
        assert(links[one[n - 2] as int].next == Some(one[n - 1]));
        assert(links[two[n - 2] as int].next == if n - 2 == two.len() - 1 {
            None
        } else {
            Some(two[n - 1])
        });
    }
}

/// Taking off a node that stands alone, outside the list, changes the list in
/// nothing.
pub proof fn remove_stranger(links: Seq<Links>, first: usize, queue: Seq<usize>, node: usize)
    requires
        is_list(links, Some(first), queue),
        node < links.len(),
        !queue.contains(node),
        links[node as int].prev is None,
        links[node as int].next is None,
    ensures
        is_list(
            removed(links, first, node),
            head_after_removal(links, first, node),
            queue,
        ),
{
    assert forall|i: int| 0 <= i < queue.len() implies #[trigger] queue[i] != node by {
        assert(queue.contains(queue[i]));
    }
}

} // verus!
