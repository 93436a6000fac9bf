//! A minimal doubly linked list of `i32` values: append at the tail, indexed
//! lookup, and a size query.
//!
//! The nodes live in an arena: a single `Vec` owned by the list, with
//! `prev`/`next`/`head`/`tail` held as optional indices into it rather than as
//! shared references. Every node is linked to both of its neighbours, the
//! links are kept symmetric, and lookup walks the chain from whichever end is
//! closer to the requested position.

use vstd::prelude::*;

verus! {

/// One element record: a value plus links to its immediate neighbours.
/// `prev` is absent exactly for the head node, `next` exactly for the tail.
#[derive(Clone, Copy)]
struct Node {
    value: i32,
    prev: Option<usize>,
    next: Option<usize>,
}

/// A doubly linked list of `i32` values, viewed abstractly as the sequence of
/// values in order from head to tail.
pub struct List {
    size: usize,
    head: Option<usize>,
    tail: Option<usize>,
    nodes: Vec<Node>,
}

impl View for List {
    type V = Seq<i32>;

    closed spec fn view(&self) -> Seq<i32> {
        self.nodes@.map(|i: int, n: Node| n.value)
    }
}

impl List {
    /// How many nodes the list links together.
    pub closed spec fn node_count(&self) -> nat {
        self.nodes@.len()
    }

    /// The forward link of the node at position `i`: the position of its
    /// successor, or absent for the tail node.
    pub closed spec fn next_of(&self, i: int) -> Option<usize> {
        self.nodes@[i].next
    }

    /// The backward link of the node at position `i`: the position of its
    /// predecessor, or absent for the head node.
    pub closed spec fn prev_of(&self, i: int) -> Option<usize> {
        self.nodes@[i].prev
    }

    /// The list's link to its first node, absent when the list is empty.
    pub closed spec fn head_link(&self) -> Option<usize> {
        self.head
    }

    /// The list's link to its last node, absent when the list is empty.
    pub closed spec fn tail_link(&self) -> Option<usize> {
        self.tail
    }

    /// Internal consistency, held by every value of the type: the count
    /// matches the arena, `head` and `tail` point at the ends exactly when
    /// the list is non-empty, and every node's links point at its
    /// neighbours.
    #[verifier::type_invariant]
    pub closed spec fn wf(&self) -> bool {
        &&& self.size == self.nodes@.len()
        &&& self.head == (if self.nodes@.len() == 0 {
            None::<usize>
        } else {
            Some(0usize)
        })
        &&& self.tail == (if self.nodes@.len() == 0 {
            None::<usize>
        } else {
            Some((self.nodes@.len() - 1) as usize)
        })
        &&& forall|i: int|
            0 <= i < self.nodes@.len() ==> (#[trigger] self.nodes@[i]).prev == (if i == 0 {
                None::<usize>
            } else {
                Some((i - 1) as usize)
            })
        &&& forall|i: int|
            0 <= i < self.nodes@.len() ==> (#[trigger] self.nodes@[i]).next == (if i + 1
            == self.nodes@.len() {
                None::<usize>
            } else {
                Some((i + 1) as usize)
            })
    }

    /// Creates a new empty list.
    pub fn new() -> (l: List)
        ensures
            l@ == Seq::<i32>::empty(),
    {
        let nodes: Vec<Node> = Vec::new();
        let l = List { size: 0, head: None, tail: None, nodes };
        proof {
            assert(l@ =~= Seq::<i32>::empty());
        }
        l
    }

    /// Pushes a new value onto the back of the list. Always succeeds; every
    /// value already in the list stays at its index, and the new value
    /// becomes the last.
    pub fn push_back(&mut self, value: i32)
        ensures
            final(self)@ == old(self)@.push(value),
    {
        proof {
            use_type_invariant(&*self);
        }
        let mut tmp = List { size: 0, head: None, tail: None, nodes: Vec::new() };
        std::mem::swap(self, &mut tmp);
        let List { head, tail, mut nodes, .. } = tmp;

        let idx: usize = nodes.len();
        let node = Node { value, prev: tail, next: None };
        nodes.push(node);

        match tail {
            Some(prev_tail) => {
                // Link the old tail forward to the new node.
                let mut linked: Node = nodes[prev_tail];
                linked.next = Some(idx);
                nodes[prev_tail] = linked;
                let new_size: usize = nodes.len();
                let result = List { size: new_size, head, tail: Some(idx), nodes };
                proof {
                    assert(result@ =~= old(self)@.push(value));
                }
                *self = result;
            },
            None => {
                let new_size: usize = nodes.len();
                let result = List { size: new_size, head: Some(idx), tail: Some(idx), nodes };
                proof {
                    assert(result@ =~= old(self)@.push(value));
                }
                *self = result;
            },
        }
    }

    /// Gets the value at position `index`, counting from the head, by copy.
    /// Returns the value exactly when `index` is in bounds; an out-of-range
    /// index yields `None`, never an error.
    pub fn get(&self, index: usize) -> (r: Option<i32>)
        ensures
            r == (if index < self@.len() {
                Some(self@[index as int])
            } else {
                None::<i32>
            }),
    {
        proof {
            use_type_invariant(&*self);
        }
        match self.get_link_at(index) {
            Some(node) => Some(self.nodes[node].value),
            None => None,
        }
    }

    /// Finds the position of the `index`-th node by walking the chain from
    /// whichever end is closer, following `next` links from the head or
    /// `prev` links from the tail.
    fn get_link_at(&self, index: usize) -> (r: Option<usize>)
        ensures
            r == (if index < self.size {
                Some(index)
            } else {
                None::<usize>
            }),
    {
        proof {
            use_type_invariant(&*self);
        }
        if index >= self.len() {
            return None;
        }
        let direction_from_head = index <= self.size / 2;

        let steps: usize = if direction_from_head {
            index
        } else {
            self.size - index - 1
        };

        let mut current: usize = if direction_from_head {
            self.head.unwrap()
        } else {
            self.tail.unwrap()
        };

        let mut step: usize = 0;
        while step < steps
            invariant
                self.wf(),
                index < self.size,
                steps == (if direction_from_head {
                    index as int
                } else {
                    self.size - index - 1
                }),
                step <= steps,
                direction_from_head ==> current as int == step,
                !direction_from_head ==> current as int == self.size - 1 - step,
            decreases steps - step,
        {
            current = if direction_from_head {
                self.nodes[current].next.unwrap()
            } else {
                self.nodes[current].prev.unwrap()
            };
            step = step + 1;
        }
        Some(current)
    }

    /// Returns the number of values in the list.
    pub fn len(&self) -> (r: usize)
        ensures
            r == self@.len(),
    {
        proof {
            use_type_invariant(&*self);
        }
        self.size
    }

    /// Link symmetry: for every adjacent pair of nodes, the forward link of
    /// the earlier node and the backward link of the later node reference
    /// each other; the head node has no backward link, the tail node no
    /// forward link, and both end links are present exactly when the list is
    /// non-empty. `wf` is the type invariant, so this holds of every list, in
    /// particular after every append.
    pub proof fn lemma_link_symmetry(&self)
        requires
            self.wf(),
        ensures
            self.node_count() == self@.len(),
            self.head_link() is Some <==> self.node_count() > 0,
            self.tail_link() is Some <==> self.node_count() > 0,
            self.head_link() matches Some(h) ==> self.prev_of(h as int) is None,
            self.tail_link() matches Some(t) ==> self.next_of(t as int) is None,
            forall|i: int, j: int|
                0 <= i < self.node_count() && 0 <= j < self.node_count()
                    ==> ((#[trigger] self.next_of(i)) == Some(j as usize)
                    <==> (#[trigger] self.prev_of(j)) == Some(i as usize)),
    {
    }
}

/// The view that a run of appends leaves behind: each value of `vs`, pushed
/// in order onto a list whose view starts as `s`.
pub open spec fn view_after_appends(s: Seq<i32>, vs: Seq<i32>) -> Seq<i32>
    decreases vs.len(),
{
    if vs.len() == 0 {
        s
    } else {
        view_after_appends(s.push(vs[0]), vs.subrange(1, vs.len() as int))
    }
}

/// Appending a run of values in order changes a list's view by exactly
/// concatenating them: no value already present moves, and the run lands at
/// the end in order.
pub proof fn lemma_view_after_appends(s: Seq<i32>, vs: Seq<i32>)
    ensures
        view_after_appends(s, vs) == s + vs,
    decreases vs.len(),
{
    if vs.len() == 0 {
        assert(s + vs =~= s);
    } else {
        lemma_view_after_appends(s.push(vs[0]), vs.subrange(1, vs.len() as int));
        assert(s.push(vs[0]) + vs.subrange(1, vs.len() as int) =~= s + vs);
    }
}

/// Appending the values `vs[0] .. vs[n-1]` in order onto a fresh empty list
/// leaves a list of length `n` holding `vs[i]` at index `i`: by the contracts
/// of `push_back`, `len` and `get`, `len()` then returns `n` and `get(i)`
/// returns `Some(vs[i])` for every `i < n`.
pub proof fn lemma_appends_from_empty(vs: Seq<i32>)
    ensures
        view_after_appends(Seq::<i32>::empty(), vs) == vs,
        view_after_appends(Seq::<i32>::empty(), vs).len() == vs.len(),
        forall|i: int|
            0 <= i < vs.len() ==> view_after_appends(Seq::<i32>::empty(), vs)[i] == vs[i],
{
    lemma_view_after_appends(Seq::<i32>::empty(), vs);
    assert(Seq::<i32>::empty() + vs =~= vs);
}

/// An append never mutates earlier entries: after pushing `v` onto a list
/// whose view is `s`, every previously inserted value still stands at its
/// original index, the length has grown by one, and `v` is the last value.
pub proof fn lemma_append_preserves_prefix(s: Seq<i32>, v: i32)
    ensures
        s.push(v).len() == s.len() + 1,
        forall|i: int| 0 <= i < s.len() ==> s.push(v)[i] == s[i],
        s.push(v)[s.len() as int] == v,
{
}

} // verus!
