//! A singly-linked stack of nodes in which the head and every `next` link
//! is an exchange slot over nodes, supporting push at the head and a
//! one-shot drain into a vector.
//!
//! The link type [`Link`] carries the same three states and the same
//! exchange contract as [`crate::AtomicBox`], specialized to nodes: a
//! recursive datatype cannot instantiate a generic slot with its own node
//! type, so the slot is restated here, mutually recursive with the node.
//! Teardown is iterative, never recursive, so arbitrarily long chains are
//! reclaimed without unbounded stack growth.

use vstd::prelude::*;

verus! {

/// One exchange slot over nodes: no node, the reserved placeholder (a node
/// that exists but is not yet linked), or a held node.
enum Link<T> {
    Null,
    Invalid,
    Node(Box<Node<T>>),
}

struct Node<T> {
    elem: T,
    next: Link<T>,
}

impl<T> Link<T> {
    /// Stores a new node and returns the previously held one, if any: the
    /// single exchange through which every link mutation goes.
    fn swap(&mut self, new: Box<Node<T>>) -> (r: Option<Box<Node<T>>>)
        ensures
            *final(self) == Link::Node(new),
            (match *old(self) {
                Link::Node(n) => r == Some(n),
                _ => r is None,
            }),
        opens_invariants none
        no_unwind
    {
        self.exchange(Link::Node(new))
    }

    /// Removes and returns the held node, if any, leaving the link in the
    /// "no node" state.
    fn take(&mut self) -> (r: Option<Box<Node<T>>>)
        ensures
            *final(self) == Link::<T>::Null,
            (match *old(self) {
                Link::Node(n) => r == Some(n),
                _ => r is None,
            }),
        opens_invariants none
        no_unwind
    {
        self.exchange(Link::Null)
    }

    fn exchange(&mut self, new: Link<T>) -> (r: Option<Box<Node<T>>>)
        ensures
            *final(self) == new,
            (match *old(self) {
                Link::Node(n) => r == Some(n),
                _ => r is None,
            }),
        opens_invariants none
        no_unwind
    {
        let mut tmp = new;
        core::mem::swap(self, &mut tmp);
        match tmp {
            Link::Node(n) => Some(n),
            _ => None,
        }
    }
}

/// The elements reachable from a link, head first. A sentinel ends the
/// chain, so the sequence is total over every link state.
spec fn chain_elems<T>(c: Link<T>) -> Seq<T>
    decreases c,
{
    match c {
        Link::Node(node) => seq![node.elem] + chain_elems(node.next),
        _ => Seq::empty(),
    }
}

/// A well-formed chain ends in the "no node" sentinel and never holds the
/// placeholder: a placeholder link marks a node whose publication is not
/// complete, and no completed operation leaves one behind.
spec fn chain_wf<T>(c: Link<T>) -> bool
    decreases c,
{
    match c {
        Link::Null => true,
        Link::Invalid => false,
        Link::Node(node) => chain_wf(node.next),
    }
}

/// The elements hanging off a node taken out of a link.
spec fn taken_elems<T>(c: Option<Box<Node<T>>>) -> Seq<T> {
    match c {
        Some(node) => seq![node.elem] + chain_elems(node.next),
        None => Seq::empty(),
    }
}

spec fn taken_wf<T>(c: Option<Box<Node<T>>>) -> bool {
    match c {
        Some(node) => chain_wf(node.next),
        None => true,
    }
}

/// A singly-linked stack whose head and links are exchange slots. Traversal
/// from the head visits each live node exactly once; single ownership of
/// each node by the one link that references it rules out cycles.
pub struct AtomicList<T> {
    head: Link<T>,
}

impl<T> View for AtomicList<T> {
    type V = Seq<T>;

    closed spec fn view(&self) -> Seq<T> {
        chain_elems(self.head)
    }
}

impl<T> AtomicList<T> {
    /// Structural validity: the chain from the head is sentinel-terminated
    /// with no placeholder link. Every constructor establishes it and every
    /// operation preserves it.
    pub closed spec fn wf(&self) -> bool {
        chain_wf(self.head)
    }

    /// True exactly when the list holds no element.
    pub fn empty(&self) -> (r: bool)
        requires
            self.wf(),
        ensures
            r == (self@.len() == 0),
    {
        matches!(self.head, Link::Null)
    }

    /// Pushes an element at the head. The new node is created with a
    /// placeholder link, the previous head chain (if any) is linked behind
    /// it, and it is published into the head by a single exchange.
    pub fn push_front(&mut self, elem: T)
        requires
            old(self).wf(),
        ensures
            final(self).wf(),
            final(self)@ == seq![elem] + old(self)@,
    {
        let mut node = Node { elem, next: Link::Invalid };
        let prev = self.head.take();
        match prev {
            Some(p) => {
                let _ = node.next.swap(p);
            },
            None => {
                let _ = node.next.take();
            },
        }
        let _ = self.head.swap(Box::new(node));
    }

    /// Removes every element, head first, into a vector: the one-shot,
    /// exclusive consumption of the whole chain. The most recently pushed
    /// element comes first.
    pub fn drain_to_sequence(&mut self) -> (v: Vec<T>)
        requires
            old(self).wf(),
        ensures
            v@ == old(self)@,
            final(self)@ == Seq::<T>::empty(),
            final(self).wf(),
    {
        let mut v = Vec::<T>::new();
        let mut cur = self.head.take();
        loop
            invariant
                self@ == Seq::<T>::empty(),
                self.wf(),
                v@ + taken_elems(cur) == old(self)@,
                taken_wf(cur),
            ensures
                self@ == Seq::<T>::empty(),
                self.wf(),
                cur is None,
                v@ + taken_elems(cur) == old(self)@,
            decreases taken_elems(cur).len(),
        {
            match cur {
                None => {
                    break ;
                },
                Some(node) => {
                    let n = *node;
                    let Node { elem, next: mut next_link } = n;
                    v.push(elem);
                    cur = next_link.take();
                },
            }
        }
        proof {
            assert(v@ + taken_elems(cur) =~= v@);
        }
        v
    }
}

impl<T> Default for AtomicList<T> {
    /// The default list is empty.
    fn default() -> (r: Self)
        ensures
            r@ == Seq::<T>::empty(),
            r.wf(),
    {
        AtomicList { head: Link::Null }
    }
}

impl<T> Drop for AtomicList<T> {
    /// Teardown walks the chain with a loop of takes, so that dropping a
    /// long list never recurses through its nodes.
    fn drop(&mut self)
        opens_invariants none
        no_unwind
    {
        let mut cur = self.head.take();
        loop
            decreases taken_elems(cur).len(),
        {
            match cur {
                None => {
                    break ;
                },
                Some(node) => {
                    let n = *node;
                    let Node { elem: _, next: mut next_link } = n;
                    cur = next_link.take();
                },
            }
        }
    }
}

/// The stack a run of pushes leaves behind: pushing `vs[0], vs[1], ...` in
/// order onto a stack whose elements read `init` head-first.
pub open spec fn stack_after_pushes<T>(init: Seq<T>, vs: Seq<T>) -> Seq<T>
    decreases vs.len(),
{
    if vs.len() == 0 {
        init
    } else {
        stack_after_pushes(seq![vs[0]] + init, vs.drop_first())
    }
}

/// Pushes then a drain yield the reverse of the push order: after pushing
/// `vs[0], vs[1], ...` in order onto an empty stack, the elements read
/// head-first — exactly what `drain_to_sequence` returns — are the pushed
/// elements, each exactly once, most recently pushed first.
pub proof fn lemma_pushes_then_drain<T>(vs: Seq<T>)
    ensures
        stack_after_pushes(Seq::<T>::empty(), vs) == vs.reverse(),
{
    lemma_pushes_general(Seq::<T>::empty(), vs);
    assert(vs.reverse() + Seq::<T>::empty() == vs.reverse());
}

proof fn lemma_pushes_general<T>(init: Seq<T>, vs: Seq<T>)
    ensures
        stack_after_pushes(init, vs) == vs.reverse() + init,
    decreases vs.len(),
{
    if vs.len() == 0 {
        assert(vs.reverse() + init == init);
    } else {
        lemma_pushes_general(seq![vs[0]] + init, vs.drop_first());
        assert(vs.drop_first().reverse() + (seq![vs[0]] + init) == vs.reverse() + init);
    }
}

} // verus!
