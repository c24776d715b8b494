//! A singly linked list with front insertion and removal, abstracted as
//! the sequence of its values from front to back.

use vstd::prelude::*;

use vstd::std_specs::cmp::PartialEqSpec;

verus! {

/// One link of the chain: a value and the rest of the list.
pub struct Node<T> {
    value: T,
    next: Option<Box<Node<T>>>,
}

/// The values of a chain, front first.
pub closed spec fn spec_chain<T>(n: &Option<Box<Node<T>>>) -> Seq<T>
    decreases n,
{
    match n {
        None => Seq::empty(),
        Some(b) => seq![b.value] + spec_chain(&b.next),
    }
}

impl<T> Node<T> {
    /// Builds one link in front of an existing chain.
    pub fn new(value: T, next: Option<Box<Node<T>>>) -> (r: Node<T>)
        ensures
            spec_chain(&Some(Box::new(r))) == seq![value] + spec_chain(&next),
    {
        Node { value, next }
    }
}

/// A singly linked list, viewed as the sequence of its values.
pub struct LinkedList<T> {
    head: Option<Box<Node<T>>>,
    size: usize,
}

impl<T> View for LinkedList<T> {
    type V = Seq<T>;

    closed spec fn view(&self) -> Seq<T> {
        spec_chain(&self.head)
    }
}

impl<T> LinkedList<T> {
    /// Well-formedness: the stored size counts the chain.
    pub closed spec fn wf(&self) -> bool {
        self.size == self@.len()
    }

    /// An empty list.
    pub fn new() -> (r: LinkedList<T>)
        ensures
            r.wf(),
            r@ == Seq::<T>::empty(),
    {
        let r = LinkedList { head: None, size: 0 };
        proof {
            assert(r@ =~= Seq::<T>::empty());
        }
        r
    }

    /// The number of values in the list.
    pub fn get_size(&self) -> (r: usize)
        requires
            self.wf(),
        ensures
            r == self@.len(),
    {
        self.size
    }

    /// Whether the list holds nothing.
    pub fn is_empty(&self) -> (r: bool)
        requires
            self.wf(),
        ensures
            r == (self@.len() == 0),
    {
        self.get_size() == 0
    }

    /// Puts a value at the front of the list.
    pub fn push_front(&mut self, value: T)
        requires
            old(self).wf(),
            old(self)@.len() < usize::MAX,
        ensures
            final(self).wf(),
            final(self)@ == seq![value] + old(self)@,
    {
        let new_node: Box<Node<T>> = Box::new(Node::new(value, self.head.take()));
        self.head = Some(new_node);
        self.size = self.size + 1;
    }

    /// Takes the value at the front of the list, if there is one.
    pub fn pop_front(&mut self) -> (r: Option<T>)
        requires
            old(self).wf(),
        ensures
            final(self).wf(),
            match r {
                Some(v) => old(self)@.len() > 0 && v == old(self)@[0] && final(self)@ == old(
                    self,
                )@.drop_first(),
                None => old(self)@.len() == 0 && final(self)@ == old(self)@,
            },
    {
        match self.head.take() {
            None => None,
            Some(node) => {
                let boxed = *node;
                self.head = boxed.next;
                self.size = self.size - 1;
                proof {
                    assert(old(self)@ =~= seq![boxed.value] + self@);
                    assert(self@ =~= old(self)@.drop_first());
                }
                Some(boxed.value)
            },
        }
    }

    /// An iterator over the list's values, front first.
    pub fn iter(&self) -> (it: LinkedListIter<T>)
        ensures
            it@ == self@,
    {
        LinkedListIter { current: &self.head }
    }
}

/// Whether two chains hold pairwise equal values, under the element
/// type's own meaning of equality.
pub closed spec fn spec_chains_eq<T: PartialEq>(
    a: &Option<Box<Node<T>>>,
    b: &Option<Box<Node<T>>>,
) -> bool
    decreases a,
{
    match (a, b) {
        (None, None) => true,
        (Some(x), Some(y)) => x.value.eq_spec(&y.value) && spec_chains_eq(&x.next, &y.next),
        _ => false,
    }
}

impl<T: PartialEq> PartialEq for LinkedList<T> {
    /// Two lists are equal when they have the same size and hold
    /// pairwise equal values.
    fn eq(&self, other: &LinkedList<T>) -> (r: bool) {
        if self.size != other.size {
            return false;
        }
        let mut a = &self.head;
        let mut b = &other.head;
        loop
            invariant
                T::obeys_eq_spec() ==> (spec_chains_eq(&self.head, &other.head)
                    <==> spec_chains_eq(a, b)),
            ensures
                a is None && b is None,
                T::obeys_eq_spec() ==> spec_chains_eq(&self.head, &other.head),
            decreases spec_chain(a).len(),
        {
            match (a, b) {
                (Some(node_a), Some(node_b)) => {
                    if !(node_a.value == node_b.value) {
                        return false;
                    }
                    a = &node_a.next;
                    b = &node_b.next;
                },
                (None, None) => {
                    break ;
                },
                _ => {
                    return false;
                },
            }
        }
        true
    }
}

impl<T: PartialEq> vstd::std_specs::cmp::PartialEqSpecImpl for LinkedList<T> {
    open spec fn obeys_eq_spec() -> bool {
        T::obeys_eq_spec()
    }

    closed spec fn eq_spec(&self, other: &LinkedList<T>) -> bool {
        self.size == other.size && spec_chains_eq(&self.head, &other.head)
    }
}

/// Chain-wise equality is equal length plus element-wise equality of the
/// chains' values, under the element type's own meaning of equality.
proof fn lemma_chains_eq_view<T: PartialEq>(a: &Option<Box<Node<T>>>, b: &Option<Box<Node<T>>>)
    ensures
        spec_chains_eq(a, b) == (spec_chain(a).len() == spec_chain(b).len() && (forall|i: int|
            0 <= i < spec_chain(a).len() ==> #[trigger] spec_chain(a)[i].eq_spec(
                &spec_chain(b)[i],
            ))),
    decreases a,
{
    match (a, b) {
        (Some(x), Some(y)) => {
            lemma_chains_eq_view(&x.next, &y.next);
            let ca = spec_chain(a);
            let cb = spec_chain(b);
            let cna = spec_chain(&x.next);
            let cnb = spec_chain(&y.next);
            assert(ca =~= seq![x.value] + cna);
            assert(cb =~= seq![y.value] + cnb);
            if spec_chains_eq(a, b) {
                assert forall|i: int| 0 <= i < ca.len() implies #[trigger] ca[i].eq_spec(
                    &cb[i],
                ) by {
                    if i > 0 {
                        assert(ca[i] == cna[i - 1]);
                        assert(cb[i] == cnb[i - 1]);
                    }
                }
            } else {
                if ca.len() == cb.len() && (forall|i: int|
                    0 <= i < ca.len() ==> #[trigger] ca[i].eq_spec(&cb[i])) {
                    assert(ca[0].eq_spec(&cb[0]));
                    assert forall|i: int| 0 <= i < cna.len() implies #[trigger] cna[i].eq_spec(
                        &cnb[i],
                    ) by {
                        assert(cna[i] == ca[i + 1]);
                        assert(cnb[i] == cb[i + 1]);
                        assert(ca[i + 1].eq_spec(&cb[i + 1]));
                    }
                    assert(spec_chains_eq(&x.next, &y.next));
                    assert(false);
                }
            }
        },
        (None, None) => {},
        _ => {},
    }
}

/// Under well-formedness, what list equality means coincides with the
/// views: the lists compare equal exactly when they have the same length
/// and pairwise equal values.
pub proof fn lemma_eq_spec_is_view_eq<T: PartialEq>(a: &LinkedList<T>, b: &LinkedList<T>)
    requires
        a.wf(),
        b.wf(),
    ensures
        a.eq_spec(b) == (a@.len() == b@.len() && (forall|i: int|
            0 <= i < a@.len() ==> #[trigger] a@[i].eq_spec(&b@[i]))),
{
    lemma_chains_eq_view(&a.head, &b.head);
}

impl<T: Clone> Clone for LinkedList<T> {
    /// A clone has the same length, and each of its values is a clone of
    /// the original's value at the same position, under whatever the
    /// element type's own clone guarantees.
    fn clone(&self) -> (res: Self)
        ensures
            res.wf(),
            res@.len() == self@.len(),
            forall|i: int| 0 <= i < self@.len() ==> cloned::<T>(self@[i], #[trigger] res@[i]),
    {
        let mut values: Vec<T> = Vec::new();
        let mut cur = &self.head;
        proof {
            assert(self@.skip(0) =~= self@);
        }
        loop
            invariant
                values@.len() <= self@.len(),
                spec_chain(cur) =~= self@.skip(values@.len() as int),
                forall|i: int|
                    0 <= i < values@.len() ==> cloned::<T>(self@[i], #[trigger] values@[i]),
            ensures
                values@.len() == self@.len(),
                forall|i: int|
                    0 <= i < values@.len() ==> cloned::<T>(self@[i], #[trigger] values@[i]),
            decreases spec_chain(cur).len(),
        {
            match cur {
                None => {
                    break ;
                },
                Some(node) => {
                    proof {
                        assert(spec_chain(cur) == seq![node.value] + spec_chain(&node.next));
                        assert(spec_chain(cur)[0] == node.value);
                        assert(self@[values@.len() as int] == node.value);
                        assert forall|i: int|
                            0 <= i < spec_chain(&node.next).len() implies spec_chain(&node.next)[i]
                            == self@.skip(values@.len() as int + 1)[i] by {
                            assert(spec_chain(&node.next)[i] == spec_chain(cur)[i + 1]);
                        }
                        assert(spec_chain(&node.next) =~= self@.skip(values@.len() as int + 1));
                    }
                    values.push(node.value.clone());
                    cur = &node.next;
                },
            }
        }
        let total = values.len();
        let mut res: LinkedList<T> = LinkedList::new();
        while values.len() > 0
            invariant
                total == self@.len(),
                res.wf(),
                values@.len() + res@.len() == total,
                forall|i: int|
                    0 <= i < values@.len() ==> cloned::<T>(self@[i], #[trigger] values@[i]),
                forall|j: int|
                    0 <= j < res@.len() ==> cloned::<T>(
                        self@[values@.len() + j],
                        #[trigger] res@[j],
                    ),
            decreases values@.len(),
        {
            let ghost values_before = values@;
            let v = match values.pop() {
                Some(v) => v,
                None => {
                    proof {
                        assert(false);
                    }
                    unreached()
                },
            };
            let ghost res_before = res@;
            res.push_front(v);
            proof {
                assert forall|j: int| 0 <= j < res@.len() implies cloned::<T>(
                    self@[values@.len() + j],
                    #[trigger] res@[j],
                ) by {
                    if j == 0 {
                        assert(res@[0] == v);
                        assert(v == values_before[values_before.len() - 1]);
                    } else {
                        assert(res@[j] == res_before[j - 1]);
                    }
                }
            }
        }
        res
    }
}

/// A cursor over a linked list, abstracted as the values not yet
/// visited.
pub struct LinkedListIter<'a, T> {
    current: &'a Option<Box<Node<T>>>,
}

impl<'a, T> View for LinkedListIter<'a, T> {
    type V = Seq<T>;

    closed spec fn view(&self) -> Seq<T> {
        spec_chain(self.current)
    }
}

impl<'a, T> LinkedListIter<'a, T> {
    /// Steps to the next value, handing out a reference to it, or `None`
    /// at the end of the list.
    pub fn next(&mut self) -> (r: Option<&'a T>)
        ensures
            match r {
                Some(v) => old(self)@.len() > 0 && *v == old(self)@[0] && final(self)@ == old(
                    self,
                )@.drop_first(),
                None => old(self)@.len() == 0 && final(self)@ == old(self)@,
            },
    {
        match self.current {
            None => None,
            Some(node) => {
                self.current = &node.next;
                proof {
                    assert(self@ =~= old(self)@.drop_first());
                }
                Some(&node.value)
            },
        }
    }
}

} // verus!
