use std::rc::Rc;
use vstd::prelude::*;

verus! {

struct Node<T> {
    data: T,
    next: Link<T>,
}

type Link<T> = Option<Rc<Node<T>>>;

/// Persistent singly linked list: `append` and `tail` build new lists that
/// share their nodes with the old one instead of copying them.
pub struct LinkedList<T> {
    head: Link<T>,
}

/// Shared cursor over the nodes of a persistent `LinkedList`, front to back.
pub struct Iter<'a, T> {
    next: Option<&'a Node<T>>,
}

spec fn link_view<T>(l: Link<T>) -> Seq<T>
    decreases l,
{
    match l {
        Option::None => Seq::empty(),
        Option::Some(node) => seq![node.data] + link_view(node.next),
    }
}

impl<T> View for LinkedList<T> {
    type V = Seq<T>;

    closed spec fn view(&self) -> Seq<T> {
        link_view(self.head)
    }
}

impl<'a, T> View for Iter<'a, T> {
    type V = Seq<T>;

    closed spec fn view(&self) -> Seq<T> {
        match self.next {
            Option::None => Seq::empty(),
            Option::Some(node) => seq![node.data] + link_view(node.next),
        }
    }
}

/// Relies on `Rc::clone`: the returned handle refers to the same node as
/// the argument.
#[verifier::external_body]
fn rc_dup<T>(rc: &Rc<T>) -> (r: Rc<T>)
    ensures
        r == *rc,
{
    Rc::clone(rc)
}

fn dup_link<T>(l: &Link<T>) -> (r: Link<T>)
    ensures
        r == *l,
{
    match l {
        Some(node) => Some(rc_dup(node)),
        None => None,
    }
}

impl<T> LinkedList<T> {
    pub fn new() -> (r: Self)
        ensures
            r@ == Seq::<T>::empty(),
    {
        Self { head: None }
    }

    pub fn append(&self, data: T) -> (r: LinkedList<T>)
        ensures
            r@ == seq![data] + self@,
    {
        LinkedList { head: Some(Rc::new(Node { data, next: dup_link(&self.head) })) }
    }

    pub fn tail(&self) -> (r: LinkedList<T>)
        ensures
            self@.len() > 0 ==> r@ == self@.drop_first(),
            self@.len() == 0 ==> r@ == Seq::<T>::empty(),
    {
        LinkedList {
            head: match &self.head {
                Some(node) => dup_link(&node.next),
                None => None,
            },
        }
    }

    pub fn head(&self) -> (r: Option<&T>)
        ensures
            match r {
                Some(data) => self@.len() > 0 && *data == self@[0],
                None => self@.len() == 0,
            },
    {
        match &self.head {
            Some(node) => Some(&node.data),
            None => None,
        }
    }

    pub fn iter(&self) -> (it: Iter<'_, T>)
        ensures
            it@ == self@,
    {
        Iter {
            next: match &self.head {
                Some(node) => Some(&**node),
                None => None,
            },
        }
    }
}

impl<'a, T> Iter<'a, T> {
    pub fn next(&mut self) -> (r: Option<&'a T>)
        ensures
            match r {
                Some(data) => old(self)@.len() > 0 && *data == old(self)@[0] && final(self)@
                    == old(self)@.drop_first(),
                None => old(self)@.len() == 0 && final(self)@ == old(self)@,
            },
    {
        match self.next {
            None => None,
            Some(node) => {
                self.next = match &node.next {
                    Some(n) => Some(&**n),
                    None => None,
                };
                Some(&node.data)
            },
        }
    }
}

} // verus!
