use vstd::prelude::*;

verus! {

struct Node<T> {
    data: T,
    next: Link<T>,
}

type Link<T> = Option<Box<Node<T>>>;

/// Singly linked stack that owns its nodes exclusively; pushes and pops
/// happen at the head.
pub struct LinkedList<T> {
    head: Link<T>,
}

/// Shared cursor over the nodes of a `LinkedList`, front to back.
pub struct Iter<'a, T> {
    next: Option<&'a Node<T>>,
}

/// Exclusive cursor over the nodes of a `LinkedList`, front to back.
/// Writes through the yielded references land in the list itself.
pub struct IterMut<'a, T> {
    next: Option<&'a mut Node<T>>,
}

/// Draining cursor that consumes the list, yielding front to back.
pub struct IntoIter<T>(LinkedList<T>);

spec fn link_view<T>(l: Link<T>) -> Seq<T>
    decreases l,
{
    match l {
        Option::None => Seq::empty(),
        Option::Some(node) => seq![node.data] + link_view(node.next),
    }
}

impl<T> View for LinkedList<T> {
    type V = Seq<T>;

    closed spec fn view(&self) -> Seq<T> {
        link_view(self.head)
    }
}

impl<'a, T> View for Iter<'a, T> {
    type V = Seq<T>;

    closed spec fn view(&self) -> Seq<T> {
        match self.next {
            Option::None => Seq::empty(),
            Option::Some(node) => seq![node.data] + link_view(node.next),
        }
    }
}

impl<'a, T> View for IterMut<'a, T> {
    type V = Seq<T>;

    closed spec fn view(&self) -> Seq<T> {
        match self.next {
            Option::None => Seq::empty(),
            Option::Some(node) => seq![node.data] + link_view(node.next),
        }
    }
}

impl<T> View for IntoIter<T> {
    type V = Seq<T>;

    closed spec fn view(&self) -> Seq<T> {
        self.0@
    }
}

impl<T> LinkedList<T> {
    pub fn new() -> (r: Self)
        ensures
            r@ == Seq::<T>::empty(),
    {
        Self { head: None }
    }

    pub fn push(&mut self, data: T)
        ensures
            final(self)@ == seq![data] + old(self)@,
    {
        let node = Node { data, next: self.head.take() };
        self.head = Some(Box::new(node));
    }

    pub fn pop(&mut self) -> (r: Option<T>)
        ensures
            match r {
                Some(data) => old(self)@.len() > 0 && data == old(self)@[0] && final(self)@
                    == old(self)@.drop_first(),
                None => old(self)@.len() == 0 && final(self)@ == old(self)@,
            },
    {
        match self.head.take() {
            None => None,
            Some(node) => {
                let Node { data, next } = *node;
                self.head = next;
                Some(data)
            },
        }
    }

    pub fn peek(&self) -> (r: Option<&T>)
        ensures
            match r {
                Some(data) => self@.len() > 0 && *data == self@[0],
                None => self@.len() == 0,
            },
    {
        match &self.head {
            Some(node) => Some(&node.data),
            None => None,
        }
    }

    pub fn peek_mut(&mut self) -> (r: Option<&mut T>)
        ensures
            match r {
                Some(data) => old(self)@.len() > 0 && *data == old(self)@[0] && final(self)@
                    == old(self)@.update(0, *final(data)),
                None => old(self)@.len() == 0 && final(self)@ == old(self)@,
            },
    {
        match &mut self.head {
            Some(node) => Some(&mut node.data),
            None => None,
        }
    }

    pub fn iter(&self) -> (it: Iter<'_, T>)
        ensures
            it@ == self@,
    {
        Iter {
            next: match &self.head {
                Some(node) => Some(&**node),
                None => None,
            },
        }
    }

    pub fn iter_mut(&mut self) -> (it: IterMut<'_, T>)
        ensures
            it@ == old(self)@,
    {
        IterMut {
            next: match &mut self.head {
                Some(node) => Some(&mut **node),
                None => None,
            },
        }
    }

    pub fn into_iter(self) -> (it: IntoIter<T>)
        ensures
            it@ == self@,
    {
        IntoIter(self)
    }

    pub fn len(&self) -> (n: usize)
        requires
            self@.len() <= usize::MAX,
        ensures
            n == self@.len(),
    {
        let mut count: usize = 0;
        let mut cur: &Link<T> = &self.head;
        while cur.is_some()
            invariant
                count + link_view(*cur).len() == self@.len(),
                self@.len() <= usize::MAX,
            decreases link_view(*cur).len(),
        {
            if let Some(node) = cur {
                count = count + 1;
                cur = &node.next;
            }
        }
        count
    }
}

impl<'a, T> Iter<'a, T> {
    pub fn next(&mut self) -> (r: Option<&'a T>)
        ensures
            match r {
                Some(data) => old(self)@.len() > 0 && *data == old(self)@[0] && final(self)@
                    == old(self)@.drop_first(),
                None => old(self)@.len() == 0 && final(self)@ == old(self)@,
            },
    {
        match self.next {
            None => None,
            Some(node) => {
                self.next = match &node.next {
                    Some(n) => Some(&**n),
                    None => None,
                };
                Some(&node.data)
            },
        }
    }
}

impl<'a, T> IterMut<'a, T> {
    pub fn next(&mut self) -> (r: Option<&'a mut T>)
        ensures
            match r {
                Some(data) => old(self)@.len() > 0 && *data == old(self)@[0] && final(self)@
                    == old(self)@.drop_first(),
                None => old(self)@.len() == 0 && final(self)@ == old(self)@,
            },
    {
        match self.next.take() {
            None => None,
            Some(node) => {
                self.next = match &mut node.next {
                    Some(n) => Some(&mut **n),
                    None => None,
                };
                Some(&mut node.data)
            },
        }
    }
}

impl<T> IntoIter<T> {
    pub fn next(&mut self) -> (r: Option<T>)
        ensures
            match r {
                Some(data) => old(self)@.len() > 0 && data == old(self)@[0] && final(self)@
                    == old(self)@.drop_first(),
                None => old(self)@.len() == 0 && final(self)@ == old(self)@,
            },
    {
        self.0.pop()
    }
}

} // verus!
