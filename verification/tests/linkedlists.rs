use yaliir::linkedlist::LinkedList;
use yaliir::linkedlist_3::LinkedList as PersistentList;

#[test]
fn push_pop_len() {
    let mut list = LinkedList::new();

    assert_eq!(list.len(), 0);

    let data1 = "hello";
    let data2 = "world";
    let data3 = "foobar";

    list.push(data1);

    assert_eq!(list.len(), 1);

    list.push(data2);
    list.push(data3);

    list.pop();
    assert_eq!(list.len(), 2);

    assert_eq!(list.pop(), Some(data2));

    list.pop();
    assert_eq!(list.pop(), None);
}

#[test]
fn peek() {
    let mut list = LinkedList::new();

    assert_eq!(list.peek(), None);
    assert_eq!(list.peek_mut(), None);

    list.push(1);
    assert_eq!(list.peek(), Some(&1));
    assert_eq!(list.peek_mut(), Some(&mut 1));

    list.push(2);
    assert_eq!(list.peek(), Some(&2));
    assert_eq!(list.peek_mut(), Some(&mut 2));

    list.pop();
    assert_eq!(list.peek(), Some(&1));
    assert_eq!(list.peek_mut(), Some(&mut 1));

    list.peek_mut().map(|value| *value = 42);

    assert_eq!(list.peek(), Some(&42));
    assert_eq!(list.peek_mut(), Some(&mut 42));

    assert_eq!(list.pop(), Some(42));
    assert_eq!(list.peek(), None);
    assert_eq!(list.peek_mut(), None);
}

#[test]
fn linkedlist_iter() {
    let mut list = LinkedList::new();
    list.push(1);
    list.push(2);

    let mut iter = list.iter();
    assert_eq!(iter.next(), Some(&2));
    assert_eq!(iter.next(), Some(&1));
    assert_eq!(iter.next(), None);
}

#[test]
fn iter_mut() {
    let mut list = LinkedList::new();
    list.push(1);
    list.push(2);

    let mut iter = list.iter_mut();
    assert_eq!(iter.next(), Some(&mut 2));
    assert_eq!(iter.next(), Some(&mut 1));
    assert_eq!(iter.next(), None);
}

#[test]
fn into_iter() {
    let mut list = LinkedList::new();
    list.push(1);
    list.push(2);

    let mut iter = list.into_iter();
    assert_eq!(iter.next(), Some(2));
    assert_eq!(iter.next(), Some(1));
    assert_eq!(iter.next(), None);
}

#[test]
fn basic() {
    let list = PersistentList::new();
    assert_eq!(list.head(), None);

    let list = list.append(1).append(2).append(3);
    assert_eq!(list.head(), Some(&3));

    let list = list.tail();
    assert_eq!(list.head(), Some(&2));

    let list = list.tail();
    assert_eq!(list.head(), Some(&1));

    let list = list.tail();
    assert_eq!(list.head(), None);

    // Make sure empty tail works
    let list = list.tail();
    assert_eq!(list.head(), None);
}

#[test]
fn linkedlist_3_iter() {
    let list = PersistentList::new().append(1).append(2);

    let mut iter = list.iter();
    assert_eq!(iter.next(), Some(&2));
    assert_eq!(iter.next(), Some(&1));
    assert_eq!(iter.next(), None);
}
