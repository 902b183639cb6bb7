use std::cell::Cell;
use std::rc::Rc;

use qax::reactive::Property;

#[test]
fn notifies_on_set() {
    let seen = Rc::new(Cell::new(0));
    let mut prop = Property::new(0);
    {
        let seen = seen.clone();
        prop.subscribe(move |v: &i32| seen.set(*v));
    }
    prop.set(42);
    assert_eq!(seen.get(), 42);
    assert_eq!(*prop.get(), 42);
}

#[test]
fn update_notifies() {
    let count = Rc::new(Cell::new(0));
    let mut prop = Property::new(vec![1, 2]);
    {
        let count = count.clone();
        prop.subscribe(move |v: &Vec<i32>| count.set(v.len()));
    }
    prop.update(|v: &mut Vec<i32>| v.push(3));
    assert_eq!(count.get(), 3);
}

#[test]
fn every_subscriber_sees_each_change_in_order() {
    let log = Rc::new(std::cell::RefCell::new(Vec::new()));
    let mut prop = Property::new(String::from("a"));
    for tag in ["first", "second"] {
        let log = log.clone();
        prop.subscribe(move |v: &String| log.borrow_mut().push(format!("{tag}:{v}")));
    }
    prop.set(String::from("b"));
    prop.update(|v: &mut String| v.push('c'));
    assert_eq!(
        *log.borrow(),
        vec!["first:b", "second:b", "first:bc", "second:bc"]
    );
    assert_eq!(prop.get(), "bc");
}

#[test]
fn get_without_subscribers_returns_initial_value() {
    let mut prop = Property::new(7u8);
    assert_eq!(*prop.get(), 7);
    prop.set(9);
    assert_eq!(*prop.get(), 9);
}
