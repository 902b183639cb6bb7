//! Observable state cells for composing application state from code: a
//! [`Property`] holds a value and notifies its subscribers whenever the value
//! is replaced or updated.

use vstd::prelude::*;

verus! {

/// One subscriber's boxed `FnMut(&T)` closure, kept opaque: a trait-object
/// closure has no view, so creating it and calling it once (see
/// `Subscriber::hear`) are its only operations.
#[verifier::external_body]
#[verifier::reject_recursive_types(T)]
pub(crate) struct Callback<T> {
    f: Box<dyn FnMut(&T)>,
}

impl<T> Callback<T> {
    /// Boxes a closure (`Box::new`, unsized to a trait object).
    #[verifier::external_body]
    pub(crate) fn new<F: FnMut(&T) + 'static>(f: F) -> Callback<T> {
        Callback { f: Box::new(f) }
    }
}

/// A registered subscriber and, as a ghost record, the values it has been
/// called with, oldest first.
#[verifier::reject_recursive_types(T)]
pub(crate) struct Subscriber<T> {
    callback: Callback<T>,
    heard: Ghost<Seq<T>>,
}

impl<T> Subscriber<T> {
    /// Calls the subscriber's closure once with `value` (`FnMut::call_mut`)
    /// and records `value` as heard; nothing is stated of what the call does.
    #[verifier::external_body]
    fn hear(&mut self, value: &T)
        ensures
            final(self).heard@ == old(self).heard@.push(*value),
    {
        (self.callback.f)(value);
        self.heard = Ghost(self.heard@.push(*value));
    }
}

/// What each subscriber has been called with, in registration order.
spec fn heard_of<T>(subs: Seq<Subscriber<T>>) -> Seq<Seq<T>> {
    subs.map_values(|s: Subscriber<T>| s.heard@)
}

/// An observable cell: replacing or updating its value notifies every
/// subscriber with the new value.
#[verifier::reject_recursive_types(T)]
pub struct Property<T> {
    value: T,
    subscribers: Vec<Subscriber<T>>,
}

impl<T> Property<T> {
    /// The value the property holds.
    pub closed spec fn current(&self) -> T {
        self.value
    }

    /// For each subscriber, in registration order, the values it has been
    /// called with, oldest first.
    pub closed spec fn heard(&self) -> Seq<Seq<T>> {
        heard_of(self.subscribers@)
    }

    /// How many subscribers have registered.
    pub open spec fn subscriber_count(&self) -> nat {
        self.heard().len()
    }

    pub fn new(value: T) -> (p: Self)
        ensures
            p.current() == value,
            p.heard() == Seq::<Seq<T>>::empty(),
    {
        let p = Property { value, subscribers: Vec::new() };
        assert(p.heard() =~= Seq::<Seq<T>>::empty());
        p
    }

    pub fn get(&self) -> (v: &T)
        ensures
            *v == self.current(),
    {
        &self.value
    }

    /// Replaces the value, then calls each subscriber once, in registration
    /// order, with the new value.
    pub fn set(&mut self, value: T)
        ensures
            final(self).current() == value,
            final(self).heard() == old(self).heard().map_values(|h: Seq<T>| h.push(value)),
    {
        self.value = value;
        self.notify();
    }

    /// Mutates the value in place with `f`, then calls each subscriber once,
    /// in registration order, with the new value. The new value is one that
    /// `f` may leave behind when given the old one.
    pub fn update<F: FnOnce(&mut T)>(&mut self, f: F)
        requires
            forall|x: &mut T| call_requires(f, (x,)),
        ensures
            exists|x: &mut T|
                *x == old(self).current() && *final(x) == final(self).current() && call_ensures(
                    f,
                    (x,),
                    (),
                ),
            final(self).heard() == old(self).heard().map_values(
                |h: Seq<T>| h.push(final(self).current()),
            ),
    {
        f(&mut self.value);
        self.notify();
    }

    /// Registers a subscriber, called on every later change; it is not
    /// called now.
    pub fn subscribe<F: FnMut(&T) + 'static>(&mut self, subscriber: F)
        ensures
            final(self).current() == old(self).current(),
            final(self).heard() == old(self).heard().push(Seq::<T>::empty()),
    {
        let ghost before = self.subscribers@;
        self.subscribers.push(Subscriber { callback: Callback::new(subscriber), heard: Ghost(Seq::empty()) });
        assert(heard_of(self.subscribers@) =~= heard_of(before).push(Seq::<T>::empty()));
    }

    /// Calls every subscriber once, in registration order, with the current
    /// value.
    fn notify(&mut self)
        ensures
            final(self).current() == old(self).current(),
            final(self).heard() == old(self).heard().map_values(
                |h: Seq<T>| h.push(old(self).current()),
            ),
    {
        let ghost olds = heard_of(self.subscribers@);
        let ghost v = self.value;
        let mut all: Vec<Subscriber<T>> = Vec::new();
        std::mem::swap(&mut all, &mut self.subscribers);
        let ghost n = all@.len();
        let mut rest = crate::ui::element::reversed(all);
        let mut done: Vec<Subscriber<T>> = Vec::new();
        while rest.len() > 0
            invariant
                v == self.value,
                olds.len() == n,
                done@.len() + rest@.len() == n,
                forall|j: int|
                    0 <= j < rest@.len() ==> (#[trigger] rest@[j]).heard@ == olds[n - 1 - j],
                forall|i: int|
                    0 <= i < done@.len() ==> (#[trigger] done@[i]).heard@ == olds[i].push(v),
            decreases rest@.len(),
        {
            let mut s = rest.pop().unwrap();
            s.hear(&self.value);
            done.push(s);
        }
        self.subscribers = done;
        assert(heard_of(self.subscribers@) =~= olds.map_values(|h: Seq<T>| h.push(v)));
    }
}

} // verus!
