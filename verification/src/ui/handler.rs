//! Event handlers carried by elements: the user's closures that turn a widget
//! event into an application message, and the text arguments builders take.

use vstd::prelude::*;
use std::rc::Rc;

verus! {

/// A user closure mapping an event payload `A` to a message, shared (`Rc`)
/// and kept opaque; only the handler below builds and calls it.
#[verifier::external_body]
#[verifier::reject_recursive_types(A)]
#[verifier::reject_recursive_types(Msg)]
struct SharedFn<A, Msg> {
    f: Rc<dyn Fn(A) -> Msg>,
}

impl<A, Msg> SharedFn<A, Msg> {
    /// Shares `f` (`Rc::new`, unsized to a trait object).
    #[verifier::external_body]
    fn new<F: Fn(A) -> Msg + 'static>(f: F) -> SharedFn<A, Msg> {
        SharedFn { f: Rc::new(f) }
    }
}

impl<Msg> SharedFn<(), Msg> {
    /// Shares a closure of no argument (`Rc::new` of a closure calling it).
    #[verifier::external_body]
    fn from_thunk<F: Fn() -> Msg + 'static>(f: F) -> SharedFn<(), Msg> {
        SharedFn { f: Rc::new(move |_u: ()| f()) }
    }
}

impl<Msg> SharedFn<(i32, i32), Msg> {
    /// Shares a closure of two arguments (`Rc::new` of a closure calling it
    /// on the pair's components).
    #[verifier::external_body]
    fn from_pair<F: Fn(i32, i32) -> Msg + 'static>(f: F) -> SharedFn<(i32, i32), Msg> {
        SharedFn { f: Rc::new(move |p: (i32, i32)| f(p.0, p.1)) }
    }
}

/// An event handler mapping an event payload `A` to a message: the user's
/// closure, and which messages it may yield for which payloads.
#[verifier::reject_recursive_types(A)]
#[verifier::reject_recursive_types(Msg)]
pub struct Handler<A, Msg> {
    f: SharedFn<A, Msg>,
    model: Ghost<spec_fn(A, Msg) -> bool>,
}

impl<A, Msg> Handler<A, Msg> {
    /// `m` is a message the handler may yield for payload `a`.
    pub closed spec fn yields(&self, a: A, m: Msg) -> bool {
        (self.model@)(a, m)
    }

    /// Wraps `f`: the handler yields what `f` returns (on a payload `f`
    /// accepts; on any other, nothing is claimed).
    pub fn new<F: Fn(A) -> Msg + 'static>(f: F) -> (h: Handler<A, Msg>)
        ensures
            runs(h, f),
    {
        let ghost model = |a: A, m: Msg| call_requires(f, (a,)) ==> call_ensures(f, (a,), m);
        Handler { f: SharedFn::new(f), model: Ghost(model) }
    }

    /// Calls the closure on `a` once (`Fn::call`) and returns the message
    /// it produces.
    #[verifier::external_body]
    pub fn call(&self, a: A) -> (m: Msg)
        ensures
            self.yields(a, m),
    {
        (self.f.f)(a)
    }
}

impl<Msg> Handler<(), Msg> {
    /// Wraps a closure of no argument: the handler yields what `f` returns.
    pub fn from_thunk<F: Fn() -> Msg + 'static>(f: F) -> (h: Handler<(), Msg>)
        ensures
            forall|m: Msg| h.yields((), m) == (call_requires(f, ()) ==> call_ensures(f, (), m)),
    {
        let ghost model = |u: (), m: Msg| call_requires(f, ()) ==> call_ensures(f, (), m);
        Handler { f: SharedFn::from_thunk(f), model: Ghost(model) }
    }
}

impl<Msg> Handler<(i32, i32), Msg> {
    /// Wraps a closure of two arguments, called on the pair's components.
    pub fn from_pair<F: Fn(i32, i32) -> Msg + 'static>(f: F) -> (h: Handler<(i32, i32), Msg>)
        ensures
            runs_pair(h, f),
    {
        let ghost model = |p: (i32, i32), m: Msg|
            call_requires(f, (p.0, p.1)) ==> call_ensures(f, (p.0, p.1), m);
        Handler { f: SharedFn::from_pair(f), model: Ghost(model) }
    }
}

/// `h` yields exactly what `f` returns, on every payload `f` accepts.
pub open spec fn runs<A, Msg, F: Fn(A) -> Msg>(h: Handler<A, Msg>, f: F) -> bool {
    forall|a: A, m: Msg| h.yields(a, m) == (call_requires(f, (a,)) ==> call_ensures(f, (a,), m))
}

/// `h` yields exactly what `f` returns on the pair's components.
pub open spec fn runs_pair<Msg, F: Fn(i32, i32) -> Msg>(h: Handler<(i32, i32), Msg>, f: F) -> bool {
    forall|p: (i32, i32), m: Msg|
        h.yields(p, m) == (call_requires(f, (p.0, p.1)) ==> call_ensures(f, (p.0, p.1), m))
}

/// A user closure mapping a borrowed string to a message, shared and kept
/// opaque; only the text handler below builds and calls it.
#[verifier::external_body]
#[verifier::reject_recursive_types(Msg)]
struct SharedTextFn<Msg> {
    f: Rc<dyn Fn(&str) -> Msg>,
}

impl<Msg> SharedTextFn<Msg> {
    /// Shares `f` (`Rc::new`, unsized to a trait object).
    #[verifier::external_body]
    fn new<F: Fn(&str) -> Msg + 'static>(f: F) -> SharedTextFn<Msg> {
        SharedTextFn { f: Rc::new(f) }
    }
}

/// An event handler mapping a text field's new contents to a message.
#[verifier::reject_recursive_types(Msg)]
pub struct TextHandler<Msg> {
    f: SharedTextFn<Msg>,
    model: Ghost<spec_fn(Seq<char>, Msg) -> bool>,
}

/// `h` yields exactly what `f` returns on a string holding the text, when
/// `f` accepts it.
pub open spec fn runs_text<Msg, F: Fn(&str) -> Msg>(h: TextHandler<Msg>, f: F) -> bool {
    forall|t: Seq<char>, m: Msg|
        h.yields(t, m) == exists|s: &str|
            s@ == t && (call_requires(f, (s,)) ==> call_ensures(f, (s,), m))
}

impl<Msg> TextHandler<Msg> {
    /// `m` is a message the handler may yield for text `t`.
    pub closed spec fn yields(&self, t: Seq<char>, m: Msg) -> bool {
        (self.model@)(t, m)
    }

    /// Wraps `f`: the handler yields what `f` returns on a string holding
    /// the text (when `f` accepts it).
    pub fn new<F: Fn(&str) -> Msg + 'static>(f: F) -> (h: TextHandler<Msg>)
        ensures
            runs_text(h, f),
    {
        let ghost model = |t: Seq<char>, m: Msg|
            exists|s: &str| s@ == t && (call_requires(f, (s,)) ==> call_ensures(f, (s,), m));
        TextHandler { f: SharedTextFn::new(f), model: Ghost(model) }
    }

    /// Calls the closure on `s` once (`Fn::call`) and returns the message it
    /// produces.
    #[verifier::external_body]
    pub fn call(&self, s: &str) -> (m: Msg)
        ensures
            self.yields(s@, m),
    {
        (self.f.f)(s)
    }
}

/// A value that can become a widget's text: a `String` (moved) or a `&str`
/// (copied).
pub trait IntoText {
    /// The characters the text will hold.
    spec fn text_view(&self) -> Seq<char>;

    fn into_text(self) -> (s: String)
        ensures
            s@ == self.text_view(),
    ;
}

impl IntoText for String {
    open spec fn text_view(&self) -> Seq<char> {
        self@
    }

    fn into_text(self) -> (s: String) {
        self
    }
}

impl<'a> IntoText for &'a str {
    open spec fn text_view(&self) -> Seq<char> {
        self@
    }

    fn into_text(self) -> (s: String) {
        self.to_owned()
    }
}

} // verus!
