//! Menus for the window's menu bar.

use vstd::prelude::*;
use crate::ui::handler::IntoText;

verus! {

/// One entry of a [`Menu`]: an action that emits a message, or a separator.
#[verifier::reject_recursive_types(Msg)]
pub enum MenuItem<Msg> {
    Action { text: String, msg: Msg },
    Separator,
}

/// A top-level menu: a title and its entries, in order. Choosing an action
/// emits its message like any widget event.
#[verifier::reject_recursive_types(Msg)]
pub struct Menu<Msg> {
    pub title: String,
    pub items: Vec<MenuItem<Msg>>,
}

/// Starts a menu with the given title.
pub fn menu<Msg, T: IntoText>(title: T) -> (m: Menu<Msg>)
    ensures
        m.title@ == title.text_view(),
        m.items@.len() == 0,
{
    Menu { title: title.into_text(), items: Vec::new() }
}

impl<Msg> Menu<Msg> {
    /// Adds an action row that emits `msg` when chosen.
    pub fn action<T: IntoText>(self, text: T, msg: Msg) -> (m: Self)
        ensures
            m.title == self.title,
            m.items@.len() == self.items@.len() + 1,
            m.items@.drop_last() == self.items@,
            m.items@.last() matches MenuItem::Action { text: t, msg: a } && t@ == text.text_view()
                && a == msg,
    {
        let mut m = self;
        m.items.push(MenuItem::Action { text: text.into_text(), msg });
        m
    }

    /// Adds a separator line.
    pub fn separator(self) -> (m: Self)
        ensures
            m.title == self.title,
            m.items@ == self.items@.push(MenuItem::Separator),
    {
        let mut m = self;
        m.items.push(MenuItem::Separator);
        m
    }
}

} // verus!
