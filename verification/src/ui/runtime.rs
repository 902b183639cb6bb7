//! The component model and the runtime that keeps a window in sync with a
//! component's state: mounting builds the window and the first widget tree;
//! every later render reconciles a fresh view and subscription list against
//! what is live, yielding the widget operations to perform.

use vstd::prelude::*;
use crate::ui::handler::IntoText;
use crate::ui::element::{Element, ContainerEl};
use crate::ui::subscription::Subscription;
use crate::ui::menu::Menu;
use crate::ui::reconcile::{
    IdSource, Mounted, MountedTimer, Op, Ctor, reflects, same_kind_spec, same_node, settled,
    nan_free, realize, realize_ops, attach_of, children_ops, diff_children, diff_ops, diff_timers,
    timer_ops, realize_menu, menu_ops, ids_of, drawn_from,
};

verus! {

/// Application state rendered reactively: UI events become messages,
/// `update` applies them, `view` describes the UI for the current state and
/// `subscriptions` the timers that should run.
pub trait Component {
    /// Values produced by UI events and consumed by `update`.
    type Message;

    /// Applies one message to the state.
    fn update(&mut self, msg: Self::Message);

    /// Describes the UI for the current state.
    fn view(&self) -> Element<Self::Message>;

    /// The timers that should run for the current state; they are matched
    /// against the running ones by position. None by default.
    fn subscriptions(&self) -> (subs: Vec<Subscription<Self::Message>>)
        default_ensures
            subs@.len() == 0,
    {
        Vec::new()
    }
}

/// A component and the window it will be shown in, before it is mounted.
pub struct Ui<C: Component> {
    pub component: C,
    pub title: Option<String>,
    pub size: Option<(i32, i32)>,
    pub menus: Vec<Menu<C::Message>>,
    pub status: Option<String>,
}

/// A mounted component: its state, the live widget tree under the window's
/// root column, the running timers, and where new identities come from.
pub struct Runtime<C: Component> {
    pub component: C,
    pub window: u64,
    pub root: Mounted,
    pub timers: Vec<MountedTimer>,
    pub ids: IdSource,
}

/// The live root: a vertical container holding exactly the one node that
/// stands for the view.
pub open spec fn root_shape(root: Mounted) -> bool {
    root matches Mounted::Container { vertical, children, .. } && vertical && children@.len() == 1
}

/// The node standing for the view under a root column.
pub open spec fn root_child(root: Mounted) -> Mounted {
    match root {
        Mounted::Container { children, .. } => children@[0],
        _ => root,
    }
}

/// The operations that fill the menu bar of `window` with `menus`, in order:
/// menu `i` is added as `natives[i]` and filled using slots `slots[i]`.
pub open spec fn menubar_ops<Msg>(
    window: u64,
    menus: Seq<Menu<Msg>>,
    natives: Seq<u64>,
    slots: Seq<Seq<u64>>,
) -> Seq<Op<Msg>>
    decreases menus.len(),
{
    if menus.len() == 0 {
        Seq::empty()
    } else {
        let i = menus.len() - 1;
        menubar_ops(window, menus.drop_last(), natives, slots) + seq![
            Op::AddMenu { window, menu: natives[i], title: menus[i].title },
        ] + menu_ops(natives[i], menus[i].items@, slots[i])
    }
}

/// [`menubar_ops`] reads only the identities of the menus it covers.
pub proof fn lemma_menubar_ops_prefix<Msg>(
    window: u64,
    menus: Seq<Menu<Msg>>,
    n1: Seq<u64>,
    s1: Seq<Seq<u64>>,
    n2: Seq<u64>,
    s2: Seq<Seq<u64>>,
)
    requires
        forall|i: int| 0 <= i < menus.len() ==> n1[i] == n2[i] && s1[i] == s2[i],
    ensures
        menubar_ops(window, menus, n1, s1) == menubar_ops(window, menus, n2, s2),
    decreases menus.len(),
{
    if menus.len() > 0 {
        lemma_menubar_ops_prefix(window, menus.drop_last(), n1, s1, n2, s2);
    }
}

/// What is applied to `window` once its contents are built: the title, the
/// status text and the size, where given, then showing it.
pub open spec fn window_ops<Msg>(
    window: u64,
    title: Option<String>,
    status: Option<String>,
    size: Option<(i32, i32)>,
) -> Seq<Op<Msg>> {
    (match title {
        Some(t) => seq![Op::WindowTitle { window, title: t }],
        None => Seq::empty(),
    }) + (match status {
        Some(t) => seq![Op::StatusText { window, text: t }],
        None => Seq::empty(),
    }) + (match size {
        Some((w, h)) => seq![Op::Resize { window, width: w, height: h }],
        None => Seq::empty(),
    }) + seq![Op::Show { window }]
}

/// Mounting: the window and its central widget created; the root column
/// (layout of `root`) built with view `v` as its one child and installed in
/// the central widget; the menu bar filled; the timers for `subs` started
/// as `timers`; the window set up and shown.
pub open spec fn mount_ops<Msg>(
    window: u64,
    central: u64,
    root: Mounted,
    v: Element<Msg>,
    menus: Seq<Menu<Msg>>,
    natives: Seq<u64>,
    slots: Seq<Seq<u64>>,
    subs: Seq<Subscription<Msg>>,
    timers: Seq<MountedTimer>,
    title: Option<String>,
    status: Option<String>,
    size: Option<(i32, i32)>,
) -> Seq<Op<Msg>> {
    let layout = match root {
        Mounted::Container { layout, .. } => layout,
        _ => 0,
    };
    seq![
        Op::New { id: window, ctor: Ctor::MainWindow },
        Op::New { id: central, ctor: Ctor::Widget },
        Op::New { id: layout, ctor: Ctor::BoxLayout(true) },
    ] + realize_ops(root_child(root), v) + seq![
        Op::Add { layout, node: attach_of(root_child(root)) },
        Op::SetLayout { w: central, layout },
        Op::SetCentral { window, central },
    ] + menubar_ops(window, menus, natives, slots) + timer_ops(Seq::empty(), subs, timers)
        + window_ops(window, title, status, size)
}

/// Re-rendering: the one child of the root column reconciled against view
/// `v`, then running timers `olds` against `subs`, leaving `timers`.
pub open spec fn rerender_ops<Msg>(
    old_root: Mounted,
    new_root: Mounted,
    v: Element<Msg>,
    olds: Seq<MountedTimer>,
    subs: Seq<Subscription<Msg>>,
    timers: Seq<MountedTimer>,
) -> Seq<Op<Msg>> {
    (match (old_root, new_root) {
        (
            Mounted::Container { layout, children: before, .. },
            Mounted::Container { children: after, .. },
        ) => diff_ops(layout, before@, seq![v], after@),
        _ => Seq::empty(),
    }) + timer_ops(olds, subs, timers)
}

impl<C: Component> Ui<C> {
    /// Wraps a component. Nothing is shown until [`Ui::mount`].
    pub fn new(component: C) -> (u: Self)
        ensures
            u.component == component,
            u.title is None,
            u.size is None,
            u.menus@.len() == 0,
            u.status is None,
    {
        Ui { component, title: None, size: None, menus: Vec::new(), status: None }
    }

    pub fn title<T: IntoText>(self, title: T) -> (u: Self)
        ensures
            u.component == self.component,
            u.title matches Some(t) && t@ == title.text_view(),
            u.size == self.size,
            u.menus == self.menus,
            u.status == self.status,
    {
        Ui { title: Some(title.into_text()), ..self }
    }

    pub fn size(self, width: i32, height: i32) -> (u: Self)
        ensures
            u == (Ui { size: Some((width, height)), ..self }),
    {
        Ui { size: Some((width, height)), ..self }
    }

    /// Adds a top-level menu to the window's menu bar, after the others.
    pub fn menu(self, menu: Menu<C::Message>) -> (u: Self)
        ensures
            u.component == self.component,
            u.title == self.title,
            u.size == self.size,
            u.menus@ == self.menus@.push(menu),
            u.status == self.status,
    {
        let mut u = self;
        u.menus.push(menu);
        u
    }

    /// Sets the initial status-bar text.
    pub fn status<T: IntoText>(self, text: T) -> (u: Self)
        ensures
            u.component == self.component,
            u.title == self.title,
            u.size == self.size,
            u.menus == self.menus,
            u.status matches Some(t) && t@ == text.text_view(),
    {
        Ui { status: Some(text.into_text()), ..self }
    }

    /// Builds the window and the initial widget tree from `view`, fills the
    /// menu bar, starts the timers the initial state subscribes to, applies
    /// title, status text and size, and shows the window. Returns the live
    /// runtime; the operations that do all this are appended to `ops`, in
    /// order.
    #[verifier::rlimit(40)]
    pub fn mount(self, ops: &mut Vec<Op<C::Message>>) -> (rt: Runtime<C>)
        ensures
            rt.component == self.component,
            root_shape(rt.root),
            rt.window == 0,
            2 + ids_of(rt.root).len() <= u64::MAX ==> drawn_from(ids_of(rt.root), 2)
                && ids_of(rt.root).no_duplicates(),
            exists|
                v: Element<C::Message>,
                central: u64,
                natives: Seq<u64>,
                slots: Seq<Seq<u64>>,
                subs: Vec<Subscription<C::Message>>,
            |
                #![trigger mount_ops(rt.window, central, rt.root, v, self.menus@, natives, slots, subs@, rt.timers@, self.title, self.status, self.size)]
                {
                    &&& call_ensures(C::view, (&self.component,), v)
                    &&& call_ensures(C::subscriptions, (&self.component,), subs)
                    &&& central == 1
                    &&& reflects(root_child(rt.root), v)
                    &&& nan_free(v) ==> settled(root_child(rt.root), v)
                    &&& natives.len() == self.menus@.len()
                    &&& slots.len() == self.menus@.len()
                    &&& subs@.len() == rt.timers@.len()
                    &&& forall|i: int|
                        0 <= i < subs@.len() ==> (#[trigger] rt.timers@[i]).interval_ms
                            == subs@[i].interval_ms
                    &&& final(ops)@ == old(ops)@ + mount_ops(
                        rt.window,
                        central,
                        rt.root,
                        v,
                        self.menus@,
                        natives,
                        slots,
                        subs@,
                        rt.timers@,
                        self.title,
                        self.status,
                        self.size,
                    )
                },
    {
        let ghost ops0 = ops@;
        let ghost menus0 = self.menus@;
        let mut ids = IdSource::new();
        let window = ids.fresh();
        ops.push(Op::New { id: window, ctor: Ctor::MainWindow });
        let central = ids.fresh();
        ops.push(Op::New { id: central, ctor: Ctor::Widget });
        // The initial tree, under an implicit root column.
        let view = self.component.view();
        let ghost v = view;
        let mut children: Vec<Element<C::Message>> = Vec::new();
        children.push(view);
        let root_el = ContainerEl { vertical: true, spacing: None, margin: None, children };
        let root = realize(Element::Container(root_el), &mut ids, ops);
        let ghost layout = match root {
            Mounted::Container { layout, .. } => layout,
            _ => 0,
        };
        let ghost kids = match root {
            Mounted::Container { ref children, .. } => children@,
            _ => Seq::empty(),
        };
        proof {
            assert(root_el.children@ =~= seq![v]);
            assert(children_ops(layout, kids, seq![v], 0) =~= Seq::empty());
            assert(children_ops(layout, kids, seq![v], 1) =~= realize_ops(kids[0], v) + seq![
                Op::Add { layout, node: attach_of(kids[0]) },
            ]);
        }
        match &root {
            Mounted::Container { layout, .. } => {
                ops.push(Op::SetLayout { w: central, layout: *layout });
            },
            _ => {},
        }
        ops.push(Op::SetCentral { window, central });
        let ghost ops2 = ops@;
        // The menu bar; each action emits through the same runtime.
        let mut menus = crate::ui::element::reversed(self.menus);
        let ghost mut natives: Seq<u64> = Seq::empty();
        let ghost mut slots: Seq<Seq<u64>> = Seq::empty();
        let ghost mut done: int = 0;
        while menus.len() > 0
            invariant
                done + menus@.len() == menus0.len(),
                forall|j: int|
                    0 <= j < menus@.len() ==> #[trigger] menus@[j] == menus0[menus0.len() - 1 - j],
                natives.len() == done,
                slots.len() == done,
                ops@ == ops2 + menubar_ops(window, menus0.take(done), natives, slots),
            decreases menus@.len(),
        {
            let ghost (n0, s0) = (natives, slots);
            let m = menus.pop().unwrap();
            assert(m == menus0[done]);
            let native = ids.fresh();
            let title = m.title.clone();
            ops.push(Op::AddMenu { window, menu: native, title });
            let ghost mid = ops@;
            let ghost items = m.items@;
            realize_menu(native, m, &mut ids, ops);
            proof {
                let sl = choose|sl: Seq<u64>|
                    #![trigger menu_ops(native, items, sl)]
                    sl.len() == items.len() && ops@ == mid + menu_ops(native, items, sl);
                natives = natives.push(native);
                slots = slots.push(sl);
                let t = menus0.take(done + 1);
                assert(t.drop_last() =~= menus0.take(done));
                lemma_menubar_ops_prefix(window, t.drop_last(), n0, s0, natives, slots);
                assert(ops@ =~= ops2 + menubar_ops(window, t, natives, slots));
                done = done + 1;
            }
        }
        assert(menus0.take(done) =~= menus0);
        let subs = self.component.subscriptions();
        let ghost sv = subs;
        let timers = diff_timers(Vec::new(), subs, &mut ids, ops);
        let ghost ops4 = ops@;
        match self.title {
            Some(t) => ops.push(Op::WindowTitle { window, title: t }),
            None => {},
        }
        match self.status {
            Some(s) => ops.push(Op::StatusText { window, text: s }),
            None => {},
        }
        match self.size {
            Some((w, h)) => ops.push(Op::Resize { window, width: w, height: h }),
            None => {},
        }
        ops.push(Op::Show { window });
        proof {
            assert(ops@ =~= ops4 + window_ops(window, self.title, self.status, self.size));
            assert(ops@ =~= ops0 + mount_ops(
                window,
                central,
                root,
                v,
                menus0,
                natives,
                slots,
                sv@,
                timers@,
                self.title,
                self.status,
                self.size,
            ));
        }
        let rt = Runtime { component: self.component, window, root, timers, ids };
        // The witnesses of the postcondition.
        assert(ops@ == ops0 + mount_ops(
            rt.window,
            central,
            rt.root,
            v,
            menus0,
            natives,
            slots,
            sv@,
            rt.timers@,
            self.title,
            self.status,
            self.size,
        ));
        rt
    }
}

impl<C: Component> Runtime<C> {
    /// Applies one message to the component's state: the new state is one
    /// that the component's `update` may leave behind when given the old one
    /// and `msg`.
    pub fn update(&mut self, msg: C::Message)
        ensures
            exists|x: &mut C|
                *x == old(self).component && *final(x) == final(self).component && call_ensures(
                    C::update,
                    (x, msg),
                    (),
                ),
            final(self).window == old(self).window,
            final(self).root == old(self).root,
            final(self).timers == old(self).timers,
            final(self).ids == old(self).ids,
    {
        self.component.update(msg);
    }

    /// Re-renders: reconciles a fresh view against the live tree (the root
    /// column itself is kept, its one child patched in place when the kinds
    /// match and rebuilt otherwise), then the timers against the current
    /// subscriptions. Returns the operations to perform, in order.
    pub fn rerender(&mut self) -> (ops: Vec<Op<C::Message>>)
        requires
            root_shape(old(self).root),
        ensures
            final(self).component == old(self).component,
            final(self).window == old(self).window,
            root_shape(final(self).root),
            same_node(final(self).root, old(self).root),
            exists|v: Element<C::Message>, subs: Vec<Subscription<C::Message>>|
                #![trigger rerender_ops(old(self).root, final(self).root, v, old(self).timers@, subs@, final(self).timers@)]
                {
                    &&& call_ensures(C::view, (&old(self).component,), v)
                    &&& call_ensures(C::subscriptions, (&old(self).component,), subs)
                    &&& reflects(root_child(final(self).root), v)
                    &&& nan_free(v) ==> settled(root_child(final(self).root), v)
                    &&& same_kind_spec(root_child(old(self).root), v) ==> same_node(
                        root_child(final(self).root),
                        root_child(old(self).root),
                    )
                    &&& subs@.len() == final(self).timers@.len()
                    &&& forall|i: int|
                        0 <= i < subs@.len() ==> (#[trigger] final(self).timers@[i]).interval_ms
                            == subs@[i].interval_ms
                    &&& forall|i: int|
                        0 <= i < subs@.len() && i < old(self).timers@.len() ==> (
                        #[trigger] final(self).timers@[i]).timer == old(self).timers@[i].timer
                    &&& ops@ == rerender_ops(
                        old(self).root,
                        final(self).root,
                        v,
                        old(self).timers@,
                        subs@,
                        final(self).timers@,
                    )
                },
    {
        let ghost old_root = self.root;
        let ghost old_timers = self.timers@;
        let mut ops: Vec<Op<C::Message>> = Vec::new();
        let view = self.component.view();
        let ghost v = view;
        let mut root = Mounted::Stretch;
        std::mem::swap(&mut root, &mut self.root);
        match root {
            Mounted::Container { layout, vertical, children } => {
                let mut fresh: Vec<Element<C::Message>> = Vec::new();
                fresh.push(view);
                assert(fresh@ =~= seq![v]);
                let children = diff_children(layout, children, fresh, &mut self.ids, &mut ops);
                self.root = Mounted::Container { layout, vertical, children };
            },
            other => {
                self.root = other;
            },
        }
        let mut timers: Vec<MountedTimer> = Vec::new();
        std::mem::swap(&mut timers, &mut self.timers);
        let subs = self.component.subscriptions();
        let ghost sv = subs;
        self.timers = diff_timers(timers, subs, &mut self.ids, &mut ops);
        assert(ops@ == rerender_ops(old_root, self.root, v, old_timers, sv@, self.timers@));
        ops
    }

    /// The component's current state.
    pub fn state(&self) -> (c: &C)
        ensures
            *c == self.component,
    {
        &self.component
    }
}

} // verus!
