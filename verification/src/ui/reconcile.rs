//! Reconciliation: the widget tree on screen (a [`Mounted`] tree of widget
//! identities and the props last applied to them) is brought up to date with
//! a fresh [`Element`] tree by emitting the widget operations ([`Op`]) that
//! differ. Nodes of the same kind are patched in place and only their changed
//! props are touched; nodes of another kind are rebuilt; children are matched
//! by position.

use vstd::prelude::*;
use crate::text::texts;
use std::any::TypeId;
use crate::ui::handler::{Handler, TextHandler};
use crate::ui::element::{
    Element, Painter, MouseEvent, MouseButton, WheelEvent, same_type_id, ContainerEl,
    GroupBoxEl, CustomEl, button_of_code,
};
use crate::ui::subscription::Subscription;
use crate::ui::menu::{Menu, MenuItem};


verus! {

// ---------------------------------------------------------------------------
// Identities and operations
// ---------------------------------------------------------------------------

/// Hands out the identities of new widgets, layouts, event slots and timers.
pub struct IdSource {
    pub next: u64,
}

impl IdSource {
    pub fn new() -> (s: Self)
        ensures
            s.next == 0,
    {
        IdSource { next: 0 }
    }

    /// The next identity; the counter wraps after `u64::MAX`.
    pub fn fresh(&mut self) -> (id: u64)
        ensures
            id == old(self).next,
            final(self).next == (if old(self).next == u64::MAX { 0 } else { old(self).next + 1 }),
    {
        let id = self.next;
        self.next = if self.next == u64::MAX { 0 } else { self.next + 1 };
        id
    }
}

/// How a realized node sits in its parent's box layout.
#[derive(PartialEq, Eq, Structural)]
pub enum Attach {
    Widget(u64),
    Layout(u64),
    Stretch,
}

/// A widget or layout to create, with its constructor arguments.
pub enum Ctor {
    Label(String),
    Button(String),
    Checkbox(String),
    RadioButton(String),
    LineEdit(String),
    TextEdit(String),
    Slider { min: i32, max: i32, value: i32 },
    Dial { min: i32, max: i32, value: i32 },
    SpinBox { min: i32, max: i32, value: i32 },
    DoubleSpinBox { min_bits: u64, max_bits: u64, value_bits: u64, decimals: i32, step_bits: u64 },
    ProgressBar { min: i32, max: i32, value: i32 },
    ComboBox,
    List,
    Separator(bool),
    GroupBox(String),
    /// A box layout, vertical or horizontal.
    BoxLayout(bool),
    /// A custom-drawn canvas painting through the widget kept in `slot`.
    Canvas(u64),
    /// A top-level main window (menu bar, central widget, status bar).
    MainWindow,
    /// A plain widget, hosting a layout.
    Widget,
}

/// A prop of an existing widget to set.
pub enum Prop {
    Text(String),
    Checked(bool),
    /// The placeholder text of a text field; none shows an empty one.
    Placeholder(Option<String>),
    ReadOnly(bool),
    Value(i32),
    ValueBits(u64),
    /// Replaces all rows of a combo box or list.
    Items(Vec<String>),
    Current(i32),
    Title(String),
}

/// A widget signal an event slot is connected to.
#[derive(PartialEq, Eq, Structural)]
pub enum Signal {
    Clicked,
    Toggled,
    Changed,
    CurrentRowChanged,
    Activated,
    /// Mouse presses, moves and releases; `tracking` also reports moves with
    /// no button held.
    Mouse(bool),
    Wheel,
    Resize,
}

/// What an event slot does when its signal fires: map the payload to a
/// message through the element's handler (or do nothing without one).
#[verifier::reject_recursive_types(Msg)]
pub enum SlotFn<Msg> {
    Click(Option<Msg>),
    Bool(Option<Handler<bool, Msg>>),
    Int(Option<Handler<i32, Msg>>),
    Bits(Option<Handler<u64, Msg>>),
    Text(Option<TextHandler<Msg>>),
    Mouse {
        down: Option<Handler<MouseEvent, Msg>>,
        up: Option<Handler<MouseEvent, Msg>>,
        mv: Option<Handler<MouseEvent, Msg>>,
    },
    Wheel(Option<Handler<WheelEvent, Msg>>),
    Resize(Option<Handler<(i32, i32), Msg>>),
    Tick(Handler<(), Msg>),
}

/// One operation on the native widget tree.
#[verifier::reject_recursive_types(Msg)]
pub enum Op<Msg> {
    /// Creates widget or layout `id`.
    New { id: u64, ctor: Ctor },
    /// Sets a prop of widget `w`; `quiet` blocks the widget's signals while
    /// doing so, so a programmatic change does not echo back as a user event.
    SetProp { w: u64, prop: Prop, quiet: bool },
    /// Creates event slot `slot` running `f`.
    Keep { slot: u64, f: SlotFn<Msg> },
    /// Connects a signal of widget `w` to event slot `slot`.
    Connect { w: u64, signal: Signal, slot: u64 },
    /// Replaces what event slot `slot` runs.
    Repoint { slot: u64, f: SlotFn<Msg> },
    /// Creates the slot holding a custom widget's painter.
    KeepCanvas { slot: u64, widget: Painter },
    /// Replaces the custom widget painting through `slot`.
    SwapCanvas { slot: u64, widget: Painter },
    /// Schedules a repaint of widget `w`.
    Repaint { w: u64 },
    /// Pins widget `w` to a fixed size, or releases it to the layout.
    FixedSize { w: u64, size: Option<(i32, i32)> },
    /// Turns hover tracking of a canvas on or off.
    Tracking { w: u64, on: bool },
    Spacing { layout: u64, px: i32 },
    Margins { layout: u64, px: i32 },
    /// Appends a node to a layout.
    Add { layout: u64, node: Attach },
    /// Inserts a node into a layout at `index`.
    InsertAt { layout: u64, index: usize, node: Attach },
    /// Removes (and deletes) the item of a layout at `index`.
    RemoveAt { layout: u64, index: usize },
    /// Installs `layout` as the layout of widget `w`.
    SetLayout { w: u64, layout: u64 },
    /// Starts timer `timer` firing slot `slot` every `interval_ms`.
    NewTimer { timer: u64, interval_ms: u64, slot: u64, f: SlotFn<Msg> },
    SetInterval { timer: u64, interval_ms: u64 },
    /// Stops and deletes timer `timer`.
    DeleteTimer { timer: u64 },
    /// Adds a menu titled `title` to the menu bar of `window`.
    AddMenu { window: u64, menu: u64, title: String },
    /// Adds an action to menu `menu` that fires slot `slot`.
    MenuAction { menu: u64, text: String, slot: u64 },
    MenuSeparator { menu: u64 },
    /// Makes `central` the central widget of `window`.
    SetCentral { window: u64, central: u64 },
    WindowTitle { window: u64, title: String },
    StatusText { window: u64, text: String },
    Resize { window: u64, width: i32, height: i32 },
    Show { window: u64 },
}

// ---------------------------------------------------------------------------
// The mounted tree
// ---------------------------------------------------------------------------

/// A live node: the identities of its widget (or layout) and event slots,
/// and the props last applied, so the next diff can tell what changed.
pub enum Mounted {
    Label { w: u64, text: String },
    Button { w: u64, text: String, slot: u64 },
    Checkbox { w: u64, text: String, checked: bool, slot: u64 },
    RadioButton { w: u64, text: String, checked: bool, slot: u64 },
    LineEdit { w: u64, text: String, placeholder: Option<String>, slot: u64 },
    TextEdit { w: u64, text: String, placeholder: Option<String>, read_only: bool, slot: u64 },
    Slider { w: u64, value: i32, slot: u64 },
    Dial { w: u64, value: i32, slot: u64 },
    SpinBox { w: u64, value: i32, slot: u64 },
    DoubleSpinBox { w: u64, value_bits: u64, slot: u64 },
    ProgressBar { w: u64, value: i32 },
    ComboBox { w: u64, items: Vec<String>, current: i32, slot: u64 },
    List { w: u64, items: Vec<String>, current: i32, select_slot: u64, activate_slot: u64 },
    Separator { w: u64 },
    Container { layout: u64, vertical: bool, children: Vec<Mounted> },
    GroupBox { w: u64, layout: u64, title: String, vertical: bool, children: Vec<Mounted> },
    Custom {
        w: u64,
        type_id: TypeId,
        slot: u64,
        /// The fixed size last applied.
        size: Option<(i32, i32)>,
        mouse_slot: u64,
        wheel_slot: u64,
        resize_slot: u64,
        /// Whether hover tracking is on.
        tracking: bool,
    },
    Stretch,
}

/// The identity a reconciliation keeps or replaces: what kind of widget a
/// node is. Orientation is part of a container's kind, and each custom
/// widget type is its own kind.
pub enum Kind {
    Label,
    Button,
    Checkbox,
    RadioButton,
    LineEdit,
    TextEdit,
    Slider,
    Dial,
    SpinBox,
    DoubleSpinBox,
    ProgressBar,
    ComboBox,
    List,
    Separator,
    Container(bool),
    GroupBox(bool),
    Custom(TypeId),
    Stretch,
}

pub open spec fn element_kind<Msg>(e: Element<Msg>) -> Kind {
    match e {
        Element::Label(_) => Kind::Label,
        Element::Button(_) => Kind::Button,
        Element::Checkbox(_) => Kind::Checkbox,
        Element::RadioButton(_) => Kind::RadioButton,
        Element::LineEdit(_) => Kind::LineEdit,
        Element::TextEdit(_) => Kind::TextEdit,
        Element::Slider(_) => Kind::Slider,
        Element::Dial(_) => Kind::Dial,
        Element::SpinBox(_) => Kind::SpinBox,
        Element::DoubleSpinBox(_) => Kind::DoubleSpinBox,
        Element::ProgressBar(_) => Kind::ProgressBar,
        Element::ComboBox(_) => Kind::ComboBox,
        Element::List(_) => Kind::List,
        Element::Separator(_) => Kind::Separator,
        Element::Container(c) => Kind::Container(c.vertical),
        Element::GroupBox(g) => Kind::GroupBox(g.vertical),
        Element::Custom(c) => Kind::Custom(c.type_id),
        Element::Stretch => Kind::Stretch,
    }
}

pub open spec fn mounted_kind(m: Mounted) -> Kind {
    match m {
        Mounted::Label { .. } => Kind::Label,
        Mounted::Button { .. } => Kind::Button,
        Mounted::Checkbox { .. } => Kind::Checkbox,
        Mounted::RadioButton { .. } => Kind::RadioButton,
        Mounted::LineEdit { .. } => Kind::LineEdit,
        Mounted::TextEdit { .. } => Kind::TextEdit,
        Mounted::Slider { .. } => Kind::Slider,
        Mounted::Dial { .. } => Kind::Dial,
        Mounted::SpinBox { .. } => Kind::SpinBox,
        Mounted::DoubleSpinBox { .. } => Kind::DoubleSpinBox,
        Mounted::ProgressBar { .. } => Kind::ProgressBar,
        Mounted::ComboBox { .. } => Kind::ComboBox,
        Mounted::List { .. } => Kind::List,
        Mounted::Separator { .. } => Kind::Separator,
        Mounted::Container { vertical, .. } => Kind::Container(vertical),
        Mounted::GroupBox { vertical, .. } => Kind::GroupBox(vertical),
        Mounted::Custom { type_id, .. } => Kind::Custom(type_id),
        Mounted::Stretch => Kind::Stretch,
    }
}

/// Does a live node and a fresh element describe the same kind of widget? If
/// not, reconciliation replaces the node instead of patching it.
pub open spec fn same_kind_spec<Msg>(m: Mounted, e: Element<Msg>) -> bool {
    mounted_kind(m) == element_kind(e)
}

pub fn same_kind<Msg>(m: &Mounted, e: &Element<Msg>) -> (r: bool)
    ensures
        r == same_kind_spec(*m, *e),
{
    match (m, e) {
        (Mounted::Label { .. }, Element::Label(_)) => true,
        (Mounted::Button { .. }, Element::Button(_)) => true,
        (Mounted::Checkbox { .. }, Element::Checkbox(_)) => true,
        (Mounted::RadioButton { .. }, Element::RadioButton(_)) => true,
        (Mounted::LineEdit { .. }, Element::LineEdit(_)) => true,
        (Mounted::TextEdit { .. }, Element::TextEdit(_)) => true,
        (Mounted::Slider { .. }, Element::Slider(_)) => true,
        (Mounted::Dial { .. }, Element::Dial(_)) => true,
        (Mounted::SpinBox { .. }, Element::SpinBox(_)) => true,
        (Mounted::DoubleSpinBox { .. }, Element::DoubleSpinBox(_)) => true,
        (Mounted::ProgressBar { .. }, Element::ProgressBar(_)) => true,
        (Mounted::ComboBox { .. }, Element::ComboBox(_)) => true,
        (Mounted::List { .. }, Element::List(_)) => true,
        (Mounted::Separator { .. }, Element::Separator(_)) => true,
        (Mounted::Stretch, Element::Stretch) => true,
        (Mounted::Container { vertical, .. }, Element::Container(c)) => *vertical == c.vertical,
        (Mounted::GroupBox { vertical, .. }, Element::GroupBox(g)) => *vertical == g.vertical,
        (Mounted::Custom { type_id, .. }, Element::Custom(c)) => same_type_id(type_id, &c.type_id),
        _ => false,
    }
}

// ---------------------------------------------------------------------------
// What "up to date" means
// ---------------------------------------------------------------------------

pub open spec fn opt_text(o: Option<String>) -> Option<Seq<char>> {
    match o {
        Some(s) => Some(s@),
        None => None,
    }
}

/// `a` and `b` are bit patterns of doubles that `==` finds equal: neither is a
/// NaN and they are the same, or both are zeros of either sign.
pub open spec fn double_eq(a: u64, b: u64) -> bool {
    let abs_mask: u64 = 0x7FFF_FFFF_FFFF_FFFF;
    let exp_mask: u64 = 0x7FF0_0000_0000_0000;
    let frac_mask: u64 = 0x000F_FFFF_FFFF_FFFF;
    let a_nan = a & exp_mask == exp_mask && a & frac_mask != 0;
    let b_nan = b & exp_mask == exp_mask && b & frac_mask != 0;
    !a_nan && !b_nan && (a == b || (a & abs_mask == 0 && b & abs_mask == 0))
}

/// `bits` is the pattern of a NaN double.
pub open spec fn is_nan(bits: u64) -> bool {
    let exp_mask: u64 = 0x7FF0_0000_0000_0000;
    let frac_mask: u64 = 0x000F_FFFF_FFFF_FFFF;
    bits & exp_mask == exp_mask && bits & frac_mask != 0
}

/// No spin box of the element tree holds a NaN.
pub open spec fn nan_free<Msg>(e: Element<Msg>) -> bool
    decreases e,
{
    match e {
        Element::DoubleSpinBox(x) => !is_nan(x.value_bits),
        Element::Container(x) => forall|i: int|
            0 <= i < x.children@.len() ==> nan_free(#[trigger] x.children@[i]),
        Element::GroupBox(x) => forall|i: int|
            0 <= i < x.children@.len() ==> nan_free(#[trigger] x.children@[i]),
        _ => true,
    }
}

/// `==` on the doubles whose bit patterns are `a` and `b`.
pub fn double_eq_exec(a: u64, b: u64) -> (r: bool)
    ensures
        r == double_eq(a, b),
{
    let abs_mask: u64 = 0x7FFF_FFFF_FFFF_FFFF;
    let exp_mask: u64 = 0x7FF0_0000_0000_0000;
    let frac_mask: u64 = 0x000F_FFFF_FFFF_FFFF;
    let a_nan = a & exp_mask == exp_mask && a & frac_mask != 0;
    let b_nan = b & exp_mask == exp_mask && b & frac_mask != 0;
    !a_nan && !b_nan && (a == b || (a & abs_mask == 0 && b & abs_mask == 0))
}

/// A live node carries the props of a fresh element: same kind, and each prop
/// last applied equals the element's (a double up to `==`), children
/// position by position.
pub open spec fn reflects<Msg>(m: Mounted, e: Element<Msg>) -> bool
    decreases e,
{
    match (m, e) {
        (Mounted::Label { text, .. }, Element::Label(x)) => text@ == x.text@,
        (Mounted::Button { text, .. }, Element::Button(x)) => text@ == x.text@,
        (Mounted::Checkbox { text, checked, .. }, Element::Checkbox(x)) => text@ == x.text@
            && checked == x.checked,
        (Mounted::RadioButton { text, checked, .. }, Element::RadioButton(x)) => text@ == x.text@
            && checked == x.checked,
        (Mounted::LineEdit { text, placeholder, .. }, Element::LineEdit(x)) => text@ == x.text@
            && opt_text(placeholder) == opt_text(x.placeholder),
        (Mounted::TextEdit { text, placeholder, read_only, .. }, Element::TextEdit(x)) => text@
            == x.text@ && opt_text(placeholder) == opt_text(x.placeholder) && read_only
            == x.read_only,
        (Mounted::Slider { value, .. }, Element::Slider(x)) => value == x.value,
        (Mounted::Dial { value, .. }, Element::Dial(x)) => value == x.value,
        (Mounted::SpinBox { value, .. }, Element::SpinBox(x)) => value == x.value,
        (Mounted::DoubleSpinBox { value_bits, .. }, Element::DoubleSpinBox(x)) => value_bits
            == x.value_bits || double_eq(value_bits, x.value_bits),
        (Mounted::ProgressBar { value, .. }, Element::ProgressBar(x)) => value == x.value,
        (Mounted::ComboBox { items, current, .. }, Element::ComboBox(x)) => texts(items@)
            == texts(x.items@) && current == x.current,
        (Mounted::List { items, current, .. }, Element::List(x)) => texts(items@) == texts(
            x.items@,
        ) && current == x.current,
        (Mounted::Separator { .. }, Element::Separator(_)) => true,
        (Mounted::Container { vertical, children, .. }, Element::Container(x)) => {
            &&& vertical == x.vertical
            &&& children@.len() == x.children@.len()
            &&& forall|i: int|
                0 <= i < x.children@.len() ==> reflects(children@[i], #[trigger] x.children@[i])
        },
        (Mounted::GroupBox { title, vertical, children, .. }, Element::GroupBox(x)) => {
            &&& title@ == x.title@
            &&& vertical == x.vertical
            &&& children@.len() == x.children@.len()
            &&& forall|i: int|
                0 <= i < x.children@.len() ==> reflects(children@[i], #[trigger] x.children@[i])
        },
        (Mounted::Custom { type_id, tracking, .. }, Element::Custom(x)) => type_id == x.type_id
            && tracking == x.hover,
        (Mounted::Stretch, Element::Stretch) => true,
        _ => false,
    }
}

// ---------------------------------------------------------------------------
// Realize: build fresh widgets for an element
// ---------------------------------------------------------------------------

/// `ops` continues `before`: it holds every operation of `before`, in order,
/// followed by new ones.
pub open spec fn extends<Msg>(before: Seq<Op<Msg>>, ops: Seq<Op<Msg>>) -> bool {
    &&& before.len() <= ops.len()
    &&& forall|i: int| 0 <= i < before.len() ==> ops[i] == #[trigger] before[i]
}

pub proof fn lemma_extends_trans<Msg>(a: Seq<Op<Msg>>, b: Seq<Op<Msg>>, c: Seq<Op<Msg>>)
    requires
        extends(a, b),
        extends(b, c),
    ensures
        extends(a, c),
{
    assert forall|i: int| 0 <= i < a.len() implies c[i] == #[trigger] a[i] by {
        assert(b[i] == a[i]);
    }
}

pub open spec fn attach_of(m: Mounted) -> Attach {
    match m {
        Mounted::Container { layout, .. } => Attach::Layout(layout),
        Mounted::Stretch => Attach::Stretch,
        Mounted::Label { w, .. } => Attach::Widget(w),
        Mounted::Button { w, .. } => Attach::Widget(w),
        Mounted::Checkbox { w, .. } => Attach::Widget(w),
        Mounted::RadioButton { w, .. } => Attach::Widget(w),
        Mounted::LineEdit { w, .. } => Attach::Widget(w),
        Mounted::TextEdit { w, .. } => Attach::Widget(w),
        Mounted::Slider { w, .. } => Attach::Widget(w),
        Mounted::Dial { w, .. } => Attach::Widget(w),
        Mounted::SpinBox { w, .. } => Attach::Widget(w),
        Mounted::DoubleSpinBox { w, .. } => Attach::Widget(w),
        Mounted::ProgressBar { w, .. } => Attach::Widget(w),
        Mounted::ComboBox { w, .. } => Attach::Widget(w),
        Mounted::List { w, .. } => Attach::Widget(w),
        Mounted::Separator { w } => Attach::Widget(w),
        Mounted::GroupBox { w, .. } => Attach::Widget(w),
        Mounted::Custom { w, .. } => Attach::Widget(w),
    }
}

/// How `m` attaches to a parent box layout: its layout for a container, a
/// spacer for a stretch, its widget otherwise.
pub fn attach(m: &Mounted) -> (a: Attach)
    ensures
        a == attach_of(*m),
{
    match m {
        Mounted::Container { layout, .. } => Attach::Layout(*layout),
        Mounted::Stretch => Attach::Stretch,
        Mounted::Label { w, .. } => Attach::Widget(*w),
        Mounted::Button { w, .. } => Attach::Widget(*w),
        Mounted::Checkbox { w, .. } => Attach::Widget(*w),
        Mounted::RadioButton { w, .. } => Attach::Widget(*w),
        Mounted::LineEdit { w, .. } => Attach::Widget(*w),
        Mounted::TextEdit { w, .. } => Attach::Widget(*w),
        Mounted::Slider { w, .. } => Attach::Widget(*w),
        Mounted::Dial { w, .. } => Attach::Widget(*w),
        Mounted::SpinBox { w, .. } => Attach::Widget(*w),
        Mounted::DoubleSpinBox { w, .. } => Attach::Widget(*w),
        Mounted::ProgressBar { w, .. } => Attach::Widget(*w),
        Mounted::ComboBox { w, .. } => Attach::Widget(*w),
        Mounted::List { w, .. } => Attach::Widget(*w),
        Mounted::Separator { w } => Attach::Widget(*w),
        Mounted::GroupBox { w, .. } => Attach::Widget(*w),
        Mounted::Custom { w, .. } => Attach::Widget(*w),
    }
}

/// Appends `op` to `ops`.
fn push_op<Msg>(ops: &mut Vec<Op<Msg>>, op: Op<Msg>)
    ensures
        final(ops)@ == old(ops)@.push(op),
        extends(old(ops)@, final(ops)@),
{
    ops.push(op);
}

/// Copies of the strings of `v`.
fn clone_strings(v: &Vec<String>) -> (r: Vec<String>)
    ensures
        r@ == v@,
{
    let mut r: Vec<String> = Vec::new();
    let n = v.len();
    let mut i: usize = 0;
    while i < n
        invariant
            n == v@.len(),
            i <= n,
            r@ == v@.subrange(0, i as int),
        decreases n - i,
    {
        r.push(v[i].clone());
        i = i + 1;
        assert(r@ =~= v@.subrange(0, i as int));
    }
    r
}

/// `op` for the value an option holds, nothing for none.
pub open spec fn spacing_op<Msg>(layout: u64, spacing: Option<i32>) -> Seq<Op<Msg>> {
    match spacing {
        Some(px) => seq![Op::Spacing { layout, px }],
        None => Seq::empty(),
    }
}

pub open spec fn margins_op<Msg>(layout: u64, margin: Option<i32>) -> Seq<Op<Msg>> {
    match margin {
        Some(px) => seq![Op::Margins { layout, px }],
        None => Seq::empty(),
    }
}

/// The operations that build live node `m` for element `e`, in order: the
/// widget created with the element's props, its event slots created with the
/// element's handlers and connected; for a container, its layout, then each
/// child built and added in turn.
pub open spec fn realize_ops<Msg>(m: Mounted, e: Element<Msg>) -> Seq<Op<Msg>>
    decreases e, 0int,
{
    match (m, e) {
        (Mounted::Label { w, .. }, Element::Label(x)) => seq![
            Op::New { id: w, ctor: Ctor::Label(x.text) },
        ],
        (Mounted::Button { w, slot, .. }, Element::Button(x)) => seq![
            Op::New { id: w, ctor: Ctor::Button(x.text) },
            Op::Keep { slot, f: SlotFn::Click(x.on_click) },
            Op::Connect { w, signal: Signal::Clicked, slot },
        ],
        (Mounted::Checkbox { w, slot, .. }, Element::Checkbox(x)) => seq![
            Op::New { id: w, ctor: Ctor::Checkbox(x.text) },
            Op::SetProp { w, prop: Prop::Checked(x.checked), quiet: false },
            Op::Keep { slot, f: SlotFn::Bool(x.on_toggle) },
            Op::Connect { w, signal: Signal::Toggled, slot },
        ],
        (Mounted::RadioButton { w, slot, .. }, Element::RadioButton(x)) => seq![
            Op::New { id: w, ctor: Ctor::RadioButton(x.text) },
            Op::SetProp { w, prop: Prop::Checked(x.checked), quiet: false },
            Op::Keep { slot, f: SlotFn::Bool(x.on_toggle) },
            Op::Connect { w, signal: Signal::Toggled, slot },
        ],
        (Mounted::LineEdit { w, slot, .. }, Element::LineEdit(x)) => seq![
            Op::New { id: w, ctor: Ctor::LineEdit(x.text) },
        ] + op_if(
            x.placeholder is Some,
            Op::SetProp { w, prop: Prop::Placeholder(x.placeholder), quiet: false },
        ) + seq![
            Op::Keep { slot, f: SlotFn::Text(x.on_change) },
            Op::Connect { w, signal: Signal::Changed, slot },
        ],
        (Mounted::TextEdit { w, slot, .. }, Element::TextEdit(x)) => seq![
            Op::New { id: w, ctor: Ctor::TextEdit(x.text) },
        ] + op_if(
            x.placeholder is Some,
            Op::SetProp { w, prop: Prop::Placeholder(x.placeholder), quiet: false },
        ) + op_if(x.read_only, Op::SetProp { w, prop: Prop::ReadOnly(true), quiet: false })
            + seq![
            Op::Keep { slot, f: SlotFn::Text(x.on_change) },
            Op::Connect { w, signal: Signal::Changed, slot },
        ],
        (Mounted::Slider { w, slot, .. }, Element::Slider(x)) => seq![
            Op::New { id: w, ctor: Ctor::Slider { min: x.min, max: x.max, value: x.value } },
            Op::Keep { slot, f: SlotFn::Int(x.on_change) },
            Op::Connect { w, signal: Signal::Changed, slot },
        ],
        (Mounted::Dial { w, slot, .. }, Element::Dial(x)) => seq![
            Op::New { id: w, ctor: Ctor::Dial { min: x.min, max: x.max, value: x.value } },
            Op::Keep { slot, f: SlotFn::Int(x.on_change) },
            Op::Connect { w, signal: Signal::Changed, slot },
        ],
        (Mounted::SpinBox { w, slot, .. }, Element::SpinBox(x)) => seq![
            Op::New { id: w, ctor: Ctor::SpinBox { min: x.min, max: x.max, value: x.value } },
            Op::Keep { slot, f: SlotFn::Int(x.on_change) },
            Op::Connect { w, signal: Signal::Changed, slot },
        ],
        (Mounted::DoubleSpinBox { w, slot, .. }, Element::DoubleSpinBox(x)) => seq![
            Op::New {
                id: w,
                ctor: Ctor::DoubleSpinBox {
                    min_bits: x.min_bits,
                    max_bits: x.max_bits,
                    value_bits: x.value_bits,
                    decimals: x.decimals,
                    step_bits: x.step_bits,
                },
            },
            Op::Keep { slot, f: SlotFn::Bits(x.on_change) },
            Op::Connect { w, signal: Signal::Changed, slot },
        ],
        (Mounted::ProgressBar { w, .. }, Element::ProgressBar(x)) => seq![
            Op::New { id: w, ctor: Ctor::ProgressBar { min: x.min, max: x.max, value: x.value } },
        ],
        (Mounted::ComboBox { w, slot, .. }, Element::ComboBox(x)) => seq![
            Op::New { id: w, ctor: Ctor::ComboBox },
            Op::SetProp { w, prop: Prop::Items(x.items), quiet: false },
            Op::SetProp { w, prop: Prop::Current(x.current), quiet: false },
            Op::Keep { slot, f: SlotFn::Int(x.on_change) },
            Op::Connect { w, signal: Signal::Changed, slot },
        ],
        (Mounted::List { w, select_slot, activate_slot, .. }, Element::List(x)) => seq![
            Op::New { id: w, ctor: Ctor::List },
            Op::SetProp { w, prop: Prop::Items(x.items), quiet: false },
            Op::SetProp { w, prop: Prop::Current(x.current), quiet: false },
            Op::Keep { slot: select_slot, f: SlotFn::Int(x.on_select) },
            Op::Keep { slot: activate_slot, f: SlotFn::Int(x.on_activate) },
            Op::Connect { w, signal: Signal::CurrentRowChanged, slot: select_slot },
            Op::Connect { w, signal: Signal::Activated, slot: activate_slot },
        ],
        (Mounted::Separator { w }, Element::Separator(x)) => seq![
            Op::New { id: w, ctor: Ctor::Separator(x.vertical) },
        ],
        (Mounted::Container { layout, children, .. }, Element::Container(x)) => seq![
            Op::New { id: layout, ctor: Ctor::BoxLayout(x.vertical) },
        ] + spacing_op(layout, x.spacing) + margins_op(layout, x.margin) + children_ops(
            layout,
            children@,
            x.children@,
            x.children@.len() as int,
        ),
        (Mounted::GroupBox { w, layout, children, .. }, Element::GroupBox(x)) => seq![
            Op::New { id: w, ctor: Ctor::GroupBox(x.title) },
            Op::New { id: layout, ctor: Ctor::BoxLayout(x.vertical) },
        ] + spacing_op(layout, x.spacing) + margins_op(layout, x.margin) + children_ops(
            layout,
            children@,
            x.children@,
            x.children@.len() as int,
        ) + seq![Op::SetLayout { w, layout }],
        (
            Mounted::Custom { w, slot, size, mouse_slot, wheel_slot, resize_slot, .. },
            Element::Custom(x),
        ) => seq![
            Op::KeepCanvas { slot, widget: x.inner },
            Op::New { id: w, ctor: Ctor::Canvas(slot) },
        ] + op_if(size is Some, Op::FixedSize { w, size }) + seq![
            Op::Keep {
                slot: mouse_slot,
                f: SlotFn::Mouse { down: x.on_down, up: x.on_up, mv: x.on_move },
            },
            Op::Keep { slot: wheel_slot, f: SlotFn::Wheel(x.on_wheel) },
            Op::Keep { slot: resize_slot, f: SlotFn::Resize(x.on_resize) },
            Op::Connect { w, signal: Signal::Mouse(x.hover), slot: mouse_slot },
            Op::Connect { w, signal: Signal::Wheel, slot: wheel_slot },
            Op::Connect { w, signal: Signal::Resize, slot: resize_slot },
            Op::Repaint { w },
        ],
        _ => Seq::empty(),
    }
}

/// The operations that build the first `k` children of a container and add
/// each to `layout` right after it is built.
pub open spec fn children_ops<Msg>(
    layout: u64,
    ms: Seq<Mounted>,
    es: Seq<Element<Msg>>,
    k: int,
) -> Seq<Op<Msg>>
    decreases es, k,
{
    if k <= 0 || k > es.len() {
        Seq::empty()
    } else {
        proof {
            vstd::seq::axiom_seq_index_decreases(es, k - 1);
        }
        children_ops(layout, ms, es, k - 1) + realize_ops(ms[k - 1], es[k - 1]) + seq![
            Op::Add { layout, node: attach_of(ms[k - 1]) },
        ]
    }
}

/// The identities a live node holds, in the order they are drawn when it is
/// built: its widget (or layout) and event slots, then its children's.
pub open spec fn ids_of(m: Mounted) -> Seq<u64>
    decreases m, 0int,
{
    match m {
        Mounted::Label { w, .. } => seq![w],
        Mounted::Button { w, slot, .. } => seq![w, slot],
        Mounted::Checkbox { w, slot, .. } => seq![w, slot],
        Mounted::RadioButton { w, slot, .. } => seq![w, slot],
        Mounted::LineEdit { w, slot, .. } => seq![w, slot],
        Mounted::TextEdit { w, slot, .. } => seq![w, slot],
        Mounted::Slider { w, slot, .. } => seq![w, slot],
        Mounted::Dial { w, slot, .. } => seq![w, slot],
        Mounted::SpinBox { w, slot, .. } => seq![w, slot],
        Mounted::DoubleSpinBox { w, slot, .. } => seq![w, slot],
        Mounted::ProgressBar { w, .. } => seq![w],
        Mounted::ComboBox { w, slot, .. } => seq![w, slot],
        Mounted::List { w, select_slot, activate_slot, .. } => seq![w, select_slot, activate_slot],
        Mounted::Separator { w } => seq![w],
        Mounted::Container { layout, children, .. } => seq![layout] + children_ids(
            children@,
            children@.len() as int,
        ),
        Mounted::GroupBox { w, layout, children, .. } => seq![w, layout] + children_ids(
            children@,
            children@.len() as int,
        ),
        Mounted::Custom { w, slot, mouse_slot, wheel_slot, resize_slot, .. } => seq![
            slot,
            w,
            mouse_slot,
            wheel_slot,
            resize_slot,
        ],
        Mounted::Stretch => Seq::empty(),
    }
}

/// The identities of the first `k` nodes of `ms`, node after node.
pub open spec fn children_ids(ms: Seq<Mounted>, k: int) -> Seq<u64>
    decreases ms, k,
{
    if k <= 0 || k > ms.len() {
        Seq::empty()
    } else {
        proof {
            vstd::seq::axiom_seq_index_decreases(ms, k - 1);
        }
        children_ids(ms, k - 1) + ids_of(ms[k - 1])
    }
}

/// [`children_ids`] depends only on the first `k` nodes.
pub proof fn lemma_children_ids_prefix(ms1: Seq<Mounted>, ms2: Seq<Mounted>, k: int)
    requires
        k <= ms1.len(),
        k <= ms2.len(),
        forall|i: int| 0 <= i < k ==> ms1[i] == ms2[i],
    ensures
        children_ids(ms1, k) == children_ids(ms2, k),
    decreases k,
{
    if k > 0 {
        lemma_children_ids_prefix(ms1, ms2, k - 1);
    }
}

/// `s` is the run of consecutive identities starting at `from`.
pub open spec fn drawn_from(s: Seq<u64>, from: int) -> bool {
    forall|i: int| 0 <= i < s.len() ==> #[trigger] s[i] == from + i
}

/// Consecutive runs join into one.
pub proof fn lemma_drawn_concat(a: Seq<u64>, b: Seq<u64>, from: int)
    requires
        drawn_from(a, from),
        drawn_from(b, from + a.len()),
    ensures
        drawn_from(a + b, from),
{
    assert forall|i: int| 0 <= i < (a + b).len() implies #[trigger] (a + b)[i] == from + i by {
        if i < a.len() {
            assert((a + b)[i] == a[i]);
        } else {
            assert((a + b)[i] == b[i - a.len()]);
        }
    }
}

/// A run of consecutive identities holds each at most once.
pub proof fn lemma_drawn_distinct(s: Seq<u64>, from: int)
    requires
        drawn_from(s, from),
    ensures
        s.no_duplicates(),
{
    assert forall|i: int, j: int| 0 <= i < s.len() && 0 <= j < s.len() && i != j implies #[trigger] s[i]
        != #[trigger] s[j] by {
        assert(s[i] == from + i);
        assert(s[j] == from + j);
    }
}

/// Building a node drew its identities afresh from `ids`: when the counter
/// had room for them (`before + n <= u64::MAX`, `n` the node's identity
/// count), they are `before, before + 1, ...` in drawing order, hence all
/// new and pairwise distinct, and the counter moved past them.
pub open spec fn fresh_ids(s: Seq<u64>, before: u64, after: u64) -> bool {
    before + s.len() <= u64::MAX ==> {
        &&& after == before + s.len()
        &&& drawn_from(s, before as int)
        &&& s.no_duplicates()
    }
}

/// [`children_ops`] depends only on the first `k` live children.
pub proof fn lemma_children_ops_prefix<Msg>(
    layout: u64,
    ms1: Seq<Mounted>,
    ms2: Seq<Mounted>,
    es: Seq<Element<Msg>>,
    k: int,
)
    requires
        k <= ms1.len(),
        k <= ms2.len(),
        forall|i: int| 0 <= i < k ==> ms1[i] == ms2[i],
    ensures
        children_ops(layout, ms1, es, k) == children_ops(layout, ms2, es, k),
    decreases k,
{
    if k > 0 && k <= es.len() {
        lemma_children_ops_prefix(layout, ms1, ms2, es, k - 1);
    }
}

/// Builds fresh widgets for `e`, returning the live node that now stands
/// for it. The operations that create and wire the widgets are appended to
/// `ops` in the order the native calls are made.
pub fn realize<Msg>(e: Element<Msg>, ids: &mut IdSource, ops: &mut Vec<Op<Msg>>) -> (m: Mounted)
    ensures
        reflects(m, e),
        fresh_ids(ids_of(m), old(ids).next, final(ids).next),
        nan_free(e) ==> settled(m, e),
        final(ops)@ == old(ops)@ + realize_ops(m, e),
        extends(old(ops)@, final(ops)@),
    decreases e,
{
    let ghost e0 = e;
    let ghost ops0 = ops@;
    let ghost n0 = ids.next;
    let m = match e {
        Element::Label(x) => {
            let w = ids.fresh();
            push_op(ops, Op::New { id: w, ctor: Ctor::Label(x.text.clone()) });
            let r = Mounted::Label { w, text: x.text };
            assert(ops@ =~= ops0 + realize_ops(r, e0));
            r
        },
        Element::Button(x) => {
            let w = ids.fresh();
            push_op(ops, Op::New { id: w, ctor: Ctor::Button(x.text.clone()) });
            let slot = ids.fresh();
            push_op(ops, Op::Keep { slot, f: SlotFn::Click(x.on_click) });
            push_op(ops, Op::Connect { w, signal: Signal::Clicked, slot });
            let r = Mounted::Button { w, text: x.text, slot };
            assert(ops@ =~= ops0 + realize_ops(r, e0));
            r
        },
        Element::Checkbox(x) => {
            let w = ids.fresh();
            push_op(ops, Op::New { id: w, ctor: Ctor::Checkbox(x.text.clone()) });
            push_op(ops, Op::SetProp { w, prop: Prop::Checked(x.checked), quiet: false });
            let slot = ids.fresh();
            push_op(ops, Op::Keep { slot, f: SlotFn::Bool(x.on_toggle) });
            push_op(ops, Op::Connect { w, signal: Signal::Toggled, slot });
            let r = Mounted::Checkbox { w, text: x.text, checked: x.checked, slot };
            assert(ops@ =~= ops0 + realize_ops(r, e0));
            r
        },
        Element::RadioButton(x) => {
            let w = ids.fresh();
            push_op(ops, Op::New { id: w, ctor: Ctor::RadioButton(x.text.clone()) });
            push_op(ops, Op::SetProp { w, prop: Prop::Checked(x.checked), quiet: false });
            let slot = ids.fresh();
            push_op(ops, Op::Keep { slot, f: SlotFn::Bool(x.on_toggle) });
            push_op(ops, Op::Connect { w, signal: Signal::Toggled, slot });
            let r = Mounted::RadioButton { w, text: x.text, checked: x.checked, slot };
            assert(ops@ =~= ops0 + realize_ops(r, e0));
            r
        },
        Element::LineEdit(x) => {
            let w = ids.fresh();
            push_op(ops, Op::New { id: w, ctor: Ctor::LineEdit(x.text.clone()) });
            match &x.placeholder {
                Some(p) => {
                    push_op(ops, Op::SetProp { w, prop: Prop::Placeholder(Some(p.clone())), quiet: false });
                },
                None => {},
            }
            let slot = ids.fresh();
            push_op(ops, Op::Keep { slot, f: SlotFn::Text(x.on_change) });
            push_op(ops, Op::Connect { w, signal: Signal::Changed, slot });
            let r = Mounted::LineEdit { w, text: x.text, placeholder: x.placeholder, slot };
            assert(ops@ =~= ops0 + realize_ops(r, e0));
            r
        },
        Element::TextEdit(x) => {
            let w = ids.fresh();
            push_op(ops, Op::New { id: w, ctor: Ctor::TextEdit(x.text.clone()) });
            match &x.placeholder {
                Some(p) => {
                    push_op(ops, Op::SetProp { w, prop: Prop::Placeholder(Some(p.clone())), quiet: false });
                },
                None => {},
            }
            if x.read_only {
                push_op(ops, Op::SetProp { w, prop: Prop::ReadOnly(true), quiet: false });
            }
            let slot = ids.fresh();
            push_op(ops, Op::Keep { slot, f: SlotFn::Text(x.on_change) });
            push_op(ops, Op::Connect { w, signal: Signal::Changed, slot });
            let r = Mounted::TextEdit {
                w,
                text: x.text,
                placeholder: x.placeholder,
                read_only: x.read_only,
                slot,
            };
            assert(ops@ =~= ops0 + realize_ops(r, e0));
            r
        },
        Element::Slider(x) => {
            let w = ids.fresh();
            push_op(ops, Op::New { id: w, ctor: Ctor::Slider { min: x.min, max: x.max, value: x.value } });
            let slot = ids.fresh();
            push_op(ops, Op::Keep { slot, f: SlotFn::Int(x.on_change) });
            push_op(ops, Op::Connect { w, signal: Signal::Changed, slot });
            let r = Mounted::Slider { w, value: x.value, slot };
            assert(ops@ =~= ops0 + realize_ops(r, e0));
            r
        },
        Element::Dial(x) => {
            let w = ids.fresh();
            push_op(ops, Op::New { id: w, ctor: Ctor::Dial { min: x.min, max: x.max, value: x.value } });
            let slot = ids.fresh();
            push_op(ops, Op::Keep { slot, f: SlotFn::Int(x.on_change) });
            push_op(ops, Op::Connect { w, signal: Signal::Changed, slot });
            let r = Mounted::Dial { w, value: x.value, slot };
            assert(ops@ =~= ops0 + realize_ops(r, e0));
            r
        },
        Element::SpinBox(x) => {
            let w = ids.fresh();
            push_op(ops, 
                Op::New { id: w, ctor: Ctor::SpinBox { min: x.min, max: x.max, value: x.value } },
            );
            let slot = ids.fresh();
            push_op(ops, Op::Keep { slot, f: SlotFn::Int(x.on_change) });
            push_op(ops, Op::Connect { w, signal: Signal::Changed, slot });
            let r = Mounted::SpinBox { w, value: x.value, slot };
            assert(ops@ =~= ops0 + realize_ops(r, e0));
            r
        },
        Element::DoubleSpinBox(x) => {
            let w = ids.fresh();
            push_op(ops, 
                Op::New {
                    id: w,
                    ctor: Ctor::DoubleSpinBox {
                        min_bits: x.min_bits,
                        max_bits: x.max_bits,
                        value_bits: x.value_bits,
                        decimals: x.decimals,
                        step_bits: x.step_bits,
                    },
                },
            );
            let slot = ids.fresh();
            push_op(ops, Op::Keep { slot, f: SlotFn::Bits(x.on_change) });
            push_op(ops, Op::Connect { w, signal: Signal::Changed, slot });
            let r = Mounted::DoubleSpinBox { w, value_bits: x.value_bits, slot };
            assert(ops@ =~= ops0 + realize_ops(r, e0));
            r
        },
        Element::ProgressBar(x) => {
            let w = ids.fresh();
            push_op(ops, 
                Op::New { id: w, ctor: Ctor::ProgressBar { min: x.min, max: x.max, value: x.value } },
            );
            let r = Mounted::ProgressBar { w, value: x.value };
            assert(ops@ =~= ops0 + realize_ops(r, e0));
            r
        },
        Element::ComboBox(x) => {
            let w = ids.fresh();
            let keep = clone_strings(&x.items);
            push_op(ops, Op::New { id: w, ctor: Ctor::ComboBox });
            push_op(ops, Op::SetProp { w, prop: Prop::Items(x.items), quiet: false });
            push_op(ops, Op::SetProp { w, prop: Prop::Current(x.current), quiet: false });
            let slot = ids.fresh();
            push_op(ops, Op::Keep { slot, f: SlotFn::Int(x.on_change) });
            push_op(ops, Op::Connect { w, signal: Signal::Changed, slot });
            let r = Mounted::ComboBox { w, items: keep, current: x.current, slot };
            assert(ops@ =~= ops0 + realize_ops(r, e0));
            r
        },
        Element::List(x) => {
            let w = ids.fresh();
            let keep = clone_strings(&x.items);
            push_op(ops, Op::New { id: w, ctor: Ctor::List });
            push_op(ops, Op::SetProp { w, prop: Prop::Items(x.items), quiet: false });
            push_op(ops, Op::SetProp { w, prop: Prop::Current(x.current), quiet: false });
            let select_slot = ids.fresh();
            push_op(ops, Op::Keep { slot: select_slot, f: SlotFn::Int(x.on_select) });
            let activate_slot = ids.fresh();
            push_op(ops, Op::Keep { slot: activate_slot, f: SlotFn::Int(x.on_activate) });
            push_op(ops, Op::Connect { w, signal: Signal::CurrentRowChanged, slot: select_slot });
            push_op(ops, Op::Connect { w, signal: Signal::Activated, slot: activate_slot });
            let r = Mounted::List { w, items: keep, current: x.current, select_slot, activate_slot };
            assert(ops@ =~= ops0 + realize_ops(r, e0));
            r
        },
        Element::Separator(x) => {
            let w = ids.fresh();
            push_op(ops, Op::New { id: w, ctor: Ctor::Separator(x.vertical) });
            let r = Mounted::Separator { w };
            assert(ops@ =~= ops0 + realize_ops(r, e0));
            r
        },
        Element::Container(x) => realize_container(x, ids, ops),
        Element::GroupBox(x) => realize_group_box(x, ids, ops),
        Element::Custom(x) => realize_custom(x, ids, ops),
        Element::Stretch => Mounted::Stretch,
    };
    proof {
        if n0 + ids_of(m).len() <= u64::MAX {
            assert(drawn_from(ids_of(m), n0 as int));
            lemma_drawn_distinct(ids_of(m), n0 as int);
        }
    }
    m
}

/// Realizes a custom widget: its painter slot, the canvas, its fixed size if
/// it asks for one, and its input slots, connected; then a first repaint.
fn realize_custom<Msg>(x: CustomEl<Msg>, ids: &mut IdSource, ops: &mut Vec<Op<Msg>>) -> (m: Mounted)
    ensures
        fresh_ids(ids_of(m), old(ids).next, final(ids).next),
        reflects(m, Element::Custom(x)),
        settled(m, Element::Custom(x)),
        final(ops)@ == old(ops)@ + realize_ops(m, Element::Custom(x)),
        extends(old(ops)@, final(ops)@),
{
    let ghost e0 = Element::Custom(x);
    let ghost ops0 = ops@;
    let size = x.inner.size();
    let slot = ids.fresh();
    push_op(ops, Op::KeepCanvas { slot, widget: x.inner });
    let w = ids.fresh();
    push_op(ops, Op::New { id: w, ctor: Ctor::Canvas(slot) });
    if size.is_some() {
        push_op(ops, Op::FixedSize { w, size });
    }
    let tracking = x.hover;
    let mouse_slot = ids.fresh();
    push_op(
        ops,
        Op::Keep {
            slot: mouse_slot,
            f: SlotFn::Mouse { down: x.on_down, up: x.on_up, mv: x.on_move },
        },
    );
    let wheel_slot = ids.fresh();
    push_op(ops, Op::Keep { slot: wheel_slot, f: SlotFn::Wheel(x.on_wheel) });
    let resize_slot = ids.fresh();
    push_op(ops, Op::Keep { slot: resize_slot, f: SlotFn::Resize(x.on_resize) });
    push_op(ops, Op::Connect { w, signal: Signal::Mouse(tracking), slot: mouse_slot });
    push_op(ops, Op::Connect { w, signal: Signal::Wheel, slot: wheel_slot });
    push_op(ops, Op::Connect { w, signal: Signal::Resize, slot: resize_slot });
    push_op(ops, Op::Repaint { w });
    let r = Mounted::Custom {
        w,
        type_id: x.type_id,
        slot,
        size,
        mouse_slot,
        wheel_slot,
        resize_slot,
        tracking,
    };
    assert(ops@ =~= ops0 + realize_ops(r, e0));
    r
}

/// Realizes `children` in order, appending each to `layout`.
#[verifier::loop_isolation(false)]
fn realize_children<Msg>(
    children: Vec<Element<Msg>>,
    layout: u64,
    ids: &mut IdSource,
    ops: &mut Vec<Op<Msg>>,
) -> (nodes: Vec<Mounted>)
    ensures
        fresh_ids(children_ids(nodes@, nodes@.len() as int), old(ids).next, final(ids).next),
        nodes@.len() == children@.len(),
        forall|i: int| 0 <= i < children@.len() ==> reflects(#[trigger] nodes@[i], children@[i]),
        forall|i: int|
            0 <= i < children@.len() && nan_free(children@[i]) ==> settled(
                #[trigger] nodes@[i],
                children@[i],
            ),
        final(ops)@ == old(ops)@ + children_ops(layout, nodes@, children@, children@.len() as int),
        extends(old(ops)@, final(ops)@),
    decreases children,
{
    let ghost cv = children;
    let ghost all = children@;
    let ghost ops0 = ops@;
    let mut rest = crate::ui::element::reversed(children);
    let mut nodes: Vec<Mounted> = Vec::new();
    let ghost n0 = ids.next;
    let ghost mut ok = true;
    while rest.len() > 0
        invariant
            ok ==> ids.next == n0 + children_ids(nodes@, nodes@.len() as int).len() && drawn_from(
                children_ids(nodes@, nodes@.len() as int),
                n0 as int,
            ),
            !ok ==> n0 + children_ids(nodes@, nodes@.len() as int).len() > u64::MAX,
            nodes@.len() + rest@.len() == all.len(),
            forall|j: int| 0 <= j < rest@.len() ==> #[trigger] rest@[j] == all[all.len() - 1 - j],
            forall|i: int| 0 <= i < nodes@.len() ==> reflects(#[trigger] nodes@[i], all[i]),
            forall|i: int|
                0 <= i < nodes@.len() && nan_free(all[i]) ==> settled(#[trigger] nodes@[i], all[i]),
            ops@ == ops0 + children_ops(layout, nodes@, all, nodes@.len() as int),
            extends(ops0, ops@),
            cv@ == all,
        decreases rest@.len(),
    {
        let ghost k = nodes@.len() as int;
        let ghost before = ops@;
        let child = rest.pop().unwrap();
        assert(child == all[k]);
        proof {
            vstd::std_specs::vec::axiom_vec_index_decreases(cv, k);
            assert(decreases_to!(cv => child));
        }
        let ghost c = ids.next;
        let node = realize(child, ids, ops);
        let a = attach(&node);
        push_op(ops, Op::Add { layout, node: a });
        proof {
            lemma_extends_trans(ops0, before, ops@);
        }
        let ghost old_nodes = nodes@;
        nodes.push(node);
        proof {
            lemma_children_ids_prefix(old_nodes, nodes@, k);
            assert(children_ids(nodes@, k + 1) == children_ids(old_nodes, k) + ids_of(node));
            if ok {
                if c + ids_of(node).len() <= u64::MAX {
                    lemma_drawn_concat(children_ids(old_nodes, k), ids_of(node), n0 as int);
                } else {
                    ok = false;
                }
            }
            lemma_children_ops_prefix(layout, old_nodes, nodes@, all, k);
            assert(nodes@[k] == node);
            assert(ops@ =~= ops0 + children_ops(layout, nodes@, all, k + 1));
        }
    }
    proof {
        if ok {
            lemma_drawn_distinct(children_ids(nodes@, nodes@.len() as int), n0 as int);
        }
    }
    nodes
}

/// Realizes a column or row: a box layout with the children added in order.
fn realize_container<Msg>(e: ContainerEl<Msg>, ids: &mut IdSource, ops: &mut Vec<Op<Msg>>) -> (m:
    Mounted)
    ensures
        fresh_ids(ids_of(m), old(ids).next, final(ids).next),
        reflects(m, Element::Container(e)),
        nan_free(Element::Container(e)) ==> settled(m, Element::Container(e)),
        final(ops)@ == old(ops)@ + realize_ops(m, Element::Container(e)),
        extends(old(ops)@, final(ops)@),
    decreases e,
{
    let layout = ids.fresh();
    push_op(ops, Op::New { id: layout, ctor: Ctor::BoxLayout(e.vertical) });
    match e.spacing {
        Some(s) => push_op(ops, Op::Spacing { layout, px: s }),
        None => {},
    }
    match e.margin {
        Some(px) => push_op(ops, Op::Margins { layout, px }),
        None => {},
    }
    let ghost ops1 = ops@;
    let children = realize_children(e.children, layout, ids, ops);
    proof {
        lemma_extends_trans(old(ops)@, ops1, ops@);
    }
    Mounted::Container { layout, vertical: e.vertical, children }
}

/// Realizes a titled group box: the frame, its box layout with the children
/// added in order, and the layout installed in the frame.
fn realize_group_box<Msg>(e: GroupBoxEl<Msg>, ids: &mut IdSource, ops: &mut Vec<Op<Msg>>) -> (m:
    Mounted)
    ensures
        fresh_ids(ids_of(m), old(ids).next, final(ids).next),
        reflects(m, Element::GroupBox(e)),
        nan_free(Element::GroupBox(e)) ==> settled(m, Element::GroupBox(e)),
        final(ops)@ == old(ops)@ + realize_ops(m, Element::GroupBox(e)),
        extends(old(ops)@, final(ops)@),
    decreases e,
{
    let w = ids.fresh();
    push_op(ops, Op::New { id: w, ctor: Ctor::GroupBox(e.title.clone()) });
    let layout = ids.fresh();
    push_op(ops, Op::New { id: layout, ctor: Ctor::BoxLayout(e.vertical) });
    match e.spacing {
        Some(s) => push_op(ops, Op::Spacing { layout, px: s }),
        None => {},
    }
    match e.margin {
        Some(px) => push_op(ops, Op::Margins { layout, px }),
        None => {},
    }
    let ghost ops1 = ops@;
    let children = realize_children(e.children, layout, ids, ops);
    push_op(ops, Op::SetLayout { w, layout });
    proof {
        lemma_extends_trans(old(ops)@, ops1, ops@);
    }
    Mounted::GroupBox { w, layout, title: e.title, vertical: e.vertical, children }
}

// ---------------------------------------------------------------------------
// Patch: bring a live node of the same kind up to date in place
// ---------------------------------------------------------------------------

/// `a` and `b` are the same live node: the same kind, widget, layout and
/// event slots. A patched node stays the same node.
pub open spec fn same_node(a: Mounted, b: Mounted) -> bool {
    match (a, b) {
        (Mounted::Label { w: x, .. }, Mounted::Label { w: y, .. }) => x == y,
        (Mounted::Button { w: x, slot: s, .. }, Mounted::Button { w: y, slot: t, .. }) => x == y
            && s == t,
        (Mounted::Checkbox { w: x, slot: s, .. }, Mounted::Checkbox { w: y, slot: t, .. }) => x
            == y && s == t,
        (
            Mounted::RadioButton { w: x, slot: s, .. },
            Mounted::RadioButton { w: y, slot: t, .. },
        ) => x == y && s == t,
        (Mounted::LineEdit { w: x, slot: s, .. }, Mounted::LineEdit { w: y, slot: t, .. }) => x
            == y && s == t,
        (Mounted::TextEdit { w: x, slot: s, .. }, Mounted::TextEdit { w: y, slot: t, .. }) => x
            == y && s == t,
        (Mounted::Slider { w: x, slot: s, .. }, Mounted::Slider { w: y, slot: t, .. }) => x == y
            && s == t,
        (Mounted::Dial { w: x, slot: s, .. }, Mounted::Dial { w: y, slot: t, .. }) => x == y && s
            == t,
        (Mounted::SpinBox { w: x, slot: s, .. }, Mounted::SpinBox { w: y, slot: t, .. }) => x == y
            && s == t,
        (
            Mounted::DoubleSpinBox { w: x, slot: s, .. },
            Mounted::DoubleSpinBox { w: y, slot: t, .. },
        ) => x == y && s == t,
        (Mounted::ProgressBar { w: x, .. }, Mounted::ProgressBar { w: y, .. }) => x == y,
        (Mounted::ComboBox { w: x, slot: s, .. }, Mounted::ComboBox { w: y, slot: t, .. }) => x
            == y && s == t,
        (
            Mounted::List { w: x, select_slot: s1, activate_slot: s2, .. },
            Mounted::List { w: y, select_slot: t1, activate_slot: t2, .. },
        ) => x == y && s1 == t1 && s2 == t2,
        (Mounted::Separator { w: x }, Mounted::Separator { w: y }) => x == y,
        (
            Mounted::Container { layout: x, vertical: v, .. },
            Mounted::Container { layout: y, vertical: u, .. },
        ) => x == y && v == u,
        (
            Mounted::GroupBox { w: x, layout: l, vertical: v, .. },
            Mounted::GroupBox { w: y, layout: k, vertical: u, .. },
        ) => x == y && l == k && v == u,
        (
            Mounted::Custom {
                w: x,
                type_id: i,
                slot: s,
                mouse_slot: s1,
                wheel_slot: s2,
                resize_slot: s3,
                ..
            },
            Mounted::Custom {
                w: y,
                type_id: j,
                slot: t,
                mouse_slot: t1,
                wheel_slot: t2,
                resize_slot: t3,
                ..
            },
        ) => x == y && i == j && s == t && s1 == t1 && s2 == t2 && s3 == t3,
        (Mounted::Stretch, Mounted::Stretch) => true,
        _ => false,
    }
}

/// `op` when `c` holds, nothing otherwise.
pub open spec fn op_if<Msg>(c: bool, op: Op<Msg>) -> Seq<Op<Msg>> {
    if c {
        seq![op]
    } else {
        Seq::empty()
    }
}

/// The node has no children: everything but containers, group boxes and
/// custom widgets.
pub open spec fn is_leaf(m: Mounted) -> bool {
    !(m is Container) && !(m is GroupBox) && !(m is Custom)
}

/// The operations that bring leaf node `m` up to date with element `e` of the
/// same kind: one `SetProp` per prop that differs (with signals blocked for
/// the props a user edits), then each event slot re-pointed at the element's
/// handler.
pub open spec fn leaf_patch_ops<Msg>(m: Mounted, e: Element<Msg>) -> Seq<Op<Msg>> {
    match (m, e) {
        (Mounted::Label { w, text }, Element::Label(x)) => op_if(
            text@ != x.text@,
            Op::SetProp { w, prop: Prop::Text(x.text), quiet: false },
        ),
        (Mounted::Button { w, text, slot }, Element::Button(x)) => op_if(
            text@ != x.text@,
            Op::SetProp { w, prop: Prop::Text(x.text), quiet: false },
        ) + seq![Op::Repoint { slot, f: SlotFn::Click(x.on_click) }],
        (Mounted::Checkbox { w, text, checked, slot }, Element::Checkbox(x)) => op_if(
            text@ != x.text@,
            Op::SetProp { w, prop: Prop::Text(x.text), quiet: false },
        ) + op_if(
            checked != x.checked,
            Op::SetProp { w, prop: Prop::Checked(x.checked), quiet: true },
        ) + seq![Op::Repoint { slot, f: SlotFn::Bool(x.on_toggle) }],
        (Mounted::RadioButton { w, text, checked, slot }, Element::RadioButton(x)) => op_if(
            text@ != x.text@,
            Op::SetProp { w, prop: Prop::Text(x.text), quiet: false },
        ) + op_if(
            checked != x.checked,
            Op::SetProp { w, prop: Prop::Checked(x.checked), quiet: true },
        ) + seq![Op::Repoint { slot, f: SlotFn::Bool(x.on_toggle) }],
        (Mounted::LineEdit { w, text, placeholder, slot }, Element::LineEdit(x)) => op_if(
            text@ != x.text@,
            Op::SetProp { w, prop: Prop::Text(x.text), quiet: true },
        ) + op_if(
            opt_text(placeholder) != opt_text(x.placeholder),
            Op::SetProp { w, prop: Prop::Placeholder(x.placeholder), quiet: false },
        ) + seq![Op::Repoint { slot, f: SlotFn::Text(x.on_change) }],
        (Mounted::TextEdit { w, text, placeholder, read_only, slot }, Element::TextEdit(x)) => op_if(
            text@ != x.text@,
            Op::SetProp { w, prop: Prop::Text(x.text), quiet: true },
        ) + op_if(
            opt_text(placeholder) != opt_text(x.placeholder),
            Op::SetProp { w, prop: Prop::Placeholder(x.placeholder), quiet: false },
        ) + op_if(
            read_only != x.read_only,
            Op::SetProp { w, prop: Prop::ReadOnly(x.read_only), quiet: false },
        ) + seq![Op::Repoint { slot, f: SlotFn::Text(x.on_change) }],
        (Mounted::Slider { w, value, slot }, Element::Slider(x)) => op_if(
            value != x.value,
            Op::SetProp { w, prop: Prop::Value(x.value), quiet: true },
        ) + seq![Op::Repoint { slot, f: SlotFn::Int(x.on_change) }],
        (Mounted::Dial { w, value, slot }, Element::Dial(x)) => op_if(
            value != x.value,
            Op::SetProp { w, prop: Prop::Value(x.value), quiet: true },
        ) + seq![Op::Repoint { slot, f: SlotFn::Int(x.on_change) }],
        (Mounted::SpinBox { w, value, slot }, Element::SpinBox(x)) => op_if(
            value != x.value,
            Op::SetProp { w, prop: Prop::Value(x.value), quiet: true },
        ) + seq![Op::Repoint { slot, f: SlotFn::Int(x.on_change) }],
        (Mounted::DoubleSpinBox { w, value_bits, slot }, Element::DoubleSpinBox(x)) => op_if(
            !double_eq(value_bits, x.value_bits),
            Op::SetProp { w, prop: Prop::ValueBits(x.value_bits), quiet: true },
        ) + seq![Op::Repoint { slot, f: SlotFn::Bits(x.on_change) }],
        (Mounted::ProgressBar { w, value }, Element::ProgressBar(x)) => op_if(
            value != x.value,
            Op::SetProp { w, prop: Prop::Value(x.value), quiet: false },
        ),
        (Mounted::ComboBox { w, items, current, slot }, Element::ComboBox(x)) => {
            let refill = texts(items@) != texts(x.items@);
            // Refilling resets the selection, so it is set again unless the
            // new one is "none".
            let shown = if refill {
                -1i32
            } else {
                current
            };
            op_if(refill, Op::SetProp { w, prop: Prop::Items(x.items), quiet: true }) + op_if(
                shown != x.current,
                Op::SetProp { w, prop: Prop::Current(x.current), quiet: true },
            ) + seq![Op::Repoint { slot, f: SlotFn::Int(x.on_change) }]
        },
        (
            Mounted::List { w, items, current, select_slot, activate_slot },
            Element::List(x),
        ) => {
            let refill = texts(items@) != texts(x.items@);
            // Refilling always sets the highlighted row again.
            let shown = if refill {
                -2i32
            } else {
                current
            };
            op_if(refill, Op::SetProp { w, prop: Prop::Items(x.items), quiet: true }) + op_if(
                shown != x.current,
                Op::SetProp { w, prop: Prop::Current(x.current), quiet: true },
            ) + seq![
                Op::Repoint { slot: select_slot, f: SlotFn::Int(x.on_select) },
                Op::Repoint { slot: activate_slot, f: SlotFn::Int(x.on_activate) },
            ]
        },
        _ => Seq::empty(),
    }
}

/// `String`'s `==`.
fn text_eq(a: &String, b: &String) -> (r: bool)
    ensures
        r == (a@ == b@),
{
    *a == *b
}

fn opt_text_eq(a: &Option<String>, b: &Option<String>) -> (r: bool)
    ensures
        r == (opt_text(*a) == opt_text(*b)),
{
    match (a, b) {
        (Some(x), Some(y)) => text_eq(x, y),
        (None, None) => true,
        _ => false,
    }
}

fn clone_opt_text(a: &Option<String>) -> (r: Option<String>)
    ensures
        opt_text(r) == opt_text(*a),
{
    match a {
        Some(x) => Some(x.clone()),
        None => None,
    }
}

fn texts_eq(a: &Vec<String>, b: &Vec<String>) -> (r: bool)
    ensures
        r == (texts(a@) == texts(b@)),
{
    if a.len() != b.len() {
        assert(texts(a@).len() != texts(b@).len());
        return false;
    }
    let n = a.len();
    let mut i: usize = 0;
    while i < n
        invariant
            n == a@.len(),
            n == b@.len(),
            i <= n,
            forall|j: int| 0 <= j < i ==> a@[j]@ == b@[j]@,
        decreases n - i,
    {
        if !text_eq(&a[i], &b[i]) {
            assert(texts(a@)[i as int] != texts(b@)[i as int]);
            return false;
        }
        i = i + 1;
    }
    assert(texts(a@) =~= texts(b@));
    true
}

fn size_eq(a: Option<(i32, i32)>, b: Option<(i32, i32)>) -> (r: bool)
    ensures
        r == (a == b),
{
    match (a, b) {
        (Some(x), Some(y)) => x.0 == y.0 && x.1 == y.1,
        (None, None) => true,
        _ => false,
    }
}

/// The operations that bring live node `m` up to date with element `e` of
/// the same kind, `r` being the node that results: a leaf's changed props
/// (see [`leaf_patch_ops`]); a group box's title if it changed; a
/// container's children reconciled (see [`diff_ops`]); a custom widget's
/// size if its hint changed, its input slots re-pointed, hover tracking if
/// it changed, its painter swapped in, and a repaint.
pub open spec fn patch_ops<Msg>(m: Mounted, e: Element<Msg>, r: Mounted) -> Seq<Op<Msg>>
    decreases e, 0int,
{
    match (m, e, r) {
        (
            Mounted::Container { layout, children, .. },
            Element::Container(x),
            Mounted::Container { children: rc, .. },
        ) => diff_ops(layout, children@, x.children@, rc@),
        (
            Mounted::GroupBox { w, layout, title, children, .. },
            Element::GroupBox(x),
            Mounted::GroupBox { children: rc, .. },
        ) => op_if(title@ != x.title@, Op::SetProp { w, prop: Prop::Title(x.title), quiet: false })
            + diff_ops(layout, children@, x.children@, rc@),
        (
            Mounted::Custom { w, slot, size, mouse_slot, wheel_slot, resize_slot, tracking, .. },
            Element::Custom(x),
            Mounted::Custom { size: new_size, .. },
        ) => op_if(size != new_size, Op::FixedSize { w, size: new_size }) + seq![
            Op::Repoint {
                slot: mouse_slot,
                f: SlotFn::Mouse { down: x.on_down, up: x.on_up, mv: x.on_move },
            },
            Op::Repoint { slot: wheel_slot, f: SlotFn::Wheel(x.on_wheel) },
            Op::Repoint { slot: resize_slot, f: SlotFn::Resize(x.on_resize) },
        ] + op_if(tracking != x.hover, Op::Tracking { w, on: x.hover }) + seq![
            Op::SwapCanvas { slot, widget: x.inner },
            Op::Repaint { w },
        ],
        _ => leaf_patch_ops(m, e),
    }
}

/// Reconciling a container's children (`olds` live, `news` fresh, `rs` the
/// resulting nodes): each shared position patched in place when the kinds
/// match, else its node removed and a fresh one built and inserted there;
/// then the surplus removed from the highest index down, or the remaining
/// new children built and inserted at the end.
pub open spec fn diff_ops<Msg>(
    layout: u64,
    olds: Seq<Mounted>,
    news: Seq<Element<Msg>>,
    rs: Seq<Mounted>,
) -> Seq<Op<Msg>>
    decreases news, news.len() + 1,
{
    let shared = if olds.len() < news.len() {
        olds.len() as int
    } else {
        news.len() as int
    };
    matched_ops(layout, olds, news, rs, shared) + removal_ops(
        layout,
        news.len() as int,
        olds.len() as int,
    ) + append_ops(layout, olds.len() as int, news, rs, news.len() as int)
}

/// The operations for the first `k` shared positions.
pub open spec fn matched_ops<Msg>(
    layout: u64,
    olds: Seq<Mounted>,
    news: Seq<Element<Msg>>,
    rs: Seq<Mounted>,
    k: int,
) -> Seq<Op<Msg>>
    decreases news, k,
{
    if k <= 0 || k > news.len() || k > olds.len() {
        Seq::empty()
    } else {
        let i = k - 1;
        proof {
            vstd::seq::axiom_seq_index_decreases(news, i);
        }
        matched_ops(layout, olds, news, rs, i) + if same_kind_spec(olds[i], news[i]) {
            patch_ops(olds[i], news[i], rs[i])
        } else {
            seq![Op::RemoveAt { layout, index: i as usize }] + realize_ops(rs[i], news[i]) + seq![
                Op::InsertAt { layout, index: i as usize, node: attach_of(rs[i]) },
            ]
        }
    }
}

/// The identities a patch draws afresh, in drawing order: those of the
/// nodes built for children whose kind changed or that were added, at every
/// level of the patched tree.
pub open spec fn patch_new_ids<Msg>(m: Mounted, e: Element<Msg>, r: Mounted) -> Seq<u64>
    decreases e, 0int,
{
    match (m, e, r) {
        (
            Mounted::Container { children, .. },
            Element::Container(x),
            Mounted::Container { children: rc, .. },
        ) => diff_new_ids(children@, x.children@, rc@),
        (
            Mounted::GroupBox { children, .. },
            Element::GroupBox(x),
            Mounted::GroupBox { children: rc, .. },
        ) => diff_new_ids(children@, x.children@, rc@),
        _ => Seq::empty(),
    }
}

/// The identities reconciling children `olds` against `news` draws afresh,
/// leaving `rs`: position by position, those of a patched child's new
/// descendants or of a rebuilt child, then those of the appended children.
pub open spec fn diff_new_ids<Msg>(olds: Seq<Mounted>, news: Seq<Element<Msg>>, rs: Seq<Mounted>) -> Seq<u64>
    decreases news, news.len() + 1,
{
    let shared = if olds.len() < news.len() {
        olds.len() as int
    } else {
        news.len() as int
    };
    matched_new_ids(olds, news, rs, shared) + appended_ids(rs, olds.len() as int, news.len() as int)
}

/// [`diff_new_ids`] for the first `k` shared positions.
pub open spec fn matched_new_ids<Msg>(
    olds: Seq<Mounted>,
    news: Seq<Element<Msg>>,
    rs: Seq<Mounted>,
    k: int,
) -> Seq<u64>
    decreases news, k,
{
    if k <= 0 || k > news.len() || k > olds.len() {
        Seq::empty()
    } else {
        let i = k - 1;
        proof {
            vstd::seq::axiom_seq_index_decreases(news, i);
        }
        matched_new_ids(olds, news, rs, i) + if same_kind_spec(olds[i], news[i]) {
            patch_new_ids(olds[i], news[i], rs[i])
        } else {
            ids_of(rs[i])
        }
    }
}

/// The identities of the nodes at positions `lo..hi`, in order.
pub open spec fn appended_ids(rs: Seq<Mounted>, lo: int, hi: int) -> Seq<u64>
    decreases hi - lo,
{
    if hi <= lo {
        Seq::empty()
    } else {
        appended_ids(rs, lo, hi - 1) + ids_of(rs[hi - 1])
    }
}

pub proof fn lemma_matched_new_ids_prefix<Msg>(
    olds: Seq<Mounted>,
    news: Seq<Element<Msg>>,
    rs1: Seq<Mounted>,
    rs2: Seq<Mounted>,
    k: int,
)
    requires
        forall|i: int| 0 <= i < k ==> rs1[i] == rs2[i],
    ensures
        matched_new_ids(olds, news, rs1, k) == matched_new_ids(olds, news, rs2, k),
    decreases k,
{
    if k > 0 && k <= news.len() && k <= olds.len() {
        lemma_matched_new_ids_prefix(olds, news, rs1, rs2, k - 1);
    }
}

pub proof fn lemma_appended_ids_prefix(rs1: Seq<Mounted>, rs2: Seq<Mounted>, lo: int, hi: int)
    requires
        forall|i: int| lo <= i < hi ==> rs1[i] == rs2[i],
    ensures
        appended_ids(rs1, lo, hi) == appended_ids(rs2, lo, hi),
    decreases hi - lo,
{
    if hi > lo {
        lemma_appended_ids_prefix(rs1, rs2, lo, hi - 1);
    }
}

/// Removing the layout items at indices `lo..hi`, highest first.
pub open spec fn removal_ops<Msg>(layout: u64, lo: int, hi: int) -> Seq<Op<Msg>>
    decreases hi - lo,
{
    if hi <= lo {
        Seq::empty()
    } else {
        removal_ops(layout, lo + 1, hi) + seq![Op::RemoveAt { layout, index: lo as usize }]
    }
}

/// Building the new children at positions `from..k` and inserting each at
/// its position.
pub open spec fn append_ops<Msg>(
    layout: u64,
    from: int,
    news: Seq<Element<Msg>>,
    rs: Seq<Mounted>,
    k: int,
) -> Seq<Op<Msg>>
    decreases k - from,
{
    if k <= from || k > news.len() {
        Seq::empty()
    } else {
        append_ops(layout, from, news, rs, k - 1) + realize_ops(rs[k - 1], news[k - 1]) + seq![
            Op::InsertAt { layout, index: (k - 1) as usize, node: attach_of(rs[k - 1]) },
        ]
    }
}

/// [`matched_ops`] depends only on the first `k` resulting nodes.
pub proof fn lemma_matched_ops_prefix<Msg>(
    layout: u64,
    olds: Seq<Mounted>,
    news: Seq<Element<Msg>>,
    rs1: Seq<Mounted>,
    rs2: Seq<Mounted>,
    k: int,
)
    requires
        forall|i: int| 0 <= i < k ==> rs1[i] == rs2[i],
    ensures
        matched_ops(layout, olds, news, rs1, k) == matched_ops(layout, olds, news, rs2, k),
    decreases k,
{
    if k > 0 && k <= news.len() && k <= olds.len() {
        lemma_matched_ops_prefix(layout, olds, news, rs1, rs2, k - 1);
    }
}

/// [`append_ops`] depends only on the first `k` resulting nodes.
pub proof fn lemma_append_ops_prefix<Msg>(
    layout: u64,
    from: int,
    news: Seq<Element<Msg>>,
    rs1: Seq<Mounted>,
    rs2: Seq<Mounted>,
    k: int,
)
    requires
        0 <= from,
        forall|i: int| 0 <= i < k ==> rs1[i] == rs2[i],
    ensures
        append_ops(layout, from, news, rs1, k) == append_ops(layout, from, news, rs2, k),
    decreases k - from,
{
    if k > from && k <= news.len() {
        lemma_append_ops_prefix(layout, from, news, rs1, rs2, k - 1);
    }
}

/// Patches a leaf node (see [`leaf_patch_ops`]).
fn patch_leaf<Msg>(m: Mounted, e: Element<Msg>, ops: &mut Vec<Op<Msg>>) -> (r: Mounted)
    requires
        same_kind_spec(m, e),
        is_leaf(m),
    ensures
        reflects(r, e),
        nan_free(e) ==> settled(r, e),
        same_node(r, m),
        final(ops)@ == old(ops)@ + leaf_patch_ops(m, e),
{
    let ghost m0 = m;
    let ghost e0 = e;
    let ghost ops0 = ops@;
    match (m, e) {
        (Mounted::Label { w, text }, Element::Label(x)) => {
            let keep = x.text.clone();
            if !text_eq(&text, &x.text) {
                push_op(ops, Op::SetProp { w, prop: Prop::Text(x.text), quiet: false });
            }
            assert(ops@ =~= ops0 + leaf_patch_ops(m0, e0));
            Mounted::Label { w, text: keep }
        },
        (Mounted::Button { w, text, slot }, Element::Button(x)) => {
            let keep = x.text.clone();
            if !text_eq(&text, &x.text) {
                push_op(ops, Op::SetProp { w, prop: Prop::Text(x.text), quiet: false });
            }
            push_op(ops, Op::Repoint { slot, f: SlotFn::Click(x.on_click) });
            assert(ops@ =~= ops0 + leaf_patch_ops(m0, e0));
            Mounted::Button { w, text: keep, slot }
        },
        (Mounted::Checkbox { w, text, checked, slot }, Element::Checkbox(x)) => {
            let keep = x.text.clone();
            if !text_eq(&text, &x.text) {
                push_op(ops, Op::SetProp { w, prop: Prop::Text(x.text), quiet: false });
            }
            if checked != x.checked {
                push_op(ops, Op::SetProp { w, prop: Prop::Checked(x.checked), quiet: true });
            }
            push_op(ops, Op::Repoint { slot, f: SlotFn::Bool(x.on_toggle) });
            assert(ops@ =~= ops0 + leaf_patch_ops(m0, e0));
            Mounted::Checkbox { w, text: keep, checked: x.checked, slot }
        },
        (Mounted::RadioButton { w, text, checked, slot }, Element::RadioButton(x)) => {
            let keep = x.text.clone();
            if !text_eq(&text, &x.text) {
                push_op(ops, Op::SetProp { w, prop: Prop::Text(x.text), quiet: false });
            }
            if checked != x.checked {
                push_op(ops, Op::SetProp { w, prop: Prop::Checked(x.checked), quiet: true });
            }
            push_op(ops, Op::Repoint { slot, f: SlotFn::Bool(x.on_toggle) });
            assert(ops@ =~= ops0 + leaf_patch_ops(m0, e0));
            Mounted::RadioButton { w, text: keep, checked: x.checked, slot }
        },
        (Mounted::LineEdit { w, text, placeholder, slot }, Element::LineEdit(x)) => {
            let keep = x.text.clone();
            let keep_p = clone_opt_text(&x.placeholder);
            if !text_eq(&text, &x.text) {
                push_op(ops, Op::SetProp { w, prop: Prop::Text(x.text), quiet: true });
            }
            if !opt_text_eq(&placeholder, &x.placeholder) {
                push_op(ops, Op::SetProp { w, prop: Prop::Placeholder(x.placeholder), quiet: false });
            }
            push_op(ops, Op::Repoint { slot, f: SlotFn::Text(x.on_change) });
            assert(ops@ =~= ops0 + leaf_patch_ops(m0, e0));
            Mounted::LineEdit { w, text: keep, placeholder: keep_p, slot }
        },
        (Mounted::TextEdit { w, text, placeholder, read_only, slot }, Element::TextEdit(x)) => {
            let keep = x.text.clone();
            let keep_p = clone_opt_text(&x.placeholder);
            if !text_eq(&text, &x.text) {
                push_op(ops, Op::SetProp { w, prop: Prop::Text(x.text), quiet: true });
            }
            if !opt_text_eq(&placeholder, &x.placeholder) {
                push_op(ops, Op::SetProp { w, prop: Prop::Placeholder(x.placeholder), quiet: false });
            }
            if read_only != x.read_only {
                push_op(ops, Op::SetProp { w, prop: Prop::ReadOnly(x.read_only), quiet: false });
            }
            push_op(ops, Op::Repoint { slot, f: SlotFn::Text(x.on_change) });
            assert(ops@ =~= ops0 + leaf_patch_ops(m0, e0));
            Mounted::TextEdit { w, text: keep, placeholder: keep_p, read_only: x.read_only, slot }
        },
        (Mounted::Slider { w, value, slot }, Element::Slider(x)) => {
            if value != x.value {
                push_op(ops, Op::SetProp { w, prop: Prop::Value(x.value), quiet: true });
            }
            push_op(ops, Op::Repoint { slot, f: SlotFn::Int(x.on_change) });
            assert(ops@ =~= ops0 + leaf_patch_ops(m0, e0));
            Mounted::Slider { w, value: x.value, slot }
        },
        (Mounted::Dial { w, value, slot }, Element::Dial(x)) => {
            if value != x.value {
                push_op(ops, Op::SetProp { w, prop: Prop::Value(x.value), quiet: true });
            }
            push_op(ops, Op::Repoint { slot, f: SlotFn::Int(x.on_change) });
            assert(ops@ =~= ops0 + leaf_patch_ops(m0, e0));
            Mounted::Dial { w, value: x.value, slot }
        },
        (Mounted::SpinBox { w, value, slot }, Element::SpinBox(x)) => {
            if value != x.value {
                push_op(ops, Op::SetProp { w, prop: Prop::Value(x.value), quiet: true });
            }
            push_op(ops, Op::Repoint { slot, f: SlotFn::Int(x.on_change) });
            assert(ops@ =~= ops0 + leaf_patch_ops(m0, e0));
            Mounted::SpinBox { w, value: x.value, slot }
        },
        (Mounted::DoubleSpinBox { w, value_bits, slot }, Element::DoubleSpinBox(x)) => {
            let mut shown = value_bits;
            if !double_eq_exec(value_bits, x.value_bits) {
                push_op(ops, Op::SetProp { w, prop: Prop::ValueBits(x.value_bits), quiet: true });
                shown = x.value_bits;
            }
            push_op(ops, Op::Repoint { slot, f: SlotFn::Bits(x.on_change) });
            assert(ops@ =~= ops0 + leaf_patch_ops(m0, e0));
            Mounted::DoubleSpinBox { w, value_bits: shown, slot }
        },
        (Mounted::ProgressBar { w, value }, Element::ProgressBar(x)) => {
            if value != x.value {
                push_op(ops, Op::SetProp { w, prop: Prop::Value(x.value), quiet: false });
            }
            assert(ops@ =~= ops0 + leaf_patch_ops(m0, e0));
            Mounted::ProgressBar { w, value: x.value }
        },
        (Mounted::ComboBox { w, items, current, slot }, Element::ComboBox(x)) => {
            let keep = clone_strings(&x.items);
            let mut shown = current;
            if !texts_eq(&items, &x.items) {
                push_op(ops, Op::SetProp { w, prop: Prop::Items(x.items), quiet: true });
                shown = -1;
            }
            if shown != x.current {
                push_op(ops, Op::SetProp { w, prop: Prop::Current(x.current), quiet: true });
            }
            push_op(ops, Op::Repoint { slot, f: SlotFn::Int(x.on_change) });
            assert(ops@ =~= ops0 + leaf_patch_ops(m0, e0));
            Mounted::ComboBox { w, items: keep, current: x.current, slot }
        },
        (
            Mounted::List { w, items, current, select_slot, activate_slot },
            Element::List(x),
        ) => {
            let keep = clone_strings(&x.items);
            let mut shown = current;
            if !texts_eq(&items, &x.items) {
                push_op(ops, Op::SetProp { w, prop: Prop::Items(x.items), quiet: true });
                shown = -2;
            }
            if shown != x.current {
                push_op(ops, Op::SetProp { w, prop: Prop::Current(x.current), quiet: true });
            }
            push_op(ops, Op::Repoint { slot: select_slot, f: SlotFn::Int(x.on_select) });
            push_op(ops, Op::Repoint { slot: activate_slot, f: SlotFn::Int(x.on_activate) });
            assert(ops@ =~= ops0 + leaf_patch_ops(m0, e0));
            Mounted::List { w, items: keep, current: x.current, select_slot, activate_slot }
        },
        (Mounted::Separator { w }, Element::Separator(_)) => {
            assert(ops@ =~= ops0 + leaf_patch_ops(m0, e0));
            Mounted::Separator { w }
        },
        (Mounted::Stretch, Element::Stretch) => {
            assert(ops@ =~= ops0 + leaf_patch_ops(m0, e0));
            Mounted::Stretch
        },
        (m1, _) => {
            proof {
                assert(false);
            }
            m1
        },
    }
}

/// Patches a group box: its title if it changed, then its children.
fn patch_group_box<Msg>(
    w: u64,
    layout: u64,
    title: String,
    vertical: bool,
    children: Vec<Mounted>,
    x: GroupBoxEl<Msg>,
    ids: &mut IdSource,
    ops: &mut Vec<Op<Msg>>,
) -> (r: Mounted)
    requires
        vertical == x.vertical,
    ensures
        reflects(r, Element::GroupBox(x)),
        nan_free(Element::GroupBox(x)) ==> settled(r, Element::GroupBox(x)),
        same_node(r, Mounted::GroupBox { w, layout, title, vertical, children }),
        fresh_ids(
            patch_new_ids(
                Mounted::GroupBox { w, layout, title, vertical, children },
                Element::GroupBox(x),
                r,
            ),
            old(ids).next,
            final(ids).next,
        ),
        final(ops)@ == old(ops)@ + patch_ops(
            Mounted::GroupBox { w, layout, title, vertical, children },
            Element::GroupBox(x),
            r,
        ),
        extends(old(ops)@, final(ops)@),
    decreases x,
{
    let ghost ops0 = ops@;
    let keep = x.title.clone();
    if !text_eq(&title, &x.title) {
        push_op(ops, Op::SetProp { w, prop: Prop::Title(x.title), quiet: false });
    }
    let ghost ops1 = ops@;
    let children = diff_children(layout, children, x.children, ids, ops);
    proof {
        lemma_extends_trans(ops0, ops1, ops@);
    }
    let r = Mounted::GroupBox { w, layout, title: keep, vertical, children };
    r
}

/// Patches a custom widget: its fixed size if the hint changed, its input
/// slots re-pointed, hover tracking if it changed, the new painter swapped
/// in, then a repaint.
fn patch_custom<Msg>(m: Mounted, x: CustomEl<Msg>, ops: &mut Vec<Op<Msg>>) -> (r: Mounted)
    requires
        same_kind_spec(m, Element::Custom(x)),
    ensures
        reflects(r, Element::Custom(x)),
        settled(r, Element::Custom(x)),
        same_node(r, m),
        final(ops)@ == old(ops)@ + patch_ops(m, Element::Custom(x), r),
{
    let ghost ops0 = ops@;
    let ghost e0 = Element::Custom(x);
    match m {
        Mounted::Custom { w, type_id, slot, size, mouse_slot, wheel_slot, resize_slot, tracking } => {
            // The size hint may depend on state that changed: re-read it and
            // touch the widget only when it differs.
            let new_size = x.inner.size();
            if !size_eq(size, new_size) {
                push_op(ops, Op::FixedSize { w, size: new_size });
            }
            push_op(
                ops,
                Op::Repoint {
                    slot: mouse_slot,
                    f: SlotFn::Mouse { down: x.on_down, up: x.on_up, mv: x.on_move },
                },
            );
            push_op(ops, Op::Repoint { slot: wheel_slot, f: SlotFn::Wheel(x.on_wheel) });
            push_op(ops, Op::Repoint { slot: resize_slot, f: SlotFn::Resize(x.on_resize) });
            if tracking != x.hover {
                push_op(ops, Op::Tracking { w, on: x.hover });
            }
            push_op(ops, Op::SwapCanvas { slot, widget: x.inner });
            push_op(ops, Op::Repaint { w });
            let r = Mounted::Custom {
                w,
                type_id,
                slot,
                size: new_size,
                mouse_slot,
                wheel_slot,
                resize_slot,
                tracking: x.hover,
            };
            assert(ops@ =~= ops0 + patch_ops(m, e0, r));
            r
        },
        m1 => {
            proof {
                assert(false);
            }
            m1
        },
    }
}

/// Brings `m` up to date with `e`, an element of the same kind, touching only
/// the props that differ; returns the updated node, which stays the same
/// live node. Children are reconciled position by position.
pub fn patch<Msg>(m: Mounted, e: Element<Msg>, ids: &mut IdSource, ops: &mut Vec<Op<Msg>>) -> (r:
    Mounted)
    requires
        same_kind_spec(m, e),
    ensures
        reflects(r, e),
        nan_free(e) ==> settled(r, e),
        same_node(r, m),
        fresh_ids(patch_new_ids(m, e, r), old(ids).next, final(ids).next),
        final(ops)@ == old(ops)@ + patch_ops(m, e, r),
        extends(old(ops)@, final(ops)@),
        is_leaf(m) ==> final(ops)@ == old(ops)@ + leaf_patch_ops(m, e),
    decreases e,
{
    let ghost ops0 = ops@;
    match (m, e) {
        (Mounted::Container { layout, vertical, children }, Element::Container(x)) => {
            let children = diff_children(layout, children, x.children, ids, ops);
            Mounted::Container { layout, vertical, children }
        },
        (
            Mounted::GroupBox { w, layout, title, vertical, children },
            Element::GroupBox(x),
        ) => patch_group_box(w, layout, title, vertical, children, x, ids, ops),
        (m1, Element::Custom(x)) => {
            let r = patch_custom(m1, x, ops);
            assert(extends(ops0, ops@));
            r
        },
        (m1, e1) => {
            let r = patch_leaf(m1, e1, ops);
            assert(extends(ops0, ops@));
            r
        },
    }
}

/// Reconciles a container's children by position: where the kinds match the
/// live node is patched in place, elsewhere it is replaced by a fresh one;
/// then the surplus tail is removed (highest index first) or the remaining
/// new children are appended.
#[verifier::loop_isolation(false)]
#[verifier::rlimit(40)]
pub fn diff_children<Msg>(
    layout: u64,
    live: Vec<Mounted>,
    new: Vec<Element<Msg>>,
    ids: &mut IdSource,
    ops: &mut Vec<Op<Msg>>,
) -> (r: Vec<Mounted>)
    ensures
        r@.len() == new@.len(),
        forall|i: int| 0 <= i < new@.len() ==> reflects(#[trigger] r@[i], new@[i]),
        forall|i: int|
            0 <= i < new@.len() && nan_free(new@[i]) ==> settled(#[trigger] r@[i], new@[i]),
        forall|i: int|
            0 <= i < live@.len() && 0 <= i < new@.len() && same_kind_spec(live@[i], new@[i])
                ==> same_node(#[trigger] r@[i], live@[i]),
        fresh_ids(diff_new_ids(live@, new@, r@), old(ids).next, final(ids).next),
        final(ops)@ == old(ops)@ + diff_ops(layout, live@, new@, r@),
        extends(old(ops)@, final(ops)@),
    decreases new,
{
    let ghost nv = new;
    let ghost olds = live@;
    let n_old = live.len();
    let ghost news = new@;
    let ghost ops0 = ops@;
    let ghost shared = if olds.len() < news.len() {
        olds.len() as int
    } else {
        news.len() as int
    };
    let mut old_rest = crate::ui::element::reversed(live);
    let mut new_rest = crate::ui::element::reversed(new);
    let mut r: Vec<Mounted> = Vec::new();
    let ghost n0 = ids.next;
    let ghost mut ok = true;
    // Shared positions: patch or replace.
    while old_rest.len() > 0 && new_rest.len() > 0
        invariant
            ok ==> ids.next == n0 + matched_new_ids(olds, news, r@, r@.len() as int).len()
                && drawn_from(matched_new_ids(olds, news, r@, r@.len() as int), n0 as int),
            !ok ==> n0 + matched_new_ids(olds, news, r@, r@.len() as int).len() > u64::MAX,
            r@.len() + old_rest@.len() == olds.len(),
            r@.len() + new_rest@.len() == news.len(),
            forall|j: int|
                0 <= j < old_rest@.len() ==> #[trigger] old_rest@[j] == olds[olds.len() - 1 - j],
            forall|j: int|
                0 <= j < new_rest@.len() ==> #[trigger] new_rest@[j] == news[news.len() - 1 - j],
            forall|i: int| 0 <= i < r@.len() ==> reflects(#[trigger] r@[i], news[i]),
            forall|i: int|
                0 <= i < r@.len() && nan_free(news[i]) ==> settled(#[trigger] r@[i], news[i]),
            forall|i: int|
                0 <= i < r@.len() && same_kind_spec(olds[i], news[i]) ==> same_node(
                    #[trigger] r@[i],
                    olds[i],
                ),
            ops@ == ops0 + matched_ops(layout, olds, news, r@, r@.len() as int),
            extends(ops0, ops@),
        decreases new_rest@.len(),
    {
        let i = r.len();
        let ghost before = ops@;
        let m = old_rest.pop().unwrap();
        let e = new_rest.pop().unwrap();
        assert(m == olds[i as int]);
        assert(e == news[i as int]);
        proof {
            vstd::std_specs::vec::axiom_vec_index_decreases(nv, i as int);
        }
        let ghost step_start = ops@;
        let ghost c = ids.next;
        let ghost kinds = same_kind_spec(m, e);
        let node = if same_kind(&m, &e) {
            patch(m, e, ids, ops)
        } else {
            push_op(ops, Op::RemoveAt { layout, index: i });
            let ghost mid = ops@;
            let node = realize(e, ids, ops);
            let a = attach(&node);
            push_op(ops, Op::InsertAt { layout, index: i, node: a });
            proof {
                lemma_extends_trans(before, mid, ops@);
            }
            node
        };
        proof {
            lemma_extends_trans(ops0, before, ops@);
        }
        let ghost r_before = r@;
        r.push(node);
        proof {
            let piece = if kinds {
                patch_new_ids(olds[i as int], news[i as int], node)
            } else {
                ids_of(node)
            };
            lemma_matched_new_ids_prefix(olds, news, r_before, r@, i as int);
            assert(matched_new_ids(olds, news, r@, i + 1) == matched_new_ids(
                olds,
                news,
                r_before,
                i as int,
            ) + piece);
            if ok {
                if c + piece.len() <= u64::MAX {
                    lemma_drawn_concat(
                        matched_new_ids(olds, news, r_before, i as int),
                        piece,
                        n0 as int,
                    );
                } else {
                    ok = false;
                }
            }
            lemma_matched_ops_prefix(layout, olds, news, r_before, r@, i as int);
            assert(r@[i as int] == node);
            assert(ops@ =~= ops0 + matched_ops(layout, olds, news, r@, i + 1));
        }
    }
    assert(r@.len() == shared);
    let ghost after_matched = ops@;
    let ghost r_mid = r@;
    // The fresh tree is shorter: drop the surplus tail, highest index first.
    let mut len = n_old;
    while old_rest.len() > 0
        invariant
            len == r@.len() + old_rest@.len(),
            len <= olds.len(),
            old_rest@.len() == 0 || r@.len() == news.len(),
            ops@ == after_matched + removal_ops(layout, len as int, olds.len() as int),
            extends(ops0, ops@),
        decreases old_rest@.len(),
    {
        let ghost before = ops@;
        len = len - 1;
        push_op(ops, Op::RemoveAt { layout, index: len });
        let _gone = old_rest.pop();
        proof {
            lemma_extends_trans(ops0, before, ops@);
            assert(ops@ =~= after_matched + removal_ops(layout, len as int, olds.len() as int));
        }
    }
    proof {
        if news.len() < olds.len() {
            assert(len == news.len());
        } else {
            assert(len == olds.len());
        }
    }
    let ghost after_removal = ops@;
    let ghost mids = matched_new_ids(olds, news, r_mid, shared);
    // The fresh tree is longer: append the remaining new children.
    while new_rest.len() > 0
        invariant
            ok ==> ids.next == n0 + mids.len() + appended_ids(r@, olds.len() as int, r@.len() as int).len()
                && drawn_from(mids + appended_ids(r@, olds.len() as int, r@.len() as int), n0 as int),
            !ok ==> n0 + mids.len() + appended_ids(r@, olds.len() as int, r@.len() as int).len()
                > u64::MAX,
            r@.len() + new_rest@.len() == news.len(),
            forall|j: int|
                0 <= j < new_rest@.len() ==> #[trigger] new_rest@[j] == news[news.len() - 1 - j],
            forall|i: int| 0 <= i < r@.len() ==> reflects(#[trigger] r@[i], news[i]),
            forall|i: int|
                0 <= i < r@.len() && nan_free(news[i]) ==> settled(#[trigger] r@[i], news[i]),
            forall|i: int|
                0 <= i < r@.len() && i < olds.len() && same_kind_spec(olds[i], news[i])
                    ==> same_node(#[trigger] r@[i], olds[i]),
            r@.len() >= olds.len() || new_rest@.len() == 0,
            r@.len() >= shared,
            forall|i: int| 0 <= i < shared ==> r@[i] == r_mid[i],
            ops@ == after_removal + append_ops(layout, olds.len() as int, news, r@, r@.len() as int),
            extends(ops0, ops@),
        decreases new_rest@.len(),
    {
        let ghost before = ops@;
        let ghost k = r@.len() as int;
        let e = new_rest.pop().unwrap();
        assert(e == news[k]);
        let ghost c = ids.next;
        let node = realize(e, ids, ops);
        let a = attach(&node);
        let idx = r.len();
        push_op(ops, Op::InsertAt { layout, index: idx, node: a });
        proof {
            lemma_extends_trans(ops0, before, ops@);
        }
        let ghost r_before = r@;
        r.push(node);
        proof {
            lemma_appended_ids_prefix(r_before, r@, olds.len() as int, k);
            let before_ids = mids + appended_ids(r_before, olds.len() as int, k);
            assert(mids + appended_ids(r@, olds.len() as int, k + 1) =~= before_ids + ids_of(node));
            if ok {
                if c + ids_of(node).len() <= u64::MAX {
                    lemma_drawn_concat(before_ids, ids_of(node), n0 as int);
                } else {
                    ok = false;
                }
            }
            lemma_append_ops_prefix(layout, olds.len() as int, news, r_before, r@, k);
            assert(r@[k] == node);
            assert(ops@ =~= after_removal + append_ops(layout, olds.len() as int, news, r@, k + 1));
        }
    }
    proof {
        lemma_matched_new_ids_prefix(olds, news, r_mid, r@, shared);
        assert(diff_new_ids(olds, news, r@) == mids + appended_ids(
            r@,
            olds.len() as int,
            news.len() as int,
        ));
        if ok {
            lemma_drawn_distinct(diff_new_ids(olds, news, r@), n0 as int);
        }
        lemma_matched_ops_prefix(layout, olds, news, r_mid, r@, shared);
        assert(ops@ =~= ops0 + diff_ops(layout, olds, news, r@));
    }
    r
}

// ---------------------------------------------------------------------------
// Timers: reconcile the running timers against the declared subscriptions
// ---------------------------------------------------------------------------

/// A running timer: its identity, the interval it runs at, and the event
/// slot its ticks fire.
pub struct MountedTimer {
    pub timer: u64,
    pub interval_ms: u64,
    pub slot: u64,
}

/// Starts a timer for `s`.
pub fn realize_timer<Msg>(s: Subscription<Msg>, ids: &mut IdSource, ops: &mut Vec<Op<Msg>>) -> (t:
    MountedTimer)
    ensures
        t.interval_ms == s.interval_ms,
        final(ops)@ == old(ops)@.push(
            Op::NewTimer { timer: t.timer, interval_ms: s.interval_ms, slot: t.slot, f: SlotFn::Tick(s.make) },
        ),
{
    let slot = ids.fresh();
    let timer = ids.fresh();
    ops.push(Op::NewTimer { timer, interval_ms: s.interval_ms, slot, f: SlotFn::Tick(s.make) });
    MountedTimer { timer, interval_ms: s.interval_ms, slot }
}

/// The operations for the first `n` positions both timer lists share: the
/// interval set only where it changed, then the tick re-pointed.
pub open spec fn shared_timer_ops<Msg>(
    olds: Seq<MountedTimer>,
    news: Seq<Subscription<Msg>>,
    n: int,
) -> Seq<Op<Msg>>
    decreases n,
{
    if n <= 0 {
        Seq::empty()
    } else {
        shared_timer_ops(olds, news, n - 1) + op_if(
            olds[n - 1].interval_ms != news[n - 1].interval_ms,
            Op::SetInterval { timer: olds[n - 1].timer, interval_ms: news[n - 1].interval_ms },
        ) + seq![Op::Repoint { slot: olds[n - 1].slot, f: SlotFn::Tick(news[n - 1].make) }]
    }
}

/// Stopping the timers at positions `lo..hi`, in order.
pub open spec fn stop_timer_ops<Msg>(olds: Seq<MountedTimer>, lo: int, hi: int) -> Seq<Op<Msg>>
    decreases hi - lo,
{
    if hi <= lo {
        Seq::empty()
    } else {
        stop_timer_ops(olds, lo, hi - 1) + seq![Op::DeleteTimer { timer: olds[hi - 1].timer }]
    }
}

/// Starting timers `r[lo..hi]` for the subscriptions at those positions.
pub open spec fn start_timer_ops<Msg>(
    news: Seq<Subscription<Msg>>,
    r: Seq<MountedTimer>,
    lo: int,
    hi: int,
) -> Seq<Op<Msg>>
    decreases hi - lo,
{
    if hi <= lo {
        Seq::empty()
    } else {
        start_timer_ops(news, r, lo, hi - 1) + seq![
            Op::NewTimer {
                timer: r[hi - 1].timer,
                interval_ms: news[hi - 1].interval_ms,
                slot: r[hi - 1].slot,
                f: SlotFn::Tick(news[hi - 1].make),
            },
        ]
    }
}

/// All the operations of reconciling running timers `olds` against
/// subscriptions `news`, which leaves timers `r` running.
pub open spec fn timer_ops<Msg>(
    olds: Seq<MountedTimer>,
    news: Seq<Subscription<Msg>>,
    r: Seq<MountedTimer>,
) -> Seq<Op<Msg>> {
    let shared = if olds.len() < news.len() {
        olds.len() as int
    } else {
        news.len() as int
    };
    shared_timer_ops(olds, news, shared) + stop_timer_ops(olds, news.len() as int, olds.len() as int)
        + start_timer_ops(news, r, olds.len() as int, news.len() as int)
}

/// [`start_timer_ops`] reads only the timers it starts.
pub proof fn lemma_start_timer_ops_prefix<Msg>(
    news: Seq<Subscription<Msg>>,
    r1: Seq<MountedTimer>,
    r2: Seq<MountedTimer>,
    lo: int,
    hi: int,
)
    requires
        forall|i: int| lo <= i < hi ==> r1[i] == r2[i],
    ensures
        start_timer_ops(news, r1, lo, hi) == start_timer_ops(news, r2, lo, hi),
    decreases hi - lo,
{
    if hi > lo {
        lemma_start_timer_ops_prefix(news, r1, r2, lo, hi - 1);
    }
}

/// Reconciles the running timers against a fresh subscription list by
/// position: the timer at each position both lists share keeps running (its
/// interval updated only if it changed, its tick re-pointed at the new
/// message); the surplus timers are stopped, in order; timers for the extra
/// subscriptions are started.
pub fn diff_timers<Msg>(
    live: Vec<MountedTimer>,
    subs: Vec<Subscription<Msg>>,
    ids: &mut IdSource,
    ops: &mut Vec<Op<Msg>>,
) -> (r: Vec<MountedTimer>)
    ensures
        r@.len() == subs@.len(),
        forall|i: int| 0 <= i < subs@.len() ==> (#[trigger] r@[i]).interval_ms == subs@[i].interval_ms,
        forall|i: int|
            0 <= i < live@.len() && 0 <= i < subs@.len() ==> (#[trigger] r@[i]).timer
                == live@[i].timer && r@[i].slot == live@[i].slot,
        final(ops)@ == old(ops)@ + timer_ops(live@, subs@, r@),
{
    let ghost olds = live@;
    let ghost news = subs@;
    let ghost ops0 = ops@;
    let mut live_rest = crate::ui::element::reversed(live);
    let mut subs_rest = crate::ui::element::reversed(subs);
    let mut r: Vec<MountedTimer> = Vec::new();
    while live_rest.len() > 0 && subs_rest.len() > 0
        invariant
            r@.len() + live_rest@.len() == olds.len(),
            r@.len() + subs_rest@.len() == news.len(),
            forall|j: int|
                0 <= j < live_rest@.len() ==> #[trigger] live_rest@[j] == olds[olds.len() - 1 - j],
            forall|j: int|
                0 <= j < subs_rest@.len() ==> #[trigger] subs_rest@[j] == news[news.len() - 1 - j],
            forall|i: int|
                0 <= i < r@.len() ==> (#[trigger] r@[i]).interval_ms == news[i].interval_ms
                    && r@[i].timer == olds[i].timer && r@[i].slot == olds[i].slot,
            ops@ == ops0 + shared_timer_ops(olds, news, r@.len() as int),
        decreases subs_rest@.len(),
    {
        let ghost k = r@.len() as int;
        let ghost before = ops@;
        let t = live_rest.pop().unwrap();
        let s = subs_rest.pop().unwrap();
        assert(t == olds[k]);
        assert(s == news[k]);
        if t.interval_ms != s.interval_ms {
            push_op(ops, Op::SetInterval { timer: t.timer, interval_ms: s.interval_ms });
        }
        let ghost mid = ops@;
        // Re-point the tick so it produces the latest message.
        push_op(ops, Op::Repoint { slot: t.slot, f: SlotFn::Tick(s.make) });
        proof {
            assert(mid =~= before + op_if(
                olds[k].interval_ms != news[k].interval_ms,
                Op::SetInterval { timer: olds[k].timer, interval_ms: news[k].interval_ms },
            ));
            assert(ops@ =~= ops0 + shared_timer_ops(olds, news, k + 1));
        }
        r.push(MountedTimer { timer: t.timer, interval_ms: s.interval_ms, slot: t.slot });
    }
    let ghost shared = r@.len() as int;
    let ghost ops1 = ops@;
    assert(shared == (if olds.len() < news.len() { olds.len() as int } else { news.len() as int }));
    // Fewer timers now: stop the surplus, in order.
    while live_rest.len() > 0
        invariant
            r@.len() == shared,
            shared == news.len() || live_rest@.len() == 0,
            live_rest@.len() <= olds.len() - shared,
            forall|j: int|
                0 <= j < live_rest@.len() ==> #[trigger] live_rest@[j] == olds[olds.len() - 1 - j],
            ops@ == ops1 + stop_timer_ops::<Msg>(
                olds,
                shared,
                olds.len() - live_rest@.len(),
            ),
        decreases live_rest@.len(),
    {
        let ghost k = olds.len() - live_rest@.len();
        let t = live_rest.pop().unwrap();
        assert(t == olds[k]);
        push_op(ops, Op::DeleteTimer { timer: t.timer });
        assert(ops@ =~= ops1 + stop_timer_ops::<Msg>(olds, shared, k + 1));
    }
    proof {
        if shared == news.len() {
            assert(stop_timer_ops::<Msg>(olds, shared, olds.len() as int) == stop_timer_ops::<Msg>(
                olds,
                news.len() as int,
                olds.len() as int,
            ));
        } else {
            assert(shared == olds.len());
            assert(stop_timer_ops::<Msg>(olds, shared, olds.len() as int) =~= Seq::empty());
            assert(stop_timer_ops::<Msg>(olds, news.len() as int, olds.len() as int) =~= Seq::empty());
        }
    }
    let ghost ops2 = ops@;
    // More timers now: start the fresh ones.
    while subs_rest.len() > 0
        invariant
            r@.len() + subs_rest@.len() == news.len(),
            r@.len() >= olds.len() || subs_rest@.len() == 0,
            r@.len() >= shared,
            forall|j: int|
                0 <= j < subs_rest@.len() ==> #[trigger] subs_rest@[j] == news[news.len() - 1 - j],
            forall|i: int|
                0 <= i < r@.len() ==> (#[trigger] r@[i]).interval_ms == news[i].interval_ms,
            forall|i: int|
                0 <= i < r@.len() && i < olds.len() ==> (#[trigger] r@[i]).timer == olds[i].timer
                    && r@[i].slot == olds[i].slot,
            ops@ == ops2 + start_timer_ops(news, r@, olds.len() as int, r@.len() as int),
        decreases subs_rest@.len(),
    {
        let ghost rb = r@;
        let s = subs_rest.pop().unwrap();
        assert(s == news[r@.len() as int]);
        let t = realize_timer(s, ids, ops);
        r.push(t);
        proof {
            lemma_start_timer_ops_prefix(news, rb, r@, olds.len() as int, rb.len() as int);
            assert(ops@ =~= ops2 + start_timer_ops(news, r@, olds.len() as int, r@.len() as int));
        }
    }
    proof {
        if olds.len() >= news.len() {
            assert(start_timer_ops(news, r@, olds.len() as int, r@.len() as int) =~= Seq::empty());
            assert(start_timer_ops(news, r@, olds.len() as int, news.len() as int) =~= Seq::empty());
        }
        assert(ops@ =~= ops0 + timer_ops(olds, news, r@));
    }
    r
}

// ---------------------------------------------------------------------------
// Menus
// ---------------------------------------------------------------------------

/// The operations that add one entry to menu `menu`: an action gets event
/// slot `slot`, created to emit its message, and a row firing it.
pub open spec fn menu_item_ops<Msg>(menu: u64, item: MenuItem<Msg>, slot: u64) -> Seq<Op<Msg>> {
    match item {
        MenuItem::Action { text, msg } => seq![
            Op::Keep { slot, f: SlotFn::Click(Some(msg)) },
            Op::MenuAction { menu, text, slot },
        ],
        MenuItem::Separator => seq![Op::MenuSeparator { menu }],
    }
}

/// The operations that fill menu `menu` with `items`, in order; the entry at
/// `i` uses slot `slots[i]`.
pub open spec fn menu_ops<Msg>(menu: u64, items: Seq<MenuItem<Msg>>, slots: Seq<u64>) -> Seq<
    Op<Msg>,
>
    decreases items.len(),
{
    if items.len() == 0 {
        Seq::empty()
    } else {
        menu_ops(menu, items.drop_last(), slots) + menu_item_ops(
            menu,
            items.last(),
            slots[items.len() - 1],
        )
    }
}

/// [`menu_ops`] reads only the slots of the entries it covers.
pub proof fn lemma_menu_ops_slots<Msg>(
    menu: u64,
    items: Seq<MenuItem<Msg>>,
    s1: Seq<u64>,
    s2: Seq<u64>,
)
    requires
        forall|i: int| 0 <= i < items.len() ==> s1[i] == s2[i],
    ensures
        menu_ops(menu, items, s1) == menu_ops(menu, items, s2),
    decreases items.len(),
{
    if items.len() > 0 {
        lemma_menu_ops_slots(menu, items.drop_last(), s1, s2);
    }
}

/// Fills menu `menu` with the entries of `m`, in order: each action gets an
/// event slot that emits its message.
pub fn realize_menu<Msg>(menu: u64, m: Menu<Msg>, ids: &mut IdSource, ops: &mut Vec<Op<Msg>>)
    ensures
        exists|slots: Seq<u64>|
            #![trigger menu_ops(menu, m.items@, slots)]
            slots.len() == m.items@.len() && final(ops)@ == old(ops)@ + menu_ops(
                menu,
                m.items@,
                slots,
            ),
{
    let ghost items = m.items@;
    let ghost ops0 = ops@;
    let ghost mut slots: Seq<u64> = Seq::empty();
    let n = m.items.len();
    let mut rest = crate::ui::element::reversed(m.items);
    let mut done: usize = 0;
    while rest.len() > 0
        invariant
            n == items.len(),
            done + rest@.len() == items.len(),
            forall|j: int| 0 <= j < rest@.len() ==> #[trigger] rest@[j] == items[items.len() - 1 - j],
            slots.len() == done,
            ops@ == ops0 + menu_ops(menu, items.take(done as int), slots),
        decreases rest@.len(),
    {
        let ghost before = ops@;
        let ghost prev = slots;
        let item = rest.pop().unwrap();
        assert(item == items[done as int]);
        let mut slot: u64 = 0;
        match item {
            MenuItem::Action { text, msg } => {
                slot = ids.fresh();
                push_op(ops, Op::Keep { slot, f: SlotFn::Click(Some(msg)) });
                push_op(ops, Op::MenuAction { menu, text, slot });
            },
            MenuItem::Separator => {
                push_op(ops, Op::MenuSeparator { menu });
            },
        }
        proof {
            slots = slots.push(slot);
            let t = items.take(done as int + 1);
            assert(t.drop_last() =~= items.take(done as int));
            assert(t.last() == items[done as int]);
            lemma_menu_ops_slots(menu, t.drop_last(), prev, slots);
            assert(ops@ =~= before + menu_item_ops(menu, items[done as int], slot));
            assert(ops@ =~= ops0 + menu_ops(menu, t, slots));
        }
        done = done + 1;
    }
    assert(items.take(done as int) =~= items);
}

// ---------------------------------------------------------------------------
// Firing a slot
// ---------------------------------------------------------------------------

/// What a native signal delivers to its slot.
pub enum Payload {
    Unit,
    Bool(bool),
    Int(i32),
    Bits(u64),
    Text(String),
    /// A raw mouse event: `kind` 0 is a press, 1 a move, 2 a release; `button`
    /// is the native button code.
    Mouse { kind: i32, x: i32, y: i32, button: i32 },
    Wheel(WheelEvent),
    Resize(i32, i32),
}

/// Which mouse handler a raw mouse event of `kind` goes to: 0 press, 1 move,
/// 2 release, none otherwise.
pub open spec fn mouse_handler<Msg>(
    kind: i32,
    down: Option<Handler<MouseEvent, Msg>>,
    up: Option<Handler<MouseEvent, Msg>>,
    mv: Option<Handler<MouseEvent, Msg>>,
) -> Option<Handler<MouseEvent, Msg>> {
    if kind == 0 {
        down
    } else if kind == 1 {
        mv
    } else if kind == 2 {
        up
    } else {
        None
    }
}

/// The slot has a handler for `p`, so firing it produces a message.
pub open spec fn fires<Msg>(f: SlotFn<Msg>, p: Payload) -> bool {
    match (f, p) {
        (SlotFn::Click(m), Payload::Unit) => m is Some,
        (SlotFn::Tick(_), Payload::Unit) => true,
        (SlotFn::Bool(h), Payload::Bool(_)) => h is Some,
        (SlotFn::Int(h), Payload::Int(_)) => h is Some,
        (SlotFn::Bits(h), Payload::Bits(_)) => h is Some,
        (SlotFn::Text(h), Payload::Text(_)) => h is Some,
        (SlotFn::Mouse { down, up, mv }, Payload::Mouse { kind, .. }) => mouse_handler(
            kind,
            down,
            up,
            mv,
        ) is Some,
        (SlotFn::Wheel(h), Payload::Wheel(_)) => h is Some,
        (SlotFn::Resize(h), Payload::Resize(_, _)) => h is Some,
        _ => false,
    }
}

/// `m` is a message slot `f` may produce for payload `p`: a clone of a
/// click's message, or what the slot's handler yields for the payload (for
/// a mouse event, the handler for its kind, given the event with the button
/// decoded from the native code).
pub open spec fn fired<Msg: Clone>(f: SlotFn<Msg>, p: Payload, m: Msg) -> bool {
    match (f, p) {
        (SlotFn::Click(Some(c)), Payload::Unit) => cloned(c, m),
        (SlotFn::Tick(h), Payload::Unit) => h.yields((), m),
        (SlotFn::Bool(Some(h)), Payload::Bool(b)) => h.yields(b, m),
        (SlotFn::Int(Some(h)), Payload::Int(v)) => h.yields(v, m),
        (SlotFn::Bits(Some(h)), Payload::Bits(v)) => h.yields(v, m),
        (SlotFn::Text(Some(h)), Payload::Text(t)) => h.yields(t@, m),
        (SlotFn::Mouse { down, up, mv }, Payload::Mouse { kind, x, y, button }) => match mouse_handler(
            kind,
            down,
            up,
            mv,
        ) {
            Some(h) => h.yields(MouseEvent { x, y, button: button_of_code(button) }, m),
            None => false,
        },
        (SlotFn::Wheel(Some(h)), Payload::Wheel(e)) => h.yields(e, m),
        (SlotFn::Resize(Some(h)), Payload::Resize(w, ht)) => h.yields((w, ht), m),
        _ => false,
    }
}

/// Runs slot `f` on the payload its signal delivered: the message to queue,
/// or none when the slot has no handler for it. A mouse event goes to the
/// handler for its kind, with the button decoded from the native code.
pub fn fire<Msg: Clone>(f: &SlotFn<Msg>, p: Payload) -> (m: Option<Msg>)
    ensures
        m is Some == fires(*f, p),
        m matches Some(x) ==> fired(*f, p, x),
{
    match (f, p) {
        (SlotFn::Click(m), Payload::Unit) => match m {
            Some(m) => Some(m.clone()),
            None => None,
        },
        (SlotFn::Tick(h), Payload::Unit) => Some(h.call(())),
        (SlotFn::Bool(Some(h)), Payload::Bool(b)) => Some(h.call(b)),
        (SlotFn::Int(Some(h)), Payload::Int(v)) => Some(h.call(v)),
        (SlotFn::Bits(Some(h)), Payload::Bits(v)) => Some(h.call(v)),
        (SlotFn::Text(Some(h)), Payload::Text(s)) => Some(h.call(s.as_str())),
        (SlotFn::Mouse { down, up, mv }, Payload::Mouse { kind, x, y, button }) => {
            let handler = if kind == 0 {
                down
            } else if kind == 1 {
                mv
            } else if kind == 2 {
                up
            } else {
                &None
            };
            match handler {
                Some(h) => {
                    let ev = MouseEvent { x, y, button: MouseButton::from_code(button) };
                    Some(h.call(ev))
                },
                None => None,
            }
        },
        (SlotFn::Wheel(Some(h)), Payload::Wheel(e)) => Some(h.call(e)),
        (SlotFn::Resize(Some(h)), Payload::Resize(w, ht)) => Some(h.call((w, ht))),
        _ => None,
    }
}

// ---------------------------------------------------------------------------
// Laws
// ---------------------------------------------------------------------------

/// A raw mouse event reaches the handler for its kind: a press (kind 0)
/// the `down` handler, a move (kind 1) the `mv` handler, a release (kind 2)
/// the `up` handler, each given the event at its position with the button
/// decoded; whenever that handler is set the slot fires, and a message it
/// produces is exactly one the handler yields for that event.
pub proof fn law_mouse_events_reach_their_handler<Msg: Clone>(
    down: Option<Handler<MouseEvent, Msg>>,
    up: Option<Handler<MouseEvent, Msg>>,
    mv: Option<Handler<MouseEvent, Msg>>,
    kind: i32,
    x: i32,
    y: i32,
    button: i32,
    msg: Msg,
)
    requires
        0 <= kind <= 2,
    ensures
        ({
            let chosen = if kind == 0 {
                down
            } else if kind == 1 {
                mv
            } else {
                up
            };
            let f = SlotFn::Mouse { down, up, mv };
            let p = Payload::Mouse { kind, x, y, button };
            &&& fires(f, p) == (chosen is Some)
            &&& chosen matches Some(h) ==> (fired(f, p, msg) == h.yields(
                MouseEvent { x, y, button: button_of_code(button) },
                msg,
            ))
        }),
{
}

/// Every other event reaches the slot's own handler with the payload as
/// delivered: a click the stored message (cloned), a tick the timer's
/// handler with nothing, a toggle, value, text, wheel or resize the
/// handler for it with that very value; the slot fires exactly when it has
/// such a handler, and what it produces is what that handler yields.
pub proof fn law_events_reach_their_handler<Msg: Clone>(
    c: Option<Msg>,
    tick: Handler<(), Msg>,
    hb: Option<Handler<bool, Msg>>,
    hi: Option<Handler<i32, Msg>>,
    hbits: Option<Handler<u64, Msg>>,
    ht: Option<TextHandler<Msg>>,
    hw: Option<Handler<WheelEvent, Msg>>,
    hr: Option<Handler<(i32, i32), Msg>>,
    b: bool,
    v: i32,
    bits: u64,
    text: String,
    ev: WheelEvent,
    width: i32,
    height: i32,
    m: Msg,
)
    ensures
        fires(SlotFn::Click(c), Payload::Unit) == (c is Some),
        c matches Some(x) ==> (fired(SlotFn::Click(c), Payload::Unit, m) == cloned(x, m)),
        fires(SlotFn::Tick(tick), Payload::Unit),
        fired(SlotFn::Tick(tick), Payload::Unit, m) == tick.yields((), m),
        fires(SlotFn::Bool(hb), Payload::Bool(b)) == (hb is Some),
        hb matches Some(h) ==> (fired(SlotFn::Bool(hb), Payload::Bool(b), m) == h.yields(b, m)),
        fires(SlotFn::Int(hi), Payload::Int(v)) == (hi is Some),
        hi matches Some(h) ==> (fired(SlotFn::Int(hi), Payload::Int(v), m) == h.yields(v, m)),
        fires(SlotFn::Bits(hbits), Payload::Bits(bits)) == (hbits is Some),
        hbits matches Some(h) ==> (fired(SlotFn::Bits(hbits), Payload::Bits(bits), m) == h.yields(
            bits,
            m,
        )),
        fires(SlotFn::Text(ht), Payload::Text(text)) == (ht is Some),
        ht matches Some(h) ==> (fired(SlotFn::Text(ht), Payload::Text(text), m) == h.yields(
            text@,
            m,
        )),
        fires(SlotFn::Wheel(hw), Payload::Wheel(ev)) == (hw is Some),
        hw matches Some(h) ==> (fired(SlotFn::Wheel(hw), Payload::Wheel(ev), m) == h.yields(ev, m)),
        fires(SlotFn::Resize(hr), Payload::Resize(width, height)) == (hr is Some),
        hr matches Some(h) ==> (fired(SlotFn::Resize(hr), Payload::Resize(width, height), m)
            == h.yields((width, height), m)),
{
}

/// An event of any other kind fires no mouse handler.
pub proof fn law_other_mouse_kinds_fire_nothing<Msg: Clone>(
    down: Option<Handler<MouseEvent, Msg>>,
    up: Option<Handler<MouseEvent, Msg>>,
    mv: Option<Handler<MouseEvent, Msg>>,
    kind: i32,
    x: i32,
    y: i32,
    button: i32,
)
    requires
        kind < 0 || kind > 2,
    ensures
        !fires(SlotFn::Mouse { down, up, mv }, Payload::Mouse { kind, x, y, button }),
{
}

/// A live node that carries an element's props is of the element's kind: a
/// node reconciled against an element is patched in place, not rebuilt, when
/// that element comes again.
pub proof fn law_reflects_same_kind<Msg>(m: Mounted, e: Element<Msg>)
    requires
        reflects(m, e),
    ensures
        same_kind_spec(m, e),
{
}

/// The double shown by a spin box compares equal to the element's (it is not
/// a NaN, which equals nothing).
pub open spec fn double_settled<Msg>(m: Mounted, e: Element<Msg>) -> bool {
    match (m, e) {
        (Mounted::DoubleSpinBox { value_bits, .. }, Element::DoubleSpinBox(x)) => double_eq(
            value_bits,
            x.value_bits,
        ),
        _ => true,
    }
}

/// Only the props that changed are touched: patching a leaf that already
/// carries an element's props sets no prop, and merely re-points its event
/// slots at the element's handlers.
pub proof fn law_patch_settled_sets_nothing<Msg>(m: Mounted, e: Element<Msg>)
    requires
        is_leaf(m),
        reflects(m, e),
        double_settled(m, e),
    ensures
        forall|i: int|
            0 <= i < leaf_patch_ops(m, e).len() ==> (#[trigger] leaf_patch_ops(m, e)[i]) is Repoint,
{
    match (m, e) {
        (Mounted::ComboBox { items, current, .. }, Element::ComboBox(x)) => {
            assert(texts(items@) == texts(x.items@));
        },
        (Mounted::List { items, current, .. }, Element::List(x)) => {
            assert(texts(items@) == texts(x.items@));
        },
        _ => {},
    }
}

/// A prop a user edits (a check state, a field's text, a value, a
/// selection) is set with the widget's signals blocked, so the change does
/// not come back as a user event; other props are set plainly.
#[verifier::rlimit(50)]
pub proof fn law_patch_user_props_quietly<Msg>(m: Mounted, e: Element<Msg>, i: int)
    requires
        is_leaf(m),
        same_kind_spec(m, e),
        0 <= i < leaf_patch_ops(m, e).len(),
        leaf_patch_ops(m, e)[i] is SetProp,
    ensures
        leaf_patch_ops(m, e)[i] matches Op::SetProp { prop, quiet, .. } && quiet == (match prop {
            Prop::Checked(_) | Prop::Value(_) | Prop::ValueBits(_) | Prop::Items(_) | Prop::Current(
                _,
            ) => !(m is ProgressBar),
            Prop::Text(_) => m is LineEdit || m is TextEdit,
            _ => false,
        }),
{
}

/// Setting `prop` on live widget `m` makes it emit the signal its event
/// slot listens to, unless its signals are blocked: a check state, a text
/// field's text, a value, or a selection or its rows.
pub open spec fn emits_on(m: Mounted, prop: Prop) -> bool {
    match (m, prop) {
        (Mounted::Checkbox { .. }, Prop::Checked(_)) => true,
        (Mounted::RadioButton { .. }, Prop::Checked(_)) => true,
        (Mounted::LineEdit { .. }, Prop::Text(_)) => true,
        (Mounted::TextEdit { .. }, Prop::Text(_)) => true,
        (Mounted::Slider { .. }, Prop::Value(_)) => true,
        (Mounted::Dial { .. }, Prop::Value(_)) => true,
        (Mounted::SpinBox { .. }, Prop::Value(_)) => true,
        (Mounted::DoubleSpinBox { .. }, Prop::ValueBits(_)) => true,
        (Mounted::ComboBox { .. }, Prop::Items(_)) => true,
        (Mounted::ComboBox { .. }, Prop::Current(_)) => true,
        (Mounted::List { .. }, Prop::Items(_)) => true,
        (Mounted::List { .. }, Prop::Current(_)) => true,
        _ => false,
    }
}

/// Every node of `m` patched in place against `e`, at every depth, has the
/// props that would make it emit set with its signals blocked. (Nodes of
/// another kind are rebuilt instead; a new widget's slots are connected
/// only after its props are set.)
pub open spec fn quiet_tree<Msg>(m: Mounted, e: Element<Msg>) -> bool
    decreases e,
{
    match (m, e) {
        (Mounted::Container { children, .. }, Element::Container(x)) => forall|i: int|
            0 <= i < children@.len() && 0 <= i < x.children@.len() && same_kind_spec(
                children@[i],
                x.children@[i],
            ) ==> quiet_tree(children@[i], #[trigger] x.children@[i]),
        (Mounted::GroupBox { children, .. }, Element::GroupBox(x)) => forall|i: int|
            0 <= i < children@.len() && 0 <= i < x.children@.len() && same_kind_spec(
                children@[i],
                x.children@[i],
            ) ==> quiet_tree(children@[i], #[trigger] x.children@[i]),
        _ => is_leaf(m) ==> forall|i: int|
            0 <= i < leaf_patch_ops(m, e).len() ==> (#[trigger] leaf_patch_ops(m, e)[i] matches Op::SetProp {
                prop,
                quiet,
                ..
            } ==> (emits_on(m, prop) ==> quiet)),
    }
}

/// Patching never makes a patched widget echo a programmatic change back as
/// a user event: throughout the patched subtree, every prop whose change
/// would emit is set with the widget's signals blocked, so a patch queues
/// no message.
pub proof fn law_patch_quiet<Msg>(m: Mounted, e: Element<Msg>)
    requires
        same_kind_spec(m, e),
    ensures
        quiet_tree(m, e),
    decreases e,
{
    match (m, e) {
        (Mounted::Container { children, .. }, Element::Container(x)) => {
            assert forall|i: int|
                0 <= i < children@.len() && 0 <= i < x.children@.len() && same_kind_spec(
                    children@[i],
                    x.children@[i],
                ) implies quiet_tree(children@[i], #[trigger] x.children@[i]) by {
                vstd::std_specs::vec::axiom_vec_index_decreases(x.children, i);
                law_patch_quiet(children@[i], x.children@[i]);
            }
        },
        (Mounted::GroupBox { children, .. }, Element::GroupBox(x)) => {
            assert forall|i: int|
                0 <= i < children@.len() && 0 <= i < x.children@.len() && same_kind_spec(
                    children@[i],
                    x.children@[i],
                ) implies quiet_tree(children@[i], #[trigger] x.children@[i]) by {
                vstd::std_specs::vec::axiom_vec_index_decreases(x.children, i);
                law_patch_quiet(children@[i], x.children@[i]);
            }
        },
        _ => {
            if is_leaf(m) {
                assert forall|i: int| 0 <= i < leaf_patch_ops(m, e).len() implies (
                #[trigger] leaf_patch_ops(m, e)[i] matches Op::SetProp { prop, quiet, .. } ==> (
                emits_on(m, prop) ==> quiet)) by {
                    if leaf_patch_ops(m, e)[i] is SetProp {
                        law_patch_user_props_quietly(m, e, i);
                    }
                }
            }
        },
    }
}

/// A live tree already shows an element tree in full: it carries its props
/// (see [`reflects`]) and every spin box shows a double equal to its
/// element's, all the way down.
pub open spec fn settled<Msg>(m: Mounted, e: Element<Msg>) -> bool
    decreases e,
{
    &&& reflects(m, e)
    &&& match (m, e) {
        (Mounted::Container { children, .. }, Element::Container(x)) => forall|i: int|
            0 <= i < x.children@.len() ==> settled(children@[i], #[trigger] x.children@[i]),
        (Mounted::GroupBox { children, .. }, Element::GroupBox(x)) => forall|i: int|
            0 <= i < x.children@.len() ==> settled(children@[i], #[trigger] x.children@[i]),
        _ => double_settled(m, e),
    }
}

/// An operation that keeps every widget and prop as it is: a re-pointed
/// event slot, a swapped-in painter, a repaint, or a custom widget's size
/// re-applied from its hint.
pub open spec fn keeps_widgets<Msg>(op: Op<Msg>) -> bool {
    op is Repoint || op is SwapCanvas || op is Repaint || op is FixedSize
}

/// Every operation of `s` keeps the widgets.
pub open spec fn all_keep<Msg>(s: Seq<Op<Msg>>) -> bool {
    forall|i: int| 0 <= i < s.len() ==> keeps_widgets(#[trigger] s[i])
}

pub proof fn lemma_concat_keeps<Msg>(a: Seq<Op<Msg>>, b: Seq<Op<Msg>>)
    requires
        all_keep(a),
        all_keep(b),
    ensures
        all_keep(a + b),
{
    assert forall|j: int| 0 <= j < (a + b).len() implies keeps_widgets(#[trigger] (a + b)[j]) by {
        if j < a.len() {
            assert((a + b)[j] == a[j]);
        } else {
            assert((a + b)[j] == b[j - a.len()]);
        }
    }
}

/// Re-rendering a view the screen already shows creates, removes, moves and
/// sets nothing: reconciling a settled tree only re-points event slots,
/// swaps painters in and repaints (and re-applies a custom widget's size
/// when its hint changed).
pub proof fn law_settled_patch_keeps_widgets<Msg>(m: Mounted, e: Element<Msg>, r: Mounted)
    requires
        settled(m, e),
    ensures
        forall|i: int|
            0 <= i < patch_ops(m, e, r).len() ==> keeps_widgets(#[trigger] patch_ops(m, e, r)[i]),
    decreases e, 0int,
{
    match (m, e, r) {
        (
            Mounted::Container { layout, children, .. },
            Element::Container(x),
            Mounted::Container { children: rc, .. },
        ) => {
            lemma_settled_children_keep_widgets(
                layout,
                children@,
                x.children@,
                rc@,
                x.children@.len() as int,
            );
            let a = matched_ops(layout, children@, x.children@, rc@, x.children@.len() as int);
            let b = removal_ops::<Msg>(layout, x.children@.len() as int, children@.len() as int);
            let c = append_ops(layout, children@.len() as int, x.children@, rc@, x.children@.len() as int);
            assert(b =~= Seq::empty());
            assert(c =~= Seq::empty());
            lemma_concat_keeps(a, b);
            lemma_concat_keeps(a + b, c);
            assert(patch_ops(m, e, r) == a + b + c);
        },
        (
            Mounted::GroupBox { w, layout, title, children, .. },
            Element::GroupBox(x),
            Mounted::GroupBox { children: rc, .. },
        ) => {
            lemma_settled_children_keep_widgets(
                layout,
                children@,
                x.children@,
                rc@,
                x.children@.len() as int,
            );
            let a = matched_ops(layout, children@, x.children@, rc@, x.children@.len() as int);
            let b = removal_ops::<Msg>(layout, x.children@.len() as int, children@.len() as int);
            let c = append_ops(layout, children@.len() as int, x.children@, rc@, x.children@.len() as int);
            assert(b =~= Seq::empty());
            assert(c =~= Seq::empty());
            lemma_concat_keeps(a, b);
            lemma_concat_keeps(a + b, c);
            let t = op_if(title@ != x.title@, Op::SetProp { w, prop: Prop::Title(x.title), quiet: false });
            assert(t =~= Seq::empty());
            lemma_concat_keeps(t, a + b + c);
            assert(patch_ops(m, e, r) == t + (a + b + c));
        },
        (
            Mounted::Custom { w, slot, size, mouse_slot, wheel_slot, resize_slot, tracking, .. },
            Element::Custom(x),
            Mounted::Custom { size: new_size, .. },
        ) => {
            let p1 = op_if(size != new_size, Op::<Msg>::FixedSize { w, size: new_size });
            let p2 = seq![
                Op::Repoint {
                    slot: mouse_slot,
                    f: SlotFn::Mouse { down: x.on_down, up: x.on_up, mv: x.on_move },
                },
                Op::Repoint { slot: wheel_slot, f: SlotFn::Wheel(x.on_wheel) },
                Op::Repoint { slot: resize_slot, f: SlotFn::Resize(x.on_resize) },
            ];
            let p3 = op_if(tracking != x.hover, Op::<Msg>::Tracking { w, on: x.hover });
            let p4 = seq![Op::SwapCanvas { slot, widget: x.inner }, Op::Repaint { w }];
            assert(p3 =~= Seq::empty());
            lemma_concat_keeps(p1, p2);
            lemma_concat_keeps(p1 + p2, p3);
            lemma_concat_keeps(p1 + p2 + p3, p4);
        },
        _ => {
            if is_leaf(m) {
                law_patch_settled_sets_nothing(m, e);
            }
        },
    }
}

/// The shared positions of settled children only re-point, swap painters
/// and repaint.
pub proof fn lemma_settled_children_keep_widgets<Msg>(
    layout: u64,
    olds: Seq<Mounted>,
    news: Seq<Element<Msg>>,
    rs: Seq<Mounted>,
    k: int,
)
    requires
        olds.len() == news.len(),
        forall|i: int| 0 <= i < news.len() ==> settled(olds[i], #[trigger] news[i]),
    ensures
        forall|j: int|
            0 <= j < matched_ops(layout, olds, news, rs, k).len() ==> keeps_widgets(
                #[trigger] matched_ops(layout, olds, news, rs, k)[j],
            ),
    decreases news, k,
{
    if k <= 0 || k > news.len() || k > olds.len() {
    } else {
        let i = k - 1;
        vstd::seq::axiom_seq_index_decreases(news, i);
        lemma_settled_children_keep_widgets(layout, olds, news, rs, i);
        assert(settled(olds[i], news[i]));
        law_reflects_same_kind(olds[i], news[i]);
        law_settled_patch_keeps_widgets(olds[i], news[i], rs[i]);
        let a = matched_ops(layout, olds, news, rs, i);
        let b = patch_ops(olds[i], news[i], rs[i]);
        assert(matched_ops(layout, olds, news, rs, k) == a + b);
        assert forall|j: int| 0 <= j < (a + b).len() implies keeps_widgets(#[trigger] (a + b)[j]) by {
            if j < a.len() {
                assert((a + b)[j] == a[j]);
            } else {
                assert((a + b)[j] == b[j - a.len()]);
            }
        }
    }
}

} // verus!
