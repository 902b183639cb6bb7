//! The element tree a view produces: leaf widget builders, containers, and
//! the [`Element`] enum that nests them.

use vstd::prelude::*;
use std::any::TypeId;
use crate::ui::handler::{Handler, TextHandler, IntoText, runs, runs_text, runs_pair};
use crate::ui::canvas::Canvas;

verus! {

/// `TypeId` is carried by custom elements as the identity of their widget type.
#[verifier::external_type_specification]
#[verifier::external_body]
pub struct ExTypeId(TypeId);

/// `TypeId::of::<W>()`: the identity of the type `W`. Nothing is stated of it
/// beyond what `==` on two identities says (see [`same_type_id`]).
#[verifier::external_body]
fn type_id_of<W: 'static>() -> TypeId {
    TypeId::of::<W>()
}

/// `TypeId`'s `==`: two identities compare equal exactly when they are the
/// same value, that is, when they were taken of the same type.
#[verifier::external_body]
pub(crate) fn same_type_id(a: &TypeId, b: &TypeId) -> (r: bool)
    ensures
        r == (*a == *b),
{
    *a == *b
}

/// A text label.
pub struct LabelEl {
    pub text: String,
}

pub fn label<T: IntoText>(text: T) -> (r: LabelEl)
    ensures
        r.text@ == text.text_view(),
{
    LabelEl { text: text.into_text() }
}

/// A push button. `on_click` names the message emitted when it is pressed.
#[verifier::reject_recursive_types(Msg)]
pub struct ButtonEl<Msg> {
    pub text: String,
    pub on_click: Option<Msg>,
}

pub fn button<Msg, T: IntoText>(text: T) -> (r: ButtonEl<Msg>)
    ensures
        r.text@ == text.text_view(),
        r.on_click is None,
{
    ButtonEl { text: text.into_text(), on_click: None }
}

impl<Msg> ButtonEl<Msg> {
    pub fn on_click(self, msg: Msg) -> (r: Self)
        ensures
            r.text == self.text,
            r.on_click == Some(msg),
    {
        ButtonEl { on_click: Some(msg), ..self }
    }
}

/// A labelled checkbox. `on_toggle` maps the new checked state to a message.
#[verifier::reject_recursive_types(Msg)]
pub struct CheckboxEl<Msg> {
    pub text: String,
    pub checked: bool,
    pub on_toggle: Option<Handler<bool, Msg>>,
}

pub fn checkbox<Msg, T: IntoText>(text: T) -> (r: CheckboxEl<Msg>)
    ensures
        r.text@ == text.text_view(),
        !r.checked,
        r.on_toggle is None,
{
    CheckboxEl { text: text.into_text(), checked: false, on_toggle: None }
}

impl<Msg> CheckboxEl<Msg> {
    pub fn checked(self, on: bool) -> (r: Self)
        ensures
            r.text == self.text,
            r.checked == on,
            r.on_toggle == self.on_toggle,
    {
        CheckboxEl { checked: on, ..self }
    }

    pub fn on_toggle<F: Fn(bool) -> Msg + 'static>(self, f: F) -> (r: Self)
        ensures
            r.text == self.text,
            r.checked == self.checked,
            r.on_toggle matches Some(h) && runs(h, f),
    {
        CheckboxEl { on_toggle: Some(Handler::new(f)), ..self }
    }
}

/// A radio button. Radio buttons that share a container form an exclusive
/// group. `on_toggle` maps the new checked state to a message.
#[verifier::reject_recursive_types(Msg)]
pub struct RadioButtonEl<Msg> {
    pub text: String,
    pub checked: bool,
    pub on_toggle: Option<Handler<bool, Msg>>,
}

pub fn radio_button<Msg, T: IntoText>(text: T) -> (r: RadioButtonEl<Msg>)
    ensures
        r.text@ == text.text_view(),
        !r.checked,
        r.on_toggle is None,
{
    RadioButtonEl { text: text.into_text(), checked: false, on_toggle: None }
}

impl<Msg> RadioButtonEl<Msg> {
    pub fn checked(self, on: bool) -> (r: Self)
        ensures
            r.text == self.text,
            r.checked == on,
            r.on_toggle == self.on_toggle,
    {
        RadioButtonEl { checked: on, ..self }
    }

    pub fn on_toggle<F: Fn(bool) -> Msg + 'static>(self, f: F) -> (r: Self)
        ensures
            r.text == self.text,
            r.checked == self.checked,
            r.on_toggle matches Some(h) && runs(h, f),
    {
        RadioButtonEl { on_toggle: Some(Handler::new(f)), ..self }
    }
}

/// A single-line text field. `on_change` maps the new text to a message.
#[verifier::reject_recursive_types(Msg)]
pub struct LineEditEl<Msg> {
    pub text: String,
    pub placeholder: Option<String>,
    pub on_change: Option<TextHandler<Msg>>,
}

pub fn line_edit<Msg>() -> (r: LineEditEl<Msg>)
    ensures
        r.text@ == Seq::<char>::empty(),
        r.placeholder is None,
        r.on_change is None,
{
    LineEditEl { text: String::new(), placeholder: None, on_change: None }
}

impl<Msg> LineEditEl<Msg> {
    pub fn text<T: IntoText>(self, text: T) -> (r: Self)
        ensures
            r.text@ == text.text_view(),
            r.placeholder == self.placeholder,
            r.on_change == self.on_change,
    {
        LineEditEl { text: text.into_text(), ..self }
    }

    pub fn placeholder<T: IntoText>(self, text: T) -> (r: Self)
        ensures
            r.text == self.text,
            r.placeholder matches Some(p) && p@ == text.text_view(),
            r.on_change == self.on_change,
    {
        LineEditEl { placeholder: Some(text.into_text()), ..self }
    }

    pub fn on_change<F: Fn(&str) -> Msg + 'static>(self, f: F) -> (r: Self)
        ensures
            r.text == self.text,
            r.placeholder == self.placeholder,
            r.on_change matches Some(h) && runs_text(h, f),
    {
        LineEditEl { on_change: Some(TextHandler::new(f)), ..self }
    }
}

/// A multi-line plain-text editor. `on_change` maps the new full text to a
/// message; `read_only` turns it into a scrollable text display.
#[verifier::reject_recursive_types(Msg)]
pub struct TextEditEl<Msg> {
    pub text: String,
    pub placeholder: Option<String>,
    pub read_only: bool,
    pub on_change: Option<TextHandler<Msg>>,
}

pub fn text_edit<Msg>() -> (r: TextEditEl<Msg>)
    ensures
        r.text@ == Seq::<char>::empty(),
        r.placeholder is None,
        !r.read_only,
        r.on_change is None,
{
    TextEditEl { text: String::new(), placeholder: None, read_only: false, on_change: None }
}

impl<Msg> TextEditEl<Msg> {
    pub fn text<T: IntoText>(self, text: T) -> (r: Self)
        ensures
            r.text@ == text.text_view(),
            r.placeholder == self.placeholder,
            r.read_only == self.read_only,
            r.on_change == self.on_change,
    {
        TextEditEl { text: text.into_text(), ..self }
    }

    pub fn placeholder<T: IntoText>(self, text: T) -> (r: Self)
        ensures
            r.text == self.text,
            r.placeholder matches Some(p) && p@ == text.text_view(),
            r.read_only == self.read_only,
            r.on_change == self.on_change,
    {
        TextEditEl { placeholder: Some(text.into_text()), ..self }
    }

    pub fn read_only(self, on: bool) -> (r: Self)
        ensures
            r.text == self.text,
            r.placeholder == self.placeholder,
            r.read_only == on,
            r.on_change == self.on_change,
    {
        TextEditEl { read_only: on, ..self }
    }

    pub fn on_change<F: Fn(&str) -> Msg + 'static>(self, f: F) -> (r: Self)
        ensures
            r.text == self.text,
            r.placeholder == self.placeholder,
            r.read_only == self.read_only,
            r.on_change matches Some(h) && runs_text(h, f),
    {
        TextEditEl { on_change: Some(TextHandler::new(f)), ..self }
    }
}

/// A horizontal integer slider. `on_change` maps the value to a message.
#[verifier::reject_recursive_types(Msg)]
pub struct SliderEl<Msg> {
    pub min: i32,
    pub max: i32,
    pub value: i32,
    pub on_change: Option<Handler<i32, Msg>>,
}

pub fn slider<Msg>(min: i32, max: i32, value: i32) -> (r: SliderEl<Msg>)
    ensures
        r.min == min,
        r.max == max,
        r.value == value,
        r.on_change is None,
{
    SliderEl { min, max, value, on_change: None }
}

impl<Msg> SliderEl<Msg> {
    pub fn on_change<F: Fn(i32) -> Msg + 'static>(self, f: F) -> (r: Self)
        ensures
            r.min == self.min,
            r.max == self.max,
            r.value == self.value,
            r.on_change matches Some(h) && runs(h, f),
    {
        SliderEl { on_change: Some(Handler::new(f)), ..self }
    }
}

/// A rotary integer dial. `on_change` maps the value to a message.
#[verifier::reject_recursive_types(Msg)]
pub struct DialEl<Msg> {
    pub min: i32,
    pub max: i32,
    pub value: i32,
    pub on_change: Option<Handler<i32, Msg>>,
}

pub fn dial<Msg>(min: i32, max: i32, value: i32) -> (r: DialEl<Msg>)
    ensures
        r.min == min,
        r.max == max,
        r.value == value,
        r.on_change is None,
{
    DialEl { min, max, value, on_change: None }
}

impl<Msg> DialEl<Msg> {
    pub fn on_change<F: Fn(i32) -> Msg + 'static>(self, f: F) -> (r: Self)
        ensures
            r.min == self.min,
            r.max == self.max,
            r.value == self.value,
            r.on_change matches Some(h) && runs(h, f),
    {
        DialEl { on_change: Some(Handler::new(f)), ..self }
    }
}

/// An integer spin box. `on_change` maps the value to a message.
#[verifier::reject_recursive_types(Msg)]
pub struct SpinBoxEl<Msg> {
    pub min: i32,
    pub max: i32,
    pub value: i32,
    pub on_change: Option<Handler<i32, Msg>>,
}

pub fn spinbox<Msg>(min: i32, max: i32, value: i32) -> (r: SpinBoxEl<Msg>)
    ensures
        r.min == min,
        r.max == max,
        r.value == value,
        r.on_change is None,
{
    SpinBoxEl { min, max, value, on_change: None }
}

impl<Msg> SpinBoxEl<Msg> {
    pub fn on_change<F: Fn(i32) -> Msg + 'static>(self, f: F) -> (r: Self)
        ensures
            r.min == self.min,
            r.max == self.max,
            r.value == self.value,
            r.on_change matches Some(h) && runs(h, f),
    {
        SpinBoxEl { on_change: Some(Handler::new(f)), ..self }
    }
}

/// A floating-point spin box. Its numbers are held as the bit patterns of
/// IEEE-754 doubles (`f64::to_bits`), compared as doubles compare.
#[verifier::reject_recursive_types(Msg)]
pub struct DoubleSpinBoxEl<Msg> {
    pub min_bits: u64,
    pub max_bits: u64,
    pub value_bits: u64,
    pub decimals: i32,
    pub step_bits: u64,
    pub on_change: Option<Handler<u64, Msg>>,
}

/// The bit pattern of the double `1.0`.
pub const ONE_BITS: u64 = 0x3FF0_0000_0000_0000;

/// A floating-point spin box over the doubles whose bit patterns are given;
/// two decimals and a step of one by default.
pub fn double_spinbox_bits<Msg>(min_bits: u64, max_bits: u64, value_bits: u64) -> (r:
    DoubleSpinBoxEl<Msg>)
    ensures
        r.min_bits == min_bits,
        r.max_bits == max_bits,
        r.value_bits == value_bits,
        r.decimals == 2,
        r.step_bits == ONE_BITS,
        r.on_change is None,
{
    DoubleSpinBoxEl {
        min_bits,
        max_bits,
        value_bits,
        decimals: 2,
        step_bits: ONE_BITS,
        on_change: None,
    }
}

impl<Msg> DoubleSpinBoxEl<Msg> {
    /// Number of digits shown after the decimal point.
    pub fn decimals(self, n: i32) -> (r: Self)
        ensures
            r == (DoubleSpinBoxEl { decimals: n, ..self }),
    {
        DoubleSpinBoxEl { decimals: n, ..self }
    }

    /// Amount the step buttons add or subtract, as a double's bit pattern.
    pub fn step_bits(self, step_bits: u64) -> (r: Self)
        ensures
            r == (DoubleSpinBoxEl { step_bits, ..self }),
    {
        DoubleSpinBoxEl { step_bits, ..self }
    }

    /// Maps the new value (a double's bit pattern) to a message.
    pub fn on_change_bits<F: Fn(u64) -> Msg + 'static>(self, f: F) -> (r: Self)
        ensures
            r.min_bits == self.min_bits,
            r.max_bits == self.max_bits,
            r.value_bits == self.value_bits,
            r.decimals == self.decimals,
            r.step_bits == self.step_bits,
            r.on_change matches Some(h) && runs(h, f),
    {
        DoubleSpinBoxEl { on_change: Some(Handler::new(f)), ..self }
    }
}

/// A progress bar (display only).
pub struct ProgressBarEl {
    pub min: i32,
    pub max: i32,
    pub value: i32,
}

pub fn progress_bar(min: i32, max: i32, value: i32) -> (r: ProgressBarEl)
    ensures
        r.min == min,
        r.max == max,
        r.value == value,
{
    ProgressBarEl { min, max, value }
}

/// `v` in reverse order.
pub fn reversed<T>(v: Vec<T>) -> (r: Vec<T>)
    ensures
        r@.len() == v@.len(),
        forall|j: int| 0 <= j < r@.len() ==> #[trigger] r@[j] == v@[v@.len() - 1 - j],
{
    let ghost all = v@;
    let mut v = v;
    let mut r: Vec<T> = Vec::new();
    while v.len() > 0
        invariant
            r@.len() + v@.len() == all.len(),
            forall|i: int| 0 <= i < v@.len() ==> v@[i] == all[i],
            forall|j: int| 0 <= j < r@.len() ==> #[trigger] r@[j] == all[all.len() - 1 - j],
        decreases v@.len(),
    {
        let x = v.pop().unwrap();
        r.push(x);
    }
    r
}

/// Appends `items` to `v`, in order.
fn push_all(v: &mut Vec<String>, items: Vec<String>)
    ensures
        final(v)@ == old(v)@ + items@,
{
    let ghost start = v@;
    let ghost all = items@;
    let mut rest = reversed(items);
    while rest.len() > 0
        invariant
            v@.len() + rest@.len() == start.len() + all.len(),
            v@.len() >= start.len(),
            forall|i: int| 0 <= i < start.len() ==> v@[i] == start[i],
            forall|i: int|
                0 <= i < v@.len() - start.len() ==> #[trigger] v@[start.len() + i] == all[i],
            forall|j: int| 0 <= j < rest@.len() ==> #[trigger] rest@[j] == all[all.len() - 1 - j],
        decreases rest@.len(),
    {
        let ghost k = v@.len() - start.len();
        let s = rest.pop().unwrap();
        v.push(s);
        assert(v@[start.len() + k] == all[k]);
    }
    assert forall|i: int| 0 <= i < v@.len() implies v@[i] == (start + all)[i] by {
        if i >= start.len() {
            assert(v@[start.len() + (i - start.len())] == all[i - start.len()]);
        }
    }
    assert(v@ =~= start + all);
}

/// A drop-down selection box. `on_change` maps the selected index to a message.
#[verifier::reject_recursive_types(Msg)]
pub struct ComboBoxEl<Msg> {
    pub items: Vec<String>,
    pub current: i32,
    pub on_change: Option<Handler<i32, Msg>>,
}

pub fn combo_box<Msg>() -> (r: ComboBoxEl<Msg>)
    ensures
        r.items@.len() == 0,
        r.current == 0,
        r.on_change is None,
{
    ComboBoxEl { items: Vec::new(), current: 0, on_change: None }
}

impl<Msg> ComboBoxEl<Msg> {
    pub fn item<T: IntoText>(self, text: T) -> (r: Self)
        ensures
            r.items@.len() == self.items@.len() + 1,
            r.items@.drop_last() == self.items@,
            r.items@.last()@ == text.text_view(),
            r.current == self.current,
            r.on_change == self.on_change,
    {
        let mut s = self;
        s.items.push(text.into_text());
        s
    }

    /// Appends several rows at once.
    pub fn items(self, items: Vec<String>) -> (r: Self)
        ensures
            r.items@ == self.items@ + items@,
            r.current == self.current,
            r.on_change == self.on_change,
    {
        let mut s = self;
        push_all(&mut s.items, items);
        assert(s.items@ =~= self.items@ + items@);
        s
    }

    pub fn selected(self, index: i32) -> (r: Self)
        ensures
            r.items == self.items,
            r.current == index,
            r.on_change == self.on_change,
    {
        ComboBoxEl { current: index, ..self }
    }

    pub fn on_change<F: Fn(i32) -> Msg + 'static>(self, f: F) -> (r: Self)
        ensures
            r.items == self.items,
            r.current == self.current,
            r.on_change matches Some(h) && runs(h, f),
    {
        ComboBoxEl { on_change: Some(Handler::new(f)), ..self }
    }
}

/// A scrollable list of selectable rows. `on_select` maps the newly
/// highlighted row to a message; `on_activate` a double-clicked or
/// Enter-activated one.
#[verifier::reject_recursive_types(Msg)]
pub struct ListEl<Msg> {
    pub items: Vec<String>,
    pub current: i32,
    pub on_select: Option<Handler<i32, Msg>>,
    pub on_activate: Option<Handler<i32, Msg>>,
}

pub fn list<Msg>() -> (r: ListEl<Msg>)
    ensures
        r.items@.len() == 0,
        r.current == -1,
        r.on_select is None,
        r.on_activate is None,
{
    ListEl { items: Vec::new(), current: -1, on_select: None, on_activate: None }
}

impl<Msg> ListEl<Msg> {
    pub fn item<T: IntoText>(self, text: T) -> (r: Self)
        ensures
            r.items@.len() == self.items@.len() + 1,
            r.items@.drop_last() == self.items@,
            r.items@.last()@ == text.text_view(),
            r.current == self.current,
            r.on_select == self.on_select,
            r.on_activate == self.on_activate,
    {
        let mut s = self;
        s.items.push(text.into_text());
        s
    }

    /// Appends several rows at once.
    pub fn items(self, items: Vec<String>) -> (r: Self)
        ensures
            r.items@ == self.items@ + items@,
            r.current == self.current,
            r.on_select == self.on_select,
            r.on_activate == self.on_activate,
    {
        let mut s = self;
        push_all(&mut s.items, items);
        assert(s.items@ =~= self.items@ + items@);
        s
    }

    /// Sets the highlighted row (`-1` for none).
    pub fn selected(self, index: i32) -> (r: Self)
        ensures
            r.items == self.items,
            r.current == index,
            r.on_select == self.on_select,
            r.on_activate == self.on_activate,
    {
        ListEl { current: index, ..self }
    }

    pub fn on_select<F: Fn(i32) -> Msg + 'static>(self, f: F) -> (r: Self)
        ensures
            r.items == self.items,
            r.current == self.current,
            r.on_select matches Some(h) && runs(h, f),
            r.on_activate == self.on_activate,
    {
        ListEl { on_select: Some(Handler::new(f)), ..self }
    }

    /// Fires when a row is activated (double-click or Enter).
    pub fn on_activate<F: Fn(i32) -> Msg + 'static>(self, f: F) -> (r: Self)
        ensures
            r.items == self.items,
            r.current == self.current,
            r.on_select == self.on_select,
            r.on_activate matches Some(h) && runs(h, f),
    {
        ListEl { on_activate: Some(Handler::new(f)), ..self }
    }
}

/// A thin dividing line, horizontal or vertical. Display only.
pub struct SeparatorEl {
    pub vertical: bool,
}

/// A horizontal dividing line.
pub fn separator() -> (r: SeparatorEl)
    ensures
        !r.vertical,
{
    SeparatorEl { vertical: false }
}

/// A vertical dividing line.
pub fn separator_v() -> (r: SeparatorEl)
    ensures
        r.vertical,
{
    SeparatorEl { vertical: true }
}

/// A vertical ([`column`]) or horizontal ([`row`]) stack of children.
#[verifier::reject_recursive_types(Msg)]
pub struct ContainerEl<Msg> {
    pub vertical: bool,
    pub spacing: Option<i32>,
    pub margin: Option<i32>,
    pub children: Vec<Element<Msg>>,
}

/// A vertical stack.
pub fn column<Msg>() -> (r: ContainerEl<Msg>)
    ensures
        r.vertical,
        r.spacing is None,
        r.margin is None,
        r.children@.len() == 0,
{
    ContainerEl { vertical: true, spacing: None, margin: None, children: Vec::new() }
}

/// A horizontal stack.
pub fn row<Msg>() -> (r: ContainerEl<Msg>)
    ensures
        !r.vertical,
        r.spacing is None,
        r.margin is None,
        r.children@.len() == 0,
{
    ContainerEl { vertical: false, ..column() }
}

impl<Msg> ContainerEl<Msg> {
    pub fn spacing(self, px: i32) -> (r: Self)
        ensures
            r == (ContainerEl { spacing: Some(px), ..self }),
    {
        ContainerEl { spacing: Some(px), ..self }
    }

    pub fn padding(self, px: i32) -> (r: Self)
        ensures
            r == (ContainerEl { margin: Some(px), ..self }),
    {
        ContainerEl { margin: Some(px), ..self }
    }

    pub fn child<E: IntoElement<Msg>>(self, node: E) -> (r: Self)
        ensures
            r.vertical == self.vertical,
            r.spacing == self.spacing,
            r.margin == self.margin,
            r.children@ == self.children@.push(node.element_view()),
    {
        let mut s = self;
        s.children.push(node.into_element());
        s
    }

    /// Adds several children at once, in order.
    pub fn children<E: IntoElement<Msg>>(self, nodes: Vec<E>) -> (r: Self)
        ensures
            r.vertical == self.vertical,
            r.spacing == self.spacing,
            r.margin == self.margin,
            r.children@ == self.children@ + element_views(nodes@),
    {
        let mut s = self;
        let ghost all = nodes@;
        let mut nodes = reversed(nodes);
        let ghost start = s.children@;
        let ghost total = nodes@.len();
        while nodes.len() > 0
            invariant
                nodes@.len() <= total,
                total == all.len(),
                forall|j: int| 0 <= j < nodes@.len() ==> #[trigger] nodes@[j] == all[total - 1 - j],
                s.children@ == start + element_views(all.take(total - nodes@.len())),
                s.vertical == self.vertical,
                s.spacing == self.spacing,
                s.margin == self.margin,
            decreases nodes@.len(),
        {
            let ghost k = total - nodes@.len();
            let n = nodes.pop().unwrap();
            assert(n == all[k]);
            s.children.push(n.into_element());
            assert(all.take(k + 1).drop_last() =~= all.take(k));
            assert(element_views(all.take(k + 1)) =~= element_views(all.take(k)).push(
                all[k].element_view(),
            ));
        }
        assert(all.take(total as int) =~= all);
        s
    }

    /// Adds a flexible spacer.
    pub fn stretch(self) -> (r: Self)
        ensures
            r.vertical == self.vertical,
            r.spacing == self.spacing,
            r.margin == self.margin,
            r.children@ == self.children@.push(Element::Stretch),
    {
        let mut s = self;
        s.children.push(Element::Stretch);
        s
    }
}

/// A titled frame stacking its children like a [`column`] (or a [`row`] after
/// `.horizontal()`).
#[verifier::reject_recursive_types(Msg)]
pub struct GroupBoxEl<Msg> {
    pub title: String,
    pub vertical: bool,
    pub spacing: Option<i32>,
    pub margin: Option<i32>,
    pub children: Vec<Element<Msg>>,
}

pub fn group_box<Msg, T: IntoText>(title: T) -> (r: GroupBoxEl<Msg>)
    ensures
        r.title@ == title.text_view(),
        r.vertical,
        r.spacing is None,
        r.margin is None,
        r.children@.len() == 0,
{
    GroupBoxEl {
        title: title.into_text(),
        vertical: true,
        spacing: None,
        margin: None,
        children: Vec::new(),
    }
}

impl<Msg> GroupBoxEl<Msg> {
    /// Lays the contents out horizontally instead of vertically.
    pub fn horizontal(self) -> (r: Self)
        ensures
            r == (GroupBoxEl { vertical: false, ..self }),
    {
        GroupBoxEl { vertical: false, ..self }
    }

    pub fn spacing(self, px: i32) -> (r: Self)
        ensures
            r == (GroupBoxEl { spacing: Some(px), ..self }),
    {
        GroupBoxEl { spacing: Some(px), ..self }
    }

    pub fn padding(self, px: i32) -> (r: Self)
        ensures
            r == (GroupBoxEl { margin: Some(px), ..self }),
    {
        GroupBoxEl { margin: Some(px), ..self }
    }

    pub fn child<E: IntoElement<Msg>>(self, node: E) -> (r: Self)
        ensures
            r.title == self.title,
            r.vertical == self.vertical,
            r.spacing == self.spacing,
            r.margin == self.margin,
            r.children@ == self.children@.push(node.element_view()),
    {
        let mut s = self;
        s.children.push(node.into_element());
        s
    }

    /// Adds several children at once, in order.
    pub fn children<E: IntoElement<Msg>>(self, nodes: Vec<E>) -> (r: Self)
        ensures
            r.title == self.title,
            r.vertical == self.vertical,
            r.spacing == self.spacing,
            r.margin == self.margin,
            r.children@ == self.children@ + element_views(nodes@),
    {
        let mut s = self;
        let ghost all = nodes@;
        let mut nodes = reversed(nodes);
        let ghost start = s.children@;
        let ghost total = nodes@.len();
        while nodes.len() > 0
            invariant
                nodes@.len() <= total,
                total == all.len(),
                forall|j: int| 0 <= j < nodes@.len() ==> #[trigger] nodes@[j] == all[total - 1 - j],
                s.children@ == start + element_views(all.take(total - nodes@.len())),
                s.title == self.title,
                s.vertical == self.vertical,
                s.spacing == self.spacing,
                s.margin == self.margin,
            decreases nodes@.len(),
        {
            let ghost k = total - nodes@.len();
            let n = nodes.pop().unwrap();
            assert(n == all[k]);
            s.children.push(n.into_element());
            assert(all.take(k + 1).drop_last() =~= all.take(k));
            assert(element_views(all.take(k + 1)) =~= element_views(all.take(k)).push(
                all[k].element_view(),
            ));
        }
        assert(all.take(total as int) =~= all);
        s
    }

    /// Adds a flexible spacer.
    pub fn stretch(self) -> (r: Self)
        ensures
            r.title == self.title,
            r.vertical == self.vertical,
            r.spacing == self.spacing,
            r.margin == self.margin,
            r.children@ == self.children@.push(Element::Stretch),
    {
        let mut s = self;
        s.children.push(Element::Stretch);
        s
    }
}

/// An RGBA colour, 0–255 per channel.
#[derive(Clone, Copy, Debug, PartialEq, Eq, Structural)]
pub struct Color {
    pub r: u8,
    pub g: u8,
    pub b: u8,
    pub a: u8,
}

impl Color {
    /// Opaque black.
    pub fn black() -> (c: Self)
        ensures
            c == (Color { r: 0, g: 0, b: 0, a: 255 }),
    {
        Color { r: 0, g: 0, b: 0, a: 255 }
    }

    /// Opaque white.
    pub fn white() -> (c: Self)
        ensures
            c == (Color { r: 255, g: 255, b: 255, a: 255 }),
    {
        Color { r: 255, g: 255, b: 255, a: 255 }
    }

    /// An opaque colour.
    pub fn rgb(r: u8, g: u8, b: u8) -> (c: Self)
        ensures
            c == (Color { r, g, b, a: 255 }),
    {
        Color { r, g, b, a: 255 }
    }

    pub fn rgba(r: u8, g: u8, b: u8, a: u8) -> (c: Self)
        ensures
            c == (Color { r, g, b, a }),
    {
        Color { r, g, b, a }
    }
}

/// A mouse button, as reported on a [`MouseEvent`]. `NoButton` appears on
/// moves with no button held; `Other` covers extra buttons.
#[derive(Clone, Copy, Debug, PartialEq, Eq, Structural)]
pub enum MouseButton {
    NoButton,
    Left,
    Right,
    Middle,
    Other,
}

/// The button a native button code stands for: `0` is none; otherwise the
/// primary held button of the bitmask, with left (`0x1`) before right
/// (`0x2`) before middle (`0x4`).
pub open spec fn button_of_code(code: i32) -> MouseButton {
    if code == 0 {
        MouseButton::NoButton
    } else if code & 0x1 != 0 {
        MouseButton::Left
    } else if code & 0x2 != 0 {
        MouseButton::Right
    } else if code & 0x4 != 0 {
        MouseButton::Middle
    } else {
        MouseButton::Other
    }
}

impl MouseButton {
    /// Decodes the native button code: a single button on press and release,
    /// a bitmask of the held buttons on a move.
    pub fn from_code(code: i32) -> (b: Self)
        ensures
            b == button_of_code(code),
    {
        if code == 0 {
            MouseButton::NoButton
        } else if code & 0x1 != 0 {
            MouseButton::Left
        } else if code & 0x2 != 0 {
            MouseButton::Right
        } else if code & 0x4 != 0 {
            MouseButton::Middle
        } else {
            MouseButton::Other
        }
    }
}

/// A mouse event on a custom widget, in widget-local pixels.
#[derive(Clone, Copy, Debug, PartialEq, Eq, Structural)]
pub struct MouseEvent {
    pub x: i32,
    pub y: i32,
    /// On press and release, the button that changed; on a move, the primary
    /// button held.
    pub button: MouseButton,
}

/// A mouse-wheel event on a custom widget. `delta` is the vertical angle
/// delta: positive scrolls up, one notch is typically 120.
#[derive(Clone, Copy, Debug, PartialEq, Eq, Structural)]
pub struct WheelEvent {
    pub x: i32,
    pub y: i32,
    pub delta: i32,
}

/// A custom-drawn widget: it paints itself into a [`Canvas`]. Each concrete
/// implementing type is its own widget kind for reconciliation.
pub trait CustomWidget {
    /// Paints the widget.
    fn draw(&self, canvas: &mut Canvas);

    /// An optional fixed size in pixels; `None` (the default) lets the
    /// layout decide.
    fn size(&self) -> (s: Option<(i32, i32)>)
        default_ensures
            s is None,
    {
        None
    }
}

/// A custom widget held behind a trait object, so the live canvas can keep
/// painting through it. Nothing is known of a trait-object value here,
/// so the box is kept opaque: creating it, asking its size and letting it
/// paint are its only operations.
#[verifier::external_body]
pub struct Painter {
    widget: Box<dyn CustomWidget>,
}

impl Painter {
    /// Boxes `widget` (`Box::new`, unsized to a trait object).
    #[verifier::external_body]
    pub fn new<W: CustomWidget + 'static>(widget: W) -> Painter {
        Painter { widget: Box::new(widget) }
    }

    /// The widget's [`CustomWidget::size`].
    #[verifier::external_body]
    pub fn size(&self) -> Option<(i32, i32)> {
        self.widget.size()
    }

    /// Lets the widget paint into `canvas` ([`CustomWidget::draw`]).
    #[verifier::external_body]
    pub fn draw(&self, canvas: &mut Canvas) {
        self.widget.draw(canvas)
    }
}

/// The element produced by [`custom`].
#[verifier::reject_recursive_types(Msg)]
pub struct CustomEl<Msg> {
    pub type_id: TypeId,
    pub inner: Painter,
    pub on_down: Option<Handler<MouseEvent, Msg>>,
    pub on_up: Option<Handler<MouseEvent, Msg>>,
    pub on_move: Option<Handler<MouseEvent, Msg>>,
    pub on_wheel: Option<Handler<WheelEvent, Msg>>,
    pub on_resize: Option<Handler<(i32, i32), Msg>>,
    pub hover: bool,
}

/// Wraps a [`CustomWidget`] into an element.
pub fn custom<Msg, W: CustomWidget + 'static>(widget: W) -> (r: CustomEl<Msg>)
    ensures
        r.on_down is None,
        r.on_up is None,
        r.on_move is None,
        r.on_wheel is None,
        r.on_resize is None,
        !r.hover,
{
    CustomEl {
        type_id: type_id_of::<W>(),
        inner: Painter::new(widget),
        on_down: None,
        on_up: None,
        on_move: None,
        on_wheel: None,
        on_resize: None,
        hover: false,
    }
}

impl<Msg> CustomEl<Msg> {
    /// Handles mouse-button presses over the widget.
    pub fn on_mouse_down<F: Fn(MouseEvent) -> Msg + 'static>(self, f: F) -> (r: Self)
        ensures
            r.type_id == self.type_id,
            r.on_down matches Some(h) && runs(h, f),
            r.on_up == self.on_up,
            r.on_move == self.on_move,
            r.on_wheel == self.on_wheel,
            r.on_resize == self.on_resize,
            r.hover == self.hover,
    {
        CustomEl { on_down: Some(Handler::new(f)), ..self }
    }

    /// Handles mouse-button releases over the widget.
    pub fn on_mouse_up<F: Fn(MouseEvent) -> Msg + 'static>(self, f: F) -> (r: Self)
        ensures
            r.type_id == self.type_id,
            r.on_down == self.on_down,
            r.on_up matches Some(h) && runs(h, f),
            r.on_move == self.on_move,
            r.on_wheel == self.on_wheel,
            r.on_resize == self.on_resize,
            r.hover == self.hover,
    {
        CustomEl { on_up: Some(Handler::new(f)), ..self }
    }

    /// Handles mouse movement: during a drag, and also with no button held
    /// once [`CustomEl::hover`] is on.
    pub fn on_mouse_move<F: Fn(MouseEvent) -> Msg + 'static>(self, f: F) -> (r: Self)
        ensures
            r.type_id == self.type_id,
            r.on_down == self.on_down,
            r.on_up == self.on_up,
            r.on_move matches Some(h) && runs(h, f),
            r.on_wheel == self.on_wheel,
            r.on_resize == self.on_resize,
            r.hover == self.hover,
    {
        CustomEl { on_move: Some(Handler::new(f)), ..self }
    }

    /// Turns hover tracking on, so moves with no button held are reported.
    pub fn hover(self) -> (r: Self)
        ensures
            r.type_id == self.type_id,
            r.on_down == self.on_down,
            r.on_up == self.on_up,
            r.on_move == self.on_move,
            r.on_wheel == self.on_wheel,
            r.on_resize == self.on_resize,
            r.hover,
    {
        CustomEl { hover: true, ..self }
    }

    /// Handles mouse-wheel scrolls over the widget.
    pub fn on_wheel<F: Fn(WheelEvent) -> Msg + 'static>(self, f: F) -> (r: Self)
        ensures
            r.type_id == self.type_id,
            r.on_down == self.on_down,
            r.on_up == self.on_up,
            r.on_move == self.on_move,
            r.on_wheel matches Some(h) && runs(h, f),
            r.on_resize == self.on_resize,
            r.hover == self.hover,
    {
        CustomEl { on_wheel: Some(Handler::new(f)), ..self }
    }

    /// Handles the widget being resized, receiving the new width and height.
    pub fn on_resize<F: Fn(i32, i32) -> Msg + 'static>(self, f: F) -> (r: Self)
        ensures
            r.type_id == self.type_id,
            r.on_down == self.on_down,
            r.on_up == self.on_up,
            r.on_move == self.on_move,
            r.on_wheel == self.on_wheel,
            r.on_resize matches Some(h) && runs_pair(h, f),
            r.hover == self.hover,
    {
        CustomEl { on_resize: Some(Handler::from_pair(f)), ..self }
    }
}

/// One node of the declarative UI description.
#[verifier::reject_recursive_types(Msg)]
pub enum Element<Msg> {
    Label(LabelEl),
    Button(ButtonEl<Msg>),
    Checkbox(CheckboxEl<Msg>),
    RadioButton(RadioButtonEl<Msg>),
    LineEdit(LineEditEl<Msg>),
    TextEdit(TextEditEl<Msg>),
    Slider(SliderEl<Msg>),
    Dial(DialEl<Msg>),
    SpinBox(SpinBoxEl<Msg>),
    DoubleSpinBox(DoubleSpinBoxEl<Msg>),
    ProgressBar(ProgressBarEl),
    ComboBox(ComboBoxEl<Msg>),
    List(ListEl<Msg>),
    Separator(SeparatorEl),
    Container(ContainerEl<Msg>),
    GroupBox(GroupBoxEl<Msg>),
    /// A user-defined widget.
    Custom(CustomEl<Msg>),
    /// A flexible spacer; only meaningful inside a container.
    Stretch,
}

/// The elements a sequence of values becomes, in order.
pub open spec fn element_views<Msg, E: IntoElement<Msg>>(s: Seq<E>) -> Seq<Element<Msg>> {
    s.map_values(|n: E| n.element_view())
}

/// Anything that can become an [`Element`], so `.child()` takes builders
/// directly.
pub trait IntoElement<Msg> {
    /// The element this value becomes.
    spec fn element_view(&self) -> Element<Msg>;

    fn into_element(self) -> (e: Element<Msg>)
        ensures
            e == self.element_view(),
    ;
}

impl<Msg> IntoElement<Msg> for Element<Msg> {
    open spec fn element_view(&self) -> Element<Msg> {
        *self
    }

    fn into_element(self) -> (e: Element<Msg>) {
        self
    }
}

impl<Msg> IntoElement<Msg> for LabelEl {
    open spec fn element_view(&self) -> Element<Msg> {
        Element::Label(*self)
    }

    fn into_element(self) -> (e: Element<Msg>) {
        Element::Label(self)
    }
}

impl<Msg> IntoElement<Msg> for ButtonEl<Msg> {
    open spec fn element_view(&self) -> Element<Msg> {
        Element::Button(*self)
    }

    fn into_element(self) -> (e: Element<Msg>) {
        Element::Button(self)
    }
}

impl<Msg> IntoElement<Msg> for CheckboxEl<Msg> {
    open spec fn element_view(&self) -> Element<Msg> {
        Element::Checkbox(*self)
    }

    fn into_element(self) -> (e: Element<Msg>) {
        Element::Checkbox(self)
    }
}

impl<Msg> IntoElement<Msg> for RadioButtonEl<Msg> {
    open spec fn element_view(&self) -> Element<Msg> {
        Element::RadioButton(*self)
    }

    fn into_element(self) -> (e: Element<Msg>) {
        Element::RadioButton(self)
    }
}

impl<Msg> IntoElement<Msg> for LineEditEl<Msg> {
    open spec fn element_view(&self) -> Element<Msg> {
        Element::LineEdit(*self)
    }

    fn into_element(self) -> (e: Element<Msg>) {
        Element::LineEdit(self)
    }
}

impl<Msg> IntoElement<Msg> for TextEditEl<Msg> {
    open spec fn element_view(&self) -> Element<Msg> {
        Element::TextEdit(*self)
    }

    fn into_element(self) -> (e: Element<Msg>) {
        Element::TextEdit(self)
    }
}

impl<Msg> IntoElement<Msg> for SliderEl<Msg> {
    open spec fn element_view(&self) -> Element<Msg> {
        Element::Slider(*self)
    }

    fn into_element(self) -> (e: Element<Msg>) {
        Element::Slider(self)
    }
}

impl<Msg> IntoElement<Msg> for DialEl<Msg> {
    open spec fn element_view(&self) -> Element<Msg> {
        Element::Dial(*self)
    }

    fn into_element(self) -> (e: Element<Msg>) {
        Element::Dial(self)
    }
}

impl<Msg> IntoElement<Msg> for SpinBoxEl<Msg> {
    open spec fn element_view(&self) -> Element<Msg> {
        Element::SpinBox(*self)
    }

    fn into_element(self) -> (e: Element<Msg>) {
        Element::SpinBox(self)
    }
}

impl<Msg> IntoElement<Msg> for DoubleSpinBoxEl<Msg> {
    open spec fn element_view(&self) -> Element<Msg> {
        Element::DoubleSpinBox(*self)
    }

    fn into_element(self) -> (e: Element<Msg>) {
        Element::DoubleSpinBox(self)
    }
}

impl<Msg> IntoElement<Msg> for ProgressBarEl {
    open spec fn element_view(&self) -> Element<Msg> {
        Element::ProgressBar(*self)
    }

    fn into_element(self) -> (e: Element<Msg>) {
        Element::ProgressBar(self)
    }
}

impl<Msg> IntoElement<Msg> for ComboBoxEl<Msg> {
    open spec fn element_view(&self) -> Element<Msg> {
        Element::ComboBox(*self)
    }

    fn into_element(self) -> (e: Element<Msg>) {
        Element::ComboBox(self)
    }
}

impl<Msg> IntoElement<Msg> for ListEl<Msg> {
    open spec fn element_view(&self) -> Element<Msg> {
        Element::List(*self)
    }

    fn into_element(self) -> (e: Element<Msg>) {
        Element::List(self)
    }
}

impl<Msg> IntoElement<Msg> for SeparatorEl {
    open spec fn element_view(&self) -> Element<Msg> {
        Element::Separator(*self)
    }

    fn into_element(self) -> (e: Element<Msg>) {
        Element::Separator(self)
    }
}

impl<Msg> IntoElement<Msg> for ContainerEl<Msg> {
    open spec fn element_view(&self) -> Element<Msg> {
        Element::Container(*self)
    }

    fn into_element(self) -> (e: Element<Msg>) {
        Element::Container(self)
    }
}

impl<Msg> IntoElement<Msg> for GroupBoxEl<Msg> {
    open spec fn element_view(&self) -> Element<Msg> {
        Element::GroupBox(*self)
    }

    fn into_element(self) -> (e: Element<Msg>) {
        Element::GroupBox(self)
    }
}

impl<Msg> IntoElement<Msg> for CustomEl<Msg> {
    open spec fn element_view(&self) -> Element<Msg> {
        Element::Custom(*self)
    }

    fn into_element(self) -> (e: Element<Msg>) {
        Element::Custom(self)
    }
}

} // verus!
