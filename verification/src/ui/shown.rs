//! What a widget shows, and how the widget operations change it: the props
//! a native widget displays, the state a constructor leaves it in, and the
//! effect of setting a prop. Against this model, building a node for an
//! element and patching a live node towards an element both leave the
//! widget showing exactly the element's props.

use vstd::prelude::*;
use crate::text::texts;
use crate::ui::element::Element;
use crate::ui::reconcile::{
    Mounted, Op, Prop, Ctor, SlotFn, Signal, opt_text, double_eq, is_leaf, same_kind_spec,
    leaf_patch_ops, realize_ops, op_if,
};

verus! {

/// The props a widget displays.
pub struct Shown {
    pub text: Seq<char>,
    pub checked: bool,
    pub placeholder: Option<Seq<char>>,
    pub read_only: bool,
    pub value: int,
    pub bits: u64,
    pub items: Seq<Seq<char>>,
    pub current: int,
}

/// A widget showing nothing yet: no text, unchecked, no placeholder,
/// editable, zero, no rows and no selection.
pub open spec fn blank() -> Shown {
    Shown {
        text: Seq::empty(),
        checked: false,
        placeholder: None,
        read_only: false,
        value: 0,
        bits: 0,
        items: Seq::empty(),
        current: -1,
    }
}

/// What a widget shows right after it is created by `ctor`.
pub open spec fn created(ctor: Ctor) -> Shown {
    match ctor {
        Ctor::Label(t) => Shown { text: t@, ..blank() },
        Ctor::Button(t) => Shown { text: t@, ..blank() },
        Ctor::Checkbox(t) => Shown { text: t@, ..blank() },
        Ctor::RadioButton(t) => Shown { text: t@, ..blank() },
        Ctor::LineEdit(t) => Shown { text: t@, ..blank() },
        Ctor::TextEdit(t) => Shown { text: t@, ..blank() },
        Ctor::Slider { value, .. } => Shown { value: value as int, ..blank() },
        Ctor::Dial { value, .. } => Shown { value: value as int, ..blank() },
        Ctor::SpinBox { value, .. } => Shown { value: value as int, ..blank() },
        Ctor::ProgressBar { value, .. } => Shown { value: value as int, ..blank() },
        Ctor::DoubleSpinBox { value_bits, .. } => Shown { bits: value_bits, ..blank() },
        _ => blank(),
    }
}

/// What the widget of live node `m` shows, by the props it records.
pub open spec fn shown_of(m: Mounted) -> Shown {
    match m {
        Mounted::Label { text, .. } => Shown { text: text@, ..blank() },
        Mounted::Button { text, .. } => Shown { text: text@, ..blank() },
        Mounted::Checkbox { text, checked, .. } => Shown { text: text@, checked, ..blank() },
        Mounted::RadioButton { text, checked, .. } => Shown { text: text@, checked, ..blank() },
        Mounted::LineEdit { text, placeholder, .. } => Shown {
            text: text@,
            placeholder: opt_text(placeholder),
            ..blank()
        },
        Mounted::TextEdit { text, placeholder, read_only, .. } => Shown {
            text: text@,
            placeholder: opt_text(placeholder),
            read_only,
            ..blank()
        },
        Mounted::Slider { value, .. } => Shown { value: value as int, ..blank() },
        Mounted::Dial { value, .. } => Shown { value: value as int, ..blank() },
        Mounted::SpinBox { value, .. } => Shown { value: value as int, ..blank() },
        Mounted::ProgressBar { value, .. } => Shown { value: value as int, ..blank() },
        Mounted::DoubleSpinBox { value_bits, .. } => Shown { bits: value_bits, ..blank() },
        Mounted::ComboBox { items, current, .. } => Shown {
            items: texts(items@),
            current: current as int,
            ..blank()
        },
        Mounted::List { items, current, .. } => Shown {
            items: texts(items@),
            current: current as int,
            ..blank()
        },
        _ => blank(),
    }
}

/// The widget of a leaf node.
pub open spec fn widget_id(m: Mounted) -> u64 {
    match m {
        Mounted::Label { w, .. } => w,
        Mounted::Button { w, .. } => w,
        Mounted::Checkbox { w, .. } => w,
        Mounted::RadioButton { w, .. } => w,
        Mounted::LineEdit { w, .. } => w,
        Mounted::TextEdit { w, .. } => w,
        Mounted::Slider { w, .. } => w,
        Mounted::Dial { w, .. } => w,
        Mounted::SpinBox { w, .. } => w,
        Mounted::DoubleSpinBox { w, .. } => w,
        Mounted::ProgressBar { w, .. } => w,
        Mounted::ComboBox { w, .. } => w,
        Mounted::List { w, .. } => w,
        Mounted::Separator { w } => w,
        _ => 0,
    }
}

/// What setting `prop` does to what a widget shows. Filling in rows leaves
/// no row selected.
pub open spec fn set_prop(s: Shown, prop: Prop) -> Shown {
    match prop {
        Prop::Text(t) => Shown { text: t@, ..s },
        Prop::Checked(b) => Shown { checked: b, ..s },
        Prop::Placeholder(p) => Shown { placeholder: opt_text(p), ..s },
        Prop::ReadOnly(b) => Shown { read_only: b, ..s },
        Prop::Value(v) => Shown { value: v as int, ..s },
        Prop::ValueBits(b) => Shown { bits: b, ..s },
        Prop::Items(v) => Shown { items: texts(v@), current: -1, ..s },
        Prop::Current(c) => Shown { current: c as int, ..s },
        Prop::Title(_) => s,
    }
}

/// What widget `w` shows after `op`: only setting one of its props
/// changes it.
pub open spec fn apply_op<Msg>(s: Shown, w: u64, op: Op<Msg>) -> Shown {
    match op {
        Op::SetProp { w: v, prop, .. } => if v == w {
            set_prop(s, prop)
        } else {
            s
        },
        _ => s,
    }
}

/// What widget `w`, showing `s`, shows after `ops`, in order.
pub open spec fn after<Msg>(s: Shown, w: u64, ops: Seq<Op<Msg>>) -> Shown
    decreases ops.len(),
{
    if ops.len() == 0 {
        s
    } else {
        apply_op(after(s, w, ops.drop_last()), w, ops.last())
    }
}

/// `s` shows the props of leaf element `e`.
pub open spec fn shows<Msg>(s: Shown, e: Element<Msg>) -> bool {
    match e {
        Element::Label(x) => s.text == x.text@,
        Element::Button(x) => s.text == x.text@,
        Element::Checkbox(x) => s.text == x.text@ && s.checked == x.checked,
        Element::RadioButton(x) => s.text == x.text@ && s.checked == x.checked,
        Element::LineEdit(x) => s.text == x.text@ && s.placeholder == opt_text(x.placeholder),
        Element::TextEdit(x) => s.text == x.text@ && s.placeholder == opt_text(x.placeholder)
            && s.read_only == x.read_only,
        Element::Slider(x) => s.value == x.value,
        Element::Dial(x) => s.value == x.value,
        Element::SpinBox(x) => s.value == x.value,
        Element::ProgressBar(x) => s.value == x.value,
        Element::DoubleSpinBox(x) => s.bits == x.value_bits || double_eq(s.bits, x.value_bits),
        Element::ComboBox(x) => s.items == texts(x.items@) && s.current == x.current,
        Element::List(x) => s.items == texts(x.items@) && s.current == x.current,
        Element::Separator(_) => true,
        _ => false,
    }
}

proof fn lemma_after_concat<Msg>(s: Shown, w: u64, a: Seq<Op<Msg>>, b: Seq<Op<Msg>>)
    ensures
        after(s, w, a + b) == after(after(s, w, a), w, b),
    decreases b.len(),
{
    if b.len() == 0 {
        assert(a + b =~= a);
    } else {
        assert((a + b).drop_last() =~= a + b.drop_last());
        assert((a + b).last() == b.last());
        lemma_after_concat(s, w, a, b.drop_last());
    }
}

proof fn lemma_after_one<Msg>(s: Shown, w: u64, op: Op<Msg>)
    ensures
        after(s, w, seq![op]) == apply_op(s, w, op),
{
    assert(seq![op].drop_last() =~= Seq::<Op<Msg>>::empty());
    assert(after(s, w, Seq::<Op<Msg>>::empty()) == s);
    assert(seq![op].last() == op);
}

proof fn lemma_after_if<Msg>(s: Shown, w: u64, c: bool, op: Op<Msg>)
    ensures
        after(s, w, op_if(c, op)) == if c {
            apply_op(s, w, op)
        } else {
            s
        },
{
    if c {
        lemma_after_one(s, w, op);
    }
}

/// Operations that set no prop of `w` leave it showing what it showed.
proof fn lemma_after_untouched<Msg>(s: Shown, w: u64, ops: Seq<Op<Msg>>)
    requires
        forall|i: int| 0 <= i < ops.len() ==> !(#[trigger] ops[i] is SetProp),
    ensures
        after(s, w, ops) == s,
    decreases ops.len(),
{
    if ops.len() > 0 {
        lemma_after_untouched(s, w, ops.drop_last());
    }
}

/// Patching a live leaf towards an element of its kind leaves its widget
/// showing every prop of the element: each prop that differs is set to the
/// element's value, whichever way it differs, and the others already show
/// it. (A list whose element asks for row `-2`, which no list can show, is
/// left out.)
pub proof fn law_patch_leaf_shows_element<Msg>(m: Mounted, e: Element<Msg>)
    requires
        is_leaf(m),
        !(m is Stretch),
        same_kind_spec(m, e),
        e matches Element::List(x) ==> x.current != -2,
    ensures
        shows(after(shown_of(m), widget_id(m), leaf_patch_ops(m, e)), e),
{
    let s = shown_of(m);
    let w = widget_id(m);
    let ops = leaf_patch_ops(m, e);
    match (m, e) {
        (Mounted::Label { w, text }, Element::Label(x)) => {
            lemma_after_if(s, w, text@ != x.text@, Op::<Msg>::SetProp { w, prop: Prop::Text(x.text), quiet: false });
        },
        (Mounted::Button { w, text, slot }, Element::Button(x)) => {
            let a = op_if(text@ != x.text@, Op::<Msg>::SetProp { w, prop: Prop::Text(x.text), quiet: false });
            let b = seq![Op::Repoint { slot, f: crate::ui::reconcile::SlotFn::Click(x.on_click) }];
            lemma_after_concat(s, w, a, b);
            lemma_after_if(s, w, text@ != x.text@, Op::<Msg>::SetProp { w, prop: Prop::Text(x.text), quiet: false });
            lemma_after_one(after(s, w, a), w, b[0]);
        },
        (Mounted::Checkbox { w, text, checked, slot }, Element::Checkbox(x)) => {
            let o1 = Op::<Msg>::SetProp { w, prop: Prop::Text(x.text), quiet: false };
            let o2 = Op::<Msg>::SetProp { w, prop: Prop::Checked(x.checked), quiet: true };
            let a = op_if(text@ != x.text@, o1);
            let b = op_if(checked != x.checked, o2);
            let c = seq![Op::Repoint { slot, f: crate::ui::reconcile::SlotFn::Bool(x.on_toggle) }];
            lemma_after_concat(s, w, a + b, c);
            lemma_after_concat(s, w, a, b);
            lemma_after_if(s, w, text@ != x.text@, o1);
            lemma_after_if(after(s, w, a), w, checked != x.checked, o2);
            lemma_after_one(after(s, w, a + b), w, c[0]);
        },
        (Mounted::RadioButton { w, text, checked, slot }, Element::RadioButton(x)) => {
            let o1 = Op::<Msg>::SetProp { w, prop: Prop::Text(x.text), quiet: false };
            let o2 = Op::<Msg>::SetProp { w, prop: Prop::Checked(x.checked), quiet: true };
            let a = op_if(text@ != x.text@, o1);
            let b = op_if(checked != x.checked, o2);
            let c = seq![Op::Repoint { slot, f: crate::ui::reconcile::SlotFn::Bool(x.on_toggle) }];
            lemma_after_concat(s, w, a + b, c);
            lemma_after_concat(s, w, a, b);
            lemma_after_if(s, w, text@ != x.text@, o1);
            lemma_after_if(after(s, w, a), w, checked != x.checked, o2);
            lemma_after_one(after(s, w, a + b), w, c[0]);
        },
        (Mounted::LineEdit { w, text, placeholder, slot }, Element::LineEdit(x)) => {
            let o1 = Op::<Msg>::SetProp { w, prop: Prop::Text(x.text), quiet: true };
            let o2 = Op::<Msg>::SetProp { w, prop: Prop::Placeholder(x.placeholder), quiet: false };
            let a = op_if(text@ != x.text@, o1);
            let b = op_if(opt_text(placeholder) != opt_text(x.placeholder), o2);
            let c = seq![Op::Repoint { slot, f: crate::ui::reconcile::SlotFn::Text(x.on_change) }];
            lemma_after_concat(s, w, a + b, c);
            lemma_after_concat(s, w, a, b);
            lemma_after_if(s, w, text@ != x.text@, o1);
            lemma_after_if(after(s, w, a), w, opt_text(placeholder) != opt_text(x.placeholder), o2);
            lemma_after_one(after(s, w, a + b), w, c[0]);
        },
        (Mounted::TextEdit { w, text, placeholder, read_only, slot }, Element::TextEdit(x)) => {
            let o1 = Op::<Msg>::SetProp { w, prop: Prop::Text(x.text), quiet: true };
            let o2 = Op::<Msg>::SetProp { w, prop: Prop::Placeholder(x.placeholder), quiet: false };
            let o3 = Op::<Msg>::SetProp { w, prop: Prop::ReadOnly(x.read_only), quiet: false };
            let a = op_if(text@ != x.text@, o1);
            let b = op_if(opt_text(placeholder) != opt_text(x.placeholder), o2);
            let c = op_if(read_only != x.read_only, o3);
            let d = seq![Op::Repoint { slot, f: crate::ui::reconcile::SlotFn::Text(x.on_change) }];
            lemma_after_concat(s, w, a + b + c, d);
            lemma_after_concat(s, w, a + b, c);
            lemma_after_concat(s, w, a, b);
            lemma_after_if(s, w, text@ != x.text@, o1);
            lemma_after_if(after(s, w, a), w, opt_text(placeholder) != opt_text(x.placeholder), o2);
            lemma_after_if(after(s, w, a + b), w, read_only != x.read_only, o3);
            lemma_after_one(after(s, w, a + b + c), w, d[0]);
        },
        (Mounted::Slider { w, value, slot }, Element::Slider(x)) => {
            let o = Op::<Msg>::SetProp { w, prop: Prop::Value(x.value), quiet: true };
            let a = op_if(value != x.value, o);
            let b = seq![Op::Repoint { slot, f: crate::ui::reconcile::SlotFn::Int(x.on_change) }];
            lemma_after_concat(s, w, a, b);
            lemma_after_if(s, w, value != x.value, o);
            lemma_after_one(after(s, w, a), w, b[0]);
        },
        (Mounted::Dial { w, value, slot }, Element::Dial(x)) => {
            let o = Op::<Msg>::SetProp { w, prop: Prop::Value(x.value), quiet: true };
            let a = op_if(value != x.value, o);
            let b = seq![Op::Repoint { slot, f: crate::ui::reconcile::SlotFn::Int(x.on_change) }];
            lemma_after_concat(s, w, a, b);
            lemma_after_if(s, w, value != x.value, o);
            lemma_after_one(after(s, w, a), w, b[0]);
        },
        (Mounted::SpinBox { w, value, slot }, Element::SpinBox(x)) => {
            let o = Op::<Msg>::SetProp { w, prop: Prop::Value(x.value), quiet: true };
            let a = op_if(value != x.value, o);
            let b = seq![Op::Repoint { slot, f: crate::ui::reconcile::SlotFn::Int(x.on_change) }];
            lemma_after_concat(s, w, a, b);
            lemma_after_if(s, w, value != x.value, o);
            lemma_after_one(after(s, w, a), w, b[0]);
        },
        (Mounted::DoubleSpinBox { w, value_bits, slot }, Element::DoubleSpinBox(x)) => {
            let o = Op::<Msg>::SetProp { w, prop: Prop::ValueBits(x.value_bits), quiet: true };
            let a = op_if(!double_eq(value_bits, x.value_bits), o);
            let b = seq![Op::Repoint { slot, f: crate::ui::reconcile::SlotFn::Bits(x.on_change) }];
            lemma_after_concat(s, w, a, b);
            lemma_after_if(s, w, !double_eq(value_bits, x.value_bits), o);
            lemma_after_one(after(s, w, a), w, b[0]);
        },
        (Mounted::ProgressBar { w, value }, Element::ProgressBar(x)) => {
            lemma_after_if(s, w, value != x.value, Op::<Msg>::SetProp { w, prop: Prop::Value(x.value), quiet: false });
        },
        (Mounted::ComboBox { w, items, current, slot }, Element::ComboBox(x)) => {
            let refill = texts(items@) != texts(x.items@);
            let shown = if refill { -1i32 } else { current };
            let o1 = Op::<Msg>::SetProp { w, prop: Prop::Items(x.items), quiet: true };
            let o2 = Op::<Msg>::SetProp { w, prop: Prop::Current(x.current), quiet: true };
            let a = op_if(refill, o1);
            let b = op_if(shown != x.current, o2);
            let c = seq![Op::Repoint { slot, f: crate::ui::reconcile::SlotFn::Int(x.on_change) }];
            assert(ops == a + b + c);
            lemma_after_concat(s, w, a + b, c);
            lemma_after_concat(s, w, a, b);
            lemma_after_if(s, w, refill, o1);
            lemma_after_if(after(s, w, a), w, shown != x.current, o2);
            lemma_after_one(after(s, w, a + b), w, c[0]);
        },
        (Mounted::List { w, items, current, select_slot, activate_slot }, Element::List(x)) => {
            let refill = texts(items@) != texts(x.items@);
            let shown = if refill { -2i32 } else { current };
            let o1 = Op::<Msg>::SetProp { w, prop: Prop::Items(x.items), quiet: true };
            let o2 = Op::<Msg>::SetProp { w, prop: Prop::Current(x.current), quiet: true };
            let a = op_if(refill, o1);
            let b = op_if(shown != x.current, o2);
            let c = ops.subrange((a.len() + b.len()) as int, ops.len() as int);
            assert(ops =~= a + b + c);
            assert forall|i: int| 0 <= i < c.len() implies !(#[trigger] c[i] is SetProp) by {}
            lemma_after_concat(s, w, a + b, c);
            lemma_after_concat(s, w, a, b);
            lemma_after_if(s, w, refill, o1);
            lemma_after_if(after(s, w, a), w, shown != x.current, o2);
            lemma_after_untouched(after(s, w, a + b), w, c);
        },
        (Mounted::Separator { .. }, Element::Separator(_)) => {
            assert(ops =~= Seq::<Op<Msg>>::empty());
        },
        _ => {},
    }
}

/// The operations after the first, split at `k`: the prefix sets props, the
/// rest sets none.
proof fn lemma_after_split<Msg>(s: Shown, w: u64, ops: Seq<Op<Msg>>, k: int)
    requires
        0 <= k <= ops.len(),
        forall|i: int| k <= i < ops.len() ==> !(#[trigger] ops[i] is SetProp),
    ensures
        after(s, w, ops) == after(s, w, ops.take(k)),
{
    let u = ops.skip(k);
    assert(ops =~= ops.take(k) + u);
    assert forall|i: int| 0 <= i < u.len() implies !(#[trigger] u[i] is SetProp) by {
        assert(u[i] == ops[k + i]);
    }
    lemma_after_concat(s, w, ops.take(k), u);
    lemma_after_untouched(after(s, w, ops.take(k)), w, u);
}

proof fn lemma_after_two<Msg>(s: Shown, w: u64, o1: Op<Msg>, o2: Op<Msg>)
    ensures
        after(s, w, seq![o1, o2]) == apply_op(apply_op(s, w, o1), w, o2),
{
    assert(seq![o1, o2] =~= seq![o1] + seq![o2]);
    lemma_after_concat(s, w, seq![o1], seq![o2]);
    lemma_after_one(s, w, o1);
    lemma_after_one(apply_op(s, w, o1), w, o2);
}

/// Building a widget for a leaf element creates it and then leaves it
/// showing every prop of the element: the constructor gives some, the props
/// set before its event slots are wired give the rest.
#[verifier::rlimit(100)]
pub proof fn law_realize_leaf_shows_element<Msg>(m: Mounted, e: Element<Msg>)
    requires
        is_leaf(m),
        !(m is Stretch),
        same_kind_spec(m, e),
    ensures
        realize_ops(m, e).len() > 0,
        realize_ops(m, e)[0] matches Op::New { id, ctor } && id == widget_id(m) && shows(
            after(created(ctor), id, realize_ops(m, e).drop_first()),
            e,
        ),
{
    let ops = realize_ops(m, e);
    let r = ops.drop_first();
    match (m, e) {
        (Mounted::Label { w, .. }, Element::Label(x)) => {
            assert(r =~= Seq::<Op<Msg>>::empty());
        },
        (Mounted::Button { w, .. }, Element::Button(x)) => {
            lemma_after_split(created(Ctor::Button(x.text)), w, r, 0);
        },
        (Mounted::Checkbox { w, .. }, Element::Checkbox(x)) => {
            let c = created(Ctor::Checkbox(x.text));
            lemma_after_split(c, w, r, 1);
            assert(r.take(1) =~= seq![r[0]]);
            lemma_after_one(c, w, r[0]);
        },
        (Mounted::RadioButton { w, .. }, Element::RadioButton(x)) => {
            let c = created(Ctor::RadioButton(x.text));
            lemma_after_split(c, w, r, 1);
            assert(r.take(1) =~= seq![r[0]]);
            lemma_after_one(c, w, r[0]);
        },
        (Mounted::LineEdit { w, .. }, Element::LineEdit(x)) => {
            let c = created(Ctor::LineEdit(x.text));
            let o = Op::<Msg>::SetProp { w, prop: Prop::Placeholder(x.placeholder), quiet: false };
            let a = op_if(x.placeholder is Some, o);
            lemma_after_split(c, w, r, a.len() as int);
            assert(r.take(a.len() as int) =~= a);
            lemma_after_if(c, w, x.placeholder is Some, o);
        },
        (Mounted::TextEdit { w, .. }, Element::TextEdit(x)) => {
            let c = created(Ctor::TextEdit(x.text));
            let o1 = Op::<Msg>::SetProp { w, prop: Prop::Placeholder(x.placeholder), quiet: false };
            let o2 = Op::<Msg>::SetProp { w, prop: Prop::ReadOnly(true), quiet: false };
            let a = op_if(x.placeholder is Some, o1);
            let b = op_if(x.read_only, o2);
            lemma_after_split(c, w, r, (a.len() + b.len()) as int);
            assert(r.take((a.len() + b.len()) as int) =~= a + b);
            lemma_after_concat(c, w, a, b);
            lemma_after_if(c, w, x.placeholder is Some, o1);
            lemma_after_if(after(c, w, a), w, x.read_only, o2);
        },
        (Mounted::Slider { w, .. }, Element::Slider(x)) => {
            lemma_after_split(created(Ctor::Slider { min: x.min, max: x.max, value: x.value }), w, r, 0);
        },
        (Mounted::Dial { w, .. }, Element::Dial(x)) => {
            lemma_after_split(created(Ctor::Dial { min: x.min, max: x.max, value: x.value }), w, r, 0);
        },
        (Mounted::SpinBox { w, .. }, Element::SpinBox(x)) => {
            lemma_after_split(created(Ctor::SpinBox { min: x.min, max: x.max, value: x.value }), w, r, 0);
        },
        (Mounted::DoubleSpinBox { w, .. }, Element::DoubleSpinBox(x)) => {
            let c = created(
                Ctor::DoubleSpinBox {
                    min_bits: x.min_bits,
                    max_bits: x.max_bits,
                    value_bits: x.value_bits,
                    decimals: x.decimals,
                    step_bits: x.step_bits,
                },
            );
            lemma_after_split(c, w, r, 0);
        },
        (Mounted::ProgressBar { w, .. }, Element::ProgressBar(x)) => {
            assert(r =~= Seq::<Op<Msg>>::empty());
        },
        (Mounted::ComboBox { w, .. }, Element::ComboBox(x)) => {
            let c = created(Ctor::ComboBox);
            lemma_after_split(c, w, r, 2);
            assert(r.take(2) =~= seq![r[0], r[1]]);
            lemma_after_two(c, w, r[0], r[1]);
        },
        (Mounted::List { w, .. }, Element::List(x)) => {
            let c = created(Ctor::List);
            lemma_after_split(c, w, r, 2);
            assert(r.take(2) =~= seq![r[0], r[1]]);
            lemma_after_two(c, w, r[0], r[1]);
        },
        (Mounted::Separator { w }, Element::Separator(x)) => {
            assert(r =~= Seq::<Op<Msg>>::empty());
        },
        _ => {},
    }
}

// ---------------------------------------------------------------------------
// Event slots
// ---------------------------------------------------------------------------

/// The event slots of leaf node `m`, each with what it must run for element
/// `e` and the signal of the widget it listens to.
pub open spec fn wiring<Msg>(m: Mounted, e: Element<Msg>) -> Seq<(u64, SlotFn<Msg>, Signal)> {
    match (m, e) {
        (Mounted::Button { slot, .. }, Element::Button(x)) => seq![
            (slot, SlotFn::Click(x.on_click), Signal::Clicked),
        ],
        (Mounted::Checkbox { slot, .. }, Element::Checkbox(x)) => seq![
            (slot, SlotFn::Bool(x.on_toggle), Signal::Toggled),
        ],
        (Mounted::RadioButton { slot, .. }, Element::RadioButton(x)) => seq![
            (slot, SlotFn::Bool(x.on_toggle), Signal::Toggled),
        ],
        (Mounted::LineEdit { slot, .. }, Element::LineEdit(x)) => seq![
            (slot, SlotFn::Text(x.on_change), Signal::Changed),
        ],
        (Mounted::TextEdit { slot, .. }, Element::TextEdit(x)) => seq![
            (slot, SlotFn::Text(x.on_change), Signal::Changed),
        ],
        (Mounted::Slider { slot, .. }, Element::Slider(x)) => seq![
            (slot, SlotFn::Int(x.on_change), Signal::Changed),
        ],
        (Mounted::Dial { slot, .. }, Element::Dial(x)) => seq![
            (slot, SlotFn::Int(x.on_change), Signal::Changed),
        ],
        (Mounted::SpinBox { slot, .. }, Element::SpinBox(x)) => seq![
            (slot, SlotFn::Int(x.on_change), Signal::Changed),
        ],
        (Mounted::DoubleSpinBox { slot, .. }, Element::DoubleSpinBox(x)) => seq![
            (slot, SlotFn::Bits(x.on_change), Signal::Changed),
        ],
        (Mounted::ComboBox { slot, .. }, Element::ComboBox(x)) => seq![
            (slot, SlotFn::Int(x.on_change), Signal::Changed),
        ],
        (Mounted::List { select_slot, activate_slot, .. }, Element::List(x)) => seq![
            (select_slot, SlotFn::Int(x.on_select), Signal::CurrentRowChanged),
            (activate_slot, SlotFn::Int(x.on_activate), Signal::Activated),
        ],
        _ => Seq::empty(),
    }
}

/// What event slot `slot`, running `cur`, runs after `ops`: creating it or
/// re-pointing it replaces what it runs.
pub open spec fn slot_after<Msg>(cur: Option<SlotFn<Msg>>, slot: u64, ops: Seq<Op<Msg>>) -> Option<
    SlotFn<Msg>,
>
    decreases ops.len(),
{
    if ops.len() == 0 {
        cur
    } else {
        let before = slot_after(cur, slot, ops.drop_last());
        match ops.last() {
            Op::Keep { slot: s, f } => if s == slot {
                Some(f)
            } else {
                before
            },
            Op::Repoint { slot: s, f } => if s == slot {
                Some(f)
            } else {
                before
            },
            _ => before,
        }
    }
}

proof fn lemma_slot_concat<Msg>(cur: Option<SlotFn<Msg>>, slot: u64, a: Seq<Op<Msg>>, b: Seq<Op<Msg>>)
    ensures
        slot_after(cur, slot, a + b) == slot_after(slot_after(cur, slot, a), slot, b),
    decreases b.len(),
{
    if b.len() == 0 {
        assert(a + b =~= a);
    } else {
        assert((a + b).drop_last() =~= a + b.drop_last());
        assert((a + b).last() == b.last());
        lemma_slot_concat(cur, slot, a, b.drop_last());
    }
}

/// Operations that create or re-point no slot leave every slot as it was.
proof fn lemma_slot_untouched<Msg>(cur: Option<SlotFn<Msg>>, slot: u64, ops: Seq<Op<Msg>>)
    requires
        forall|i: int| 0 <= i < ops.len() ==> !(#[trigger] ops[i] is Keep) && !(ops[i] is Repoint),
    ensures
        slot_after(cur, slot, ops) == cur,
    decreases ops.len(),
{
    if ops.len() > 0 {
        lemma_slot_untouched(cur, slot, ops.drop_last());
    }
}

/// The prefix `ops[..k]` creates no slot; every slot ends up running what
/// the rest leaves it running.
proof fn lemma_slot_tail<Msg>(cur: Option<SlotFn<Msg>>, slot: u64, ops: Seq<Op<Msg>>, k: int)
    requires
        0 <= k <= ops.len(),
        forall|i: int| 0 <= i < k ==> !(#[trigger] ops[i] is Keep) && !(ops[i] is Repoint),
    ensures
        slot_after(cur, slot, ops) == slot_after(cur, slot, ops.skip(k)),
{
    let h = ops.take(k);
    assert(ops =~= h + ops.skip(k));
    assert forall|i: int| 0 <= i < h.len() implies !(#[trigger] h[i] is Keep) && !(h[i] is Repoint) by {
        assert(h[i] == ops[i]);
    }
    lemma_slot_concat(cur, slot, h, ops.skip(k));
    lemma_slot_untouched(cur, slot, h);
}

/// Patching a live leaf re-points each of its event slots at the
/// element's handler for it: after the patch, whatever a slot ran before,
/// it runs what the element asks for. (A list's two slots are taken to be
/// distinct.)
pub proof fn law_patch_leaf_repoints_slots<Msg>(
    m: Mounted,
    e: Element<Msg>,
    cur: Option<SlotFn<Msg>>,
    i: int,
)
    requires
        is_leaf(m),
        same_kind_spec(m, e),
        m matches Mounted::List { select_slot, activate_slot, .. } ==> select_slot != activate_slot,
        0 <= i < wiring(m, e).len(),
    ensures
        slot_after(cur, wiring(m, e)[i].0, leaf_patch_ops(m, e)) == Some(wiring(m, e)[i].1),
{
    let ops = leaf_patch_ops(m, e);
    let slot = wiring(m, e)[i].0;
    let n = ops.len();
    match m {
        Mounted::List { w, items, current, select_slot, activate_slot } => {
            let x = e->List_0;
            let refill = texts(items@) != texts(x.items@);
            let shown = if refill { -2i32 } else { current };
            let pa = op_if(refill, Op::<Msg>::SetProp { w, prop: Prop::Items(x.items), quiet: true });
            let pb = op_if(shown != x.current, Op::<Msg>::SetProp { w, prop: Prop::Current(x.current), quiet: true });
            let r1 = Op::<Msg>::Repoint { slot: select_slot, f: SlotFn::Int(x.on_select) };
            let r2 = Op::<Msg>::Repoint { slot: activate_slot, f: SlotFn::Int(x.on_activate) };
            assert(ops =~= pa + pb + seq![r1, r2]);
            let h = pa + pb;
            assert forall|j: int| 0 <= j < h.len() implies !(#[trigger] h[j] is Keep) && !(h[j] is Repoint) by {
                if j < pa.len() {
                    assert(h[j] == pa[j]);
                } else {
                    assert(h[j] == pb[j - pa.len()]);
                }
            }
            lemma_slot_concat(cur, slot, h, seq![r1, r2]);
            lemma_slot_untouched(cur, slot, h);
            assert(seq![r1, r2] =~= seq![r1] + seq![r2]);
            lemma_slot_concat(cur, slot, seq![r1], seq![r2]);
            assert(seq![r1].drop_last() =~= Seq::<Op<Msg>>::empty());
            assert(seq![r2].drop_last() =~= Seq::<Op<Msg>>::empty());
            assert(seq![r1].last() == r1);
            assert(seq![r2].last() == r2);
            assert(slot_after(cur, slot, Seq::<Op<Msg>>::empty()) == cur);
            let c1 = slot_after(cur, slot, seq![r1]);
            assert(slot_after(c1, slot, Seq::<Op<Msg>>::empty()) == c1);
            assert(wiring(m, e) == seq![
                (select_slot, SlotFn::Int(x.on_select), Signal::CurrentRowChanged),
                (activate_slot, SlotFn::Int(x.on_activate), Signal::Activated),
            ]);
        },
        _ => {
            if wiring(m, e).len() > 0 {
                lemma_slot_tail(cur, slot, ops, n - 1);
                let t = ops.skip(n - 1);
                assert(t.drop_last() =~= Seq::<Op<Msg>>::empty());
            }
        },
    }
}

/// Building a widget for a leaf element creates each of its event slots
/// running the element's handler for it and connects the widget's signal
/// to it. (A list's two slots are taken to be distinct.)
pub proof fn law_realize_leaf_wires_slots<Msg>(m: Mounted, e: Element<Msg>, i: int)
    requires
        is_leaf(m),
        same_kind_spec(m, e),
        m matches Mounted::List { select_slot, activate_slot, .. } ==> select_slot != activate_slot,
        0 <= i < wiring(m, e).len(),
    ensures
        slot_after(None, wiring(m, e)[i].0, realize_ops(m, e)) == Some(wiring(m, e)[i].1),
        realize_ops(m, e).contains(
            Op::Connect { w: widget_id(m), signal: wiring(m, e)[i].2, slot: wiring(m, e)[i].0 },
        ),
{
    let ops = realize_ops(m, e);
    let slot = wiring(m, e)[i].0;
    let n = ops.len() as int;
    let k: int = if m is List { n - 4 } else { n - 2 };
    assert forall|j: int| 0 <= j < k implies !(#[trigger] ops[j] is Keep) && !(ops[j] is Repoint) by {
        match (m, e) {
            (Mounted::LineEdit { w, .. }, Element::LineEdit(x)) => {
                let a = op_if(x.placeholder is Some, Op::<Msg>::SetProp { w, prop: Prop::Placeholder(x.placeholder), quiet: false });
                assert(ops[j] == (seq![Op::<Msg>::New { id: w, ctor: Ctor::LineEdit(x.text) }] + a)[j]);
            },
            (Mounted::TextEdit { w, .. }, Element::TextEdit(x)) => {
                let a = op_if(x.placeholder is Some, Op::<Msg>::SetProp { w, prop: Prop::Placeholder(x.placeholder), quiet: false });
                let b = op_if(x.read_only, Op::<Msg>::SetProp { w, prop: Prop::ReadOnly(true), quiet: false });
                let h = seq![Op::<Msg>::New { id: w, ctor: Ctor::TextEdit(x.text) }] + a + b;
                assert(ops[j] == h[j]);
                if j >= 1 + a.len() {
                    assert(h[j] == b[j - 1 - a.len()]);
                } else if j >= 1 {
                    assert(h[j] == a[j - 1]);
                }
            },
            _ => {},
        }
    }
    lemma_slot_tail(None, slot, ops, k);
    let t = ops.skip(k);
    reveal_with_fuel(slot_after, 5);
    if m is List {
        assert(t.drop_last().drop_last().drop_last().drop_last() =~= Seq::<Op<Msg>>::empty());
        assert(ops[n - 2] == t[2]);
        assert(ops[n - 1] == t[3]);
    } else {
        assert(t.drop_last().drop_last() =~= Seq::<Op<Msg>>::empty());
        assert(ops[n - 1] == t[1]);
    }
}

} // verus!
