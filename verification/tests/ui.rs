use std::time::Duration;

use qax::ui::canvas::{flatten_points, Canvas, PaintOp};
use qax::ui::dispatch::Dispatch;
use qax::ui::element::{
    button, checkbox, combo_box, custom, dial, group_box, label, line_edit, list,
    progress_bar, radio_button, row, separator, separator_v, slider, spinbox, text_edit, Color,
    CustomWidget, Element, IntoElement, MouseButton, MouseEvent, WheelEvent,
};
use qax::ui::element as el;
use qax::ui::menu::menu;
use qax::ui::reconcile::{
    diff_children, diff_timers, double_eq_exec, fire, patch, realize, realize_menu, same_kind,
    Attach, Ctor, IdSource, Mounted, MountedTimer, Op, Payload, Prop, Signal, SlotFn,
};
use qax::ui::runtime::{Component, Runtime, Ui};
use qax::ui::subscription::{every, every_with};

fn build<Msg>(e: Element<Msg>) -> (Mounted, Vec<Op<Msg>>, IdSource) {
    let mut ids = IdSource::new();
    let mut ops = Vec::new();
    let m = realize(e, &mut ids, &mut ops);
    (m, ops, ids)
}

fn set_props<Msg>(ops: &[Op<Msg>]) -> Vec<String> {
    ops.iter()
        .filter_map(|op| match op {
            Op::SetProp { w, prop, quiet } => Some(format!(
                "{w}:{}:{quiet}",
                match prop {
                    Prop::Text(t) => format!("text={t}"),
                    Prop::Checked(b) => format!("checked={b}"),
                    Prop::Placeholder(p) => format!("placeholder={p:?}"),
                    Prop::ReadOnly(b) => format!("read_only={b}"),
                    Prop::Value(v) => format!("value={v}"),
                    Prop::ValueBits(v) => format!("bits={v}"),
                    Prop::Items(v) => format!("items={v:?}"),
                    Prop::Current(c) => format!("current={c}"),
                    Prop::Title(t) => format!("title={t}"),
                }
            )),
            _ => None,
        })
        .collect()
}

#[test]
fn leaf_builders_record_their_props() {
    assert_eq!(label("Hi").text, "Hi");
    assert_eq!(label(String::from("Owned")).text, "Owned");
    let b = button::<u8, _>("Go").on_click(5);
    assert_eq!((b.text.as_str(), b.on_click), ("Go", Some(5)));
    let c = checkbox::<u8, _>("Mute").checked(true);
    assert!(c.checked && c.on_toggle.is_none() && c.text == "Mute");
    let r = radio_button::<u8, _>("A");
    assert!(!r.checked);
    let le = line_edit::<u8>().text("abc").placeholder("type here");
    assert_eq!((le.text.as_str(), le.placeholder.as_deref()), ("abc", Some("type here")));
    let te = text_edit::<u8>().read_only(true).text("log");
    assert!(te.read_only && te.text == "log" && te.placeholder.is_none());
    let s = slider::<u8>(0, 10, 3);
    assert_eq!((s.min, s.max, s.value), (0, 10, 3));
    let d = dial::<u8>(-5, 5, 0);
    assert_eq!((d.min, d.max, d.value), (-5, 5, 0));
    let sp = spinbox::<u8>(1, 2, 2);
    assert_eq!(sp.value, 2);
    let p = progress_bar(0, 100, 42);
    assert_eq!((p.min, p.max, p.value), (0, 100, 42));
    assert!(!separator().vertical && separator_v().vertical);
}

#[test]
fn list_and_combo_defaults_and_items() {
    let c = combo_box::<u8>()
        .item("a")
        .items(vec!["b".to_string(), "c".to_string()])
        .selected(2);
    assert_eq!(c.items, vec!["a", "b", "c"]);
    assert_eq!(c.current, 2);
    assert_eq!(combo_box::<u8>().current, 0);
    let l = list::<u8>().items(vec!["x".to_string()]).item("y");
    assert_eq!(l.items, vec!["x", "y"]);
    assert_eq!(l.current, -1);
    assert_eq!(list::<u8>().selected(0).current, 0);
}

#[test]
fn containers_collect_children_in_order() {
    let col = el::column::<u8>()
        .spacing(8)
        .padding(16)
        .child(label("a"))
        .child(button("b"))
        .stretch()
        .children(vec![label("c"), label("d")]);
    assert!(col.vertical);
    assert_eq!((col.spacing, col.margin), (Some(8), Some(16)));
    assert_eq!(col.children.len(), 5);
    assert!(matches!(col.children[0], Element::Label(ref l) if l.text == "a"));
    assert!(matches!(col.children[1], Element::Button(_)));
    assert!(matches!(col.children[2], Element::Stretch));
    assert!(matches!(col.children[4], Element::Label(ref l) if l.text == "d"));
    assert!(!row::<u8>().vertical);
    let g = group_box::<u8, _>("Options").horizontal().child(label("x"));
    assert!(!g.vertical && g.title == "Options" && g.children.len() == 1);
}

#[test]
fn colors() {
    assert_eq!(Color::rgb(1, 2, 3), Color { r: 1, g: 2, b: 3, a: 255 });
    assert_eq!(Color::rgba(1, 2, 3, 4).a, 4);
    assert_eq!(Color::black(), Color::rgb(0, 0, 0));
    assert_eq!(Color::white(), Color::rgb(255, 255, 255));
}

#[test]
fn mouse_button_codes_left_wins() {
    assert_eq!(MouseButton::from_code(0), MouseButton::NoButton);
    assert_eq!(MouseButton::from_code(1), MouseButton::Left);
    assert_eq!(MouseButton::from_code(3), MouseButton::Left);
    assert_eq!(MouseButton::from_code(7), MouseButton::Left);
    assert_eq!(MouseButton::from_code(2), MouseButton::Right);
    assert_eq!(MouseButton::from_code(6), MouseButton::Right);
    assert_eq!(MouseButton::from_code(4), MouseButton::Middle);
    assert_eq!(MouseButton::from_code(8), MouseButton::Other);
    assert_eq!(MouseButton::from_code(-1), MouseButton::Left);
}

#[test]
fn subscriptions_truncate_to_milliseconds() {
    assert_eq!(every(Duration::from_millis(16), 1u8).interval_ms, 16);
    assert_eq!(every(Duration::from_micros(2999), 1u8).interval_ms, 2);
    assert_eq!(every(Duration::from_secs(2), 1u8).interval_ms, 2000);
    let s = every_with(Duration::from_millis(5), || 7u8);
    assert_eq!(s.interval_ms, 5);
    assert_eq!(s.make.call(()), 7);
    assert_eq!(every(Duration::from_millis(1), 9u8).make.call(()), 9);
}

#[test]
fn realize_label_creates_one_widget() {
    let (m, ops, _) = build::<u8>(label("Hi").into_element());
    assert!(matches!(m, Mounted::Label { ref text, .. } if text == "Hi"));
    assert_eq!(ops.len(), 1);
    assert!(matches!(&ops[0], Op::New { ctor: Ctor::Label(t), .. } if t == "Hi"));
}

#[test]
fn realize_checkbox_sets_state_and_connects() {
    let (m, ops, _) = build::<u8>(checkbox("Mute").checked(true).into_element());
    let w = match m {
        Mounted::Checkbox { w, checked: true, .. } => w,
        _ => panic!("not a checked checkbox"),
    };
    assert_eq!(ops.len(), 4);
    assert!(matches!(ops[0], Op::New { id, ctor: Ctor::Checkbox(_) } if id == w));
    assert_eq!(set_props(&ops), vec![format!("{w}:checked=true:false")]);
    assert!(matches!(ops[2], Op::Keep { f: SlotFn::Bool(None), .. }));
    assert!(matches!(ops[3], Op::Connect { signal: Signal::Toggled, .. }));
}

#[test]
fn realize_column_adds_children_in_order() {
    let (m, ops, _) =
        build::<u8>(el::column().spacing(4).child(label("a")).stretch().into_element());
    let (layout, children) = match m {
        Mounted::Container { layout, vertical: true, children } => (layout, children),
        _ => panic!("not a column"),
    };
    assert_eq!(children.len(), 2);
    assert!(matches!(ops[0], Op::New { id, ctor: Ctor::BoxLayout(true) } if id == layout));
    assert!(matches!(ops[1], Op::Spacing { px: 4, .. }));
    let adds: Vec<&Attach> = ops
        .iter()
        .filter_map(|op| match op {
            Op::Add { layout: l, node } if *l == layout => Some(node),
            _ => None,
        })
        .collect();
    assert_eq!(adds.len(), 2);
    assert!(matches!(adds[1], Attach::Stretch));
}

#[test]
fn patch_touches_only_changed_props() {
    let (m, _, mut ids) = build::<u8>(checkbox("Mute").into_element());
    let w = match m {
        Mounted::Checkbox { w, .. } => w,
        _ => unreachable!(),
    };
    let mut ops = Vec::new();
    let e: Element<u8> = checkbox("Mute").into_element();
    assert!(same_kind(&m, &e));
    let m = patch(m, e, &mut ids, &mut ops);
    assert_eq!(set_props(&ops), Vec::<String>::new());
    assert_eq!(ops.len(), 1);
    assert!(matches!(ops[0], Op::Repoint { f: SlotFn::Bool(None), .. }));

    let mut ops = Vec::new();
    let m = patch(m, checkbox("Muted").checked(true).on_toggle(|b: bool| b as u8).into_element(), &mut ids, &mut ops);
    assert_eq!(
        set_props(&ops),
        vec![format!("{w}:text=Muted:false"), format!("{w}:checked=true:true")]
    );
    match &ops[2] {
        Op::Repoint { f, .. } => assert_eq!(fire(f, Payload::Bool(true)), Some(1)),
        _ => panic!("expected a re-pointed slot"),
    }
    assert!(matches!(m, Mounted::Checkbox { w: w2, checked: true, .. } if w2 == w));
}

#[test]
fn patch_line_edit_text_is_quiet_placeholder_is_not() {
    let (m, _, mut ids) = build::<u8>(line_edit().text("a").into_element());
    let mut ops: Vec<Op<u8>> = Vec::new();
    let m = patch(m, line_edit().text("b").placeholder("hint").into_element(), &mut ids, &mut ops);
    let w = match m {
        Mounted::LineEdit { w, .. } => w,
        _ => unreachable!(),
    };
    assert_eq!(
        set_props(&ops),
        vec![format!("{w}:text=b:true"), format!("{w}:placeholder=Some(\"hint\"):false")]
    );
}

#[test]
fn patch_combo_refill_forces_selection() {
    let (m, _, mut ids) = build::<u8>(combo_box().item("a").selected(0).into_element());
    let w = match m {
        Mounted::ComboBox { w, .. } => w,
        _ => unreachable!(),
    };
    let mut ops: Vec<Op<u8>> = Vec::new();
    let m = patch(m, combo_box().item("a").item("b").selected(0).into_element(), &mut ids, &mut ops);
    assert_eq!(
        set_props(&ops),
        vec![format!("{w}:items=[\"a\", \"b\"]:true"), format!("{w}:current=0:true")]
    );
    let mut ops: Vec<Op<u8>> = Vec::new();
    let _ = patch(m, combo_box().item("a").item("b").selected(0).into_element(), &mut ids, &mut ops);
    assert_eq!(set_props(&ops), Vec::<String>::new());
}

#[test]
fn patch_list_refill_always_sets_row() {
    let (m, _, mut ids) = build::<u8>(list().item("a").into_element());
    let w = match m {
        Mounted::List { w, .. } => w,
        _ => unreachable!(),
    };
    let mut ops: Vec<Op<u8>> = Vec::new();
    let _ = patch(m, list().item("b").into_element(), &mut ids, &mut ops);
    assert_eq!(
        set_props(&ops),
        vec![format!("{w}:items=[\"b\"]:true"), format!("{w}:current=-1:true")]
    );
}

#[test]
fn double_values_compare_as_doubles() {
    assert!(double_eq_exec(0.0f64.to_bits(), (-0.0f64).to_bits()));
    assert!(double_eq_exec(1.5f64.to_bits(), 1.5f64.to_bits()));
    assert!(!double_eq_exec(f64::NAN.to_bits(), f64::NAN.to_bits()));
    assert!(!double_eq_exec(1.0f64.to_bits(), 2.0f64.to_bits()));
}

#[test]
fn diff_children_patches_same_kind_and_replaces_others() {
    let (root, _, mut ids) =
        build::<u8>(el::column().child(label("a")).child(button("b")).child(label("c")).into_element());
    let (layout, children) = match root {
        Mounted::Container { layout, children, .. } => (layout, children),
        _ => unreachable!(),
    };
    let first = match &children[0] {
        Mounted::Label { w, .. } => *w,
        _ => unreachable!(),
    };
    let mut ops: Vec<Op<u8>> = Vec::new();
    let fresh = vec![label("a2").into_element(), checkbox("x").into_element()];
    let r = diff_children(layout, children, fresh, &mut ids, &mut ops);
    assert_eq!(r.len(), 2);
    assert!(matches!(r[0], Mounted::Label { w, ref text } if w == first && text == "a2"));
    assert!(matches!(r[1], Mounted::Checkbox { .. }));
    let layout_ops: Vec<String> = ops
        .iter()
        .filter_map(|op| match op {
            Op::RemoveAt { index, .. } => Some(format!("remove {index}")),
            Op::InsertAt { index, .. } => Some(format!("insert {index}")),
            _ => None,
        })
        .collect();
    assert_eq!(layout_ops, vec!["remove 1", "insert 1", "remove 2"]);
}

#[test]
fn diff_children_rebuilds_on_orientation_change_and_appends() {
    let (root, _, mut ids) = build::<u8>(el::column().child(el::column().child(label("a"))).into_element());
    let (layout, children) = match root {
        Mounted::Container { layout, children, .. } => (layout, children),
        _ => unreachable!(),
    };
    let fresh = vec![row::<u8>().child(label("a")).into_element(), label("tail").into_element()];
    assert!(!same_kind(&children[0], &fresh[0]));
    let mut ops = Vec::new();
    let r = diff_children(layout, children, fresh, &mut ids, &mut ops);
    assert!(matches!(r[0], Mounted::Container { vertical: false, .. }));
    assert!(matches!(r[1], Mounted::Label { .. }));
    let layout_ops: Vec<String> = ops
        .iter()
        .filter_map(|op| match op {
            Op::RemoveAt { index, layout: l } if *l == layout => Some(format!("remove {index}")),
            Op::InsertAt { index, layout: l, .. } if *l == layout => Some(format!("insert {index}")),
            _ => None,
        })
        .collect();
    assert_eq!(layout_ops, vec!["remove 0", "insert 0", "insert 1"]);
}

#[test]
fn diff_children_removes_surplus_from_the_end() {
    let (root, _, mut ids) = build::<u8>(
        el::column().child(label("a")).child(label("b")).child(label("c")).into_element(),
    );
    let (layout, children) = match root {
        Mounted::Container { layout, children, .. } => (layout, children),
        _ => unreachable!(),
    };
    let mut ops: Vec<Op<u8>> = Vec::new();
    let r = diff_children(layout, children, vec![label("a").into_element()], &mut ids, &mut ops);
    assert_eq!(r.len(), 1);
    let removes: Vec<usize> = ops
        .iter()
        .filter_map(|op| match op {
            Op::RemoveAt { index, .. } => Some(*index),
            _ => None,
        })
        .collect();
    assert_eq!(removes, vec![2, 1]);
    assert_eq!(set_props(&ops), Vec::<String>::new());
}

#[test]
fn timers_are_kept_by_position() {
    let mut ids = IdSource::new();
    let mut ops: Vec<Op<u8>> = Vec::new();
    let live = diff_timers(Vec::new(), vec![every(Duration::from_millis(100), 1u8)], &mut ids, &mut ops);
    assert_eq!(live.len(), 1);
    let first = live[0].timer;
    let mut ops = Vec::new();
    let live = diff_timers(
        live,
        vec![every(Duration::from_millis(100), 1u8), every(Duration::from_millis(200), 2u8)],
        &mut ids,
        &mut ops,
    );
    assert_eq!(live[0].timer, first);
    assert_eq!(live.len(), 2);
    assert!(!ops.iter().any(|op| matches!(op, Op::SetInterval { .. })));
    assert!(ops.iter().any(|op| matches!(op, Op::NewTimer { interval_ms: 200, .. })));
    let second = live[1].timer;
    let mut ops = Vec::new();
    let live = diff_timers(live, vec![every(Duration::from_millis(50), 3u8)], &mut ids, &mut ops);
    assert_eq!(live.len(), 1);
    assert_eq!(live[0].timer, first);
    assert!(ops.iter().any(|op| matches!(op, Op::SetInterval { timer, interval_ms: 50 } if *timer == first)));
    assert!(ops.iter().any(|op| matches!(op, Op::DeleteTimer { timer } if *timer == second)));
    let kept: Vec<MountedTimer> = diff_timers(live, Vec::new(), &mut ids, &mut ops);
    assert!(kept.is_empty());
}

#[test]
fn menus_wire_actions_and_separators() {
    let m = menu("File").action("Open…", 1u8).separator().action("Quit", 2u8);
    assert_eq!(m.title, "File");
    assert_eq!(m.items.len(), 3);
    let mut ids = IdSource::new();
    let mut ops = Vec::new();
    realize_menu(99, m, &mut ids, &mut ops);
    let rows: Vec<String> = ops
        .iter()
        .filter_map(|op| match op {
            Op::MenuAction { menu: 99, text, .. } => Some(text.clone()),
            Op::MenuSeparator { menu: 99 } => Some("-".to_string()),
            _ => None,
        })
        .collect();
    assert_eq!(rows, vec!["Open…", "-", "Quit"]);
    let fired: Vec<Option<u8>> = ops
        .iter()
        .filter_map(|op| match op {
            Op::Keep { f, .. } => Some(fire(f, Payload::Unit)),
            _ => None,
        })
        .collect();
    assert_eq!(fired, vec![Some(1), Some(2)]);
}

#[test]
fn slots_fire_only_with_a_handler() {
    assert_eq!(fire(&SlotFn::<u8>::Click(None), Payload::Unit), None);
    assert_eq!(fire(&SlotFn::Click(Some(4u8)), Payload::Unit), Some(4));
    assert_eq!(fire(&SlotFn::<u8>::Int(None), Payload::Int(3)), None);
    let el = slider(0, 9, 1).on_change(|v: i32| v as u8 * 2);
    let f = SlotFn::Int(el.on_change);
    assert_eq!(fire(&f, Payload::Int(3)), Some(6));
    assert_eq!(fire(&f, Payload::Bool(true)), None);
    let le = line_edit().on_change(|s: &str| s.len() as u8);
    assert_eq!(fire(&SlotFn::Text(le.on_change), Payload::Text("abcd".to_string())), Some(4));
}

struct Dot {
    size: Option<(i32, i32)>,
}

impl CustomWidget for Dot {
    fn draw(&self, canvas: &mut Canvas) {
        canvas.clear(Color::black());
    }
    fn size(&self) -> Option<(i32, i32)> {
        self.size
    }
}

#[test]
fn mouse_events_route_by_kind() {
    let el = custom::<String, _>(Dot { size: None })
        .on_mouse_down(|e: MouseEvent| format!("down {} {} {:?}", e.x, e.y, e.button))
        .on_mouse_move(|e: MouseEvent| format!("move {:?}", e.button))
        .on_wheel(|e: WheelEvent| format!("wheel {}", e.delta))
        .on_resize(|w: i32, h: i32| format!("resize {w}x{h}"));
    let mouse = SlotFn::Mouse { down: el.on_down, up: el.on_up, mv: el.on_move };
    let ev = |kind, button| Payload::Mouse { kind, x: 3, y: 4, button };
    assert_eq!(fire(&mouse, ev(0, 1)), Some("down 3 4 Left".to_string()));
    assert_eq!(fire(&mouse, ev(1, 0)), Some("move NoButton".to_string()));
    assert_eq!(fire(&mouse, ev(2, 2)), None);
    assert_eq!(fire(&mouse, ev(5, 1)), None);
    let wheel = SlotFn::Wheel(el.on_wheel);
    assert_eq!(
        fire(&wheel, Payload::Wheel(WheelEvent { x: 0, y: 0, delta: -120 })),
        Some("wheel -120".to_string())
    );
    let resize = SlotFn::Resize(el.on_resize);
    assert_eq!(fire(&resize, Payload::Resize(30, 40)), Some("resize 30x40".to_string()));
}

#[test]
fn custom_widgets_keep_their_canvas_while_the_type_stays() {
    let (m, ops, mut ids) = build::<u8>(custom(Dot { size: Some((10, 10)) }).into_element());
    assert!(ops.iter().any(|op| matches!(op, Op::FixedSize { size: Some((10, 10)), .. })));
    assert!(ops.iter().any(|op| matches!(op, Op::Connect { signal: Signal::Mouse(false), .. })));
    let w = match m {
        Mounted::Custom { w, .. } => w,
        _ => unreachable!(),
    };
    let e = custom::<u8, _>(Dot { size: Some((10, 10)) }).hover().into_element();
    assert!(same_kind(&m, &e));
    let mut ops = Vec::new();
    let m = patch(m, e, &mut ids, &mut ops);
    assert!(!ops.iter().any(|op| matches!(op, Op::FixedSize { .. })));
    assert!(ops.iter().any(|op| matches!(op, Op::Tracking { on: true, .. })));
    assert!(matches!(ops.last(), Some(Op::Repaint { w: r }) if *r == w));
    let other: Element<u8> = label("x").into_element();
    assert!(!same_kind(&m, &other));
}

#[test]
fn canvas_records_commands_in_order() {
    let mut c = Canvas::new(40, 30);
    assert_eq!((c.width(), c.height(), c.size()), (40, 30, (40, 30)));
    c.clear(Color::white());
    c.text(1, 2, "hi", Color::black());
    c.fill_polygon(&[(1, 2), (3, 4)], Color::black());
    let ops = c.into_ops();
    assert_eq!(ops.len(), 3);
    assert!(matches!(ops[0], PaintOp::FillRect { x: 0, y: 0, w: 40, h: 30, .. }));
    assert!(matches!(&ops[1], PaintOp::Text { text, .. } if text == "hi"));
    assert!(matches!(&ops[2], PaintOp::FillPolygon { points, .. } if *points == vec![1, 2, 3, 4]));
    assert_eq!(flatten_points(&[]), Vec::<i32>::new());
    assert_eq!(flatten_points(&[(5, -6)]), vec![5, -6]);
}

#[test]
fn dispatch_coalesces_emits_and_keeps_order() {
    let mut d: Dispatch<u8> = Dispatch::new();
    assert!(d.emit(1));
    assert!(!d.emit(2));
    assert!(d.begin_flush());
    assert!(!d.begin_flush());
    d.start_round();
    assert_eq!(d.next(), Some(1));
    assert!(d.emit(3));
    assert_eq!(d.next(), Some(2));
    assert_eq!(d.next(), Some(3));
    assert_eq!(d.next(), None);
    assert!(d.again());
    d.start_round();
    assert!(!d.again());
    d.end_flush();
    assert!(d.begin_flush());
}

#[derive(Default)]
struct Counter {
    n: i64,
}

#[derive(Clone)]
enum Msg {
    Inc,
    Dec,
}

impl Component for Counter {
    type Message = Msg;
    fn update(&mut self, msg: Msg) {
        match msg {
            Msg::Inc => self.n += 1,
            Msg::Dec => self.n -= 1,
        }
    }
    fn view(&self) -> Element<Msg> {
        el::column()
            .spacing(8)
            .child(label(format!("Count: {}", self.n)))
            .child(row().child(button("-").on_click(Msg::Dec)).child(button("+").on_click(Msg::Inc)))
            .into_element()
    }
}

#[test]
fn counter_rerender_changes_only_the_label() {
    let mut ops = Vec::new();
    let mut rt: Runtime<Counter> = Ui::new(Counter::default())
        .title("counter")
        .size(240, 140)
        .status("ready")
        .mount(&mut ops);
    assert!(matches!(ops.first(), Some(Op::New { ctor: Ctor::MainWindow, .. })));
    assert!(matches!(ops.last(), Some(Op::Show { .. })));
    assert!(ops.iter().any(|op| matches!(op, Op::WindowTitle { title, .. } if title == "counter")));
    assert!(ops.iter().any(|op| matches!(op, Op::StatusText { text, .. } if text == "ready")));
    assert!(ops.iter().any(|op| matches!(op, Op::Resize { width: 240, height: 140, .. })));
    rt.update(Msg::Inc);
    rt.update(Msg::Inc);
    rt.update(Msg::Dec);
    assert_eq!(rt.state().n, 1);
    let ops = rt.rerender();
    let props = set_props(&ops);
    assert_eq!(props.len(), 1);
    assert!(props[0].ends_with(":text=Count: 1:false"));
    assert!(!ops.iter().any(|op| matches!(op, Op::New { .. } | Op::RemoveAt { .. })));
    let ops = rt.rerender();
    assert!(set_props(&ops).is_empty());
}

#[test]
fn ui_builder_collects_menus() {
    let ui = Ui::new(Counter::default()).menu(menu("File").action("Quit", Msg::Dec));
    assert_eq!(ui.menus.len(), 1);
    let mut ops = Vec::new();
    let _rt = ui.mount(&mut ops);
    assert!(ops.iter().any(|op| matches!(op, Op::AddMenu { title, .. } if title == "File")));
    assert!(ops.iter().any(|op| matches!(op, Op::MenuAction { text, .. } if text == "Quit")));
}

fn op_name<Msg>(op: &Op<Msg>) -> &'static str {
    match op {
        Op::New { ctor: Ctor::MainWindow, .. } => "window",
        Op::New { ctor: Ctor::Widget, .. } => "central",
        Op::New { ctor: Ctor::BoxLayout(_), .. } => "layout",
        Op::New { .. } => "widget",
        Op::SetProp { .. } => "prop",
        Op::Keep { .. } => "keep",
        Op::Connect { .. } => "connect",
        Op::Repoint { .. } => "repoint",
        Op::Spacing { .. } => "spacing",
        Op::Margins { .. } => "margins",
        Op::Add { .. } => "add",
        Op::SetLayout { .. } => "set_layout",
        Op::NewTimer { .. } => "timer",
        Op::SetInterval { .. } => "interval",
        Op::DeleteTimer { .. } => "stop",
        Op::AddMenu { .. } => "menu",
        Op::MenuAction { .. } => "action",
        Op::MenuSeparator { .. } => "separator",
        Op::SetCentral { .. } => "set_central",
        Op::WindowTitle { .. } => "title",
        Op::StatusText { .. } => "status",
        Op::Resize { .. } => "resize",
        Op::Show { .. } => "show",
        _ => "other",
    }
}

struct Ticker;

impl Component for Ticker {
    type Message = u8;
    fn update(&mut self, _msg: u8) {}
    fn view(&self) -> Element<u8> {
        label("tick").into_element()
    }
    fn subscriptions(&self) -> Vec<qax::ui::subscription::Subscription<u8>> {
        vec![every(Duration::from_millis(250), 7u8)]
    }
}

#[test]
fn mount_emits_window_contents_menus_timers_then_shows() {
    let mut ops = Vec::new();
    let rt = Ui::new(Ticker)
        .title("t")
        .menu(menu("File").action("Quit", 1u8).separator())
        .mount(&mut ops);
    let names: Vec<&str> = ops.iter().map(op_name).collect();
    assert_eq!(
        names,
        vec![
            "window", "central", "layout", "widget", "add", "set_layout", "set_central", "menu",
            "keep", "action", "separator", "timer", "title", "show",
        ]
    );
    assert!(matches!(ops[0], Op::New { id, .. } if id == rt.window));
    assert!(matches!(ops[11], Op::NewTimer { interval_ms: 250, .. }));
    assert_eq!(rt.timers.len(), 1);
    assert_eq!(rt.timers[0].interval_ms, 250);
}

#[test]
fn rerender_repoints_running_timers() {
    let mut ops = Vec::new();
    let mut rt = Ui::new(Ticker).mount(&mut ops);
    let timer = rt.timers[0].timer;
    let ops = rt.rerender();
    let names: Vec<&str> = ops.iter().map(op_name).collect();
    assert_eq!(names, vec!["repoint"]);
    assert_eq!(rt.timers[0].timer, timer);
}

#[test]
fn realized_identities_are_drawn_in_order_and_distinct() {
    let e = el::column::<u8>().child(label("a")).child(button("b").on_click(1u8)).into_element();
    let (m, ops, ids) = build(e);
    let mut drawn: Vec<u64> = ops
        .iter()
        .filter_map(|op| match op {
            Op::New { id, .. } => Some(*id),
            Op::Keep { slot, .. } => Some(*slot),
            _ => None,
        })
        .collect();
    assert_eq!(drawn, vec![0, 1, 2, 3]);
    drawn.dedup();
    assert_eq!(drawn.len(), 4);
    assert_eq!(ids.next, 4);
    assert!(matches!(m, Mounted::Container { layout: 0, .. }));
}

#[test]
fn every_with_calls_the_closure_afresh_on_each_tick() {
    let n = std::rc::Rc::new(std::cell::Cell::new(0u32));
    let counter = n.clone();
    let s = every_with(Duration::from_micros(16_999), move || {
        counter.set(counter.get() + 1);
        counter.get()
    });
    assert_eq!(s.interval_ms, 16);
    assert_eq!(s.make.call(()), 1);
    assert_eq!(s.make.call(()), 2);
    assert_eq!(n.get(), 2);
    assert_eq!(every(Duration::from_micros(16_999), 7i32).make.call(()), 7);
}
