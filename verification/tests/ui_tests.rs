use tiled::event::{convert_key, Btn, Dir, Event as Event2, Key, KeyCode};
use tiled::ui_state::{MenuEvent, MenuHit};
use tiled::dock::{dock, Container, Slot, Split};
use tiled::draw::ColorRect;
use tiled::editor_ui::{id, id2, idmap, in_rect, Change, ColorMode, Event, Ids, Paint, Ui, BUTTON_HEIGHT};
use tiled::immediate::{ImState, Point16, Rect16};
use tiled::layout::{FlowData, Point, Rect};
use tiled::ui_state::{Checkbox, Hover, Id, Look, Toggle, UiState};
use tiled::widgets::{Button, CheckSet, Mouse, Root};

#[test]
fn widget_ids() {
    assert_eq!(id(3, 2), 3 + 256);
    assert_eq!(id2(4, 1, 5), 4 + (((1 << 12) + 5) << 7));
    assert_eq!(idmap(2, 3), 1 + (((3 << 12) + 2) << 7));
    assert_eq!(idmap(1, 2), 1048705);
    let m = idmap(17, 9);
    assert_eq!(m & 0x7f, Ids::MapCell.code());
    assert_eq!((m >> 7) & 0xfff, 17);
    assert_eq!(m >> 19, 9);
    assert_eq!(Ids::PropInt.code(), 20);
    assert_eq!(Ids::Palette.code(), 7);
}

#[test]
fn rect_membership() {
    assert!(in_rect(2, 3, 2, 3, 1, 1));
    assert!(!in_rect(3, 3, 2, 3, 1, 1));
    assert!(in_rect(-1, -1, -2, -2, 2, 2));
    assert!(!in_rect(0, 5, -2, -2, 2, 20));
}

fn ui_at(mx: isize, my: isize, event: Event) -> Ui {
    let mut ui = Ui::new();
    ui.state.mx = mx;
    ui.state.my = my;
    ui.state.event = event;
    ui
}

#[test]
fn hittest_sets_next_hot() {
    let mut ui = ui_at(5, 5, Event::MouseMove);
    assert!(ui.hittest(0, 0, 10, 10, 42));
    assert_eq!(ui.state.next_hot_id, 42);
    assert!(!ui.hittest(6, 0, 10, 10, 43));
    assert_eq!(ui.state.next_hot_id, 42);
    let mut ui = ui_at(5, 5, Event::Tick);
    assert!(ui.hittest(0, 0, 10, 10, 42));
    assert_eq!(ui.state.next_hot_id, 0);
    let mut ui = ui_at(-1, 5, Event::MouseMove);
    assert!(!ui.hittest(0, 0, 10, 10, 42));
}

#[test]
fn click_is_press_then_release() {
    let mut ui = ui_at(5, 5, Event::LeftDown);
    ui.state.hot_id = 7;
    assert_eq!(ui.button_core(7), Some(false));
    assert_eq!(ui.state.active_id, 7);
    assert_eq!(ui.state.active_event, Event::LeftDown);
    ui.state.event = Event::LeftUp;
    assert_eq!(ui.button_core(7), Some(true));
    assert_eq!(ui.state.active_id, 0);
}

#[test]
fn right_click_reports_none() {
    let mut ui = ui_at(5, 5, Event::RightDown);
    ui.state.hot_id = 7;
    assert_eq!(ui.button_core(7), Some(false));
    ui.state.event = Event::RightUp;
    assert_eq!(ui.button_core(7), None);
    assert_eq!(ui.state.active_id, 0);
}

#[test]
fn other_widget_is_ignored_while_one_is_held() {
    let mut ui = ui_at(5, 5, Event::LeftDown);
    ui.state.hot_id = 8;
    ui.state.active_id = 7;
    assert_eq!(ui.button_core(8), Some(false));
    assert_eq!(ui.state.active_id, 7);
}

#[test]
fn color_states() {
    let mut ui = Ui::new();
    assert_eq!(ui.index_for_id(3, false, false), 0);
    ui.state.hot_id = 3;
    assert_eq!(ui.index_for_id(3, false, false), 1);
    ui.state.active_id = 3;
    assert_eq!(ui.index_for_id(3, false, false), 3);
    assert_eq!(ui.index_for_id(3, true, false), 6);
    ui.state.active_id = 0;
    assert_eq!(ui.index_for_id(3, false, true), 5);
    assert_eq!(ui.index_for_id(3, true, true), 5);
    ui.state.hot_id = 0;
    assert_eq!(ui.index_for_id(3, true, true), 4);
    assert_eq!(ui.index_for_id(3, true, false), 6);
}

#[test]
fn button_paints_a_text_box() {
    let mut ui = ui_at(5, 5, Event::Paint);
    let clicked = ui.button(ColorMode::Toolbar, "Go", 1, 2, 3, 20, 9, false, false);
    assert!(!clicked);
    assert_eq!(ui.paint.len(), 1);
    match &ui.paint[0] {
        Paint::TextBox { x0, y0, x1, y1, text, xoff, yoff, mode, index } => {
            assert_eq!((*x0, *y0, *x1, *y1), (1, 2, 21, 2 + BUTTON_HEIGHT));
            assert_eq!(text, &vec!['G', 'o']);
            assert_eq!((*xoff, *yoff), (5, 2));
            assert_eq!(*mode, ColorMode::Toolbar);
            assert_eq!(*index, 0);
        },
        _ => panic!("not a text box"),
    }
}

#[test]
fn enabled_button_does_not_run_its_click_logic() {
    let mut ui = ui_at(5, 5, Event::LeftDown);
    ui.state.hot_id = 9;
    assert!(!ui.button(ColorMode::Toolbar, "Go", 0, 0, 0, 20, 9, false, false));
    assert_eq!(ui.state.active_id, 0);
    assert_eq!(ui.state.next_hot_id, 9);
    let mut ui = ui_at(5, 5, Event::LeftDown);
    ui.state.hot_id = 9;
    assert!(!ui.button(ColorMode::Toolbar, "Go", 0, 0, 0, 20, 9, false, true));
    assert_eq!(ui.state.active_id, 9);
    ui.state.event = Event::LeftUp;
    assert!(ui.button(ColorMode::Toolbar, "Go", 0, 0, 0, 20, 9, false, true));
}

#[test]
fn icon_and_layer_buttons_center_the_character() {
    let mut ui = ui_at(100, 100, Event::Paint);
    ui.button_icon(ColorMode::ToolbarButton, 'i', 0, 0, 13, 4, false, false);
    ui.layerbutton(0, 20, 'W', 5, false, true, ColorMode::LayerButton);
    ui.minibutton(ColorMode::Panel, 0, 40, 'A', 6);
    match &ui.paint[0] {
        Paint::TextBox { text, xoff, .. } => {
            assert_eq!(text, &vec!['i']);
            assert_eq!(*xoff, 2 + 2);
        },
        _ => panic!("not a text box"),
    }
    match &ui.paint[1] {
        Paint::TextBox { xoff, yoff, index, .. } => {
            assert_eq!((*xoff, *yoff), (2, 2));
            assert_eq!(*index, 6);
        },
        _ => panic!("not a text box"),
    }
    match &ui.paint[2] {
        Paint::TextBox { x1, y1, xoff, yoff, .. } => assert_eq!((*x1, *y1, *xoff, *yoff), (8, 47, 1, 0)),
        _ => panic!("not a text box"),
    }
}

#[test]
fn disabled_layerbutton_never_clicks() {
    let mut ui = ui_at(5, 5, Event::LeftDown);
    ui.state.hot_id = 5;
    assert_eq!(ui.layerbutton(0, 0, 'A', 5, false, true, ColorMode::LayerButton), Some(false));
    assert_eq!(ui.state.active_id, 0);
    assert_eq!(ui.state.next_hot_id, 0);
}

#[test]
fn microbutton_and_category_button() {
    let mut ui = ui_at(1, 1, Event::Paint);
    ui.microbutton(0, 0, 4, 3, ColorMode::Scrollbar);
    match &ui.paint[0] {
        Paint::Box { x1, y1, mode, index, .. } => {
            assert_eq!((*x1, *y1), (4, 4));
            assert_eq!(*mode, ColorMode::Scrollbar);
            assert_eq!(*index, 0);
        },
        _ => panic!("not a box"),
    }
    let mut ui = ui_at(1, 1, Event::LeftUp);
    ui.state.hot_id = 3;
    ui.state.active_id = 3;
    assert!(ui.category_button("walls", 0, 0, 30, 3, true));
    assert_eq!(ui.state.active_id, 0);
}

#[test]
fn dragger_follows_the_pointer() {
    let mut ui = ui_at(10, 3, Event::LeftDown);
    ui.state.hot_id = 4;
    let mut pos: isize = 7;
    assert_eq!(ui.microbutton_dragger(5, 0, 8, 4, &mut pos), Some(false));
    assert_eq!(ui.state.active_id, 4);
    assert_eq!(ui.state.sx, 3);
    ui.state.event = Event::MouseMove;
    ui.state.mx = 25;
    ui.microbutton_dragger(5, 0, 8, 4, &mut pos);
    assert_eq!(pos, 22);
    ui.state.mx = -4;
    assert_eq!(ui.microbutton_dragger(5, 0, 8, 4, &mut pos), Some(false));
    assert_eq!(pos, 7 + (-4 - 10));
    assert_eq!(ui.state.sx, 3);
    ui.state.mx = 25;
    ui.microbutton_dragger(5, 0, 8, 4, &mut pos);
    assert_eq!(pos, 22);
    ui.state.event = Event::LeftUp;
    ui.microbutton_dragger(5, 0, 8, 4, &mut pos);
    assert_eq!(ui.state.active_id, 0);
    assert_eq!(pos, 22);
}

#[test]
fn slider_drag() {
    let mut ui = ui_at(30, 10, Event::LeftDown);
    ui.state.hot_id = 2;
    let mut value: isize = 0;
    assert_eq!(ui.slider(10, 50, 10, 9, &mut value, 2), Some(Change::Begin));
    assert_eq!(value, 4);
    ui.state.event = Event::MouseMove;
    ui.state.mx = 200;
    assert_eq!(ui.slider(10, 50, 10, 9, &mut value, 2), Some(Change::Change));
    assert_eq!(value, 9);
    ui.state.mx = 0;
    assert_eq!(ui.slider(10, 50, 10, 9, &mut value, 2), Some(Change::Change));
    assert_eq!(value, 0);
    ui.state.event = Event::LeftUp;
    assert_eq!(ui.slider(10, 50, 10, 9, &mut value, 2), Some(Change::End));
    assert_eq!(ui.state.active_id, 0);
    assert_eq!(ui.slider(10, 50, 10, 9, &mut value, 2), None);
}

#[test]
fn slider_paint() {
    let mut ui = ui_at(0, 0, Event::Paint);
    let mut value: isize = 5;
    assert_eq!(ui.slider(10, 50, 10, 9, &mut value, 2), None);
    assert_eq!(ui.paint.len(), 2);
    match &ui.paint[1] {
        Paint::Rect(r) => assert_eq!(*r, ColorRect { x0: 34, y0: 9, x1: 37, y1: 12, color: 0xffffff }),
        _ => panic!("not a rectangle"),
    }
}

#[test]
fn delayed_frames_are_capped() {
    let mut ui = Ui::new();
    for i in 0..300 {
        ui.draw_frame_delayed(i, 0, i + 1, 1, 5);
    }
    assert_eq!(ui.delayrect.len(), 256);
    assert_eq!(ui.delayrect[255].x0, 255);
}

#[test]
fn selection_and_map_activation() {
    let mut ui = Ui::new();
    assert!(!ui.is_single_selection());
    ui.state.has_selection = true;
    ui.state.select_x0 = 3;
    ui.state.select_x1 = 3;
    ui.state.select_y0 = 4;
    ui.state.select_y1 = 4;
    assert!(ui.is_single_selection());
    ui.state.select_y1 = 5;
    assert!(!ui.is_single_selection());
    ui.state.event = Event::LeftDown;
    ui.activate_map(6, 2);
    assert_eq!(ui.state.active_id, idmap(6, 2));
    assert_eq!((ui.state.sx, ui.state.sy), (6, 2));
    assert_eq!(ui.state.active_event, Event::LeftDown);
}

#[test]
fn ui_state_hover() {
    let mut s = UiState::new();
    let a = Id { value: 1 };
    let b = Id { value: 2 };
    assert_eq!(s.onhover(a, true), Hover::Enter);
    assert_eq!(s.active_widget(), Some(a));
    assert_eq!(s.onhover(b, true), Hover::Unchanged);
    assert_eq!(s.onhover(a, false), Hover::Leave);
    assert_eq!(s.active_widget(), None);
    *s.active_widget_mut() = Some(b);
    assert_eq!(s.active_widget, Some(b));
}

#[test]
fn ui_state_click() {
    let mut s = UiState::new();
    let a = Id { value: 1 };
    assert!(!s.onclick(a, true, true, false));
    assert_eq!(s.active_widget, Some(a));
    assert!(s.onclick(a, true, false, true));
    assert_eq!(s.active_widget, None);
    assert!(!s.onclick(a, true, true, false));
    assert!(!s.onclick(a, false, false, true));
    assert_eq!(s.active_widget, None);
}

#[test]
fn slider_press_tracking() {
    let mut s = UiState::new();
    let a = Id { value: 1 };
    assert_eq!(s.slider_press(a, true, true, false), (Look::Hovered, false));
    assert_eq!(s.slider_press(a, false, false, false), (Look::Pressed, true));
    assert_eq!(s.slider_press(a, false, false, true), (Look::Pressed, true));
    assert_eq!(s.active_widget, None);
    assert_eq!(s.slider_press(a, false, false, false), (Look::Normal, false));
}

#[test]
fn checkbox_toggles_on_release() {
    let cb = Checkbox { normal_bg: 0u8, hovered_bg: 1u8, pressed_bg: 2u8, checked: 3u8, unchecked: 4u8 };
    let mut s = UiState::new();
    let mut checked = false;
    let a = Id { value: 5 };
    assert_eq!(cb.behavior(a, &mut s, &mut checked, true, true, false), (false, Look::Hovered, false));
    assert_eq!(s.active_widget, Some(a));
    assert_eq!(cb.behavior(a, &mut s, &mut checked, true, false, true), (true, Look::Pressed, true));
    assert!(checked);
    assert_eq!(s.active_widget, None);
    assert_eq!(cb.behavior(a, &mut s, &mut checked, false, false, false), (false, Look::Normal, true));
}

#[test]
fn toggle_flips_on_click() {
    let t = Toggle { checked: "on", unchecked: "off" };
    assert_eq!(*t.button(true), "on");
    assert_eq!(*t.button(false), "off");
    let mut c = false;
    assert!(t.apply(true, &mut c));
    assert!(c);
    assert!(!t.apply(false, &mut c));
    assert!(c);
}

#[test]
fn immediate_click() {
    let mut s = ImState::new();
    s.mouse = (true, Point16 { x: 3, y: 3 });
    s.prepare();
    let r = Rect16 { min: Point16 { x: 0, y: 0 }, max: Point16 { x: 10, y: 10 } };
    s.lay(r);
    assert_eq!(s.widget(5, true), r);
    assert!(s.is_hot());
    assert!(s.is_active());
    assert!(!s.is_click());
    assert!(!s.finish());
    s.prepare();
    s.mouse = (false, Point16 { x: 3, y: 3 });
    s.widget(5, true);
    assert!(s.is_click());
    assert!(s.finish());
    assert_eq!(s.active, 0);
}

#[test]
fn immediate_press_over_nothing() {
    let mut s = ImState::new();
    s.mouse = (true, Point16 { x: 3, y: 3 });
    s.widget(5, false);
    assert!(s.finish());
    assert_eq!(s.active, 0xFFFFFF);
    s.prepare();
    s.widget(5, true);
    assert_eq!(s.hot, 5);
    assert_eq!(s.active, 0xFFFFFF);
}

fn flow() -> FlowData {
    FlowData { along_weight: 0, expand_along: false, shrink_along: false, expand_across: false, shrink_across: false }
}

fn button() -> Button {
    Button {
        rect: Rect { min: Point { x: 0, y: 0 }, max: Point { x: 60, y: 20 } },
        measured: Point { x: 0, y: 0 },
        fg: (1, 2),
        bg: (3, 4),
        border: Some((5, 6)),
        label: "ok".to_string(),
        pressed: false,
        flow: flow(),
    }
}

#[test]
fn check_set_reports_changes() {
    let mut b = false;
    assert!(b.check_set(true));
    assert!(!b.check_set(true));
    assert!(b.check_set(false));
}

#[test]
fn push_button_clicks() {
    let mut b = button();
    b.measure();
    assert_eq!(b.measured, Point { x: 60, y: 20 });
    assert_eq!(b.colors(), (1, 3, Some(5)));
    assert_eq!(b.event(true, true, false), (false, false, true));
    assert!(b.pressed);
    assert_eq!(b.colors(), (2, 4, Some(6)));
    assert_eq!(b.event(true, true, false), (false, false, false));
    assert_eq!(b.event(true, false, true), (true, true, true));
    assert!(!b.pressed);
    b.event(true, true, false);
    assert_eq!(b.event(false, true, false), (false, false, true));
    assert!(!b.pressed);
}

#[test]
fn root_focus_and_pointer() {
    let mut root = Root {
        focus: 0,
        rect: Rect { min: Point { x: 0, y: 0 }, max: Point { x: 100, y: 100 } },
        redraw: false,
        mouse_pos: Point { x: 0, y: 0 },
        mouse_left: false,
        bg: 0,
    };
    assert_eq!(root.pointer(Mouse::Press(Point { x: 4, y: 5 })), (Point { x: 4, y: 5 }, true));
    assert_eq!(root.pointer(Mouse::Move(Point { x: 6, y: 5 })), (Point { x: 6, y: 5 }, true));
    assert_eq!(root.pointer(Mouse::Release(Point { x: 7, y: 5 })), (Point { x: 7, y: 5 }, false));
    root.claim(0, true);
    assert!(!root.redraw);
    root.claim(2, false);
    assert_eq!(root.focus, 0);
    root.claim(2, true);
    assert_eq!(root.focus, 2);
    assert!(root.is_focused(2));
    assert!(root.take_redraw());
    assert!(!root.take_redraw());
}

#[test]
fn docking_splits_the_container() {
    let mut c = Container { split: Split::Empty };
    dock(&mut c, Slot::Left, Container { split: Split::Tabs(1, Vec::new()) });
    match &c.split {
        Split::V(a, b) => {
            assert!(matches!(a.split, Split::Empty));
            assert!(matches!(b.split, Split::Tabs(1, _)));
        },
        _ => panic!("not split side by side"),
    }
    dock(&mut c, Slot::Top, Container { split: Split::Empty });
    match &c.split {
        Split::H(a, b) => {
            assert!(matches!(a.split, Split::Empty));
            assert!(matches!(b.split, Split::V(_, _)));
        },
        _ => panic!("not split one above the other"),
    }
    dock(&mut c, Slot::Tab, Container { split: Split::Empty });
    assert!(matches!(c.split, Split::H(_, _)));
}

#[test]
fn menu_outcomes() {
    let menu = Id { value: 9 };
    let hits = vec![
        MenuHit { item: Some(1u8), hovering: false },
        MenuHit { item: None, hovering: false },
        MenuHit { item: Some(2u8), hovering: true },
    ];
    let mut s = UiState::new();
    assert_eq!(s.menu_outcome(menu, &hits, true, false), MenuEvent::Clicked(2));
    assert_eq!(s.active_widget, None);
    assert_eq!(s.menu_outcome(menu, &hits, false, false), MenuEvent::Nothing);
    assert_eq!(s.active_widget, Some(menu));
    let away = vec![MenuHit { item: Some(1u8), hovering: false }];
    assert_eq!(s.menu_outcome(menu, &away, true, true), MenuEvent::Nothing);
    assert_eq!(s.menu_outcome(menu, &away, true, false), MenuEvent::Exit);
    assert_eq!(s.active_widget, None);
}

#[test]
fn keys_to_commands() {
    assert_eq!(convert_key(KeyCode::Plus, false), Key::ZoomIn);
    assert_eq!(convert_key(KeyCode::KpMinus, true), Key::ZoomOut);
    assert_eq!(convert_key(KeyCode::Tab, false), Key::NextWidget);
    assert_eq!(convert_key(KeyCode::Tab, true), Key::PrevWidget);
    assert_eq!(convert_key(KeyCode::Escape, false), Key::Cancel);
    assert_eq!(convert_key(KeyCode::RCtrl, false), Key::Ctrl);
    assert_eq!(convert_key(KeyCode::Code(97), true), Key::Other(KeyCode::Code(97)));
    let e = Event2::Btn(3, 4, Btn::Left, Dir::Press);
    assert!(matches!(e, Event2::Btn(3, 4, Btn::Left, Dir::Press)));
}
