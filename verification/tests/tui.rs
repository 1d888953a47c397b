use ssync::tui::async_bridge::truncate_detail;
use ssync::tui::components::viewport::Viewport;
use ssync::tui::focus::{
    escape_to_parent, ArrowResult, AxisFreedom, Direction, EscapeOutcome, FocusPath, FocusZone,
    Focusable,
};
use ssync::tui::tabs::TabId;

#[test]
fn invariant_holds_after_moves() {
    let mut v = Viewport::new();
    v.set_dims(100, 10);
    for _ in 0..50 {
        v.move_down();
    }
    assert!(v.scroll_y <= v.selected);
    assert!(v.selected < v.scroll_y + v.visible_height);
    assert_eq!(v.selected, 50);
}

#[test]
fn page_down_advances_selection() {
    let mut v = Viewport::new();
    v.set_dims(100, 10);
    v.page_down();
    assert_eq!(v.selected, 10);
    v.end();
    assert_eq!(v.selected, 99);
}

#[test]
fn empty_list_is_safe() {
    let mut v = Viewport::new();
    v.set_dims(0, 10);
    v.move_down();
    v.move_up();
    v.page_down();
    v.end();
    assert_eq!(v.visible_range(), (0, 0));
}

#[test]
fn dimensions_of_any_size_are_taken() {
    let mut v = Viewport { selected: 9, scroll_y: 50, visible_height: 3, item_count: 1 };
    v.set_dims(usize::MAX, usize::MAX);
    assert_eq!((v.selected, v.scroll_y), (9, 0));
    v.end();
    assert_eq!((v.selected, v.scroll_y), (usize::MAX - 1, 0));
    v.set_dims(100, 10);
    assert_eq!((v.selected, v.scroll_y), (99, 90));
    v.set_dims(20, 0);
    assert_eq!((v.selected, v.scroll_y), (19, 19));
    v.set_dims(0, 5);
    assert_eq!((v.selected, v.scroll_y), (0, 0));
}

#[test]
fn tabs_are_listed_from_left_to_right() {
    assert!(TabId::ALL == [TabId::Config, TabId::Operate, TabId::Checkout]);
    let labels: Vec<&str> = TabId::ALL.iter().map(|t| t.label()).collect();
    assert_eq!(labels, vec!["1:Config", "2:Operate", "3:Checkout"]);
}

struct ListAdapter<'a>(&'a mut Viewport);

impl Focusable for ListAdapter<'_> {
    fn ready(&self) -> bool {
        unreachable!()
    }
    fn freedom(&self) -> AxisFreedom {
        unreachable!()
    }
    fn edge(&self, _dir: Direction) -> bool {
        unreachable!()
    }
    fn moved(&self, _dir: Direction) -> Self {
        unreachable!()
    }
    fn axis_freedom(&self) -> AxisFreedom {
        AxisFreedom::Y
    }
    fn at_boundary(&self, dir: Direction) -> bool {
        match dir {
            Direction::Up => self.0.at_top(),
            Direction::Down => self.0.at_bottom(),
            _ => true,
        }
    }
    fn move_within(&mut self, dir: Direction) {
        match dir {
            Direction::Up => self.0.move_up(),
            Direction::Down => self.0.move_down(),
            _ => {}
        }
    }
}

#[test]
fn y_only_horizontal_arrow_escapes_immediately() {
    let mut vp = Viewport::new();
    vp.set_dims(10, 5);
    let mut a = ListAdapter(&mut vp);
    assert_eq!(a.handle_arrow(Direction::Left), ArrowResult::Escaped(Direction::Left));
    assert_eq!(a.handle_arrow(Direction::Right), ArrowResult::Escaped(Direction::Right));
}

#[test]
fn y_only_at_boundary_escapes() {
    let mut vp = Viewport::new();
    vp.set_dims(3, 5);
    let mut a = ListAdapter(&mut vp);
    assert_eq!(a.handle_arrow(Direction::Up), ArrowResult::Escaped(Direction::Up));
}

#[test]
fn y_only_in_middle_consumes() {
    let mut vp = Viewport::new();
    vp.set_dims(10, 5);
    vp.move_down();
    vp.move_down();
    let mut a = ListAdapter(&mut vp);
    assert_eq!(a.handle_arrow(Direction::Up), ArrowResult::Consumed);
    assert_eq!(a.handle_arrow(Direction::Down), ArrowResult::Consumed);
}

#[test]
fn empty_list_is_at_both_boundaries() {
    let mut vp = Viewport::new();
    vp.set_dims(0, 5);
    let mut a = ListAdapter(&mut vp);
    assert_eq!(a.handle_arrow(Direction::Up), ArrowResult::Escaped(Direction::Up));
    assert_eq!(a.handle_arrow(Direction::Down), ArrowResult::Escaped(Direction::Down));
}

struct RadioAdapter {
    index: usize,
    max: usize,
}

impl Focusable for RadioAdapter {
    fn ready(&self) -> bool {
        unreachable!()
    }
    fn freedom(&self) -> AxisFreedom {
        unreachable!()
    }
    fn edge(&self, _dir: Direction) -> bool {
        unreachable!()
    }
    fn moved(&self, _dir: Direction) -> Self {
        unreachable!()
    }
    fn axis_freedom(&self) -> AxisFreedom {
        AxisFreedom::X
    }
    fn at_boundary(&self, dir: Direction) -> bool {
        match dir {
            Direction::Left => self.index == 0,
            Direction::Right => self.index + 1 >= self.max,
            _ => true,
        }
    }
    fn move_within(&mut self, dir: Direction) {
        match dir {
            Direction::Left if self.index > 0 => self.index -= 1,
            Direction::Right if self.index + 1 < self.max => self.index += 1,
            _ => {}
        }
    }
}

#[test]
fn x_only_radio_at_first_left_escapes() {
    let mut r = RadioAdapter { index: 0, max: 3 };
    assert_eq!(r.handle_arrow(Direction::Left), ArrowResult::Escaped(Direction::Left));
}

#[test]
fn x_only_radio_in_middle_consumes() {
    let mut r = RadioAdapter { index: 1, max: 3 };
    assert_eq!(r.handle_arrow(Direction::Left), ArrowResult::Consumed);
    assert_eq!(r.index, 0);
}

#[test]
fn x_only_vertical_arrow_escapes() {
    let mut r = RadioAdapter { index: 1, max: 3 };
    assert_eq!(r.handle_arrow(Direction::Up), ArrowResult::Escaped(Direction::Up));
}

#[test]
fn escape_to_parent_checkout_table() {
    assert_eq!(
        escape_to_parent(TabId::Checkout, FocusZone::CheckoutHostTable, Direction::Up),
        EscapeOutcome::SwitchZone(FocusZone::CheckoutControls),
    );
    assert_eq!(
        escape_to_parent(TabId::Checkout, FocusZone::CheckoutHostTable, Direction::Down),
        EscapeOutcome::Stop,
    );
    assert_eq!(
        escape_to_parent(TabId::Checkout, FocusZone::CheckoutHostTable, Direction::Left),
        EscapeOutcome::Stop,
    );
    assert_eq!(
        escape_to_parent(TabId::Checkout, FocusZone::CheckoutControls, Direction::Down),
        EscapeOutcome::SwitchZone(FocusZone::CheckoutHostTable),
    );
    assert_eq!(
        escape_to_parent(TabId::Checkout, FocusZone::CheckoutControls, Direction::Up),
        EscapeOutcome::Stop,
    );
}

#[test]
fn breadcrumb_updates_on_zone_change() {
    let mut fp = FocusPath::for_tab(TabId::Checkout);
    let initial = fp.breadcrumb.clone();
    fp.switch_zone(TabId::Checkout, FocusZone::CheckoutControls);
    assert_ne!(initial, fp.breadcrumb);
    assert_eq!(fp.breadcrumb.last().unwrap(), "Controls");
}

#[test]
fn truncate_detail_short_unchanged() {
    assert_eq!(truncate_detail("one line", 3), "one line");
}

#[test]
fn truncate_detail_three_lines_joined() {
    assert_eq!(truncate_detail("a\nb\nc", 3), "a ↵ b ↵ c");
}

#[test]
fn truncate_detail_overflow_appends_ellipsis() {
    let out = truncate_detail("a\nb\nc\nd\ne", 3);
    assert!(out.starts_with("a ↵ b ↵ c"));
    assert!(out.ends_with(" …"));
}
