//! Where the focus is, and what arrow keys do to it.

use vstd::prelude::*;

use crate::text::{copy, texts, texts_push};
use crate::tui::tabs::TabId;

verus! {

broadcast use texts_push;

/// The direction of an arrow key.
#[derive(Debug, Clone, Copy, PartialEq, Eq, Structural)]
pub enum Direction {
    Up,
    Down,
    Left,
    Right,
}

/// Horizontal or vertical.
#[derive(Debug, Clone, Copy, PartialEq, Eq, Structural)]
pub enum Axis {
    X,
    Y,
}

impl Direction {
    /// The axis of the direction.
    pub open spec fn spec_axis(self) -> Axis {
        match self {
            Direction::Up => Axis::Y,
            Direction::Down => Axis::Y,
            Direction::Left => Axis::X,
            Direction::Right => Axis::X,
        }
    }

    /// The axis of the direction.
    pub fn axis(self) -> (r: Axis)
        ensures
            r == self.spec_axis(),
    {
        match self {
            Direction::Up | Direction::Down => Axis::Y,
            Direction::Left | Direction::Right => Axis::X,
        }
    }
}

/// Along which axes an element moves inside itself.
#[derive(Debug, Clone, Copy, PartialEq, Eq, Structural)]
pub enum AxisFreedom {
    Fixed,
    Y,
    X,
    XY,
}

impl AxisFreedom {
    /// Whether the element has room along the axis.
    pub open spec fn allows(self, axis: Axis) -> bool {
        match self {
            AxisFreedom::Fixed => false,
            AxisFreedom::Y => axis == Axis::Y,
            AxisFreedom::X => axis == Axis::X,
            AxisFreedom::XY => true,
        }
    }

    /// Whether the element takes an arrow key itself, unless it is at its edge.
    pub fn absorbs(self, dir: Direction) -> (r: bool)
        ensures
            r == self.allows(dir.spec_axis()),
    {
        match self {
            AxisFreedom::Fixed => false,
            AxisFreedom::Y => matches!(dir, Direction::Up | Direction::Down),
            AxisFreedom::X => matches!(dir, Direction::Left | Direction::Right),
            AxisFreedom::XY => true,
        }
    }
}

/// The parts of the tabs that can have the focus.
#[derive(Debug, Clone, Copy, PartialEq, Eq, Structural)]
pub enum FocusZone {
    CheckoutControls,
    CheckoutHostTable,
    OperatePlaceholder,
    ConfigPlaceholder,
}

impl FocusZone {
    /// The zone that has the focus when a tab is opened.
    pub open spec fn spec_for_tab(tab: TabId) -> FocusZone {
        match tab {
            TabId::Config => FocusZone::ConfigPlaceholder,
            TabId::Operate => FocusZone::OperatePlaceholder,
            TabId::Checkout => FocusZone::CheckoutHostTable,
        }
    }

    /// The name of the zone in the breadcrumb.
    pub open spec fn spec_label(self) -> Seq<char> {
        match self {
            FocusZone::CheckoutControls => "Controls"@,
            FocusZone::CheckoutHostTable => "Rows"@,
            FocusZone::OperatePlaceholder => "(placeholder)"@,
            FocusZone::ConfigPlaceholder => "(placeholder)"@,
        }
    }

    /// The zone that has the focus when a tab is opened.
    pub fn for_tab(tab: TabId) -> (r: FocusZone)
        ensures
            r == FocusZone::spec_for_tab(tab),
    {
        match tab {
            TabId::Config => FocusZone::ConfigPlaceholder,
            TabId::Operate => FocusZone::OperatePlaceholder,
            TabId::Checkout => FocusZone::CheckoutHostTable,
        }
    }

    /// The name of the zone in the breadcrumb.
    pub fn label(self) -> (r: &'static str)
        ensures
            r@ == self.spec_label(),
    {
        match self {
            FocusZone::CheckoutControls => "Controls",
            FocusZone::CheckoutHostTable => "Rows",
            FocusZone::OperatePlaceholder => "(placeholder)",
            FocusZone::ConfigPlaceholder => "(placeholder)",
        }
    }
}

/// Where an arrow key leads that leaves its element.
#[derive(Debug, Clone, Copy, PartialEq, Eq, Structural)]
pub enum EscapeOutcome {
    /// To another zone of the tab.
    SwitchZone(FocusZone),
    /// To another tab.
    SwitchTab(TabId),
    /// Nowhere.
    Stop,
}

/// Where an arrow key leads: on the Checkout tab down from the controls to the
/// table and up from the table to the controls, and nowhere else.
pub open spec fn escape_target(tab: TabId, from: FocusZone, dir: Direction) -> EscapeOutcome {
    if tab == TabId::Checkout && from == FocusZone::CheckoutControls && dir == Direction::Down {
        EscapeOutcome::SwitchZone(FocusZone::CheckoutHostTable)
    } else if tab == TabId::Checkout && from == FocusZone::CheckoutHostTable && dir
        == Direction::Up {
        EscapeOutcome::SwitchZone(FocusZone::CheckoutControls)
    } else {
        EscapeOutcome::Stop
    }
}

/// Where an arrow key leads that leaves the element in a zone.
pub fn escape_to_parent(tab: TabId, from: FocusZone, dir: Direction) -> (r: EscapeOutcome)
    ensures
        r == escape_target(tab, from, dir),
{
    match (tab, from, dir) {
        (TabId::Checkout, FocusZone::CheckoutControls, Direction::Down) => {
            EscapeOutcome::SwitchZone(FocusZone::CheckoutHostTable)
        },
        (TabId::Checkout, FocusZone::CheckoutHostTable, Direction::Up) => {
            EscapeOutcome::SwitchZone(FocusZone::CheckoutControls)
        },
        _ => EscapeOutcome::Stop,
    }
}

/// What became of an arrow key.
#[derive(Debug, Clone, Copy, PartialEq, Eq, Structural)]
pub enum ArrowResult {
    Consumed,
    Escaped(Direction),
}

/// An element that can have the focus. An arrow key moves inside the element
/// where it has room and is not at its edge; otherwise the key escapes and the
/// element stays as it is.
pub trait Focusable: Sized {
    /// Whether the element is in a valid state.
    spec fn ready(&self) -> bool;

    /// Along which axes the element moves inside itself.
    spec fn freedom(&self) -> AxisFreedom;

    /// Whether a further move would leave the element.
    spec fn edge(&self, dir: Direction) -> bool;

    /// The element after a move inside it.
    spec fn moved(&self, dir: Direction) -> Self;

    fn axis_freedom(&self) -> (r: AxisFreedom)
        ensures
            r == self.freedom(),
    ;

    fn at_boundary(&self, dir: Direction) -> (r: bool)
        requires
            self.ready(),
        ensures
            r == self.edge(dir),
    ;

    fn move_within(&mut self, dir: Direction)
        requires
            old(self).ready(),
        ensures
            final(self).ready(),
            *final(self) == old(self).moved(dir),
    ;

    fn handle_arrow(&mut self, dir: Direction) -> (r: ArrowResult)
        requires
            old(self).ready(),
        ensures
            final(self).ready(),
            r == (if old(self).freedom().allows(dir.spec_axis()) && !old(self).edge(dir) {
                ArrowResult::Consumed
            } else {
                ArrowResult::Escaped(dir)
            }),
            *final(self) == (if r == ArrowResult::Consumed {
                old(self).moved(dir)
            } else {
                *old(self)
            }),
    {
        let freedom = self.axis_freedom();
        if !freedom.absorbs(dir) {
            return ArrowResult::Escaped(dir);
        }
        if self.at_boundary(dir) {
            return ArrowResult::Escaped(dir);
        }
        self.move_within(dir);
        ArrowResult::Consumed
    }
}

impl Focusable for crate::tui::components::viewport::Viewport {
    open spec fn ready(&self) -> bool {
        self.wf()
    }

    open spec fn freedom(&self) -> AxisFreedom {
        AxisFreedom::Y
    }

    open spec fn edge(&self, dir: Direction) -> bool {
        match dir {
            Direction::Up => self.selected == 0,
            Direction::Down => self.item_count == 0 || self.selected + 1 == self.item_count,
            _ => true,
        }
    }

    open spec fn moved(&self, dir: Direction) -> Self {
        match dir {
            Direction::Up => self.moved_up(),
            Direction::Down => self.moved_down(),
            _ => *self,
        }
    }

    fn axis_freedom(&self) -> (r: AxisFreedom) {
        AxisFreedom::Y
    }

    fn at_boundary(&self, dir: Direction) -> (r: bool) {
        match dir {
            Direction::Up => self.at_top(),
            Direction::Down => self.at_bottom(),
            _ => true,
        }
    }

    fn move_within(&mut self, dir: Direction) {
        match dir {
            Direction::Up => self.move_up(),
            Direction::Down => self.move_down(),
            _ => {},
        }
    }
}

/// The zone with the focus, and the trail that leads to it.
#[derive(Debug)]
pub struct FocusPath {
    pub zone: FocusZone,
    pub breadcrumb: Vec<String>,
}

/// The trail that leads to a zone: the tab and the zone.
pub open spec fn trail(tab: TabId, zone: FocusZone) -> Seq<Seq<char>> {
    seq![tab.spec_label(), zone.spec_label()]
}

fn make_trail(tab: TabId, zone: FocusZone) -> (r: Vec<String>)
    ensures
        texts(r@) == trail(tab, zone),
{
    let mut out: Vec<String> = Vec::new();
    out.push(copy(tab.label()));
    out.push(copy(zone.label()));
    assert(texts(out@) =~= trail(tab, zone));
    out
}

impl FocusPath {
    /// The focus when a tab is opened.
    pub fn for_tab(tab: TabId) -> (r: FocusPath)
        ensures
            r.zone == FocusZone::spec_for_tab(tab),
            texts(r.breadcrumb@) == trail(tab, r.zone),
    {
        let zone = FocusZone::for_tab(tab);
        FocusPath { zone, breadcrumb: make_trail(tab, zone) }
    }

    /// Moves the focus to a zone.
    pub fn switch_zone(&mut self, tab: TabId, zone: FocusZone)
        ensures
            final(self).zone == zone,
            texts(final(self).breadcrumb@) == trail(tab, zone),
    {
        self.zone = zone;
        self.breadcrumb = make_trail(tab, zone);
    }
}

/// An arrow key across an element's axis always escapes, and whatever escapes
/// leaves the element as it is: the two zones of the Checkout tab lead to each
/// other and nowhere else.
pub proof fn checkout_zones_are_neighbours(from: FocusZone, to: FocusZone, dir: Direction)
    requires
        escape_target(TabId::Checkout, from, dir) == EscapeOutcome::SwitchZone(to),
    ensures
        from != to,
        exists|back: Direction|
            #[trigger] escape_target(TabId::Checkout, to, back) == EscapeOutcome::SwitchZone(from),
{
    if from == FocusZone::CheckoutControls {
        assert(escape_target(TabId::Checkout, to, Direction::Up) == EscapeOutcome::SwitchZone(
            from,
        ));
    } else {
        assert(escape_target(TabId::Checkout, to, Direction::Down) == EscapeOutcome::SwitchZone(
            from,
        ));
    }
}

/// An element takes the arrows along the axes that it is free on, and no others.
pub proof fn arrows_go_along_their_axis(f: AxisFreedom)
    ensures
        f.allows(Direction::Up.spec_axis()) <==> f == AxisFreedom::Y || f == AxisFreedom::XY,
        f.allows(Direction::Down.spec_axis()) <==> f == AxisFreedom::Y || f == AxisFreedom::XY,
        f.allows(Direction::Left.spec_axis()) <==> f == AxisFreedom::X || f == AxisFreedom::XY,
        f.allows(Direction::Right.spec_axis()) <==> f == AxisFreedom::X || f == AxisFreedom::XY,
{
}

} // verus!
