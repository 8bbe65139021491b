//! Where a mouse click or a wheel turn lands. While a frame is drawn, every clickable place
//! records its rectangle; a click then finds the place it hit. What was recorded later lies
//! on top.

use vstd::prelude::*;
use crate::editor::Mode;

verus! {

/// A rectangle of terminal cells.
#[derive(Debug, Clone, Copy, PartialEq, Eq, Structural)]
pub struct Rect {
    pub x: u16,
    pub y: u16,
    pub width: u16,
    pub height: u16,
}

impl Rect {
    pub open spec fn holds(self, x: int, y: int) -> bool {
        self.x <= x < self.x + self.width && self.y <= y < self.y + self.height
    }

    pub open spec fn empty_spec(self) -> bool {
        self.width == 0 || self.height == 0
    }

    /// No cell at all.
    pub fn is_empty(&self) -> (b: bool)
        ensures
            b == self.empty_spec(),
    {
        self.width == 0 || self.height == 0
    }

    /// The cell is inside.
    pub fn contains(&self, x: u16, y: u16) -> (b: bool)
        ensures
            b == self.holds(x as int, y as int),
    {
        let right: u32 = self.x as u32 + self.width as u32;
        let bottom: u32 = self.y as u32 + self.height as u32;
        self.x <= x && (x as u32) < right && self.y <= y && (y as u32) < bottom
    }
}

/// What a click can press.
#[derive(Debug, Clone, Copy, PartialEq, Eq, Structural)]
pub enum Target {
    /// The on/off button of the status frame.
    Toggle,
    /// A mode's tab in the top frame.
    Tab(Mode),
    /// The QR button, or the code itself: show or hide it.
    Qr,
    /// A section of the advanced mode (its index).
    Section(usize),
    /// A setting of the section (its index).
    Item(usize),
    /// A row of the devices section (its index).
    Device(usize),
}

/// What the wheel scrolls.
#[derive(Debug, Clone, Copy, PartialEq, Eq, Structural)]
pub enum Scroll {
    /// The device list of the simple mode.
    SimpleDevices,
    Sections,
    Items,
    Devices,
    /// The log or the readiness checks of the expert section.
    Output,
}

#[derive(Debug, Clone, Copy, PartialEq, Eq, Structural)]
pub enum Spot {
    Click(Target),
    Wheel(Scroll),
}

/// The clickable places of the last frame, in the order they were recorded.
pub struct Hits {
    pub spots: Vec<(Rect, Spot)>,
}

/// The target of the last click place in the first `n` that holds the cell.
pub open spec fn top_target(spots: Seq<(Rect, Spot)>, n: int, x: int, y: int) -> Option<Target>
    decreases n,
{
    if n <= 0 {
        None
    } else {
        match spots[n - 1] {
            (r, Spot::Click(t)) if r.holds(x, y) => Some(t),
            _ => top_target(spots, n - 1, x, y),
        }
    }
}

/// The scroll of the last wheel place in the first `n` that holds the cell.
pub open spec fn top_scroll(spots: Seq<(Rect, Spot)>, n: int, x: int, y: int) -> Option<Scroll>
    decreases n,
{
    if n <= 0 {
        None
    } else {
        match spots[n - 1] {
            (r, Spot::Wheel(s)) if r.holds(x, y) => Some(s),
            _ => top_scroll(spots, n - 1, x, y),
        }
    }
}

impl Hits {
    pub fn new() -> (h: Hits)
        ensures
            h.spots@ == Seq::<(Rect, Spot)>::empty(),
    {
        Hits { spots: Vec::new() }
    }

    /// Forgets the places (a new frame is drawn).
    pub fn clear(&mut self)
        ensures
            final(self).spots@ == Seq::<(Rect, Spot)>::empty(),
    {
        self.spots.clear();
    }

    /// Records a place to click; an empty rectangle is not recorded.
    pub fn click(&mut self, area: Rect, target: Target)
        ensures
            area.empty_spec() ==> final(self).spots@ == old(self).spots@,
            !area.empty_spec() ==> final(self).spots@ == old(self).spots@.push(
                (area, Spot::Click(target)),
            ),
    {
        if !area.is_empty() {
            self.spots.push((area, Spot::Click(target)));
        }
    }

    /// Records a place to scroll; an empty rectangle is not recorded.
    pub fn wheel(&mut self, area: Rect, scroll: Scroll)
        ensures
            area.empty_spec() ==> final(self).spots@ == old(self).spots@,
            !area.empty_spec() ==> final(self).spots@ == old(self).spots@.push(
                (area, Spot::Wheel(scroll)),
            ),
    {
        if !area.is_empty() {
            self.spots.push((area, Spot::Wheel(scroll)));
        }
    }

    /// What a click on the cell presses: the topmost click place that holds it.
    pub fn target_at(&self, x: u16, y: u16) -> (r: Option<Target>)
        ensures
            r == top_target(self.spots@, self.spots@.len() as int, x as int, y as int),
    {
        let mut i: usize = self.spots.len();
        while i > 0
            invariant
                i <= self.spots@.len(),
                top_target(self.spots@, self.spots@.len() as int, x as int, y as int)
                    == top_target(self.spots@, i as int, x as int, y as int),
            decreases i,
        {
            let (r, s) = self.spots[i - 1];
            match s {
                Spot::Click(t) => {
                    if r.contains(x, y) {
                        return Some(t);
                    }
                },
                Spot::Wheel(_) => {},
            }
            i = i - 1;
        }
        None
    }

    /// What the wheel over the cell scrolls: the topmost wheel place that holds it.
    pub fn scroll_at(&self, x: u16, y: u16) -> (r: Option<Scroll>)
        ensures
            r == top_scroll(self.spots@, self.spots@.len() as int, x as int, y as int),
    {
        let mut i: usize = self.spots.len();
        while i > 0
            invariant
                i <= self.spots@.len(),
                top_scroll(self.spots@, self.spots@.len() as int, x as int, y as int)
                    == top_scroll(self.spots@, i as int, x as int, y as int),
            decreases i,
        {
            let (r, s) = self.spots[i - 1];
            match s {
                Spot::Wheel(w) => {
                    if r.contains(x, y) {
                        return Some(w);
                    }
                },
                Spot::Click(_) => {},
            }
            i = i - 1;
        }
        None
    }
}

/// A place recorded last lies on top: a click inside it presses it, whatever was recorded
/// before.
pub proof fn lemma_last_on_top(spots: Seq<(Rect, Spot)>, area: Rect, target: Target, x: int, y: int)
    requires
        area.holds(x, y),
    ensures
        ({
            let after = spots.push((area, Spot::Click(target)));
            top_target(after, after.len() as int, x, y) == Some(target)
        }),
{
}

/// Recording a wheel place does not change what a click presses.
pub proof fn lemma_wheel_keeps_clicks(spots: Seq<(Rect, Spot)>, area: Rect, scroll: Scroll, x: int, y: int)
    ensures
        ({
            let after = spots.push((area, Spot::Wheel(scroll)));
            top_target(after, after.len() as int, x, y) == top_target(spots, spots.len() as int, x, y)
        }),
{
    let after = spots.push((area, Spot::Wheel(scroll)));
    lemma_top_target_prefix(spots, after, spots.len() as int, x, y);
}

proof fn lemma_top_target_prefix(a: Seq<(Rect, Spot)>, b: Seq<(Rect, Spot)>, k: int, x: int, y: int)
    requires
        0 <= k <= a.len(),
        k <= b.len(),
        forall|i: int| 0 <= i < k ==> a[i] == b[i],
    ensures
        top_target(a, k, x, y) == top_target(b, k, x, y),
    decreases k,
{
    if k > 0 {
        lemma_top_target_prefix(a, b, k - 1, x, y);
    }
}

/// One turn of the wheel moves a selection by one, without jumping from the end of the list
/// to its start (or back).
pub open spec fn wheel_step_spec(cur: int, n: int, down: bool) -> int {
    if down {
        if cur + 1 < n - 1 { cur + 1 } else if n > 0 { n - 1 } else { 0 }
    } else {
        if cur > 0 { cur - 1 } else { 0 }
    }
}

pub fn wheel_step(cur: usize, n: usize, down: bool) -> (r: usize)
    requires
        down ==> cur < usize::MAX,
    ensures
        r == wheel_step_spec(cur as int, n as int, down),
{
    if down {
        let last = if n > 0 { n - 1 } else { 0 };
        if cur + 1 < last { cur + 1 } else { last }
    } else {
        if cur > 0 { cur - 1 } else { 0 }
    }
}

} // verus!
