//! The year/month/day switch of the photos page, and how it stays in step with
//! the stack of views that it drives.
//!
//! The active index is the single source of truth: 0 is the year view, 1 the
//! month view and 2 the day view.

use crate::keyboard::router::Propagation;
use crate::keyboard::Key;
use vstd::prelude::*;

verus! {

/// How far the stack is known to agree with the switch.
///
/// With `Synced` the stack shows that view, and hearing of it again means
/// nothing. With `SelfPending` the switch itself has just told the stack to show
/// that view, and the stack's answer is still to come.
#[derive(Debug, Clone, Copy, PartialEq, Eq, Structural)]
pub enum LastSync {
    Synced(u32),
    SelfPending(u32),
}

impl Default for LastSync {
    fn default() -> (sync: Self)
        ensures
            sync == LastSync::Synced(0),
    {
        LastSync::Synced(0)
    }
}

/// Half of a number, rounded towards zero.
pub open spec fn half(number: int) -> int {
    if number >= 0 { number / 2 } else { -((-number) / 2) }
}

/// The shift that centres the indicator under a label: the centre of label `n`
/// is at `n + 1/2` cells.
pub open spec fn indicator_shift(active_index: int, cell_width: int, indicator_width: int) -> int {
    half((active_index * 2 + 1) * cell_width) - half(indicator_width)
}

/// The shift of the indicator in a row of three labels; an indicator is at least a
/// pixel wide.
pub open spec fn row_shift(active_index: int, row_width: int, indicator_width: int) -> int {
    indicator_shift(
        active_index,
        row_width / 3,
        if indicator_width > 1 {
            indicator_width
        } else {
            1
        },
    )
}

fn half_of(number: i64) -> (result: i64)
    requires
        number > i64::MIN,
    ensures
        result == half(number as int),
{
    if number >= 0 {
        number / 2
    } else {
        -((-number) / 2)
    }
}

/// The shift, in pixels, that centres the indicator under the label
/// `active_index`.
pub fn indicator_x_for(active_index: u32, cell_width: i32, indicator_width: i32) -> (x: i32)
    requires
        i32::MIN <= (active_index * 2 + 1) * cell_width <= i32::MAX,
        i32::MIN <= indicator_shift(
            active_index as int,
            cell_width as int,
            indicator_width as int,
        ) <= i32::MAX,
        active_index * 2 + 1 <= i32::MAX,
    ensures
        x == indicator_shift(active_index as int, cell_width as int, indicator_width as int),
{
    let steps: i64 = active_index as i64 * 2 + 1;
    let width: i64 = cell_width as i64;
    assert(steps * width == (active_index * 2 + 1) * cell_width);
    let center: i64 = half_of(steps * width);
    (center - half_of(indicator_width as i64)) as i32
}

/// The width of the row of labels: the one that it was given, or before that the
/// one that the labels ask for, or else the one that the indicator's row asks
/// for.
pub fn indicator_row_width(allocated: i32, labels: Option<i32>, natural: i32) -> (width: i32)
    ensures
        width == if allocated > 0 {
            allocated
        } else if labels is Some && labels->0 > 0 {
            labels->0
        } else {
            natural
        },
{
    if allocated > 0 {
        return allocated;
    }
    match labels {
        Some(width) => if width > 0 {
            width
        } else {
            natural
        },
        None => natural,
    }
}

/// The name of the stack page of a view.
pub open spec fn mode_name(index: u32) -> Seq<char> {
    if index == 0 {
        "year"@
    } else if index == 1 {
        "month"@
    } else if index == 2 {
        "day"@
    } else {
        "unknown"@
    }
}

/// The name of the stack page of a view.
pub fn mode_name_for_index(idx: u32) -> (name: &'static str)
    ensures
        name@ == mode_name(idx),
{
    match idx {
        0 => "year",
        1 => "month",
        2 => "day",
        _ => "unknown",
    }
}

/// The view with the stack page `name`.
pub open spec fn index_for_name(name: Seq<char>) -> Option<u32> {
    if name == "year"@ {
        Some(0)
    } else if name == "month"@ {
        Some(1)
    } else if name == "day"@ {
        Some(2)
    } else {
        None
    }
}

fn mode_index_for_name(name: &String) -> (index: Option<u32>)
    ensures
        index == index_for_name(name@),
{
    let year: String = "year".to_owned();
    let month: String = "month".to_owned();
    let day: String = "day".to_owned();
    if *name == year {
        Some(0)
    } else if *name == month {
        Some(1)
    } else if *name == day {
        Some(2)
    } else {
        None
    }
}

/// The switch. The stack is known by a number.
pub struct ModeSelector {
    pub active_index: u32,
    pub last_sync: LastSync,
    pub stack: Option<u64>,
    pub light_background: bool,
}

/// What setting the active view did.
#[derive(Clone, Copy, Debug, PartialEq, Eq, Structural)]
pub enum SetActive {
    /// There is no such view.
    OutOfRange,
    /// It was active already.
    AlreadyActive,
    /// The switch moved; there is no stack.
    SelectorOnly,
    /// The switch moved; the stack has to show the view.
    SetStackChild,
}

/// What binding a stack did.
#[derive(Clone, Copy, Debug, PartialEq, Eq, Structural)]
pub enum StackBinding {
    /// It was bound already.
    SameStack,
    /// It is bound now; the switch listens no longer to the stack given here.
    Bound(Option<u64>),
}

/// What hearing of the stack's visible page meant.
#[derive(Clone, Copy, Debug, PartialEq, Eq, Structural)]
pub enum StackNotify {
    /// The page is none of the views.
    UnsupportedChild,
    /// The stack did what the switch told it.
    SelfEcho,
    /// The stack shows something else than it was told last.
    StaleSelfPending,
    /// Nothing new.
    SyncedEcho,
    /// Someone else turned the stack, and the switch followed.
    ExternalChange,
}

impl ModeSelector {
    /// One of the three views is active, and the guard speaks of it.
    pub open spec fn wf(self) -> bool {
        &&& self.active_index <= 2
        &&& self.last_sync == LastSync::Synced(self.active_index) || self.last_sync
            == LastSync::SelfPending(self.active_index)
    }

    /// The switch with another view active, and nothing under way.
    pub open spec fn turned(self, index: u32) -> ModeSelector {
        ModeSelector { active_index: index, last_sync: LastSync::Synced(index), ..self }
    }

    /// A switch on the year view, without a stack.
    pub fn new() -> (selector: ModeSelector)
        ensures
            selector.wf(),
            selector.active_index == 0,
            selector.last_sync == LastSync::Synced(0),
            selector.stack is None,
            !selector.light_background,
    {
        ModeSelector {
            active_index: 0,
            last_sync: LastSync::Synced(0),
            stack: None,
            light_background: false,
        }
    }

    /// The active view.
    pub fn active_index(&self) -> (index: u32)
        ensures
            index == self.active_index,
    {
        self.active_index
    }

    /// How far the stack is known to agree.
    pub fn last_sync_state(&self) -> (sync: LastSync)
        ensures
            sync == self.last_sync,
    {
        self.last_sync
    }

    /// Whether the label of a view is the active one.
    pub fn is_label_active(&self, label: u32) -> (active: bool)
        ensures
            active == (label == self.active_index),
    {
        label == self.active_index
    }

    /// Say whether the switch lies over bright content, and so shows dark text.
    pub fn set_light_background(&mut self, is_light: bool)
        ensures
            *final(self) == (ModeSelector { light_background: is_light, ..*old(self) }),
    {
        self.light_background = is_light;
    }

    /// The shift of the indicator for a row of labels `row_width` wide; none
    /// while the row has no width.
    pub fn indicator_target_x(&self, row_width: i32, indicator_width: i32) -> (x: Option<i32>)
        requires
            self.wf(),
            5 * (row_width as int / 3) <= i32::MAX,
        ensures
            x is Some <==> row_width > 0,
            x matches Some(shift) ==> shift == indicator_shift(
                self.active_index as int,
                row_width as int / 3,
                if indicator_width > 1 {
                    indicator_width as int
                } else {
                    1
                },
            ),
            x matches Some(shift) ==> shift == row_shift(
                self.active_index as int,
                row_width as int,
                indicator_width as int,
            ),
    {
        if row_width <= 0 {
            return None;
        }
        let width: i32 = if indicator_width > 1 {
            indicator_width
        } else {
            1
        };
        let cell: i32 = row_width / 3;
        proof {
            let steps = self.active_index * 2 + 1;
            assert(0 <= steps * cell <= 5 * cell) by (nonlinear_arith)
                requires
                    1 <= steps <= 5,
                    cell >= 0,
            ;
        }
        Some(indicator_x_for(self.active_index, cell, width))
    }

    /// The switch after a view was made active: one that there is not, or that is
    /// active already, changes nothing.
    pub open spec fn activated(self, index: u32) -> ModeSelector {
        if index > 2 || index == self.active_index {
            self
        } else if self.stack is None {
            self.turned(index)
        } else {
            ModeSelector { last_sync: LastSync::SelfPending(index), ..self.turned(index) }
        }
    }

    /// Make a view active. With a stack, the stack has to be told, and its
    /// answer is awaited.
    pub fn set_active_index(&mut self, idx: u32) -> (outcome: SetActive)
        requires
            old(self).wf(),
        ensures
            final(self).wf(),
            outcome == if idx > 2 {
                SetActive::OutOfRange
            } else if idx == old(self).active_index {
                SetActive::AlreadyActive
            } else if old(self).stack is None {
                SetActive::SelectorOnly
            } else {
                SetActive::SetStackChild
            },
            *final(self) == match outcome {
                SetActive::SelectorOnly => old(self).turned(idx),
                SetActive::SetStackChild => ModeSelector {
                    last_sync: LastSync::SelfPending(idx),
                    ..old(self).turned(idx)
                },
                _ => *old(self),
            },
            *final(self) == old(self).activated(idx),
    {
        if idx > 2 {
            return SetActive::OutOfRange;
        }
        if self.active_index == idx {
            return SetActive::AlreadyActive;
        }
        self.active_index = idx;
        if self.stack.is_some() {
            self.last_sync = LastSync::SelfPending(idx);
            SetActive::SetStackChild
        } else {
            self.last_sync = LastSync::Synced(idx);
            SetActive::SelectorOnly
        }
    }

    /// Bind a stack that shows the page `visible_child`. The switch takes over
    /// its view, the year view where it shows none of the three.
    pub fn set_stack(&mut self, stack: u64, visible_child: &Option<String>) -> (binding:
        StackBinding)
        requires
            old(self).wf(),
        ensures
            final(self).wf(),
            binding == if old(self).stack == Some(stack) {
                StackBinding::SameStack
            } else {
                StackBinding::Bound(old(self).stack)
            },
            *final(self) == old(self).bound(stack, seed_index(visible_child)),
    {
        match self.stack {
            Some(existing) => {
                if existing == stack {
                    return StackBinding::SameStack;
                }
            },
            None => {},
        }
        let before: Option<u64> = self.stack;
        let seed: u32 = match visible_child {
            Some(name) => match mode_index_for_name(name) {
                Some(index) => index,
                None => 0,
            },
            None => 0,
        };
        self.active_index = seed;
        self.last_sync = LastSync::Synced(seed);
        self.stack = Some(stack);
        StackBinding::Bound(before)
    }

    /// Hear that the stack shows the page `visible_child`.
    pub fn stack_notify(&mut self, visible_child: &String) -> (outcome: StackNotify)
        requires
            old(self).wf(),
        ensures
            final(self).wf(),
            outcome == old(self).notify_outcome(visible_child@),
            *final(self) == old(self).heard(visible_child@),
    {
        match mode_index_for_name(visible_child) {
            None => StackNotify::UnsupportedChild,
            Some(index) => match self.last_sync {
                LastSync::SelfPending(pending) => {
                    if pending == index {
                        self.last_sync = LastSync::Synced(index);
                        StackNotify::SelfEcho
                    } else {
                        StackNotify::StaleSelfPending
                    }
                },
                LastSync::Synced(current) => {
                    if current == index {
                        StackNotify::SyncedEcho
                    } else {
                        self.active_index = index;
                        self.last_sync = LastSync::Synced(index);
                        StackNotify::ExternalChange
                    }
                },
            },
        }
    }

    /// Hear that `stack` shows the page `visible_child`. Only the bound stack is
    /// listened to; there is no outcome for any other.
    pub fn stack_changed(&mut self, stack: u64, visible_child: &String) -> (outcome: Option<
        StackNotify,
    >)
        requires
            old(self).wf(),
        ensures
            final(self).wf(),
            outcome == if old(self).stack == Some(stack) {
                Some(old(self).notify_outcome(visible_child@))
            } else {
                None
            },
            *final(self) == old(self).heard_from(stack, visible_child@),
    {
        match self.stack {
            Some(bound) => {
                if bound == stack {
                    Some(self.stack_notify(visible_child))
                } else {
                    None
                }
            },
            None => None,
        }
    }

    /// The switch bound to a stack, with the view that the stack shows. Binding
    /// the bound stack again changes nothing.
    pub open spec fn bound(self, stack: u64, index: u32) -> ModeSelector {
        if self.stack == Some(stack) {
            self
        } else {
            ModeSelector { stack: Some(stack), ..self.turned(index) }
        }
    }

    /// The switch after its stack showed the page `name`.
    pub open spec fn heard(self, name: Seq<char>) -> ModeSelector {
        match self.notify_outcome(name) {
            StackNotify::SelfEcho => self.turned(self.active_index),
            StackNotify::ExternalChange => self.turned(index_for_name(name)->0),
            _ => self,
        }
    }

    /// The switch after some stack showed the page `name`.
    pub open spec fn heard_from(self, stack: u64, name: Seq<char>) -> ModeSelector {
        if self.stack == Some(stack) {
            self.heard(name)
        } else {
            self
        }
    }

    /// The switch after stacks showed pages, one after the other.
    pub open spec fn heard_all(self, events: Seq<(u64, Seq<char>)>) -> ModeSelector
        decreases events.len(),
    {
        if events.len() == 0 {
            self
        } else {
            self.heard_all(events.drop_last()).heard_from(events.last().0, events.last().1)
        }
    }

    /// What hearing of the page `name` means.
    pub open spec fn notify_outcome(self, name: Seq<char>) -> StackNotify {
        match index_for_name(name) {
            None => StackNotify::UnsupportedChild,
            Some(index) => match self.last_sync {
                LastSync::SelfPending(pending) => if pending == index {
                    StackNotify::SelfEcho
                } else {
                    StackNotify::StaleSelfPending
                },
                LastSync::Synced(current) => if current == index {
                    StackNotify::SyncedEcho
                } else {
                    StackNotify::ExternalChange
                },
            },
        }
    }

    /// Answer a key press: the arrow keys go round the three views.
    pub fn key_pressed(&mut self, key: Key) -> (answer: (Propagation, SetActive))
        requires
            old(self).wf(),
        ensures
            final(self).wf(),
            answer == match arrow_target(key, old(self).active_index) {
                Some(_) => (
                    Propagation::Stop,
                    if old(self).stack is None {
                        SetActive::SelectorOnly
                    } else {
                        SetActive::SetStackChild
                    },
                ),
                None => (Propagation::Proceed, SetActive::AlreadyActive),
            },
            *final(self) == match arrow_target(key, old(self).active_index) {
                Some(index) => if old(self).stack is None {
                    old(self).turned(index)
                } else {
                    ModeSelector {
                        last_sync: LastSync::SelfPending(index),
                        ..old(self).turned(index)
                    }
                },
                None => *old(self),
            },
            *final(self) == match arrow_target(key, old(self).active_index) {
                Some(index) => old(self).activated(index),
                None => *old(self),
            },
    {
        let current: u32 = self.active_index;
        let next: u32 = match key {
            Key::Left | Key::KpLeft => (current + 2) % 3,
            Key::Right | Key::KpRight => (current + 1) % 3,
            _ => {
                return (Propagation::Proceed, SetActive::AlreadyActive);
            },
        };
        let outcome: SetActive = self.set_active_index(next);
        (Propagation::Stop, outcome)
    }
}

/// The view that a stack's page stands for when it is bound.
pub open spec fn seed_index(visible_child: &Option<String>) -> u32 {
    match visible_child {
        Some(name) => match index_for_name(name@) {
            Some(index) => index,
            None => 0,
        },
        None => 0,
    }
}

/// The view that an arrow key leads to.
pub open spec fn arrow_target(key: Key, current: u32) -> Option<u32> {
    match key {
        Key::Left | Key::KpLeft => Some(((current + 2) % 3) as u32),
        Key::Right | Key::KpRight => Some(((current + 1) % 3) as u32),
        _ => None,
    }
}

/// The page names tell the views apart, so that every view is found again by
/// the name of its page.
pub proof fn page_names_are_distinct(index: u32)
    requires
        index <= 2,
    ensures
        index_for_name(mode_name(index)) == Some(index),
{
    reveal_strlit("year");
    reveal_strlit("month");
    reveal_strlit("day");
    assert("year"@.len() == 4 && "month"@.len() == 5 && "day"@.len() == 3);
}

/// The stack's answer to the switch is taken for what it is: the view that was
/// set stays, and the switch waits for nothing more.
pub proof fn own_changes_are_not_taken_for_others(selector: ModeSelector, index: u32)
    requires
        selector.wf(),
        selector.last_sync == LastSync::SelfPending(index),
    ensures
        selector.notify_outcome(mode_name(index)) == StackNotify::SelfEcho,
        selector.turned(selector.active_index).active_index == index,
        selector.turned(selector.active_index).last_sync == LastSync::Synced(index),
{
    page_names_are_distinct(index);
}

/// A stack that someone else turns takes the switch along.
pub proof fn changes_of_others_are_followed(selector: ModeSelector, index: u32)
    requires
        selector.wf(),
        selector.last_sync is Synced,
        index <= 2,
        index != selector.active_index,
    ensures
        selector.notify_outcome(mode_name(index)) == StackNotify::ExternalChange,
        selector.turned(index).active_index == index,
{
    page_names_are_distinct(index);
}

/// What a stack did, without the others.
pub open spec fn only_from(events: Seq<(u64, Seq<char>)>, stack: u64) -> Seq<(u64, Seq<char>)>
    decreases events.len(),
{
    if events.len() == 0 {
        Seq::empty()
    } else if events.last().0 == stack {
        only_from(events.drop_last(), stack).push(events.last())
    } else {
        only_from(events.drop_last(), stack)
    }
}

/// A stack that was bound before no longer touches the switch: of all that
/// stacks do after another one was bound, only what that one does matters.
pub proof fn former_stacks_are_not_heard(
    selector: ModeSelector,
    stack: u64,
    index: u32,
    events: Seq<(u64, Seq<char>)>,
)
    requires
        selector.wf(),
        index <= 2,
    ensures
        ({
            let bound = selector.bound(stack, index);
            &&& bound.heard_all(events) == bound.heard_all(only_from(events, stack))
            &&& bound.heard_all(events).stack == Some(stack)
        }),
    decreases events.len(),
{
    if events.len() > 0 {
        let rest = events.drop_last();
        former_stacks_are_not_heard(selector, stack, index, rest);
        if events.last().0 == stack {
            let kept = only_from(rest, stack);
            assert(kept.push(events.last()).drop_last() =~= kept);
        }
    }
}

/// A newly bound stack is followed to every view.
pub proof fn bound_stacks_are_followed(
    selector: ModeSelector,
    stack: u64,
    index: u32,
    shown: u32,
)
    requires
        selector.wf(),
        selector.stack != Some(stack),
        index <= 2,
        shown <= 2,
    ensures
        selector.bound(stack, index).heard_from(stack, mode_name(shown)).active_index == shown,
{
    page_names_are_distinct(shown);
}

/// The arrow keys undo each other, and three steps lead back.
pub proof fn arrows_go_round(index: u32)
    requires
        index <= 2,
    ensures
        arrow_target(Key::Left, arrow_target(Key::Right, index)->0) == Some(index),
        arrow_target(
            Key::Right,
            arrow_target(Key::Right, arrow_target(Key::Right, index)->0)->0,
        ) == Some(index),
{
}

/// The arrow keys lead to the view beside the active one, from the last to the
/// first and from the first to the last. The keys of the number pad do the same,
/// and no other key leads anywhere.
pub proof fn arrows_lead_to_the_neighbours(index: u32)
    requires
        index <= 2,
    ensures
        arrow_target(Key::Right, index) == Some(if index == 2 { 0u32 } else { (index + 1) as u32 }),
        arrow_target(Key::Left, index) == Some(if index == 0 { 2u32 } else { (index - 1) as u32 }),
        arrow_target(Key::KpRight, index) == arrow_target(Key::Right, index),
        arrow_target(Key::KpLeft, index) == arrow_target(Key::Left, index),
        forall|key: Key|
            (#[trigger] arrow_target(key, index)) is Some <==> key == Key::Left || key
                == Key::KpLeft || key == Key::Right || key == Key::KpRight,
{
}

/// The indicator stands under the middle of its label: what is left of the
/// label's place on its two sides differs by no more than a pixel.
pub proof fn the_indicator_is_centred(index: int, cell_width: int, indicator_width: int)
    requires
        index >= 0,
        cell_width >= 0,
        indicator_width >= 0,
    ensures
        ({
            let left = indicator_shift(index, cell_width, indicator_width) - index * cell_width;
            let right = cell_width - left - indicator_width;
            -1 <= right - left <= 1
        }),
{
    assert((index * 2 + 1) * cell_width == 2 * (index * cell_width) + cell_width
        && (index * 2 + 1) * cell_width >= 0) by (nonlinear_arith)
        requires
            index >= 0,
            cell_width >= 0,
    ;
}

/// A view that is set is active, whatever the stack shows until it has shown that
/// view, and the stack's answer settles it. A view that there is not changes
/// nothing.
pub proof fn views_that_are_set_stay(selector: ModeSelector, index: u32, other: Seq<char>)
    requires
        selector.wf(),
    ensures
        index > 2 ==> selector.activated(index) == selector,
        index <= 2 ==> {
            let set = selector.activated(index);
            &&& set.active_index == index
            &&& set.stack == selector.stack
            &&& set.light_background == selector.light_background
            &&& set.heard(mode_name(index)).active_index == index
            &&& set.heard(mode_name(index)).last_sync == LastSync::Synced(index)
                || selector.active_index == index
            &&& index != selector.active_index && set.stack is Some && other != mode_name(index)
                ==> set.heard(other) == set
        },
{
    if index <= 2 {
        page_names_are_distinct(index);
        if index_for_name(other) is Some {
            page_names_are_distinct(index_for_name(other)->0);
        }
    }
}

/// While the switch waits for nothing, it shows the view that its stack shows. A
/// page that is none of the views changes nothing.
pub proof fn the_stack_is_followed(selector: ModeSelector, name: Seq<char>)
    requires
        selector.wf(),
        selector.last_sync is Synced,
    ensures
        forall|index: u32|
            index <= 2 && name == #[trigger] mode_name(index) ==> selector.heard(name).active_index
                == index && selector.heard(name).last_sync == LastSync::Synced(index),
        (forall|index: u32| index <= 2 ==> name != #[trigger] mode_name(index))
            ==> selector.heard(name) == selector,
        selector.heard(name).stack == selector.stack,
        selector.heard(name).light_background == selector.light_background,
{
    page_names_are_distinct(0);
    page_names_are_distinct(1);
    page_names_are_distinct(2);
    assert forall|index: u32| index <= 2 && name == #[trigger] mode_name(index) implies selector.heard(
        name,
    ).active_index == index && selector.heard(name).last_sync == LastSync::Synced(index) by {
        page_names_are_distinct(index);
    }
}

/// A stack that is bound brings its view along: the one whose page it shows, and
/// the year view where it shows none.
pub proof fn bound_stacks_bring_their_view(
    selector: ModeSelector,
    stack: u64,
    visible: &Option<String>,
)
    requires
        selector.wf(),
        selector.stack != Some(stack),
    ensures
        forall|index: u32|
            index <= 2 && *visible is Some && (visible->0)@ == #[trigger] mode_name(index)
                ==> selector.bound(stack, seed_index(visible)).active_index == index,
        *visible is None || (forall|index: u32|
            index <= 2 ==> (visible->0)@ != #[trigger] mode_name(index)) ==> selector.bound(
            stack,
            seed_index(visible),
        ).active_index == 0,
        selector.bound(stack, seed_index(visible)).last_sync is Synced,
        selector.bound(stack, seed_index(visible)).stack == Some(stack),
{
    page_names_are_distinct(0);
    page_names_are_distinct(1);
    page_names_are_distinct(2);
    assert forall|index: u32|
        index <= 2 && *visible is Some && (visible->0)@ == #[trigger] mode_name(
            index,
        ) implies selector.bound(stack, seed_index(visible)).active_index == index by {
        page_names_are_distinct(index);
    }
}

/// In a row of three labels the indicator of the middle one stands in the middle
/// of the row, and those of the outer ones in the middle of the outer thirds, up to
/// the rounding to whole pixels.
pub proof fn the_indicator_stands_in_its_third(row_width: int, indicator_width: int)
    requires
        row_width > 0,
        indicator_width >= 1,
    ensures
        ({
            let middle = |index: int| 2 * row_shift(index, row_width, indicator_width)
                + indicator_width;
            &&& row_width - 6 <= 3 * middle(0) <= row_width + 3
            &&& row_width - 4 <= middle(1) <= row_width + 1
            &&& 5 * row_width - 16 <= 3 * middle(2) <= 5 * row_width + 3
        }),
{
    let cell = row_width / 3;
    assert((0 * 2 + 1) * cell == cell && (1 * 2 + 1) * cell == 3 * cell && (2 * 2 + 1) * cell == 5
        * cell);
}

} // verus!
