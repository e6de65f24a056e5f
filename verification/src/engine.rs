//! The layer engine of `keyberon`, as this library sees it: a state that is
//! made from layers, takes key events and ticks, and gives a report.

use keyberon::action::Action as Raw;
use keyberon::key_code::{KbHidReport, KeyCode};
use keyberon::layout::Layout;
use vstd::prelude::*;
use crate::layout::{grid_of, Action, Layer};
use crate::{Event, COLS};

verus! {

/// The key codes of `keyberon`. Which code a value is cannot be seen here.
#[verifier::external_type_specification]
#[verifier::external_body]
pub struct ExKeyCode(KeyCode);

/// The report that goes to the host. Its bytes cannot be seen here.
#[verifier::external_type_specification]
#[verifier::external_body]
pub struct ExKbHidReport(KbHidReport);

/// The state of the layer engine of `keyberon`. Nothing inside it is visible
/// here.
#[verifier::external_type_specification]
#[verifier::external_body]
pub struct ExLayout(Layout);

/// The engine that `Layout::new` makes from `layers`.
pub uninterp spec fn engine_new(layers: Seq<Seq<Seq<Action>>>) -> Layout;

/// The engine that `Layout::event` leaves when `l` is given `e`.
pub uninterp spec fn engine_event(l: Layout, e: Event) -> Layout;

/// The engine that `Layout::tick` leaves when `l` is given one tick.
pub uninterp spec fn engine_tick(l: Layout) -> Layout;

/// The report collected from the key codes that `Layout::keycodes` yields
/// for `l`.
pub uninterp spec fn engine_report(l: Layout) -> KbHidReport;

/// Layers as grids of plain values.
pub open spec fn grids_of(layers: Seq<Layer>) -> Seq<Seq<Seq<Action>>> {
    Seq::new(layers.len(), |n: int| grid_of(layers[n]))
}

/// The engine after each of `events` in turn.
pub open spec fn engine_events(l: Layout, events: Seq<Event>) -> Layout
    decreases events.len(),
{
    if events.len() == 0 {
        l
    } else {
        engine_event(engine_events(l, events.drop_last()), events.last())
    }
}

/// Calls `Layout::new` of `keyberon` on a copy of `layers` that lives as long
/// as the program, each action turned into the action of `keyberon` of the
/// same name. The source stores the layers and starts with no key down; the
/// result depends on the layers alone.
#[verifier::external_body]
pub(crate) fn layout_new(layers: &[Layer]) -> (l: Layout)
    ensures
        l == engine_new(grids_of(layers@)),
{
    let cell = |a: &Action| match *a {
        Action::NoOp => Raw::NoOp,
        Action::Trans => Raw::Trans,
        Action::KeyCode(kc) => Raw::KeyCode(kc),
        Action::MultipleKeyCodes(kcs) => Raw::MultipleKeyCodes(kcs),
        Action::Layer(n) => Raw::Layer(n.into()),
        Action::DefaultLayer(n) => Raw::DefaultLayer(n.into()),
    };
    let row = |r: &[Action; COLS]| &*r.iter().map(cell).collect::<Vec<_>>().leak();
    let layer = |l: &Layer| &*l.iter().map(row).collect::<Vec<_>>().leak();
    Layout::new(layers.iter().map(layer).collect::<Vec<_>>().leak())
}

/// Calls `Layout::event` of `keyberon` and lets go of the key codes it
/// yields. What the engine is afterwards depends on what it was and on the
/// event alone. The source asserts that no key waits between hold and tap,
/// which only its `HoldTap` action can bring about, and `Action` has none.
#[verifier::external_body]
pub(crate) fn layout_event(l: &mut Layout, e: Event)
    ensures
        *final(l) == engine_event(*old(l), e),
{
    let _ = l.event(match e {
        Event::Press(i, j) => keyberon::layout::Event::Press(i, j),
        Event::Release(i, j) => keyberon::layout::Event::Release(i, j),
    });
}

/// Calls `Layout::tick` of `keyberon` and lets go of the key codes it yields.
/// What the engine is afterwards depends on what it was alone. The source
/// adds up the numbers of the layer keys that are held, at most 64 of them,
/// each a `u8` here.
#[verifier::external_body]
pub(crate) fn layout_tick(l: &mut Layout)
    ensures
        *final(l) == engine_tick(*old(l)),
{
    let _ = l.tick();
}

/// Calls `Layout::keycodes` of `keyberon` and collects the key codes into a
/// `KbHidReport`, as its `FromIterator` does. The report depends on the engine
/// alone.
#[verifier::external_body]
pub(crate) fn layout_report(l: &Layout) -> (r: KbHidReport)
    ensures
        r == engine_report(*l),
{
    l.keycodes().collect()
}

} // verus!
