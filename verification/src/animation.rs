//! The animation's state and what one tick of it decides.
//!
//! A tick is one call per display refresh. It clears the surface, and
//! while the frame budget lasts it moves the hero, draws the progress bar
//! and the hero, and asks for the next frame. The host performs what the
//! tick hands back: it shows the heading and the surface, and calls
//! again at the next refresh where a next frame is named.

use vstd::prelude::*;

use crate::color::{rgba, Rgba};
use crate::draw::{progress_bar, rectangle_filled, PROGRESS_COLOR};
use crate::heading::{heading, heading_text, TOTAL_FRAMES};
use crate::primitives::{Dimensions2d, Point, RectArea};
use crate::web_init::{Raster, WebContext2d};

verus! {

/// The id of the canvas element on the page.
pub const CANVAS_HTML_ID: &'static str = "demo_screen";

/// The id of the heading element on the page.
pub const HEADING_HTML_ID: &'static str = "demo_heading";

/// The colour of the hero's body.
pub const HERO_BODY_COLOR: u32 = 0x00_77_00_ff;

/// The colour of the hero's cap.
pub const HERO_CAP_COLOR: u32 = 0xff_ff_ff_ff;

/// The height of the hero's cap, in pixels.
pub const HERO_CAP_HEIGHT: u32 = 10;

/// What has to survive between frames, apart from the surface.
pub struct ApplicationState {
    pub hero: RectArea,
}

/// Everything that survives between frames.
pub struct GlobalState {
    /// The animation's own data.
    pub app: ApplicationState,
    /// The surface, once it is bound.
    pub web_context2d: Option<WebContext2d>,
}

/// Where the hero swings to in one frame: its row, and its height.
///
/// Both come from the sine of the frame counter, which the caller takes:
/// with `s = sin(2π · frame / 60)`, the row is `250 + 50 · s` and the
/// height is the height before the frame plus `3 · s`, each cut down to
/// a whole number. The height therefore builds up from frame to frame.
#[derive(Clone, Copy, Debug, PartialEq, Eq, Structural)]
pub struct Oscillation {
    /// The row of the hero's top edge.
    pub y: u32,
    /// The hero's height.
    pub h: u32,
}

/// What a tick hands back for the host to perform.
pub struct FrameOutcome {
    /// The text to show in the heading.
    pub heading: String,
    /// The frame counter to call again with at the next display refresh,
    /// or nothing where the animation is over.
    pub next_frame: Option<u32>,
}

/// The hero as the animation starts.
pub open spec fn initial_hero() -> RectArea {
    RectArea { top_left: Point { x: 0, y: 340 }, dimensions: Dimensions2d { w: 16, h: 50 } }
}

/// The state as the animation starts: the hero in place, no surface yet.
pub open spec fn initial_state() -> GlobalState {
    GlobalState { app: ApplicationState { hero: initial_hero() }, web_context2d: None }
}

/// The hero's cap: the hero's rectangle with the cap's height in place
/// of its own.
pub open spec fn hero_cap(hero: RectArea) -> RectArea {
    RectArea {
        top_left: hero.top_left,
        dimensions: Dimensions2d { w: hero.dimensions.w, h: HERO_CAP_HEIGHT },
    }
}

/// The hero after a tick: one pixel further right, at the row and with
/// the height of the frame's swing; unmoved once the budget is used up.
pub open spec fn hero_after_tick(hero: RectArea, frame_count: nat, swing: Oscillation) -> RectArea {
    if frame_count > TOTAL_FRAMES {
        hero
    } else {
        RectArea {
            top_left: Point { x: (hero.top_left.x + 1) as u32, y: swing.y },
            dimensions: Dimensions2d { w: hero.dimensions.w, h: swing.h },
        }
    }
}

/// The surface after a tick that leaves the hero at `hero`: cleared, and
/// while the budget lasts, the progress bar, the hero's body and the
/// hero's cap drawn over it in that order.
pub open spec fn surface_after_tick(surface: Raster, hero: RectArea, frame_count: nat) -> Raster {
    if frame_count > TOTAL_FRAMES {
        surface.cleared()
    } else {
        surface.cleared().with_progress(frame_count).filled(hero, HERO_BODY_COLOR).filled(
            hero_cap(hero),
            HERO_CAP_COLOR,
        )
    }
}

/// The frame to ask for after a tick: the next one while the budget
/// lasts, none after that.
pub open spec fn frame_after_tick(frame_count: nat) -> Option<u32> {
    if frame_count > TOTAL_FRAMES {
        None
    } else {
        Some((frame_count + 1) as u32)
    }
}

/// What a frame shows at one pixel of the surface: the hero's cap where
/// the cap lies, else the hero's body where the hero lies, else the
/// progress bar on the first `frame_count` pixels of the buffer, else
/// nothing. Past the budget it shows nothing anywhere.
pub open spec fn frame_pixel(
    surface: Raster,
    hero: RectArea,
    frame_count: nat,
    x: int,
    y: int,
) -> Rgba {
    if frame_count > TOTAL_FRAMES {
        (0, 0, 0, 0)
    } else if hero_cap(hero).covers(x, y) {
        rgba(HERO_CAP_COLOR)
    } else if hero.covers(x, y) {
        rgba(HERO_BODY_COLOR)
    } else if y * surface.width + x < frame_count {
        rgba(PROGRESS_COLOR)
    } else {
        (0, 0, 0, 0)
    }
}

/// Every pixel of the surface after a tick is what the frame shows
/// there: nothing of the frame before is left.
pub proof fn lemma_frame_pixel(surface: Raster, hero: RectArea, frame_count: nat, x: int, y: int)
    requires
        surface.wf(),
        surface.contains(x, y),
    ensures
        surface_after_tick(surface, hero, frame_count).wf(),
        surface_after_tick(surface, hero, frame_count).pixel(x, y) == frame_pixel(
            surface,
            hero,
            frame_count,
            x,
            y,
        ),
{
    let clear = surface.cleared();
    clear.lemma_pixel_bytes(x, y, 0);
    if frame_count <= TOTAL_FRAMES {
        let bar = clear.with_progress(frame_count);
        let body = bar.filled(hero, HERO_BODY_COLOR);
        clear.lemma_progress_pixel(frame_count, x, y);
        bar.lemma_filled_pixel(hero, HERO_BODY_COLOR, x, y);
        body.lemma_filled_pixel(hero_cap(hero), HERO_CAP_COLOR, x, y);
    }
}

/// The hero after the first `ticks` ticks of a run, which are the ticks
/// for frames 0 to `ticks - 1`, with the swing of each frame taken from
/// `swings`.
pub open spec fn hero_after_run(hero: RectArea, swings: Seq<Oscillation>, ticks: nat) -> RectArea
    decreases ticks,
{
    if ticks == 0 {
        hero
    } else {
        let frame = (ticks - 1) as nat;
        hero_after_tick(hero_after_run(hero, swings, frame), frame, swings[frame as int])
    }
}

/// Within the budget, each tick moves the hero one pixel to the right:
/// after the tick for frame `frame_count` the hero stands
/// `frame_count + 1` pixels right of where the run began, whatever the
/// swings were.
pub proof fn lemma_hero_drift(hero: RectArea, swings: Seq<Oscillation>, frame_count: nat)
    requires
        frame_count <= TOTAL_FRAMES,
        hero.top_left.x + frame_count + 1 <= u32::MAX,
    ensures
        hero_after_run(hero, swings, frame_count + 1).top_left.x == hero.top_left.x + frame_count
            + 1,
    decreases frame_count,
{
    if frame_count > 0 {
        lemma_hero_drift(hero, swings, (frame_count - 1) as nat);
    }
    assert(hero_after_run(hero, swings, 0) == hero);
}

/// The state as the animation starts.
pub fn initialize_global_state() -> (state: GlobalState)
    ensures
        state == initial_state(),
{
    GlobalState {
        app: ApplicationState {
            hero: RectArea {
                top_left: Point { x: 0, y: 340 },
                dimensions: Dimensions2d { w: 16, h: 50 },
            },
        },
        web_context2d: None,
    }
}

/// The state kept in `slot`, which is first filled with the starting
/// state where it is still empty.
pub fn get_global_state(slot: &mut Option<GlobalState>) -> (state: &mut GlobalState)
    ensures
        *state == (match *old(slot) {
            Some(kept) => kept,
            None => initial_state(),
        }),
        *final(slot) == Some(*final(state)),
{
    if slot.is_none() {
        *slot = Some(initialize_global_state());
    }
    match slot {
        Some(state) => state,
        None => unreached(),
    }
}

/// Puts the bound surface into the state.
pub fn set_web_context(state: &mut GlobalState, web_context2d: WebContext2d)
    ensures
        final(state).app == old(state).app,
        final(state).web_context2d == Some(web_context2d),
{
    state.web_context2d = Some(web_context2d);
}

/// One tick of the animation, for the frame `frame_count`.
///
/// The surface is cleared. Past the budget that is all: the heading says
/// that the animation is over and no further frame is asked for. Within
/// the budget the hero moves one pixel right and swings to `swing`; the
/// progress bar, the hero's body and the hero's cap are drawn; the
/// heading names the frame; and the next frame is asked for.
pub fn animation_loop(state: &mut GlobalState, frame_count: u32, swing: Oscillation) -> (outcome:
    FrameOutcome)
    requires
        old(state).web_context2d is Some,
        frame_count <= TOTAL_FRAMES ==> old(state).app.hero.top_left.x < u32::MAX,
    ensures
        final(state).app.hero == hero_after_tick(old(state).app.hero, frame_count as nat, swing),
        final(state).web_context2d is Some,
        final(state).web_context2d->0@.wf(),
        final(state).web_context2d->0@ == surface_after_tick(
            old(state).web_context2d->0@,
            final(state).app.hero,
            frame_count as nat,
        ),
        outcome.heading@ == heading_text(frame_count as nat),
        outcome.next_frame == frame_after_tick(frame_count as nat),
{
    match &mut state.web_context2d {
        Some(web_context) => {
            // Clear the canvas
            web_context.clear();

            // halt the animation after `TOTAL_FRAMES` number of frames
            if frame_count > TOTAL_FRAMES {
                return FrameOutcome { heading: heading(frame_count), next_frame: None };
            }
            // Let's move the hero 1px to the right

            state.app.hero.top_left.x += 1;

            progress_bar(web_context, frame_count);

            // The wobbly green part of the hero
            state.app.hero.top_left.y = swing.y;
            state.app.hero.dimensions.h = swing.h;
            rectangle_filled(web_context, &state.app.hero, HERO_BODY_COLOR);

            // The white part of the hero
            let mut square_2: RectArea = state.app.hero;
            square_2.dimensions.h = HERO_CAP_HEIGHT;
            rectangle_filled(web_context, &square_2, HERO_CAP_COLOR);

            // Advance the animation one frame at a time
            FrameOutcome { heading: heading(frame_count), next_frame: Some(frame_count + 1) }
        },
        None => unreached(),
    }
}

} // verus!
