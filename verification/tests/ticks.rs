use canvas_anim::animation::{
    animation_loop, get_global_state, initialize_global_state, set_web_context, GlobalState,
    Oscillation, CANVAS_HTML_ID, HEADING_HTML_ID, HERO_BODY_COLOR, HERO_CAP_COLOR,
    HERO_CAP_HEIGHT,
};
use canvas_anim::primitives::{Dimensions2d, Point, RectArea};
use canvas_anim::web_init::{get_canvas_and_context, BindError, CanvasLookup, WebContext2d};

const CLEAR: (u8, u8, u8, u8) = (0, 0, 0, 0);
const GREEN: (u8, u8, u8, u8) = (0x00, 0xFF, 0x00, 0xFF);
const BODY: (u8, u8, u8, u8) = (0x00, 0x77, 0x00, 0xFF);
const CAP: (u8, u8, u8, u8) = (0xFF, 0xFF, 0xFF, 0xFF);

/// The swing of a frame, taken in single precision from the sine of the
/// frame counter, for a hero that is `h` high before the frame.
fn swing_of(frame_count: u32, h: u32) -> Oscillation {
    let angle = 2.0 * std::f32::consts::PI * (frame_count as f32 / 60.0);
    let wobbly_y = 250.0 + 50.0 * angle.sin();
    let h_delta = 3.0 * angle.sin();
    Oscillation { y: wobbly_y as u32, h: (h as f32 + h_delta) as u32 }
}

fn bootstrap(width: u32, height: u32) -> GlobalState {
    let mut state = initialize_global_state();
    let surface = get_canvas_and_context(CanvasLookup::Found { width, height }).unwrap();
    set_web_context(&mut state, surface);
    state
}

fn tick(state: &mut GlobalState, frame_count: u32) -> (String, Option<u32>) {
    let swing = swing_of(frame_count, state.app.hero.dimensions.h);
    let outcome = animation_loop(state, frame_count, swing);
    (outcome.heading, outcome.next_frame)
}

fn surface(state: &GlobalState) -> &WebContext2d {
    state.web_context2d.as_ref().unwrap()
}

fn pixel(state: &GlobalState, x: u32, y: u32) -> (u8, u8, u8, u8) {
    let s = surface(state);
    let data = s.get_image_data();
    let at = 4 * (y as usize * s.width() as usize + x as usize);
    (data[at], data[at + 1], data[at + 2], data[at + 3])
}

#[test]
fn constants_of_the_page_and_the_hero() {
    assert_eq!(CANVAS_HTML_ID, "demo_screen");
    assert_eq!(HEADING_HTML_ID, "demo_heading");
    assert_eq!(HERO_BODY_COLOR, 0x007700FF);
    assert_eq!(HERO_CAP_COLOR, 0xFFFFFFFF);
    assert_eq!(HERO_CAP_HEIGHT, 10);
}

#[test]
fn initial_state_has_the_hero_in_place_and_no_surface() {
    let state = initialize_global_state();
    assert_eq!(
        state.app.hero,
        RectArea { top_left: Point { x: 0, y: 340 }, dimensions: Dimensions2d { w: 16, h: 50 } }
    );
    assert!(state.web_context2d.is_none());
}

#[test]
fn global_state_is_made_on_first_access_and_kept_after() {
    let mut slot: Option<GlobalState> = None;
    {
        let state = get_global_state(&mut slot);
        assert_eq!(state.app.hero.top_left, Point { x: 0, y: 340 });
        assert_eq!(state.app.hero.dimensions, Dimensions2d { w: 16, h: 50 });
        assert!(state.web_context2d.is_none());
        state.app.hero.top_left.x = 41;
    }
    assert!(slot.is_some());
    let state = get_global_state(&mut slot);
    assert_eq!(state.app.hero.top_left.x, 41);
    assert_eq!(state.app.hero.top_left.y, 340);
}

#[test]
fn set_web_context_keeps_the_hero() {
    let mut state = initialize_global_state();
    state.app.hero.top_left.x = 9;
    set_web_context(&mut state, WebContext2d::new(3, 2).unwrap());
    assert_eq!(state.app.hero.top_left.x, 9);
    assert_eq!(surface(&state).width(), 3);
    assert_eq!(surface(&state).height(), 2);
}

#[test]
fn binding_fails_with_not_found_where_no_element_has_the_id() {
    assert_eq!(
        get_canvas_and_context(CanvasLookup::ElementMissing).err(),
        Some(BindError::NotFound)
    );
}

#[test]
fn binding_fails_with_wrong_kind_where_the_element_is_no_canvas() {
    assert_eq!(get_canvas_and_context(CanvasLookup::NotACanvas).err(), Some(BindError::WrongKind));
}

#[test]
fn binding_fails_with_no_context_where_the_context_cannot_be_had() {
    for lookup in [
        CanvasLookup::ContextRefused,
        CanvasLookup::ContextUnavailable,
        CanvasLookup::ContextOfOtherKind,
    ] {
        assert_eq!(get_canvas_and_context(lookup).err(), Some(BindError::NoContext));
    }
}

#[test]
fn binding_fails_with_no_context_where_the_buffer_cannot_be_addressed() {
    let lookup = CanvasLookup::Found { width: u32::MAX, height: u32::MAX };
    assert_eq!(get_canvas_and_context(lookup).err(), Some(BindError::NoContext));
}

#[test]
fn binding_a_found_canvas_gives_a_clear_surface_of_its_size() {
    let bound = get_canvas_and_context(CanvasLookup::Found { width: 800, height: 600 }).unwrap();
    assert_eq!(bound.width(), 800);
    assert_eq!(bound.height(), 600);
    let data = bound.get_image_data();
    assert_eq!(data.len(), 4 * 800 * 600);
    assert!(data.iter().all(|b| *b == 0));
}

#[test]
fn first_tick_after_bootstrap() {
    let mut state = bootstrap(800, 600);
    let (heading, next) = tick(&mut state, 0);
    assert_eq!(heading, "Frame: 0 / 780");
    assert_eq!(next, Some(1));
    assert_eq!(
        state.app.hero,
        RectArea { top_left: Point { x: 1, y: 250 }, dimensions: Dimensions2d { w: 16, h: 50 } }
    );
    assert_eq!(pixel(&state, 0, 0), CLEAR);
}

#[test]
fn second_tick_draws_one_pixel_of_progress() {
    let mut state = bootstrap(800, 600);
    let (_, next) = tick(&mut state, 0);
    let (heading, next) = tick(&mut state, next.unwrap());
    assert_eq!(heading, "Frame: 1 / 780");
    assert_eq!(next, Some(2));
    assert_eq!(pixel(&state, 0, 0), GREEN);
    assert_eq!(pixel(&state, 1, 0), CLEAR);
    assert_eq!(state.app.hero.top_left.x, 2);
}

#[test]
fn frame_zero_draws_no_progress_and_the_hero_at_row_250() {
    let mut state = bootstrap(800, 600);
    tick(&mut state, 0);
    for x in 0..800 {
        assert_eq!(pixel(&state, x, 0), CLEAR);
    }
    assert_eq!(state.app.hero.top_left.y, 250);
    assert_eq!(state.app.hero.dimensions.h, 50);
    // the cap: ten rows of white at the hero's top
    assert_eq!(pixel(&state, 1, 250), CAP);
    assert_eq!(pixel(&state, 16, 259), CAP);
    // the body below it
    assert_eq!(pixel(&state, 1, 260), BODY);
    assert_eq!(pixel(&state, 16, 299), BODY);
    // and nothing around
    assert_eq!(pixel(&state, 0, 250), CLEAR);
    assert_eq!(pixel(&state, 17, 250), CLEAR);
    assert_eq!(pixel(&state, 1, 249), CLEAR);
    assert_eq!(pixel(&state, 1, 300), CLEAR);
    let data = surface(&state).get_image_data();
    let drawn = data.chunks(4).filter(|px| px[3] != 0).count();
    assert_eq!(drawn, 16 * 50);
}

#[test]
fn last_frame_is_still_drawn_with_a_bar_of_780_pixels() {
    let mut state = bootstrap(800, 600);
    let (heading, next) = tick(&mut state, 780);
    assert_eq!(heading, "Frame: 780 / 780");
    assert_eq!(next, Some(781));
    for x in 0..800 {
        let expected = if x < 780 { GREEN } else { CLEAR };
        assert_eq!(pixel(&state, x, 0), expected, "column {x}");
    }
    assert_eq!(state.app.hero.top_left.x, 1);
}

#[test]
fn tick_past_the_budget_ends_the_animation() {
    let mut state = bootstrap(800, 600);
    tick(&mut state, 5);
    let hero = state.app.hero;
    let (heading, next) = tick(&mut state, 781);
    assert_eq!(heading, "780 frames rendered.");
    assert_eq!(next, None);
    // no hero is drawn and none is moved: the surface is left clear
    assert_eq!(state.app.hero, hero);
    assert!(surface(&state).get_image_data().iter().all(|b| *b == 0));
}

#[test]
fn tick_clears_what_the_frame_before_drew() {
    let mut state = bootstrap(40, 400);
    tick(&mut state, 20);
    assert_eq!(pixel(&state, 19, 0), GREEN);
    tick(&mut state, 2);
    assert_eq!(pixel(&state, 1, 0), GREEN);
    assert_eq!(pixel(&state, 2, 0), CLEAR);
    assert_eq!(pixel(&state, 19, 0), CLEAR);
}

#[test]
fn cap_is_drawn_over_the_body() {
    let mut state = bootstrap(100, 100);
    let outcome = animation_loop(&mut state, 0, Oscillation { y: 20, h: 4 });
    assert_eq!(outcome.next_frame, Some(1));
    // the body is 4 high, the cap 10: the cap hides the body and reaches below it
    for y in 20..30 {
        assert_eq!(pixel(&state, 1, y), CAP);
    }
    assert_eq!(pixel(&state, 1, 30), CLEAR);
    assert_eq!(state.app.hero.dimensions.h, 4);
}

#[test]
fn hero_follows_the_sine_of_the_frame_counter() {
    let mut state = bootstrap(64, 8);
    let mut rows: Vec<u32> = Vec::new();
    for f in 0..60 {
        let swing = swing_of(f, state.app.hero.dimensions.h);
        let angle = 2.0 * std::f32::consts::PI * (f as f32 / 60.0);
        assert_eq!(swing.y, (250.0 + 50.0 * angle.sin()).floor() as u32);
        animation_loop(&mut state, f, swing);
        assert_eq!(state.app.hero.top_left.y, swing.y);
        assert_eq!(state.app.hero.dimensions.h, swing.h);
        rows.push(state.app.hero.top_left.y);
    }
    assert_eq!(rows[0], 250);
    assert_eq!(rows[15], 300);
    assert_eq!(rows[30], 250);
    assert_eq!(rows[45], 200);
}

#[test]
fn hero_drifts_one_pixel_right_with_every_tick() {
    let mut state = bootstrap(16, 4);
    let mut frame = Some(0);
    let mut ticks = 0;
    while let Some(f) = frame {
        let (_, next) = tick(&mut state, f);
        ticks += 1;
        if f <= 780 {
            assert_eq!(state.app.hero.top_left.x, f + 1);
            assert_eq!(next, Some(f + 1));
        } else {
            assert_eq!(state.app.hero.top_left.x, 781);
        }
        frame = next;
    }
    // frames 0 to 780 are drawn, and the tick for 781 ends the run
    assert_eq!(ticks, 782);
}

#[test]
fn hero_width_is_never_changed() {
    let mut state = bootstrap(16, 4);
    for f in 0..100 {
        tick(&mut state, f);
        assert_eq!(state.app.hero.dimensions.w, 16);
    }
}
