use dynastes::state_machine::AnimationState;
use dynastes::state_machine::FrameSlot;
use dynastes::state_machine::StateID;
use dynastes::state_machine::UpdateArgs;
use dynastes::states::index::ConfigError;
use dynastes::states::index::Fluidity;
use dynastes::states::index::IndexData;
use dynastes::states::index::IndexState;

fn id(text: &str) -> StateID {
    StateID::from(text.to_string())
}

fn share(numerator: u64, denominator: u64) -> Option<Fluidity> {
    Some(Fluidity { numerator, denominator })
}

fn looping(min_i: usize, max_i: usize, mspf: u64) -> IndexState {
    IndexState::new(min_i, max_i, mspf, None, None, None).unwrap()
}

fn tick(state: &IndexState, data: &mut IndexData, sprite: &mut FrameSlot, delta_ms: u64) {
    let args = UpdateArgs { delta_ms };
    assert!(state.can_update(data, args));
    state.update(data, args, sprite);
}

#[test]
fn fluidity_within_the_unit_interval_is_accepted() {
    for (numerator, denominator) in [(1, 1), (1, 2), (3, 4), (1, 1000), (7, 7), (u64::MAX, u64::MAX)] {
        let made = IndexState::new(0, 9, 100, None, None, share(numerator, denominator));
        assert!(made.is_ok(), "{numerator}/{denominator}");
    }
    assert!(IndexState::new(0, 9, 100, None, None, None).is_ok());
}

#[test]
fn fluidity_of_zero_is_refused() {
    let made = IndexState::new(0, 9, 100, None, None, share(0, 5));
    assert_eq!(made.err(), Some(ConfigError::FluidityOutOfRange));
}

#[test]
fn fluidity_above_one_is_refused() {
    let made = IndexState::new(0, 9, 100, None, None, share(3, 2));
    assert_eq!(made.err(), Some(ConfigError::FluidityOutOfRange));
    let made = IndexState::new(0, 9, 100, None, None, share(1, 0));
    assert_eq!(made.err(), Some(ConfigError::FluidityOutOfRange));
    let made = IndexState::new(0, 9, 100, None, None, share(0, 0));
    assert_eq!(made.err(), Some(ConfigError::FluidityOutOfRange));
}

#[test]
fn an_empty_index_range_is_refused() {
    let made = IndexState::new(5, 4, 100, None, None, None);
    assert_eq!(made.err(), Some(ConfigError::EmptyIndexRange));
    assert!(IndexState::new(4, 4, 100, None, None, None).is_ok());
}

#[test]
fn a_frame_time_of_zero_is_refused() {
    let made = IndexState::new(0, 9, 0, None, None, None);
    assert_eq!(made.err(), Some(ConfigError::ZeroFrameTime));
}

#[test]
fn the_first_fault_is_the_one_reported() {
    let made = IndexState::new(5, 4, 0, None, None, share(2, 1));
    assert_eq!(made.err(), Some(ConfigError::FluidityOutOfRange));
    let made = IndexState::new(5, 4, 0, None, None, None);
    assert_eq!(made.err(), Some(ConfigError::EmptyIndexRange));
}

#[test]
fn a_state_gives_back_what_it_was_made_of() {
    let state = IndexState::new(26, 51, 125, Some(id("walk")), Some(40), share(1, 2)).unwrap();
    assert_eq!(state.min_i(), 26);
    assert_eq!(state.max_i(), 51);
    assert_eq!(state.nominal_mspf(), 125);
    assert_eq!(state.phase(), 40);
    assert_eq!(state.fluidity(), Fluidity { numerator: 1, denominator: 2 });
    assert_eq!(state.following(), &Some(id("walk")));
    let plain = looping(0, 9, 100);
    assert_eq!(plain.phase(), 0);
    assert_eq!(plain.fluidity(), Fluidity::full());
    assert_eq!(plain.following(), &None);
}

#[test]
fn a_copy_of_a_state_behaves_alike() {
    let state = IndexState::new(2, 7, 50, Some(id("idle")), Some(10), share(2, 3)).unwrap();
    let copy = state.clone();
    assert_eq!(copy.min_i(), 2);
    assert_eq!(copy.max_i(), 7);
    assert_eq!(copy.nominal_mspf(), 50);
    assert_eq!(copy.phase(), 10);
    assert_eq!(copy.fluidity(), Fluidity { numerator: 2, denominator: 3 });
    assert_eq!(copy.following(), &Some(id("idle")));
    assert_eq!(copy.start(), state.start());
}

#[test]
fn start_gives_the_same_fresh_data_each_time() {
    let state = IndexState::new(3, 9, 100, None, Some(250), share(1, 2)).unwrap();
    let first = state.start();
    let second = state.start();
    assert_eq!(first, second);
    assert_eq!(first, IndexData { index: 3, elapsed: 0, phase_delay: 250, reached_end: false });
    assert_eq!(IndexData::new(&state), first);
}

#[test]
fn start_without_a_phase_has_no_delay() {
    let data = looping(0, 9, 100).start();
    assert_eq!(data, IndexData { index: 0, elapsed: 0, phase_delay: 0, reached_end: false });
}

#[test]
fn the_index_rises_frame_by_frame_up_to_the_end() {
    let state = looping(0, 9, 100);
    let mut data = state.start();
    let mut sprite = FrameSlot { index: 0 };
    let mut last = data.index;
    for step in 1..=9 {
        tick(&state, &mut data, &mut sprite, 100);
        assert!(data.index >= last);
        assert_eq!(data.index, step);
        assert_eq!(sprite.index, step);
        assert_eq!(data.elapsed, 0);
        last = data.index;
    }
    assert!(data.reached_end);
}

#[test]
fn time_short_of_a_frame_is_kept_for_later() {
    let state = looping(0, 9, 100);
    let mut data = state.start();
    let mut sprite = FrameSlot { index: 0 };
    tick(&state, &mut data, &mut sprite, 60);
    assert_eq!(data, IndexData { index: 0, elapsed: 60, phase_delay: 0, reached_end: false });
    tick(&state, &mut data, &mut sprite, 60);
    assert_eq!(data, IndexData { index: 1, elapsed: 20, phase_delay: 0, reached_end: false });
    tick(&state, &mut data, &mut sprite, 0);
    assert_eq!(data, IndexData { index: 1, elapsed: 20, phase_delay: 0, reached_end: false });
}

#[test]
fn one_long_tick_wraps_by_the_offset_formula() {
    let state = looping(0, 9, 100);
    let mut data = state.start();
    let mut sprite = FrameSlot { index: 0 };
    tick(&state, &mut data, &mut sprite, 1050);
    assert_eq!(data.index, 0);
    assert_eq!(sprite.index, 0);
    assert_eq!(data.elapsed, 50);
    assert!(data.reached_end);
}

#[test]
fn the_highest_index_is_shown_and_the_next_frame_is_the_lowest() {
    let state = looping(4, 9, 100);
    let mut data = state.start();
    let mut sprite = FrameSlot { index: 0 };
    tick(&state, &mut data, &mut sprite, 500);
    assert_eq!(data.index, 9);
    tick(&state, &mut data, &mut sprite, 100);
    assert_eq!(data.index, 4);
    tick(&state, &mut data, &mut sprite, 300);
    assert_eq!(data.index, 7);
    tick(&state, &mut data, &mut sprite, 400);
    assert_eq!(data.index, 5);
}

#[test]
fn a_tick_of_several_rounds_leaves_the_range_as_the_formula_says() {
    let state = looping(0, 9, 100);
    let mut data = state.start();
    let mut sprite = FrameSlot { index: 0 };
    tick(&state, &mut data, &mut sprite, 2500);
    assert_eq!(data.index, 15);
    assert_eq!(sprite.index, 15);
    tick(&state, &mut data, &mut sprite, 100);
    assert_eq!(data.index, 6);
}

#[test]
fn the_delay_holds_back_the_first_advance() {
    let state = IndexState::new(0, 9, 100, None, Some(500), None).unwrap();
    let mut data = state.start();
    let mut sprite = FrameSlot { index: 3 };
    tick(&state, &mut data, &mut sprite, 400);
    assert_eq!(data, IndexData { index: 0, elapsed: 400, phase_delay: 500, reached_end: false });
    assert_eq!(sprite.index, 3);
    tick(&state, &mut data, &mut sprite, 200);
    assert_eq!(data, IndexData { index: 1, elapsed: 0, phase_delay: 0, reached_end: false });
    assert_eq!(sprite.index, 1);
}

#[test]
fn time_equal_to_the_delay_is_still_held_back() {
    let state = IndexState::new(0, 9, 100, None, Some(500), None).unwrap();
    let mut data = state.start();
    let mut sprite = FrameSlot { index: 0 };
    tick(&state, &mut data, &mut sprite, 500);
    assert_eq!(data, IndexData { index: 0, elapsed: 500, phase_delay: 500, reached_end: false });
    tick(&state, &mut data, &mut sprite, 1);
    assert_eq!(data, IndexData { index: 0, elapsed: 1, phase_delay: 0, reached_end: false });
}

#[test]
fn the_delay_is_served_only_once() {
    let state = IndexState::new(0, 9, 100, None, Some(250), None).unwrap();
    let mut data = state.start();
    let mut sprite = FrameSlot { index: 0 };
    tick(&state, &mut data, &mut sprite, 460);
    assert_eq!(data, IndexData { index: 2, elapsed: 60, phase_delay: 0, reached_end: false });
    tick(&state, &mut data, &mut sprite, 140);
    assert_eq!(data, IndexData { index: 4, elapsed: 0, phase_delay: 0, reached_end: false });
}

#[test]
fn a_state_with_a_successor_hands_over_at_the_end() {
    let state = IndexState::new(0, 9, 100, Some(id("idle")), None, None).unwrap();
    let sprite = FrameSlot { index: 0 };
    let mut data = state.start();
    assert_eq!(state.next_state(&data, &sprite), None);
    data.index = 8;
    assert_eq!(state.next_state(&data, &sprite), None);
    data.index = 9;
    assert_eq!(state.next_state(&data, &sprite), Some(id("idle")));
    data.index = 12;
    assert_eq!(state.next_state(&data, &sprite), Some(id("idle")));
    data.index = 2;
    data.reached_end = true;
    assert_eq!(state.next_state(&data, &sprite), Some(id("idle")));
}

#[test]
fn a_looping_state_never_hands_over() {
    let state = looping(0, 9, 100);
    let sprite = FrameSlot { index: 9 };
    let mut data = state.start();
    for index in [0, 5, 9, 10, 400] {
        for reached_end in [false, true] {
            data.index = index;
            data.reached_end = reached_end;
            assert_eq!(state.next_state(&data, &sprite), None);
        }
    }
}

#[test]
fn at_half_fluidity_the_end_is_reached_before_the_index_is() {
    let state = IndexState::new(0, 9, 100, Some(id("idle")), None, share(1, 2)).unwrap();
    let mut data = state.start();
    let mut sprite = FrameSlot { index: 0 };
    tick(&state, &mut data, &mut sprite, 500);
    assert_eq!(data, IndexData { index: 4, elapsed: 100, phase_delay: 0, reached_end: false });
    assert_eq!(state.next_state(&data, &sprite), None);
    tick(&state, &mut data, &mut sprite, 400);
    assert_eq!(data.index, 8);
    assert_eq!(data.elapsed, 100);
    assert!(data.reached_end);
    assert_eq!(state.next_state(&data, &sprite), Some(id("idle")));
}

#[test]
fn at_half_fluidity_one_tick_of_nine_frames_moves_eight() {
    let state = IndexState::new(0, 9, 100, None, None, share(1, 2)).unwrap();
    let mut data = state.start();
    let mut sprite = FrameSlot { index: 0 };
    tick(&state, &mut data, &mut sprite, 900);
    assert_eq!(data, IndexData { index: 8, elapsed: 100, phase_delay: 0, reached_end: true });
    assert_eq!(sprite.index, 8);
}

#[test]
fn at_half_fluidity_the_index_moves_two_frames_every_other_frame() {
    let state = IndexState::new(0, 9, 100, None, None, share(1, 2)).unwrap();
    let mut data = state.start();
    let mut sprite = FrameSlot { index: 0 };
    let mut seen = Vec::new();
    for _ in 0..4 {
        tick(&state, &mut data, &mut sprite, 100);
        seen.push((data.index, data.elapsed));
    }
    assert_eq!(seen, vec![(0, 100), (2, 0), (2, 100), (4, 0)]);
}

#[test]
fn a_fluidity_of_three_quarters_is_stepped_exactly() {
    let state = IndexState::new(0, 99, 100, None, None, share(3, 4)).unwrap();
    let mut data = state.start();
    let mut sprite = FrameSlot { index: 0 };
    tick(&state, &mut data, &mut sprite, 300);
    assert_eq!(data, IndexData { index: 2, elapsed: 100, phase_delay: 0, reached_end: false });
    tick(&state, &mut data, &mut sprite, 100);
    assert_eq!(data, IndexData { index: 2, elapsed: 0, phase_delay: 0, reached_end: false });
    tick(&state, &mut data, &mut sprite, 400);
    assert_eq!(data, IndexData { index: 6, elapsed: 0, phase_delay: 0, reached_end: false });
}

#[test]
fn with_a_fluidity_numerator_the_delay_is_counted_in_ticks() {
    let state = IndexState::new(0, 9, 100, None, Some(50), share(3, 4)).unwrap();
    let mut data = state.start();
    let mut sprite = FrameSlot { index: 0 };
    tick(&state, &mut data, &mut sprite, 50);
    assert_eq!(data, IndexData { index: 0, elapsed: 150, phase_delay: 50, reached_end: false });
    tick(&state, &mut data, &mut sprite, 100);
    assert_eq!(data, IndexData { index: 0, elapsed: 50, phase_delay: 0, reached_end: false });
    tick(&state, &mut data, &mut sprite, 350);
    assert_eq!(data, IndexData { index: 2, elapsed: 300, phase_delay: 0, reached_end: false });
}

#[test]
fn an_update_that_would_not_fit_is_told_apart() {
    let state = looping(0, 9, 100);
    let high = IndexData { index: usize::MAX, elapsed: 0, phase_delay: 0, reached_end: false };
    assert!(state.can_update(&high, UpdateArgs { delta_ms: 1000 }));
    assert!(!state.can_update(&high, UpdateArgs { delta_ms: 1100 }));
    let late = IndexData { index: 0, elapsed: u128::MAX, phase_delay: 0, reached_end: false };
    assert!(!state.can_update(&late, UpdateArgs { delta_ms: 0 }));
    let slow = IndexState::new(0, 9, u64::MAX, None, None, share(u64::MAX, u64::MAX)).unwrap();
    assert!(slow.can_update(&late, UpdateArgs { delta_ms: 0 }));
    assert!(!slow.can_update(&late, UpdateArgs { delta_ms: 1 }));
    let fresh = state.start();
    assert!(state.can_update(&fresh, UpdateArgs { delta_ms: u64::MAX }));
}

#[test]
fn the_sprite_shows_the_index_of_the_data() {
    let state = looping(10, 19, 100);
    let mut data = state.start();
    let mut sprite = FrameSlot { index: 77 };
    tick(&state, &mut data, &mut sprite, 0);
    assert_eq!(sprite.index, 10);
    tick(&state, &mut data, &mut sprite, 250);
    assert_eq!(sprite.index, 12);
    assert_eq!(data.index, 12);
}

#[test]
fn two_updates_amount_to_one_of_the_sum() {
    for (numerator, denominator) in [(1, 1), (1, 2), (1, 3), (5, 5), (2, 6)] {
        let state = IndexState::new(0, 99, 100, None, None, share(numerator, denominator)).unwrap();
        for (first, second) in [(60, 60), (250, 0), (0, 310), (199, 1), (333, 667), (1, 1)] {
            let mut sprite = FrameSlot { index: 0 };
            let mut in_parts = state.start();
            tick(&state, &mut in_parts, &mut sprite, first);
            tick(&state, &mut in_parts, &mut sprite, second);
            let mut at_once = state.start();
            tick(&state, &mut at_once, &mut sprite, first + second);
            assert_eq!(in_parts, at_once, "{numerator}/{denominator}: {first} + {second}");
        }
    }
}

#[test]
fn at_a_fluidity_that_is_no_whole_share_time_can_be_lost() {
    let state = IndexState::new(0, 99, 100, None, None, share(3, 4)).unwrap();
    let mut sprite = FrameSlot { index: 0 };
    let mut in_parts = state.start();
    tick(&state, &mut in_parts, &mut sprite, 300);
    tick(&state, &mut in_parts, &mut sprite, 100);
    let mut at_once = state.start();
    tick(&state, &mut at_once, &mut sprite, 400);
    assert_eq!(in_parts.index, 2);
    assert_eq!(at_once.index, 4);
}
