use device_envoy_core::conway::{Board, Pattern, PredecessorSearch, SearchOutcome, SearchStep};

fn blinker() -> Board<5, 5> {
    let mut board = Board::<5, 5>::new();
    board.set_alive(2, 1);
    board.set_alive(2, 2);
    board.set_alive(2, 3);
    board
}

#[test]
fn blinker_oscillates_with_period_two() {
    let start = blinker();
    let mut board = start;
    board.step();
    assert_ne!(board, start);
    assert!(board.cells[1][2] && board.cells[2][2] && board.cells[3][2]);
    assert_eq!(board.count_live_cells(), 3);
    board.step();
    assert_eq!(board, start);
    assert!(start.evolves_to(&{
        let mut next = start;
        next.step();
        next
    }));
}

#[test]
fn neighbor_counts_wrap_around_the_edges() {
    let mut board = Board::<4, 4>::new();
    board.set_alive(0, 0);
    board.set_alive(3, 3);
    assert_eq!(board.count_live_neighbors(0, 3), 2);
    assert_eq!(board.count_live_neighbors(1, 1), 1);
    assert_eq!(board.count_live_neighbors(2, 2), 1);
}

#[test]
fn block_is_still_life() {
    let mut board = Board::<10, 10>::new();
    board.add_pattern(Pattern::Block);
    let before = board;
    assert!(board.count_live_cells() > 0);
    board.step();
    assert_eq!(board, before);
}

#[test]
fn predecessor_search_finds_a_blinker_predecessor() {
    let target = blinker();
    let mut search = PredecessorSearch::new(target);
    let mut found = None;
    for _ in 0..10_000 {
        match search.advance(1000) {
            SearchStep::Outcome(SearchOutcome::Found(board)) => {
                found = Some(board);
                break;
            }
            SearchStep::Outcome(other) => panic!("unexpected outcome {other:?}"),
            SearchStep::Progress { .. } => {}
        }
    }
    let board = found.expect("a predecessor exists");
    assert!(board.evolves_to(&target));
}

#[test]
fn cancelled_search_stays_cancelled() {
    let mut search = PredecessorSearch::new(blinker());
    let _ = search.cancel();
    assert_eq!(search.advance(1), SearchStep::Outcome(SearchOutcome::Cancelled));
    assert_eq!(search.advance(5), SearchStep::Outcome(SearchOutcome::Cancelled));
}

#[test]
fn board_draws_live_cells_on_a_frame() {
    let mut board = Board::<2, 3>::new();
    board.cells[0][1] = true;
    board.cells[1][2] = true;
    let green = device_envoy_core::led2d::Rgb8::new(0, 255, 0);
    let frame = board.to_frame(green);
    assert_eq!(frame.get(1, 0), green);
    assert_eq!(frame.get(2, 1), green);
    assert_eq!(frame.get(0, 0), device_envoy_core::led2d::Rgb8::new(0, 0, 0));
    assert_eq!(frame.get(1, 1), device_envoy_core::led2d::Rgb8::new(0, 0, 0));
}

#[test]
fn default_board_is_the_empty_board() {
    assert_eq!(Board::<4, 6>::default(), Board::<4, 6>::new());
    assert_eq!(Board::<4, 6>::default().count_live_cells(), 0);
}

#[test]
fn empty_target_is_found_at_once_and_stays_found() {
    let mut search = PredecessorSearch::new_with_radius(Board::<4, 4>::new(), 3);
    let found = SearchStep::Outcome(SearchOutcome::Found(Board::new()));
    assert_eq!(search.advance(1), found);
    assert_eq!(search.advance(5), found);
}

#[test]
fn default_seed_preset_matches_the_seeded_one() {
    let mut plain = Board::<8, 8>::new();
    let mut seeded = Board::<8, 8>::new();
    plain.add_pattern(Pattern::Random);
    seeded.add_pattern_with_seed(Pattern::Random, device_envoy_core::conway::DEFAULT_RANDOM_SEED);
    assert_eq!(plain, seeded);
}

#[test]
fn default_radius_search_answers_like_radius_one() {
    let mut target = Board::<6, 6>::new();
    target.add_pattern(Pattern::Blinker);
    let mut plain = PredecessorSearch::new(target);
    let mut radius_one = PredecessorSearch::new_with_radius(target, 1);
    for budget in [1, 3, 50, 1000, 100_000] {
        assert_eq!(plain.advance(budget), radius_one.advance(budget));
    }
}
