//! Integration tests across the catalog, the projection, the tile index
//! and the game state.

use rand::rngs::SmallRng;
use rand::SeedableRng;
use std::rc::Rc;
use stargazer::catalog::{generate_placeholder_catalog, BrightnessCategory};
use stargazer::coord::CelestialCoord;
use stargazer::projection::{LodSettings, Viewport};
use stargazer::quiz::{QuizConfig, QuizGenerator};
use stargazer::state::{game_reducer, GameAction, GameState};
use stargazer::tiles::{zoom_level_for, TileId, TileSystem, ZoomLevel};

#[test]
fn test_catalog_quiz_integration() {
    // Generate catalog.
    let catalog = generate_placeholder_catalog();

    // Create quiz generator.
    let config = QuizConfig { num_choices: 5, include_none_option: false, none_probability: 0 };
    let generator = QuizGenerator::new(&catalog, config);

    // Generate multiple questions.
    let mut rng = SmallRng::seed_from_u64(21);
    for _ in 0..10 {
        let question = generator.generate_random(&mut rng);
        assert!(question.is_some());

        let q = question.unwrap();
        assert_eq!(q.choices.len(), 5);
        assert!(q.choices.contains(&q.correct_answer));

        // Verify target star exists.
        let star = catalog.get(q.target_star);
        assert!(star.is_some());
    }
}

#[test]
fn test_viewport_projection_consistency() {
    let viewport = Viewport::new(1200000, 600000);

    // Test multiple coordinates.
    let test_coords = vec![
        CelestialCoord::new(0, 0),
        CelestialCoord::new(12000, 45000),
        CelestialCoord::new(6000, -30000),
        CelestialCoord::new(18000, 60000),
    ];

    for coord in test_coords {
        let screen = viewport.celestial_to_screen(&coord);
        let back = viewport.screen_to_celestial(screen);

        assert!(back.is_some(), "Failed to reverse project {:?}", coord);

        let recovered = back.unwrap();
        assert!(
            (coord.ra - recovered.ra).abs() < 10 || (coord.ra - recovered.ra).abs() > 23990,
            "RA mismatch: {} vs {}",
            coord.ra,
            recovered.ra
        );
        assert!(
            (coord.dec - recovered.dec).abs() < 100,
            "Dec mismatch: {} vs {}",
            coord.dec,
            recovered.dec
        );
    }
}

#[test]
fn test_game_state_full_quiz_flow() {
    let catalog = generate_placeholder_catalog();
    let state = Rc::new(GameState::default());

    // Find a named star.
    let sirius = catalog
        .named_stars()
        .into_iter()
        .find(|s| s.name.as_deref() == Some("Sirius"))
        .expect("Sirius should exist");

    // Select the star.
    let state = game_reducer(state, GameAction::SelectStar(sirius.id));
    assert_eq!(state.selected_star, Some(sirius.id));

    // Start quiz.
    let state = game_reducer(
        state,
        GameAction::StartQuiz {
            target_star_id: sirius.id,
            correct_name: "Sirius".into(),
            choices: vec![
                "Sirius".into(),
                "Vega".into(),
                "Arcturus".into(),
                "Betelgeuse".into(),
                "none of above".into(),
            ],
        },
    );
    assert!(state.quiz.is_some());

    // Select wrong answer.
    let state = game_reducer(state, GameAction::SelectAnswer("Vega".into()));
    assert_eq!(
        state.quiz.as_ref().unwrap().selected_answer,
        Some("Vega".into())
    );

    // Submit wrong answer.
    let state = game_reducer(state, GameAction::SubmitAnswer);
    assert!(state.quiz.as_ref().unwrap().answered);
    assert_eq!(state.quiz.as_ref().unwrap().was_correct, Some(false));
    assert_eq!(state.score.incorrect, 1);
    assert_eq!(state.score.correct, 0);

    // Close quiz.
    let state = game_reducer(state, GameAction::CloseQuiz);
    assert!(state.quiz.is_none());

    // Start another quiz with correct answer.
    let state = game_reducer(
        state,
        GameAction::StartQuiz {
            target_star_id: sirius.id,
            correct_name: "Sirius".into(),
            choices: vec!["Sirius".into(), "Vega".into()],
        },
    );

    let state = game_reducer(state, GameAction::SelectAnswer("Sirius".into()));
    let state = game_reducer(state, GameAction::SubmitAnswer);

    assert_eq!(state.quiz.as_ref().unwrap().was_correct, Some(true));
    assert_eq!(state.score.correct, 1);
    assert_eq!(state.score.incorrect, 1);
    assert_eq!(state.score.streak, 1);
}

#[test]
fn test_lod_with_catalog() {
    let catalog = generate_placeholder_catalog();
    let lod = LodSettings::default();

    // At the smallest zoom, fewer stars are visible.
    let zoom1_mag = lod.magnitude_limit(1000);
    let stars_zoom1 = catalog.stars_brighter_than(zoom1_mag).len();

    // Zoomed in, more stars are visible.
    let zoom5_mag = lod.magnitude_limit(5000);
    let stars_zoom5 = catalog.stars_brighter_than(zoom5_mag).len();

    assert!(stars_zoom5 > stars_zoom1);
}

#[test]
fn test_brightness_categories_with_catalog() {
    let catalog = generate_placeholder_catalog();

    let brilliant = catalog.stars_in_category(BrightnessCategory::Brilliant);
    let bright = catalog.stars_in_category(BrightnessCategory::Bright);
    let medium = catalog.stars_in_category(BrightnessCategory::Medium);

    // Categories should be cumulative.
    assert!(brilliant.len() <= bright.len());
    assert!(bright.len() <= medium.len());

    // Brilliant stars should be very bright.
    for star in &brilliant {
        assert!(star.magnitude < BrightnessCategory::Brilliant.magnitude_limit());
    }
}

#[test]
fn test_viewport_zoom_maintains_named_star_visibility() {
    let catalog = generate_placeholder_catalog();
    let viewport = Viewport::default();

    // Find a star in the initial view.
    let (ra_min, ra_max) = viewport.ra_range();
    let (dec_min, dec_max) = viewport.dec_range();

    // Helper to check whether a right ascension is in range, handling
    // wraparound; at the smallest zoom the whole sky is visible.
    let ra_in_range = |ra: i64| {
        if ra_min == ra_max && viewport.zoom <= 1010 {
            true // Full sky view.
        } else if ra_min <= ra_max {
            ra >= ra_min && ra <= ra_max
        } else {
            ra >= ra_min || ra <= ra_max // Wraparound case.
        }
    };

    let visible_named: Vec<_> = catalog
        .named_stars()
        .into_iter()
        .filter(|s| s.coord.dec >= dec_min && s.coord.dec <= dec_max && ra_in_range(s.coord.ra))
        .collect();

    // Should have some named stars visible.
    assert!(
        !visible_named.is_empty(),
        "Expected visible named stars at zoom {}",
        viewport.zoom
    );

    // Each should project to a valid screen position.
    for star in visible_named {
        let screen = viewport.celestial_to_screen(&star.coord);
        assert!(
            screen.x >= 0 && screen.x <= viewport.width,
            "Star {:?} x={} out of bounds",
            star.name,
            screen.x
        );
        assert!(
            screen.y >= 0 && screen.y <= viewport.height,
            "Star {:?} y={} out of bounds",
            star.name,
            screen.y
        );
    }
}

#[test]
fn test_tile_index_finds_every_named_star() {
    let catalog = generate_placeholder_catalog();
    let stars = catalog.all_stars();
    let tiles = TileSystem::from_stars(&stars);

    for star in catalog.named_stars() {
        let addrs = tiles.get_tiles_for_star(star.id).expect("named star not indexed");
        assert_eq!(addrs.len(), 6);
        for addr in &addrs {
            let tile = tiles.get_tile(addr).expect("tile address off the grid");
            assert!(
                tile.named_star_ids.contains(&star.id),
                "star {:?} missing from its tile at level {}",
                star.name,
                addr.zoom.0
            );
        }
    }
}

#[test]
fn test_tile_adjacency_wraps_and_clamps() {
    let catalog = generate_placeholder_catalog();
    let stars = catalog.all_stars();
    let tiles = TileSystem::from_stars(&stars);

    // A mid-row tile has the full 8-neighborhood, wrapping across the
    // right-ascension seam.
    let mid = TileId { zoom: ZoomLevel(1), col: 0, row: 1 };
    assert_eq!(tiles.get_adjacent_tiles(&mid).len(), 8);

    // A polar-row tile loses the row beyond the pole.
    let polar = TileId { zoom: ZoomLevel(1), col: 3, row: 0 };
    assert_eq!(tiles.get_adjacent_tiles(&polar).len(), 5);

    // An address off the grid has no neighbors and no tile.
    let off = TileId { zoom: ZoomLevel(9), col: 0, row: 0 };
    assert_eq!(tiles.get_adjacent_tiles(&off).len(), 0);
    assert!(tiles.get_tile(&off).is_none());
}

#[test]
fn test_unknown_star_not_indexed() {
    let catalog = generate_placeholder_catalog();
    let stars = catalog.all_stars();
    let tiles = TileSystem::from_stars(&stars);
    assert!(tiles.get_tiles_for_star(stargazer::catalog::StarId(9999)).is_none());
}

#[test]
fn test_zoom_level_buckets() {
    assert_eq!(zoom_level_for(1000).0, 0);
    assert_eq!(zoom_level_for(1999).0, 0);
    assert_eq!(zoom_level_for(2000).0, 1);
    assert_eq!(zoom_level_for(7999).0, 2);
    assert_eq!(zoom_level_for(16000).0, 4);
    assert_eq!(zoom_level_for(50000).0, 5);
}
