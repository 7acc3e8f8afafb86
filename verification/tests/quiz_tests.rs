//! Tests for quiz generation: choice integrity, distractor sampling,
//! tile fallback, and the difficulty buckets.

use rand::rngs::SmallRng;
use rand::SeedableRng;
use stargazer::catalog::{generate_placeholder_catalog, Star};
use stargazer::coord::CelestialCoord;
use stargazer::quiz::{Difficulty, QuizConfig, QuizGenerator};
use stargazer::tiles::{TileSystem, ZoomLevel};

#[test]
fn test_quiz_generation() {
    let catalog = generate_placeholder_catalog();
    let generator = QuizGenerator::new(&catalog, QuizConfig::default());
    let mut rng = SmallRng::seed_from_u64(42);

    let question = generator.generate_random(&mut rng);
    assert!(question.is_some());

    let q = question.unwrap();
    assert_eq!(q.choices.len(), 5);
    assert!(q.choices.contains(&q.correct_answer));
}

#[test]
fn test_quiz_for_specific_star() {
    let catalog = generate_placeholder_catalog();
    let generator = QuizGenerator::new(&catalog, QuizConfig::default());
    let mut rng = SmallRng::seed_from_u64(7);

    // Find Sirius.
    let sirius = catalog
        .named_stars()
        .into_iter()
        .find(|s| s.name.as_deref() == Some("Sirius"));

    assert!(sirius.is_some());
    let q = generator.generate_for_star(&sirius.unwrap(), &mut rng);
    assert!(q.is_some());
}

#[test]
fn test_difficulty_magnitude_ranges() {
    assert!(Difficulty::Easy.magnitude_range().1 < Difficulty::Medium.magnitude_range().1);
    assert!(Difficulty::Medium.magnitude_range().1 < Difficulty::Hard.magnitude_range().1);
}

#[test]
fn test_difficulty_names() {
    assert_eq!(Difficulty::Easy.name(), "Easy");
    assert_eq!(Difficulty::Medium.name(), "Medium");
    assert_eq!(Difficulty::Hard.name(), "Hard");
}

#[test]
fn test_no_duplicate_choices() {
    let catalog = generate_placeholder_catalog();
    let config = QuizConfig { num_choices: 5, include_none_option: false, none_probability: 0 };
    let generator = QuizGenerator::new(&catalog, config);
    let mut rng = SmallRng::seed_from_u64(1);

    for _ in 0..10 {
        if let Some(q) = generator.generate_random(&mut rng) {
            let mut sorted = q.choices.clone();
            sorted.sort();
            sorted.dedup();
            assert_eq!(sorted.len(), q.choices.len(), "Duplicate choices found");
        }
    }
}

#[test]
fn test_none_question_forced() {
    // With the escape probability at its ceiling, every question makes
    // "none of above" the correct answer, and it appears exactly once.
    let catalog = generate_placeholder_catalog();
    let config = QuizConfig { num_choices: 5, include_none_option: true, none_probability: 1000 };
    let generator = QuizGenerator::new(&catalog, config);
    let mut rng = SmallRng::seed_from_u64(3);

    for _ in 0..5 {
        let q = generator.generate_random(&mut rng).unwrap();
        assert!(q.is_none_question);
        assert_eq!(q.correct_answer, "none of above");
        assert_eq!(q.choices.len(), 5);
        let hits = q.choices.iter().filter(|c| c.as_str() == "none of above").count();
        assert_eq!(hits, 1);
    }
}

#[test]
fn test_unnamed_star_yields_no_question() {
    let catalog = generate_placeholder_catalog();
    let generator = QuizGenerator::new(&catalog, QuizConfig::default());
    let mut rng = SmallRng::seed_from_u64(5);

    let unnamed = Star {
        id: stargazer::catalog::StarId(999),
        name: None,
        coord: CelestialCoord::new(0, 0),
        magnitude: 100,
        constellation: None,
    };
    assert!(generator.generate_for_star(&unnamed, &mut rng).is_none());
}

#[test]
fn test_empty_magnitude_range_yields_no_question() {
    let catalog = generate_placeholder_catalog();
    let generator = QuizGenerator::new(&catalog, QuizConfig::default());
    let mut rng = SmallRng::seed_from_u64(6);

    // No star is brighter than magnitude -4.
    assert!(generator.generate_for_magnitude_range(-500, -400, &mut rng).is_none());
}

#[test]
fn test_magnitude_range_respected() {
    let catalog = generate_placeholder_catalog();
    let generator = QuizGenerator::new(&catalog, QuizConfig::default());
    let mut rng = SmallRng::seed_from_u64(9);

    for _ in 0..5 {
        let q = generator.generate_for_magnitude_range(-200, 100, &mut rng).unwrap();
        let target = catalog.get(q.target_star).unwrap();
        assert!((-200..100).contains(&target.magnitude));
    }
}

#[test]
fn test_tile_fallback() {
    // A tile index that knows no stars still yields a full-length,
    // duplicate-free choice list, drawn from the whole catalog.
    let catalog = generate_placeholder_catalog();
    let empty: Vec<Star> = Vec::new();
    let tiles = TileSystem::from_stars(&empty);
    let config = QuizConfig { num_choices: 5, include_none_option: false, none_probability: 0 };
    let generator = QuizGenerator::with_tiles(&catalog, config, &tiles, ZoomLevel(2));
    let mut rng = SmallRng::seed_from_u64(11);

    let sirius = catalog
        .named_stars()
        .into_iter()
        .find(|s| s.name.as_deref() == Some("Sirius"))
        .unwrap();
    let q = generator.generate_for_star(&sirius, &mut rng).unwrap();
    assert_eq!(q.choices.len(), 5);
    let mut sorted = q.choices.clone();
    sorted.sort();
    sorted.dedup();
    assert_eq!(sorted.len(), 5);
    // Every choice is a catalog name.
    let names: Vec<String> = catalog
        .named_stars()
        .into_iter()
        .filter_map(|s| s.name)
        .collect();
    for c in &q.choices {
        assert!(names.contains(c), "choice {c} is not a catalog name");
    }
}

#[test]
fn test_tile_aware_prefers_neighbors() {
    // With a populated index, distractors for Sirius come from its own
    // and adjacent tiles first.
    let catalog = generate_placeholder_catalog();
    let stars = catalog.all_stars();
    let tiles = TileSystem::from_stars(&stars);
    let config = QuizConfig { num_choices: 4, include_none_option: false, none_probability: 0 };
    let generator = QuizGenerator::with_tiles(&catalog, config, &tiles, ZoomLevel(0));
    let mut rng = SmallRng::seed_from_u64(13);

    let sirius = catalog
        .named_stars()
        .into_iter()
        .find(|s| s.name.as_deref() == Some("Sirius"))
        .unwrap();
    let distractors = generator.generate_tile_distractors(&sirius, 3, &mut rng);
    assert_eq!(distractors.len(), 3);
    assert!(!distractors.contains(&"Sirius".to_string()));
    let mut sorted = distractors.clone();
    sorted.sort();
    sorted.dedup();
    assert_eq!(sorted.len(), 3);
}

#[test]
fn test_random_distractors_exclude_name() {
    let catalog = generate_placeholder_catalog();
    let mut rng = SmallRng::seed_from_u64(17);
    let exclude = String::from("Sirius");
    let d = catalog.random_distractors(&exclude, 10, &mut rng);
    assert_eq!(d.len(), 10);
    assert!(!d.contains(&exclude));
    let mut sorted = d.clone();
    sorted.sort();
    sorted.dedup();
    assert_eq!(sorted.len(), 10);
}

#[test]
fn test_generation_varies_with_seed() {
    // Different random streams reach different questions; a generator
    // that ignored its randomness source would fail this.
    let catalog = generate_placeholder_catalog();
    let generator = QuizGenerator::new(&catalog, QuizConfig::default());

    let mut targets = std::collections::HashSet::new();
    for seed in 0..16u64 {
        let mut rng = SmallRng::seed_from_u64(seed);
        let q = generator.generate_random(&mut rng).unwrap();
        targets.insert(q.target_star.0);
    }
    assert!(targets.len() > 1, "all seeds chose the same target");
}
