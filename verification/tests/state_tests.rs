//! Tests for score bookkeeping and the game reducer.

use std::rc::Rc;
use stargazer::catalog::StarId;
use stargazer::state::{game_reducer, GameAction, GameState, QuizState, ScoreState};

#[test]
fn test_default_state() {
    let state = GameState::default();
    assert_eq!(state.viewport.zoom, 1000);
    assert!(state.show_grid);
    assert!(state.quiz.is_none());
}

#[test]
fn test_score_tracking() {
    let mut score = ScoreState::default();

    score.record_correct();
    score.record_correct();
    score.record_incorrect();

    assert_eq!(score.correct, 2);
    assert_eq!(score.incorrect, 1);
    assert_eq!(score.streak, 0);
    assert_eq!(score.best_streak, 2);
}

#[test]
fn test_accuracy() {
    let mut score = ScoreState::default();
    assert_eq!(score.accuracy(), 0);

    score.record_correct();
    score.record_correct();
    score.record_correct();
    score.record_incorrect();

    assert_eq!(score.accuracy(), 75);
}

#[test]
fn test_reducer_zoom() {
    let state = Rc::new(GameState::default());
    let new_state = game_reducer(state, GameAction::SetZoom(2000));

    assert_eq!(new_state.viewport.zoom, 2000);
}

#[test]
fn test_zoom_clamp_bounds() {
    let state = Rc::new(GameState::default());
    let state = game_reducer(state, GameAction::SetZoom(100000));
    assert_eq!(state.viewport.zoom, 50000);
    let state = game_reducer(state, GameAction::SetZoom(0));
    assert_eq!(state.viewport.zoom, 1000);
}

#[test]
fn test_reducer_quiz_flow() {
    let state = Rc::new(GameState::default());

    // Start quiz.
    let state = game_reducer(
        state,
        GameAction::StartQuiz {
            target_star_id: StarId(1),
            correct_name: "Sirius".into(),
            choices: vec!["Sirius".into(), "Vega".into(), "Arcturus".into()],
        },
    );
    assert!(state.quiz.is_some());

    // Select answer.
    let state = game_reducer(state, GameAction::SelectAnswer("Sirius".into()));
    assert_eq!(
        state.quiz.as_ref().unwrap().selected_answer,
        Some("Sirius".into())
    );

    // Submit.
    let state = game_reducer(state, GameAction::SubmitAnswer);
    assert!(state.quiz.as_ref().unwrap().answered);
    assert_eq!(state.quiz.as_ref().unwrap().was_correct, Some(true));
    assert_eq!(state.score.correct, 1);
}

#[test]
fn test_quiz_flow_wrong_then_right() {
    // Pick the wrong answer, close, then answer a fresh question right.
    let state = Rc::new(GameState::default());
    let state = game_reducer(
        state,
        GameAction::StartQuiz {
            target_star_id: StarId(1),
            correct_name: "Sirius".into(),
            choices: vec!["Sirius".into(), "Vega".into(), "Arcturus".into()],
        },
    );
    let state = game_reducer(state, GameAction::SelectAnswer("Vega".into()));
    let state = game_reducer(state, GameAction::SubmitAnswer);
    assert!(state.quiz.as_ref().unwrap().answered);
    assert_eq!(state.quiz.as_ref().unwrap().was_correct, Some(false));
    assert_eq!(state.score.incorrect, 1);
    assert_eq!(state.score.streak, 0);

    let state = game_reducer(state, GameAction::CloseQuiz);
    assert!(state.quiz.is_none());

    let state = game_reducer(
        state,
        GameAction::StartQuiz {
            target_star_id: StarId(1),
            correct_name: "Sirius".into(),
            choices: vec!["Sirius".into(), "Vega".into()],
        },
    );
    let state = game_reducer(state, GameAction::SelectAndSubmitAnswer("Sirius".into()));
    assert_eq!(state.quiz.as_ref().unwrap().was_correct, Some(true));
    assert_eq!(state.score.correct, 1);
    assert_eq!(state.score.streak, 1);
}

#[test]
fn test_magnitude_limit_clamp() {
    let state = Rc::new(GameState::default());

    let state = game_reducer(state, GameAction::SetMagnitudeLimit(1000));
    assert_eq!(state.magnitude_limit, 650);

    let state = game_reducer(state, GameAction::SetMagnitudeLimit(0));
    assert_eq!(state.magnitude_limit, 100);
}

#[test]
fn test_submit_without_selection_is_noop() {
    let state = Rc::new(GameState::default());
    let state = game_reducer(
        state,
        GameAction::StartQuiz {
            target_star_id: StarId(3),
            correct_name: "Vega".into(),
            choices: vec!["Vega".into(), "Deneb".into()],
        },
    );
    let state = game_reducer(state, GameAction::SubmitAnswer);
    assert!(!state.quiz.as_ref().unwrap().answered);
    assert_eq!(state.score.correct, 0);
    assert_eq!(state.score.incorrect, 0);
}

#[test]
fn test_double_submit_scores_once() {
    let state = Rc::new(GameState::default());
    let state = game_reducer(
        state,
        GameAction::StartQuiz {
            target_star_id: StarId(3),
            correct_name: "Vega".into(),
            choices: vec!["Vega".into(), "Deneb".into()],
        },
    );
    let state = game_reducer(state, GameAction::SelectAndSubmitAnswer("Vega".into()));
    let state = game_reducer(state, GameAction::SubmitAnswer);
    let state = game_reducer(state, GameAction::SelectAndSubmitAnswer("Deneb".into()));
    assert_eq!(state.score.correct, 1);
    assert_eq!(state.score.incorrect, 0);
    assert_eq!(state.quiz.as_ref().unwrap().selected_answer, Some("Vega".into()));
}

#[test]
fn test_reset_view_keeps_size() {
    let state = Rc::new(GameState::default());
    let state = game_reducer(state, GameAction::SetViewportSize(800000, 400000));
    let state = game_reducer(state, GameAction::ZoomBy(3000));
    let state = game_reducer(state, GameAction::Pan(50000, 20000));
    let state = game_reducer(state, GameAction::ResetView);
    assert_eq!(state.viewport.width, 800000);
    assert_eq!(state.viewport.height, 400000);
    assert_eq!(state.viewport.zoom, 1000);
    assert_eq!(state.viewport.center_ra, 12000);
    assert_eq!(state.viewport.center_dec, 0);
}

#[test]
fn test_reset_score() {
    let state = Rc::new(GameState::default());
    let state = game_reducer(
        state,
        GameAction::StartQuiz {
            target_star_id: StarId(4),
            correct_name: "Deneb".into(),
            choices: vec!["Deneb".into()],
        },
    );
    let state = game_reducer(state, GameAction::SelectAndSubmitAnswer("Deneb".into()));
    assert_eq!(state.score.correct, 1);
    let state = game_reducer(state, GameAction::ResetScore);
    assert_eq!(state.score.correct, 0);
    assert_eq!(state.score.best_streak, 0);
}

#[test]
fn test_clear_selection_clears_quiz() {
    let state = Rc::new(GameState::default());
    let state = game_reducer(state, GameAction::SelectStar(StarId(7)));
    let state = game_reducer(
        state,
        GameAction::StartQuiz {
            target_star_id: StarId(7),
            correct_name: "Procyon".into(),
            choices: vec!["Procyon".into()],
        },
    );
    let state = game_reducer(state, GameAction::ClearSelection);
    assert!(state.selected_star.is_none());
    assert!(state.quiz.is_none());
    assert!(state.ui.dropdown_position.is_none());
}

#[test]
fn test_quiz_state_creation() {
    let quiz = QuizState {
        target_star_id: StarId(1),
        correct_name: "Sirius".into(),
        choices: vec![
            "Sirius".into(),
            "Vega".into(),
            "Arcturus".into(),
            "Betelgeuse".into(),
            "none of above".into(),
        ],
        selected_answer: None,
        answered: false,
        was_correct: None,
    };

    assert_eq!(quiz.choices.len(), 5);
    assert!(!quiz.answered);
}

#[test]
fn test_score_persistence_through_actions() {
    let state = Rc::new(GameState::default());

    // Several correct answers in a row.
    let mut current_state = state;
    for i in 1..=5 {
        current_state = game_reducer(
            current_state,
            GameAction::StartQuiz {
                target_star_id: StarId(i),
                correct_name: "Test".into(),
                choices: vec!["Test".into()],
            },
        );
        current_state = game_reducer(current_state, GameAction::SelectAnswer("Test".into()));
        current_state = game_reducer(current_state, GameAction::SubmitAnswer);
        current_state = game_reducer(current_state, GameAction::CloseQuiz);
    }

    assert_eq!(current_state.score.correct, 5);
    assert_eq!(current_state.score.streak, 5);
    assert_eq!(current_state.score.best_streak, 5);

    // Now get one wrong.
    current_state = game_reducer(
        current_state,
        GameAction::StartQuiz {
            target_star_id: StarId(6),
            correct_name: "Right".into(),
            choices: vec!["Right".into(), "Wrong".into()],
        },
    );
    current_state = game_reducer(current_state, GameAction::SelectAnswer("Wrong".into()));
    current_state = game_reducer(current_state, GameAction::SubmitAnswer);

    assert_eq!(current_state.score.correct, 5);
    assert_eq!(current_state.score.incorrect, 1);
    assert_eq!(current_state.score.streak, 0);
    assert_eq!(current_state.score.best_streak, 5); // Best streak preserved.
}
