//! Game state and its reducer: a pure function from state and action to
//! the next state. Every action yields a complete replacement state;
//! invalid transitions (submitting twice, submitting with nothing
//! selected) are no-ops, and out-of-range inputs are clamped or wrapped,
//! never rejected.

use vstd::prelude::*;
use std::rc::Rc;
use crate::angles::{clamped, wrapped_ra, ANGLE_ABS_MAX, DEC_MAX, DEC_MIN};
use crate::angles::{clamp_i64, wrap_ra};
use crate::catalog::StarId;
use crate::projection::{
    scale_spec, Viewport, DIM_MAX, FACTOR_MAX, SCREEN_ABS_MAX, ZOOM_MAX, ZOOM_MIN,
};
use crate::catalog::{clone_opt_string, clone_strings};

verus! {

/// Faintest selectable magnitude limit, in centi-magnitudes.
pub const MAG_LIMIT_MAX: i64 = 650;

/// Brightest selectable magnitude limit, in centi-magnitudes.
pub const MAG_LIMIT_MIN: i64 = 100;

/// The magnitude limit a fresh game starts with, in centi-magnitudes.
pub const MAG_LIMIT_DEFAULT: i64 = 450;

/// State of the active quiz question.
#[derive(Debug)]
pub struct QuizState {
    /// The star being quizzed.
    pub target_star_id: StarId,
    /// The correct answer.
    pub correct_name: String,
    /// All choices, the correct answer among them.
    pub choices: Vec<String>,
    /// The answer the player has picked, if any.
    pub selected_answer: Option<String>,
    /// Whether the answer has been submitted.
    pub answered: bool,
    /// Whether the submitted answer was correct.
    pub was_correct: Option<bool>,
}

/// The mathematical value of a quiz state.
#[verifier::ext_equal]
pub struct QuizV {
    pub target_star_id: StarId,
    pub correct_name: Seq<char>,
    pub choices: Seq<Seq<char>>,
    pub selected_answer: Option<Seq<char>>,
    pub answered: bool,
    pub was_correct: Option<bool>,
}

impl View for QuizState {
    type V = QuizV;

    open spec fn view(&self) -> QuizV {
        QuizV {
            target_star_id: self.target_star_id,
            correct_name: self.correct_name@,
            choices: self.choices.deep_view(),
            selected_answer: match self.selected_answer {
                Some(ref s) => Some(s@),
                None => None,
            },
            answered: self.answered,
            was_correct: self.was_correct,
        }
    }
}

/// Score bookkeeping across a session.
#[derive(Clone, Copy, Debug, PartialEq, Eq, Structural)]
pub struct ScoreState {
    /// Questions answered correctly.
    pub correct: u32,
    /// Questions answered incorrectly.
    pub incorrect: u32,
    /// Correct answers in a row, right now.
    pub streak: u32,
    /// The longest streak of the session.
    pub best_streak: u32,
}

/// A counter stepped by one, held at its ceiling.
pub open spec fn inc_sat(v: u32) -> u32 {
    if v < u32::MAX {
        (v + 1) as u32
    } else {
        u32::MAX
    }
}

/// The score after one correct answer.
pub open spec fn score_after_correct(s: ScoreState) -> ScoreState {
    let streak = inc_sat(s.streak);
    ScoreState {
        correct: inc_sat(s.correct),
        incorrect: s.incorrect,
        streak,
        best_streak: if streak > s.best_streak {
            streak
        } else {
            s.best_streak
        },
    }
}

/// The score after one incorrect answer.
pub open spec fn score_after_incorrect(s: ScoreState) -> ScoreState {
    ScoreState {
        correct: s.correct,
        incorrect: inc_sat(s.incorrect),
        streak: 0,
        best_streak: s.best_streak,
    }
}

impl ScoreState {
    /// The bookkeeping invariant: the best streak is never beaten by the
    /// current one.
    pub open spec fn wf(self) -> bool {
        self.best_streak >= self.streak
    }

    /// Record a correct answer: both counters of success step up, and
    /// the best streak follows the current one when beaten.
    pub fn record_correct(&mut self)
        ensures
            *final(self) == score_after_correct(*old(self)),
            old(self).wf() ==> final(self).wf(),
            final(self).best_streak >= old(self).best_streak,
    {
        if self.correct < u32::MAX {
            self.correct = self.correct + 1;
        }
        if self.streak < u32::MAX {
            self.streak = self.streak + 1;
        }
        if self.streak > self.best_streak {
            self.best_streak = self.streak;
        }
    }

    /// Record an incorrect answer: the failure counter steps up and the
    /// current streak falls to zero; the best streak stays.
    pub fn record_incorrect(&mut self)
        ensures
            *final(self) == score_after_incorrect(*old(self)),
            final(self).wf(),
            final(self).best_streak == old(self).best_streak,
    {
        if self.incorrect < u32::MAX {
            self.incorrect = self.incorrect + 1;
        }
        self.streak = 0;
    }

    /// Accuracy as a whole percentage, rounded down; zero before any
    /// answer.
    pub fn accuracy(&self) -> (p: i64)
        ensures
            self.correct + self.incorrect == 0 ==> p == 0,
            self.correct + self.incorrect > 0 ==> p == self.correct as int * 100 / (
            self.correct + self.incorrect),
            0 <= p <= 100,
    {
        let total = self.correct as i64 + self.incorrect as i64;
        if total == 0 {
            0
        } else {
            proof {
                let c = self.correct as int;
                let t = total as int;
                assert(c * 100 <= t * 100 && c * 100 >= 0) by (nonlinear_arith)
                    requires 0 <= c <= t,
                ;
                vstd::arithmetic::div_mod::lemma_div_is_ordered(c * 100, t * 100, t);
                vstd::arithmetic::div_mod::lemma_div_multiples_vanish(100, t);
                crate::projection::lemma_div_le(c * 100, t);
            }
            (self.correct as i64 * 100) / total
        }
    }
}

impl Default for ScoreState {
    /// All counters at zero.
    fn default() -> (s: ScoreState)
        ensures
            s == (ScoreState { correct: 0, incorrect: 0, streak: 0, best_streak: 0 }),
            s.wf(),
    {
        ScoreState { correct: 0, incorrect: 0, streak: 0, best_streak: 0 }
    }
}

/// Transient interface state: nothing here affects the game rules.
#[derive(Debug)]
pub struct UiState {
    /// Where the quiz dropdown is anchored, in milli-pixels.
    pub dropdown_position: Option<(i64, i64)>,
    /// Whether the settings panel is open.
    pub settings_open: bool,
    /// Whether the help overlay is shown.
    pub help_shown: bool,
    /// A transient notification text.
    pub toast_message: Option<String>,
}

/// The mathematical value of the interface state.
#[verifier::ext_equal]
pub struct UiV {
    pub dropdown_position: Option<(i64, i64)>,
    pub settings_open: bool,
    pub help_shown: bool,
    pub toast_message: Option<Seq<char>>,
}

impl View for UiState {
    type V = UiV;

    open spec fn view(&self) -> UiV {
        UiV {
            dropdown_position: self.dropdown_position,
            settings_open: self.settings_open,
            help_shown: self.help_shown,
            toast_message: match self.toast_message {
                Some(ref s) => Some(s@),
                None => None,
            },
        }
    }
}

impl Default for UiState {
    /// Nothing shown, nothing anchored.
    fn default() -> (u: UiState)
        ensures
            u@ == (UiV {
                dropdown_position: None,
                settings_open: false,
                help_shown: false,
                toast_message: None,
            }),
    {
        UiState {
            dropdown_position: None,
            settings_open: false,
            help_shown: false,
            toast_message: None,
        }
    }
}

/// The complete game state: the aggregate the reducer replaces wholesale
/// on every action.
#[derive(Debug)]
pub struct GameState {
    /// The window onto the sky.
    pub viewport: Viewport,
    /// Faintest magnitude displayed, in centi-magnitudes.
    pub magnitude_limit: i64,
    /// Whether grid lines are drawn.
    pub show_grid: bool,
    /// Whether constellation lines are drawn.
    pub show_constellations: bool,
    /// The active quiz, while one is open.
    pub quiz: Option<QuizState>,
    /// Score bookkeeping.
    pub score: ScoreState,
    /// The star currently highlighted.
    pub selected_star: Option<StarId>,
    /// Transient interface state.
    pub ui: UiState,
}

/// The mathematical value of the whole game state.
#[verifier::ext_equal]
pub struct GameV {
    pub viewport: Viewport,
    pub magnitude_limit: i64,
    pub show_grid: bool,
    pub show_constellations: bool,
    pub quiz: Option<QuizV>,
    pub score: ScoreState,
    pub selected_star: Option<StarId>,
    pub ui: UiV,
}

impl View for GameState {
    type V = GameV;

    open spec fn view(&self) -> GameV {
        GameV {
            viewport: self.viewport,
            magnitude_limit: self.magnitude_limit,
            show_grid: self.show_grid,
            show_constellations: self.show_constellations,
            quiz: match self.quiz {
                Some(ref q) => Some(q@),
                None => None,
            },
            score: self.score,
            selected_star: self.selected_star,
            ui: self.ui@,
        }
    }
}

/// The state invariant the reducer preserves.
pub open spec fn game_wf(s: GameV) -> bool {
    &&& s.viewport.wf()
    &&& MAG_LIMIT_MIN <= s.magnitude_limit <= MAG_LIMIT_MAX
    &&& s.score.wf()
}

impl Default for GameState {
    /// A fresh session: default viewport, medium magnitude depth, grid
    /// on, nothing selected, no quiz, zero score.
    fn default() -> (g: GameState)
        ensures
            game_wf(g@),
            g@.viewport == (Viewport {
                width: 1200000,
                height: 600000,
                center_ra: 12000,
                center_dec: 0,
                zoom: 1000,
            }),
            g@.magnitude_limit == MAG_LIMIT_DEFAULT,
            g@.show_grid,
            !g@.show_constellations,
            g@.quiz is None,
            g@.score == (ScoreState { correct: 0, incorrect: 0, streak: 0, best_streak: 0 }),
            g@.selected_star is None,
    {
        GameState {
            viewport: Viewport::default(),
            magnitude_limit: MAG_LIMIT_DEFAULT,
            show_grid: true,
            show_constellations: false,
            quiz: None,
            score: ScoreState::default(),
            selected_star: None,
            ui: UiState::default(),
        }
    }
}

/// Actions that can modify the game state. Angular payloads are in
/// milli-units, screen payloads in milli-pixels, zoom factors in
/// thousandths and magnitudes in hundredths.
#[derive(Debug)]
pub enum GameAction {
    SetZoom(i64),
    ZoomBy(i64),
    Pan(i64, i64),
    SetCenter(i64, i64),
    ResetView,
    SetViewportSize(i64, i64),
    SetMagnitudeLimit(i64),
    ToggleGrid,
    ToggleConstellations,
    SelectStar(StarId),
    ClearSelection,
    StartQuiz { target_star_id: StarId, correct_name: String, choices: Vec<String> },
    SelectAnswer(String),
    SubmitAnswer,
    /// Select and immediately evaluate the answer in one step.
    SelectAndSubmitAnswer(String),
    CloseQuiz,
    NextQuestion,
    SetDropdownPosition(i64, i64),
    ToggleSettings,
    ShowHelp,
    HideHelp,
    ShowToast(String),
    ClearToast,
    ResetScore,
    /// Ask for a redraw; the state's value does not change.
    RefreshView,
}

/// The machine limits an action's payload keeps, so that no arithmetic
/// in the reducer can overflow.
pub open spec fn action_wf(a: GameAction) -> bool {
    match a {
        GameAction::ZoomBy(f) => 0 <= f <= FACTOR_MAX,
        GameAction::Pan(dx, dy) => -SCREEN_ABS_MAX <= dx <= SCREEN_ABS_MAX && -SCREEN_ABS_MAX
            <= dy <= SCREEN_ABS_MAX,
        GameAction::SetCenter(ra, dec) => -ANGLE_ABS_MAX <= ra <= ANGLE_ABS_MAX,
        GameAction::SetViewportSize(w, h) => 1 <= w <= DIM_MAX && 1 <= h <= DIM_MAX,
        _ => true,
    }
}

/// The quiz after a terminal answer.
pub open spec fn quiz_after_submit(q: QuizV, sel: Seq<char>) -> QuizV {
    QuizV {
        selected_answer: Some(sel),
        answered: true,
        was_correct: Some(sel == q.correct_name),
        ..q
    }
}

/// What one action makes of a state: the reducer's whole meaning.
pub open spec fn game_step(s: GameV, a: GameAction) -> GameV {
    match a {
        GameAction::SetZoom(z) => GameV {
            viewport: Viewport {
                zoom: clamped(z as int, ZOOM_MIN as int, ZOOM_MAX as int) as i64,
                ..s.viewport
            },
            ..s
        },
        GameAction::ZoomBy(f) => GameV {
            viewport: Viewport {
                zoom: clamped(
                    s.viewport.zoom * f / 1000,
                    ZOOM_MIN as int,
                    ZOOM_MAX as int,
                ) as i64,
                ..s.viewport
            },
            ..s
        },
        GameAction::Pan(dx, dy) => GameV {
            viewport: Viewport {
                center_ra: wrapped_ra(
                    s.viewport.center_ra - scale_spec(
                        dx as int,
                        s.viewport.fov_ra_spec(),
                        s.viewport.width as int,
                    ),
                ) as i64,
                center_dec: clamped(
                    s.viewport.center_dec + scale_spec(
                        dy as int,
                        s.viewport.fov_dec_spec(),
                        s.viewport.height as int,
                    ),
                    DEC_MIN as int,
                    DEC_MAX as int,
                ) as i64,
                ..s.viewport
            },
            ..s
        },
        GameAction::SetCenter(ra, dec) => GameV {
            viewport: Viewport {
                center_ra: wrapped_ra(ra as int) as i64,
                center_dec: clamped(dec as int, DEC_MIN as int, DEC_MAX as int) as i64,
                ..s.viewport
            },
            ..s
        },
        GameAction::ResetView => GameV {
            viewport: Viewport {
                width: s.viewport.width,
                height: s.viewport.height,
                center_ra: 12000,
                center_dec: 0,
                zoom: ZOOM_MIN,
            },
            ..s
        },
        GameAction::SetViewportSize(w, h) => GameV {
            viewport: Viewport { width: w, height: h, ..s.viewport },
            ..s
        },
        GameAction::SetMagnitudeLimit(m) => GameV {
            magnitude_limit: clamped(m as int, MAG_LIMIT_MIN as int, MAG_LIMIT_MAX as int) as i64,
            ..s
        },
        GameAction::ToggleGrid => GameV { show_grid: !s.show_grid, ..s },
        GameAction::ToggleConstellations => GameV {
            show_constellations: !s.show_constellations,
            ..s
        },
        GameAction::SelectStar(id) => GameV { selected_star: Some(id), ..s },
        GameAction::ClearSelection => GameV {
            selected_star: None,
            quiz: None,
            ui: UiV { dropdown_position: None, ..s.ui },
            ..s
        },
        GameAction::StartQuiz { target_star_id, correct_name, choices } => {
            if s.quiz is None {
                GameV {
                    quiz: Some(
                        QuizV {
                            target_star_id,
                            correct_name: correct_name@,
                            choices: choices.deep_view(),
                            selected_answer: None,
                            answered: false,
                            was_correct: None,
                        },
                    ),
                    ..s
                }
            } else {
                s
            }
        },
        GameAction::SelectAnswer(ans) => {
            match s.quiz {
                Some(q) => {
                    if !q.answered {
                        GameV { quiz: Some(QuizV { selected_answer: Some(ans@), ..q }), ..s }
                    } else {
                        s
                    }
                },
                None => s,
            }
        },
        GameAction::SubmitAnswer => {
            match s.quiz {
                Some(q) => {
                    if !q.answered {
                        match q.selected_answer {
                            Some(sel) => GameV {
                                quiz: Some(quiz_after_submit(q, sel)),
                                score: if sel == q.correct_name {
                                    score_after_correct(s.score)
                                } else {
                                    score_after_incorrect(s.score)
                                },
                                ..s
                            },
                            None => s,
                        }
                    } else {
                        s
                    }
                },
                None => s,
            }
        },
        GameAction::SelectAndSubmitAnswer(ans) => {
            match s.quiz {
                Some(q) => {
                    if !q.answered {
                        GameV {
                            quiz: Some(quiz_after_submit(q, ans@)),
                            score: if ans@ == q.correct_name {
                                score_after_correct(s.score)
                            } else {
                                score_after_incorrect(s.score)
                            },
                            ..s
                        }
                    } else {
                        s
                    }
                },
                None => s,
            }
        },
        GameAction::CloseQuiz => GameV {
            quiz: None,
            selected_star: None,
            ui: UiV { dropdown_position: None, ..s.ui },
            ..s
        },
        GameAction::NextQuestion => GameV {
            quiz: None,
            selected_star: None,
            ui: UiV { dropdown_position: None, ..s.ui },
            ..s
        },
        GameAction::SetDropdownPosition(x, y) => GameV {
            ui: UiV { dropdown_position: Some((x, y)), ..s.ui },
            ..s
        },
        GameAction::ToggleSettings => GameV {
            ui: UiV { settings_open: !s.ui.settings_open, ..s.ui },
            ..s
        },
        GameAction::ShowHelp => GameV { ui: UiV { help_shown: true, ..s.ui }, ..s },
        GameAction::HideHelp => GameV { ui: UiV { help_shown: false, ..s.ui }, ..s },
        GameAction::ShowToast(msg) => GameV {
            ui: UiV { toast_message: Some(msg@), ..s.ui },
            ..s
        },
        GameAction::ClearToast => GameV { ui: UiV { toast_message: None, ..s.ui }, ..s },
        GameAction::ResetScore => GameV {
            score: ScoreState { correct: 0, incorrect: 0, streak: 0, best_streak: 0 },
            ..s
        },
        GameAction::RefreshView => s,
    }
}

/// An exact copy of a quiz state, by value.
fn clone_quiz(q: &QuizState) -> (r: QuizState)
    ensures
        r@ == q@,
{
    QuizState {
        target_star_id: q.target_star_id,
        correct_name: q.correct_name.clone(),
        choices: clone_strings(&q.choices),
        selected_answer: clone_opt_string(&q.selected_answer),
        answered: q.answered,
        was_correct: q.was_correct,
    }
}

/// An exact copy of a game state, by value.
fn clone_state(g: &GameState) -> (r: GameState)
    ensures
        r@ == g@,
{
    GameState {
        viewport: g.viewport,
        magnitude_limit: g.magnitude_limit,
        show_grid: g.show_grid,
        show_constellations: g.show_constellations,
        quiz: match &g.quiz {
            Some(q) => Some(clone_quiz(q)),
            None => None,
        },
        score: g.score,
        selected_star: g.selected_star,
        ui: UiState {
            dropdown_position: g.ui.dropdown_position,
            settings_open: g.ui.settings_open,
            help_shown: g.ui.help_shown,
            toast_message: clone_opt_string(&g.ui.toast_message),
        },
    }
}

/// The reducer: build the complete state one action leads to. The
/// previous state is never mutated; the result is a fresh value whose
/// meaning is exactly `game_step`.
pub fn game_reducer(state: Rc<GameState>, action: GameAction) -> (r: Rc<GameState>)
    requires
        game_wf(state@),
        action_wf(action),
    ensures
        r@ == game_step(state@, action),
        game_wf(r@),
        r@.score.best_streak >= r@.score.streak,
        !(action is ResetScore) ==> r@.score.best_streak >= state@.score.best_streak,
{
    let ghost s0 = state@;
    let ghost a0 = action;
    let mut ns = clone_state(&state);
    match action {
        GameAction::SetZoom(zoom) => {
            ns.viewport.zoom = clamp_i64(zoom, ZOOM_MIN, ZOOM_MAX);
        },
        GameAction::ZoomBy(factor) => {
            ns.viewport.zoom_by(factor, None);
        },
        GameAction::Pan(dx, dy) => {
            ns.viewport.pan(dx, dy);
        },
        GameAction::SetCenter(ra, dec) => {
            ns.viewport.center_ra = wrap_ra(ra);
            ns.viewport.center_dec = clamp_i64(dec, DEC_MIN, DEC_MAX);
        },
        GameAction::ResetView => {
            let w = ns.viewport.width;
            let h = ns.viewport.height;
            ns.viewport = Viewport::new(w, h);
        },
        GameAction::SetViewportSize(width, height) => {
            ns.viewport.width = width;
            ns.viewport.height = height;
        },
        GameAction::SetMagnitudeLimit(mag) => {
            ns.magnitude_limit = clamp_i64(mag, MAG_LIMIT_MIN, MAG_LIMIT_MAX);
        },
        GameAction::ToggleGrid => {
            ns.show_grid = !ns.show_grid;
        },
        GameAction::ToggleConstellations => {
            ns.show_constellations = !ns.show_constellations;
        },
        GameAction::SelectStar(id) => {
            ns.selected_star = Some(id);
        },
        GameAction::ClearSelection => {
            ns.selected_star = None;
            ns.quiz = None;
            ns.ui.dropdown_position = None;
        },
        GameAction::StartQuiz { target_star_id, correct_name, choices } => {
            if ns.quiz.is_none() {
                ns.quiz = Some(
                    QuizState {
                        target_star_id,
                        correct_name,
                        choices,
                        selected_answer: None,
                        answered: false,
                        was_correct: None,
                    },
                );
            }
        },
        GameAction::SelectAnswer(answer) => {
            match &mut ns.quiz {
                Some(quiz) => {
                    if !quiz.answered {
                        quiz.selected_answer = Some(answer);
                    }
                },
                None => {},
            }
        },
        GameAction::SubmitAnswer => {
            let mut was: Option<bool> = None;
            match &mut ns.quiz {
                Some(quiz) => {
                    if !quiz.answered {
                        let verdict = match &quiz.selected_answer {
                            Some(answer) => Some(answer.eq(&quiz.correct_name)),
                            None => None,
                        };
                        match verdict {
                            Some(correct) => {
                                quiz.answered = true;
                                quiz.was_correct = Some(correct);
                                was = Some(correct);
                            },
                            None => {},
                        }
                    }
                },
                None => {},
            }
            match was {
                Some(true) => ns.score.record_correct(),
                Some(false) => ns.score.record_incorrect(),
                None => {},
            }
        },
        GameAction::SelectAndSubmitAnswer(answer) => {
            let mut was: Option<bool> = None;
            match &mut ns.quiz {
                Some(quiz) => {
                    if !quiz.answered {
                        let correct = answer.eq(&quiz.correct_name);
                        quiz.selected_answer = Some(answer);
                        quiz.answered = true;
                        quiz.was_correct = Some(correct);
                        was = Some(correct);
                    }
                },
                None => {},
            }
            match was {
                Some(true) => ns.score.record_correct(),
                Some(false) => ns.score.record_incorrect(),
                None => {},
            }
        },
        GameAction::CloseQuiz => {
            ns.quiz = None;
            ns.selected_star = None;
            ns.ui.dropdown_position = None;
        },
        GameAction::NextQuestion => {
            ns.quiz = None;
            ns.selected_star = None;
            ns.ui.dropdown_position = None;
        },
        GameAction::SetDropdownPosition(x, y) => {
            ns.ui.dropdown_position = Some((x, y));
        },
        GameAction::ToggleSettings => {
            ns.ui.settings_open = !ns.ui.settings_open;
        },
        GameAction::ShowHelp => {
            ns.ui.help_shown = true;
        },
        GameAction::HideHelp => {
            ns.ui.help_shown = false;
        },
        GameAction::ShowToast(msg) => {
            ns.ui.toast_message = Some(msg);
        },
        GameAction::ClearToast => {
            ns.ui.toast_message = None;
        },
        GameAction::ResetScore => {
            ns.score = ScoreState::default();
        },
        GameAction::RefreshView => {},
    }
    proof {
        assert(ns@ =~~= game_step(s0, a0));
    }
    Rc::new(ns)
}

/// The state a whole sequence of actions leads to.
pub open spec fn run_actions(s: GameV, acts: Seq<GameAction>) -> GameV
    decreases acts.len(),
{
    if acts.len() == 0 {
        s
    } else {
        run_actions(game_step(s, acts[0]), acts.drop_first())
    }
}

/// One step keeps the state sound, keeps the best streak at or above
/// the current one, and never lowers it except on an explicit score
/// reset.
pub proof fn lemma_step_streak(s: GameV, a: GameAction)
    requires
        game_wf(s),
        action_wf(a),
    ensures
        game_wf(game_step(s, a)),
        game_step(s, a).score.best_streak >= game_step(s, a).score.streak,
        !(a is ResetScore) ==> game_step(s, a).score.best_streak >= s.score.best_streak,
{
    let s2 = game_step(s, a);
    match a {
        GameAction::ZoomBy(f) => {
            let z = s.viewport.zoom as int;
            assert(z * f >= 0) by (nonlinear_arith)
                requires z >= 0, f >= 0,
            ;
            crate::projection::lemma_div_le(z * f, 1000);
        },
        GameAction::Pan(dx, dy) => {
            vstd::arithmetic::div_mod::lemma_mod_bound(
                s.viewport.center_ra - scale_spec(
                    dx as int,
                    s.viewport.fov_ra_spec(),
                    s.viewport.width as int,
                ),
                24000,
            );
        },
        GameAction::SetCenter(ra, dec) => {
            vstd::arithmetic::div_mod::lemma_mod_bound(ra as int, 24000);
        },
        _ => {},
    }
}

/// Monotonic streak: however a session unfolds, the best streak never
/// falls below the current streak, and without an explicit score reset
/// it never decreases at all.
pub proof fn lemma_streak_monotonic(s: GameV, acts: Seq<GameAction>)
    requires
        game_wf(s),
        forall|k: int| 0 <= k < acts.len() ==> action_wf(#[trigger] acts[k]),
    ensures
        game_wf(run_actions(s, acts)),
        run_actions(s, acts).score.best_streak >= run_actions(s, acts).score.streak,
        (forall|k: int| 0 <= k < acts.len() ==> !((#[trigger] acts[k]) is ResetScore))
            ==> run_actions(s, acts).score.best_streak >= s.score.best_streak,
    decreases acts.len(),
{
    if acts.len() == 0 {
    } else {
        lemma_step_streak(s, acts[0]);
        let s1 = game_step(s, acts[0]);
        let rest = acts.drop_first();
        assert(forall|k: int| 0 <= k < rest.len() ==> action_wf(#[trigger] rest[k])) by {
            assert(forall|k: int| 0 <= k < rest.len() ==> rest[k] == acts[k + 1]);
        }
        lemma_streak_monotonic(s1, rest);
        if forall|k: int| 0 <= k < acts.len() ==> !((#[trigger] acts[k]) is ResetScore) {
            assert(!(acts[0] is ResetScore));
            assert(forall|k: int| 0 <= k < rest.len() ==> !((#[trigger] rest[k]) is ResetScore))
                by {
                assert(forall|k: int| 0 <= k < rest.len() ==> rest[k] == acts[k + 1]);
            }
        }
    }
}

} // verus!
