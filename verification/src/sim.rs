//! The simulation as a whole: its state, and the tick that advances it.

use crate::court::{BALL_SPEED, COURT_HEIGHT, COURT_WIDTH, MIN_LEAN, PADDLE_REACH};
use crate::fixed::magnitude;
use crate::entity::{
    lemma_serve_direction, origin, Entities, EntitiesView, PaddleSide, PaddleView, RoundEnd, Score,
    ScoreView,
};
use crate::motion::{
    ai_step, ball_step, intent_of, lemma_ball_step, lemma_paddle_stays_in_reach, move_ai_paddle,
    move_ball, move_player, player_step, round_end_signal,
};
use crate::round::{handle_round_end, lemma_settle_none, lemma_settle_one};
use crate::state::{
    after_escape_key, after_pause_key, handle_escape_key, handle_pause_key, GameState,
    PlayingState,
};
use crate::vector::{Vector, VectorView};
use vstd::prelude::*;

verus! {

/// What the outside world contributes to one tick.
#[derive(Clone, Copy, Debug, PartialEq, Eq, Structural)]
pub struct TickInput {
    /// The time since the tick before, in microseconds.
    pub dt: u32,
    /// Where the player wants the paddle to go, while a key for it is held.
    /// A positive vertical component means up.
    pub player_movement: Option<Vector>,
    /// Whether the pause key went down in this tick.
    pub pause_pressed: bool,
    /// Whether the escape key went down in this tick.
    pub escape_pressed: bool,
}

/// The mathematical value of a [`TickInput`].
pub struct TickInputView {
    pub dt: int,
    pub player_movement: Option<VectorView>,
    pub pause_pressed: bool,
    pub escape_pressed: bool,
}

impl View for TickInput {
    type V = TickInputView;

    open spec fn view(&self) -> TickInputView {
        TickInputView {
            dt: self.dt as int,
            player_movement: intent_of(self.player_movement),
            pause_pressed: self.pause_pressed,
            escape_pressed: self.escape_pressed,
        }
    }
}

/// What one tick tells the outside world.
#[derive(Clone, Copy, Debug, PartialEq, Eq, Structural)]
pub struct TickOutcome {
    /// The state of the game that the player has asked for, if any. To bring
    /// it about is up to the caller.
    pub requested_state: Option<GameState>,
    /// The signal of the round that ended in this tick, if one did.
    pub round_end: Option<RoundEnd>,
}

/// The whole state of the simulation.
#[derive(Clone, Copy, Debug, PartialEq, Eq, Structural)]
pub struct Simulation {
    pub game_state: GameState,
    pub playing_state: PlayingState,
    pub score: Score,
    /// The ball and the paddles, for as long as the game is being played.
    pub entities: Option<Entities>,
}

/// The mathematical value of a [`Simulation`].
pub struct SimulationView {
    pub game_state: GameState,
    pub playing_state: PlayingState,
    pub score: ScoreView,
    pub entities: Option<EntitiesView>,
}

impl View for Simulation {
    type V = SimulationView;

    open spec fn view(&self) -> SimulationView {
        SimulationView {
            game_state: self.game_state,
            playing_state: self.playing_state,
            score: self.score@,
            entities: match self.entities {
                Some(e) => Some(e@),
                None => None,
            },
        }
    }
}

/// Whether `e` can be met in the course of play: everything is well-formed,
/// the ball is on the court with the speed of the game and leans sideways,
/// and everything was spawned where the game spawns it.
pub open spec fn in_play(e: EntitiesView) -> bool {
    &&& e.wf()
    &&& -COURT_WIDTH <= e.ball.position.x <= COURT_WIDTH
    &&& -COURT_HEIGHT <= e.ball.position.y <= COURT_HEIGHT
    &&& e.ball.velocity.speed == BALL_SPEED
    &&& magnitude(e.ball.velocity.direction.x) >= MIN_LEAN
    &&& e.ball.initial == origin()
    &&& e.left.initial == PaddleView::spawned(PaddleSide::Left).initial
    &&& e.right.initial == PaddleView::spawned(PaddleSide::Right).initial
}

/// The court after `dt` microseconds of unpaused play: first the player's
/// paddle moves, then the scripted paddle, then the ball, which meets the
/// paddles where they now are.
pub open spec fn advance(e: EntitiesView, intent: Option<VectorView>, dt: int) -> EntitiesView {
    let left = player_step(e.left, intent, dt);
    let right = ai_step(e.right, e.ball.position.y, dt);
    EntitiesView { ball: ball_step(e.ball, left, right, dt), left, right }
}

impl SimulationView {
    /// The simulation before anything has happened: the menu is up, play is
    /// paused, nobody has scored and the court is empty.
    pub open spec fn initial() -> SimulationView {
        SimulationView {
            game_state: GameState::Menu,
            playing_state: PlayingState::Paused,
            score: ScoreView { player: 0, computer: 0 },
            entities: None,
        }
    }

    /// The ball and the paddles exist exactly while the game is being played,
    /// and then they are in play.
    pub open spec fn wf(self) -> bool {
        &&& self.game_state == GameState::Playing <==> self.entities.is_some()
        &&& self.entities.is_some() ==> in_play(self.entities.unwrap())
    }

    /// Whether anything on the court moves in a tick with `input`: the game
    /// is being played and, once the pause key has been looked at, play is
    /// not paused.
    pub open spec fn moves(self, input: TickInputView) -> bool {
        &&& self.game_state == GameState::Playing
        &&& self.entities.is_some()
        &&& after_pause_key(self.playing_state, input.pause_pressed) == PlayingState::Playing
    }

    /// The signal of the round that ends in a tick with `input`, if one does.
    pub open spec fn round_end(self, input: TickInputView) -> Option<RoundEnd> {
        if self.moves(input) {
            round_end_signal(advance(self.entities.unwrap(), input.player_movement, input.dt).ball)
        } else {
            None
        }
    }

    /// The state of the game that a tick with `input` asks for, if any.
    pub open spec fn request(self, input: TickInputView) -> Option<GameState> {
        if self.game_state == GameState::Playing {
            after_escape_key(input.escape_pressed)
        } else {
            None
        }
    }

    /// The simulation after a tick with `input`.
    ///
    /// Outside the game nothing happens. In the game the pause key is looked
    /// at first. If play is then paused, nothing moves. Otherwise everything
    /// moves, and if the ball has left the court, the winner is credited,
    /// everything goes back to where it was spawned and play pauses.
    pub open spec fn tick(self, input: TickInputView) -> SimulationView {
        if self.game_state != GameState::Playing {
            self
        } else if !self.moves(input) {
            SimulationView {
                game_state: self.game_state,
                playing_state: after_pause_key(self.playing_state, input.pause_pressed),
                score: self.score,
                entities: self.entities,
            }
        } else {
            let moved = advance(self.entities.unwrap(), input.player_movement, input.dt);
            match round_end_signal(moved.ball) {
                Some(end) => SimulationView {
                    game_state: self.game_state,
                    playing_state: PlayingState::Paused,
                    score: self.score.credit(end.winner),
                    entities: Some(moved.reset()),
                },
                None => SimulationView {
                    game_state: self.game_state,
                    playing_state: PlayingState::Playing,
                    score: self.score,
                    entities: Some(moved),
                },
            }
        }
    }

    /// The simulation after one tick with each of `inputs`, in their order.
    pub open spec fn run(self, inputs: Seq<TickInputView>) -> SimulationView
        decreases inputs.len(),
    {
        if inputs.len() == 0 {
            self
        } else {
            self.run(inputs.drop_last()).tick(inputs.last())
        }
    }

    /// The simulation after the game has been entered: the court is as it is
    /// spawned. The score and the state of play are kept.
    pub open spec fn enter_playing(self) -> SimulationView {
        SimulationView {
            game_state: GameState::Playing,
            playing_state: self.playing_state,
            score: self.score,
            entities: Some(EntitiesView::spawned()),
        }
    }

    /// The simulation after the game has been left: the court is empty. The
    /// score and the state of play are kept.
    pub open spec fn cleanup_game(self) -> SimulationView {
        SimulationView {
            game_state: GameState::Menu,
            playing_state: self.playing_state,
            score: self.score,
            entities: None,
        }
    }
}

/// Unpaused play keeps the court in play, but for a ball that has left it
/// sideways; and putting everything back where it was spawned mends that.
pub proof fn lemma_advance(e: EntitiesView, intent: Option<VectorView>, dt: int)
    requires
        in_play(e),
    ensures
        round_end_signal(advance(e, intent, dt).ball).is_none() ==> in_play(advance(e, intent, dt)),
        in_play(advance(e, intent, dt).reset()),
        advance(e, intent, dt).left.wf(),
        advance(e, intent, dt).right.wf(),
        advance(e, intent, dt).ball.velocity.wf(),
{
    lemma_paddle_stays_in_reach(e.left, intent, e.ball.position.y, dt);
    lemma_paddle_stays_in_reach(e.right, intent, e.ball.position.y, dt);
    let moved = advance(e, intent, dt);
    lemma_ball_step(e.ball, moved.left, moved.right, dt);
    lemma_serve_direction();
}

/// A tick keeps the simulation well-formed.
pub proof fn lemma_tick_wf(s: SimulationView, input: TickInputView)
    requires
        s.wf(),
    ensures
        s.tick(input).wf(),
        s.tick(input).game_state == s.game_state,
{
    if s.moves(input) {
        lemma_advance(s.entities.unwrap(), input.player_movement, input.dt);
    }
}

/// While play is paused nothing on the court moves and nobody scores,
/// whatever the player asks of the paddle.
pub proof fn lemma_paused_freezes(s: SimulationView, input: TickInputView)
    requires
        after_pause_key(s.playing_state, input.pause_pressed) == PlayingState::Paused,
    ensures
        s.tick(input).entities == s.entities,
        s.tick(input).score == s.score,
{
}

/// Outside the game a tick changes nothing.
pub proof fn lemma_menu_freezes(s: SimulationView, input: TickInputView)
    requires
        s.game_state != GameState::Playing,
    ensures
        s.tick(input) == s,
        s.request(input).is_none(),
        s.round_end(input).is_none(),
{
}

/// In a tick in which no round ends, the state of play is what the pause key
/// makes of it.
pub proof fn lemma_pause_key_decides(s: SimulationView, input: TickInputView)
    requires
        s.game_state == GameState::Playing,
        s.round_end(input).is_none(),
    ensures
        s.tick(input).playing_state == after_pause_key(s.playing_state, input.pause_pressed),
{
}

/// The pause key pressed, let go and pressed again, in three ticks in which
/// no round ends, leaves the state of play as it was.
pub proof fn lemma_pause_round_trip(
    s: SimulationView,
    press: TickInputView,
    release: TickInputView,
    again: TickInputView,
)
    requires
        s.game_state == GameState::Playing,
        press.pause_pressed,
        !release.pause_pressed,
        again.pause_pressed,
        s.round_end(press).is_none(),
        s.tick(press).round_end(release).is_none(),
        s.tick(press).tick(release).round_end(again).is_none(),
    ensures
        s.tick(press).tick(release).tick(again).playing_state == s.playing_state,
{
    lemma_pause_key_decides(s, press);
    lemma_pause_key_decides(s.tick(press), release);
    lemma_pause_key_decides(s.tick(press).tick(release), again);
}

/// The tick in which a round ends credits the winner, puts everything back
/// exactly where the game spawns it, serves the ball again and pauses play.
pub proof fn lemma_round_end_resets(s: SimulationView, input: TickInputView)
    requires
        s.wf(),
        s.round_end(input).is_some(),
    ensures
        s.tick(input).score == s.score.credit(s.round_end(input).unwrap().winner),
        s.tick(input).entities == Some(EntitiesView::spawned()),
        s.tick(input).playing_state == PlayingState::Paused,
{
    let moved = advance(s.entities.unwrap(), input.player_movement, input.dt);
    lemma_advance(s.entities.unwrap(), input.player_movement, input.dt);
}

/// A round ends in a tick exactly when the ball, having moved, is beyond one
/// of the two lines; the side beyond whose line it is has lost.
pub proof fn lemma_round_end_winner(s: SimulationView, input: TickInputView)
    requires
        s.moves(input),
    ensures
        ({
            let ball = advance(s.entities.unwrap(), input.player_movement, input.dt).ball;
            &&& s.round_end(input) == Some(RoundEnd { winner: PaddleSide::Left })
                <==> ball.position.x > COURT_WIDTH
            &&& s.round_end(input) == Some(RoundEnd { winner: PaddleSide::Right })
                <==> ball.position.x < -COURT_WIDTH
        }),
{
}

/// No tick takes a point away. A tick in which a round ends gives the winner
/// one point, and any other tick gives none.
pub proof fn lemma_score_never_falls(s: SimulationView, input: TickInputView)
    ensures
        s.tick(input).score.player >= s.score.player,
        s.tick(input).score.computer >= s.score.computer,
        s.round_end(input).is_none() ==> s.tick(input).score == s.score,
        s.round_end(input).is_some() ==> s.tick(input).score.player + s.tick(
            input,
        ).score.computer == s.score.player + s.score.computer + 1,
{
}

/// However many ticks pass and whatever they bring, the simulation stays
/// well-formed and in the same state of the game, and neither side loses a
/// point; both sides together gain at most one point in a tick.
pub proof fn lemma_run(s: SimulationView, inputs: Seq<TickInputView>)
    requires
        s.wf(),
    ensures
        s.run(inputs).wf(),
        s.run(inputs).game_state == s.game_state,
        s.run(inputs).score.player >= s.score.player,
        s.run(inputs).score.computer >= s.score.computer,
        s.run(inputs).score.player + s.run(inputs).score.computer <= s.score.player
            + s.score.computer + inputs.len(),
    decreases inputs.len(),
{
    if inputs.len() > 0 {
        lemma_run(s, inputs.drop_last());
        lemma_tick_wf(s.run(inputs.drop_last()), inputs.last());
        lemma_score_never_falls(s.run(inputs.drop_last()), inputs.last());
    }
}

/// However many ticks of the game pass and whatever they bring, afterwards
/// both paddles are within their reach, the ball is on the court, its
/// direction has length 1 and is never straight up or down, and its speed is
/// the speed of the game.
pub proof fn lemma_run_keeps_in_play(s: SimulationView, inputs: Seq<TickInputView>)
    requires
        s.wf(),
        s.game_state == GameState::Playing,
    ensures
        s.run(inputs).entities.is_some(),
        in_play(s.run(inputs).entities.unwrap()),
        ({
            let e = s.run(inputs).entities.unwrap();
            &&& -PADDLE_REACH <= e.left.position.y <= PADDLE_REACH
            &&& -PADDLE_REACH <= e.right.position.y <= PADDLE_REACH
            &&& -COURT_WIDTH <= e.ball.position.x <= COURT_WIDTH
            &&& -COURT_HEIGHT <= e.ball.position.y <= COURT_HEIGHT
            &&& e.ball.velocity.direction.is_unit()
            &&& e.ball.velocity.direction.x != 0
            &&& e.ball.velocity.speed == BALL_SPEED
        }),
{
    lemma_run(s, inputs);
}

impl Simulation {
    /// Whether the ball and the paddles exist exactly while the game is being
    /// played, and are in play.
    pub open spec fn wf(&self) -> bool {
        self@.wf()
    }

    /// Makes the simulation as it is before anything has happened.
    pub fn new() -> (sim: Simulation)
        ensures
            sim@ == SimulationView::initial(),
            sim.wf(),
    {
        Simulation {
            game_state: GameState::Menu,
            playing_state: PlayingState::default(),
            score: Score::new(),
            entities: None,
        }
    }

    /// Enters the game: spawns the ball and the paddles.
    pub fn enter_playing(&mut self)
        ensures
            final(self)@ == old(self)@.enter_playing(),
            final(self).wf(),
    {
        proof {
            lemma_serve_direction();
        }
        self.game_state = GameState::Playing;
        self.entities = Some(Entities::spawn());
    }

    /// Leaves the game: removes the ball and the paddles.
    pub fn cleanup_game(&mut self)
        ensures
            final(self)@ == old(self)@.cleanup_game(),
            final(self).wf(),
    {
        self.game_state = GameState::Menu;
        self.entities = None;
    }

    /// Advances the simulation by one tick.
    pub fn tick(&mut self, input: &TickInput) -> (outcome: TickOutcome)
        requires
            old(self).wf(),
            old(self).score.player < u32::MAX,
            old(self).score.computer < u32::MAX,
        ensures
            final(self)@ == old(self)@.tick(input@),
            final(self).wf(),
            outcome.requested_state == old(self)@.request(input@),
            outcome.round_end == old(self)@.round_end(input@),
    {
        proof {
            lemma_tick_wf(self@, input@);
        }
        let mut outcome = TickOutcome { requested_state: None, round_end: None };
        if self.game_state != GameState::Playing {
            return outcome;
        }
        self.playing_state = handle_pause_key(input.pause_pressed, self.playing_state);
        outcome.requested_state = handle_escape_key(input.escape_pressed);
        if self.playing_state != PlayingState::Playing {
            return outcome;
        }
        match self.entities {
            Some(spawned) => {
                let mut entities = spawned;
                let mut events: Vec<RoundEnd> = Vec::new();
                move_player(&mut entities.left, input.player_movement, input.dt);
                move_ai_paddle(&mut entities.right, &entities.ball, input.dt);
                let signal = move_ball(
                    &mut entities.ball,
                    &entities.left,
                    &entities.right,
                    input.dt,
                );
                assert(entities@ == advance(spawned@, input@.player_movement, input@.dt));
                match signal {
                    Some(end) => {
                        events.push(end);
                        proof {
                            assert(events@ == seq![end]);
                            lemma_settle_one(self.score@, end);
                        }
                    },
                    None => {
                        proof {
                            assert(events@ == Seq::<RoundEnd>::empty());
                            lemma_settle_none(self.score@);
                        }
                    },
                }
                outcome.round_end = signal;
                handle_round_end(
                    &mut events,
                    &mut entities,
                    &mut self.score,
                    &mut self.playing_state,
                );
                self.entities = Some(entities);
            },
            None => {},
        }
        outcome
    }

    /// Tells whether the simulation is well-formed.
    pub fn is_valid(&self) -> (r: bool)
        ensures
            r == self.wf(),
    {
        match self.entities {
            Some(e) => self.game_state == GameState::Playing && e.is_valid() && -COURT_WIDTH
                <= e.ball.position.x && e.ball.position.x <= COURT_WIDTH && -COURT_HEIGHT
                <= e.ball.position.y && e.ball.position.y <= COURT_HEIGHT && e.ball.velocity.speed
                == BALL_SPEED && (e.ball.velocity.direction.x >= MIN_LEAN
                || e.ball.velocity.direction.x <= -MIN_LEAN) && e.ball.initial.0.x == 0
                && e.ball.initial.0.y == 0
                && e.left.initial.0.x == -COURT_WIDTH && e.left.initial.0.y == 0
                && e.right.initial.0.x == COURT_WIDTH && e.right.initial.0.y == 0,
            None => self.game_state != GameState::Playing,
        }
    }
}

} // verus!
