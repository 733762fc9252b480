//! The agent on the grid: its moves, what a move earns, and the bookkeeping
//! of steps and episodes; and the speed and pause controls.
use vstd::prelude::*;

use crate::grid::{default_cells, lemma_default_maze_start_and_goal, CellType, GridMap, GRID_H, GRID_W};
use crate::binary32::POSITIVE_ZERO;
use crate::qlearning::{
    Action, Param, QTable, State, EPSILON_DECAY, EPSILON_MIN, EPSILON_START, Q_ALPHA, Q_GAMMA,
};

verus! {

/// An episode ends after this many steps even if the goal was not reached.
pub const MAX_STEPS: u32 = 200;

/// Reward for reaching the goal, in tenths of a point: +100.
pub const REWARD_GOAL: i64 = 1000;

/// Reward for running into a wall or off the grid, in tenths of a point: -10.
pub const REWARD_WALL: i64 = -100;

/// Reward for a step onto a free square, in tenths of a point: -0.5.
pub const REWARD_STEP: i64 = -5;

/// What happened on the last step.
#[derive(Clone, Copy, PartialEq, Eq, Structural, Debug)]
pub enum AgentEvent {
    Normal,
    Crashed,
    GoalReached,
}

/// Progress of the training. `total_reward` is the reward gathered in the
/// current episode, in tenths of a point; `best_steps` is the fewest steps
/// in which the goal was reached, `u32::MAX` while it never was.
pub struct AgentStats {
    pub episode: u32,
    pub steps: u32,
    pub total_reward: i64,
    pub best_steps: u32,
    pub last_event: AgentEvent,
}

impl AgentStats {
    /// What holds of the statistics between steps: episodes count from 1,
    /// an unfinished episode is shorter than the step limit and has only
    /// gathered step and wall rewards, and a best run, once there is one,
    /// took between 1 and `MAX_STEPS` steps.
    pub open spec fn wf(&self) -> bool {
        &&& self.episode >= 1
        &&& self.steps < MAX_STEPS
        &&& REWARD_WALL * self.steps <= self.total_reward <= 0
        &&& self.best_steps == u32::MAX || 1 <= self.best_steps <= MAX_STEPS
    }
}

impl Default for AgentStats {
    /// First episode, nothing done yet, no best run.
    fn default() -> (s: AgentStats)
        ensures
            s.episode == 1,
            s.steps == 0,
            s.total_reward == 0,
            s.best_steps == u32::MAX,
            s.last_event == AgentEvent::Normal,
            s.wf(),
    {
        AgentStats {
            episode: 1,
            steps: 0,
            total_reward: 0,
            best_steps: u32::MAX,
            last_event: AgentEvent::Normal,
        }
    }
}

/// Where the agent stands: column `x`, row `y`.
pub struct AgentMarker {
    pub x: usize,
    pub y: usize,
}

/// Speed level: 0 is normal speed, each higher level a faster one.
pub struct TurboMode(pub u32);

/// The simulation is paused.
pub struct Paused(pub bool);

/// One more, wrapping from the largest `usize` to 0.
pub open spec fn succ(v: usize) -> usize {
    if v == usize::MAX {
        0
    } else {
        (v + 1) as usize
    }
}

/// One less, wrapping from 0 to the largest `usize`.
pub open spec fn pred(v: usize) -> usize {
    if v == 0 {
        usize::MAX
    } else {
        (v - 1) as usize
    }
}

/// The square reached from column `x`, row `y` by `action`: up is the next
/// row, down the previous one, left the previous column, right the next one.
pub open spec fn moved(x: usize, y: usize, action: Action) -> (usize, usize) {
    match action {
        Action::Up => (x, succ(y)),
        Action::Down => (x, pred(y)),
        Action::Left => (pred(x), y),
        Action::Right => (succ(x), y),
    }
}

/// Every action moves by one square in the same direction wherever the agent
/// stands, counting modulo the `usize` range: up adds one to the row, down
/// takes one from it, left takes one from the column, right adds one to it,
/// and the other coordinate stays.
pub proof fn lemma_moves_are_unit_steps(x: usize, y: usize)
    ensures
        moved(x, y, Action::Up) == (x, ((y as int + 1) % (usize::MAX as int + 1)) as usize),
        moved(x, y, Action::Down) == (x, ((y as int - 1 + usize::MAX as int + 1) % (usize::MAX as int + 1)) as usize),
        moved(x, y, Action::Left) == (((x as int - 1 + usize::MAX as int + 1) % (usize::MAX as int + 1)) as usize, y),
        moved(x, y, Action::Right) == (((x as int + 1) % (usize::MAX as int + 1)) as usize, y),
{
    let r = usize::MAX as int + 1;
    if y as int + 1 < r {
        assert((y as int + 1) % r == y as int + 1);
    } else {
        assert((y as int + 1) % r == 0);
    }
    if y > 0 {
        assert((y as int - 1 + r) % r == y as int - 1);
    } else {
        assert((y as int - 1 + r) % r == r - 1);
    }
    if x as int + 1 < r {
        assert((x as int + 1) % r == x as int + 1);
    } else {
        assert((x as int + 1) % r == 0);
    }
    if x > 0 {
        assert((x as int - 1 + r) % r == x as int - 1);
    } else {
        assert((x as int - 1 + r) % r == r - 1);
    }
}

/// The action that goes back the other way.
pub open spec fn opposite(action: Action) -> Action {
    match action {
        Action::Up => Action::Down,
        Action::Down => Action::Up,
        Action::Left => Action::Right,
        Action::Right => Action::Left,
    }
}

/// The square reached by `action`; coordinates wrap around, so that a move
/// off the low edge lands far outside the grid.
pub fn apply_action(x: usize, y: usize, action: Action) -> (p: (usize, usize))
    ensures
        p == moved(x, y, action),
{
    match action {
        Action::Up => (x, y.wrapping_add(1)),
        Action::Down => (x, y.wrapping_sub(1)),
        Action::Left => (x.wrapping_sub(1), y),
        Action::Right => (x.wrapping_add(1), y),
    }
}

/// A move followed by the opposite move comes back to where it started,
/// wherever that is.
pub proof fn lemma_opposite_move_returns(x: usize, y: usize, action: Action)
    ensures
        ({
            let p = moved(x, y, action);
            moved(p.0, p.1, opposite(action))
        }) == (x, y),
{
}

/// What one step from state `s` with `action` leads to: the state after
/// it, its reward, the event, and whether the goal was reached. A move onto
/// a wall or off the grid leaves the agent where it was.
pub open spec fn step_result(grid: GridMap, s: State, action: Action) -> (State, i64, AgentEvent, bool) {
    let n = moved(s.0, s.1, action);
    if !grid.open_at(n.0 as int, n.1 as int) {
        (s, REWARD_WALL, AgentEvent::Crashed, false)
    } else if grid.cell_at(n.0 as int, n.1 as int) == CellType::Goal {
        (n, REWARD_GOAL, AgentEvent::GoalReached, true)
    } else {
        (n, REWARD_STEP, AgentEvent::Normal, false)
    }
}

/// What a step earns depends only on the square it tries to reach, never on
/// the direction taken: a blocked move (wall or off the grid) is a crash
/// that costs the wall penalty and leaves the agent in place; a move onto
/// the goal earns the goal reward and ends the episode; a move onto any
/// other free square costs the step penalty. Each reward goes with exactly
/// one event.
pub proof fn lemma_reward_depends_on_square(grid: GridMap, s: State, action: Action)
    ensures
        ({
            let target = moved(s.0, s.1, action);
            let (next, reward, event, done) = step_result(grid, s, action);
            &&& (reward == REWARD_WALL <==> event == AgentEvent::Crashed)
            &&& (reward == REWARD_GOAL <==> event == AgentEvent::GoalReached)
            &&& (reward == REWARD_STEP <==> event == AgentEvent::Normal)
            &&& (event == AgentEvent::Crashed <==> !grid.open_at(target.0 as int, target.1 as int))
            &&& (event == AgentEvent::Crashed ==> next == s)
            &&& (event != AgentEvent::Crashed ==> next == target)
            &&& (event != AgentEvent::Crashed ==> (event == AgentEvent::GoalReached <==> grid.cell_at(
                target.0 as int,
                target.1 as int,
            ) == CellType::Goal))
            &&& (done <==> event == AgentEvent::GoalReached)
        }),
{
}

/// Two steps that reach squares holding the same thing earn the same
/// reward and raise the same event, whatever their directions and starting
/// squares.
pub proof fn lemma_same_square_same_reward(grid: GridMap, s1: State, a1: Action, s2: State, a2: Action)
    requires
        ({
            let t1 = moved(s1.0, s1.1, a1);
            let t2 = moved(s2.0, s2.1, a2);
            &&& grid.open_at(t1.0 as int, t1.1 as int) == grid.open_at(t2.0 as int, t2.1 as int)
            &&& grid.open_at(t1.0 as int, t1.1 as int) ==> grid.cell_at(t1.0 as int, t1.1 as int)
                == grid.cell_at(t2.0 as int, t2.1 as int)
        }),
    ensures
        step_result(grid, s1, a1).1 == step_result(grid, s2, a2).1,
        step_result(grid, s1, a1).2 == step_result(grid, s2, a2).2,
{
    lemma_reward_depends_on_square(grid, s1, a1);
    lemma_reward_depends_on_square(grid, s2, a2);
}

/// The statistics and the agent's square after one step from square `pos`
/// with `action`.
pub open spec fn stepped(stats: AgentStats, pos: State, grid: GridMap, action: Action) -> (AgentStats, State) {
    let (next, reward, event, done) = step_result(grid, pos, action);
    let best = if done && stats.steps + 1 < stats.best_steps {
        (stats.steps + 1) as u32
    } else {
        stats.best_steps
    };
    if done || stats.steps + 1 >= MAX_STEPS {
        (
            AgentStats {
                episode: (stats.episode + 1) as u32,
                steps: 0,
                total_reward: 0,
                best_steps: best,
                last_event: event,
            },
            (0usize, 0usize),
        )
    } else {
        (
            AgentStats {
                episode: stats.episode,
                steps: (stats.steps + 1) as u32,
                total_reward: (stats.total_reward + reward) as i64,
                best_steps: best,
                last_event: event,
            },
            next,
        )
    }
}

/// The statistics and the agent's square after the steps `actions`, taken
/// in order.
pub open spec fn run(stats: AgentStats, pos: State, grid: GridMap, actions: Seq<Action>) -> (AgentStats, State)
    decreases actions.len(),
{
    if actions.len() == 0 {
        (stats, pos)
    } else {
        let (s, p) = stepped(stats, pos, grid, actions[0]);
        run(s, p, grid, actions.drop_first())
    }
}

/// The result of one step of the agent, for the learner and the display.
pub struct StepOutcome {
    /// Where the agent stood before the step.
    pub state: State,
    /// Where the step took it, before any return to the start.
    pub next_state: State,
    /// The reward, in tenths of a point.
    pub reward: i64,
    pub event: AgentEvent,
    /// The goal was reached.
    pub done: bool,
    /// The episode ended, by the goal or by the step limit: the agent is
    /// back at the start and a new episode begins.
    pub episode_over: bool,
}

/// One step of the agent with `action`: moves it unless the move hits a
/// wall or leaves the grid, gives the reward, updates the statistics and,
/// when the goal is reached or the step limit is hit, starts a new episode
/// with the agent back at column 0, row 0.
pub fn agent_step(stats: &mut AgentStats, agent: &mut AgentMarker, grid: &GridMap, action: Action) -> (o: StepOutcome)
    requires
        old(stats).episode < u32::MAX,
        old(stats).steps < u32::MAX,
        i64::MIN - REWARD_WALL <= old(stats).total_reward <= i64::MAX - REWARD_GOAL,
    ensures
        o.state == (old(agent).x, old(agent).y),
        (o.next_state, o.reward, o.event, o.done) == step_result(*grid, o.state, action),
        o.episode_over == (o.done || old(stats).steps + 1 >= MAX_STEPS),
        final(stats).last_event == o.event,
        final(stats).best_steps == if o.done && old(stats).steps + 1 < old(stats).best_steps {
            (old(stats).steps + 1) as u32
        } else {
            old(stats).best_steps
        },
        o.episode_over ==> {
            &&& final(stats).episode == old(stats).episode + 1
            &&& final(stats).steps == 0
            &&& final(stats).total_reward == 0
            &&& final(agent).x == 0 && final(agent).y == 0
        },
        !o.episode_over ==> {
            &&& final(stats).episode == old(stats).episode
            &&& final(stats).steps == old(stats).steps + 1
            &&& final(stats).total_reward == old(stats).total_reward + o.reward
            &&& (final(agent).x, final(agent).y) == o.next_state
        },
        final(stats).best_steps <= old(stats).best_steps,
        (*final(stats), (final(agent).x, final(agent).y)) == stepped(*old(stats), o.state, *grid, action),
        old(stats).wf() ==> final(stats).wf(),
        grid.open_at(old(agent).x as int, old(agent).y as int) && grid.open_at(0, 0) ==> grid.open_at(
            final(agent).x as int,
            final(agent).y as int,
        ),
{
    let state = (agent.x, agent.y);
    let (nx, ny) = apply_action(agent.x, agent.y, action);
    let valid = nx < GRID_W && ny < GRID_H && grid.is_walkable(nx, ny);
    let (next_state, reward, event, done) = if !valid {
        (state, REWARD_WALL, AgentEvent::Crashed, false)
    } else {
        agent.x = nx;
        agent.y = ny;
        if grid.cell(nx, ny) == CellType::Goal {
            if stats.steps + 1 < stats.best_steps {
                stats.best_steps = stats.steps + 1;
            }
            ((nx, ny), REWARD_GOAL, AgentEvent::GoalReached, true)
        } else {
            ((nx, ny), REWARD_STEP, AgentEvent::Normal, false)
        }
    };
    stats.last_event = event;
    stats.total_reward = stats.total_reward + reward;
    stats.steps = stats.steps + 1;
    let episode_over = done || stats.steps >= MAX_STEPS;
    if episode_over {
        stats.episode = stats.episode + 1;
        stats.steps = 0;
        stats.total_reward = 0;
        agent.x = 0;
        agent.y = 0;
    }
    StepOutcome { state, next_state, reward, event, done, episode_over }
}

/// One step keeps the statistics' invariant and keeps the agent on a free
/// square of the grid, provided the start square is free.
pub proof fn lemma_step_keeps_agent_in_maze(stats: AgentStats, pos: State, grid: GridMap, action: Action)
    requires
        stats.wf(),
        stats.episode < u32::MAX,
        grid.open_at(pos.0 as int, pos.1 as int),
        grid.open_at(0, 0),
    ensures
        stepped(stats, pos, grid, action).0.wf(),
        grid.open_at(stepped(stats, pos, grid, action).1.0 as int, stepped(stats, pos, grid, action).1.1 as int),
{
}

/// Any number of steps keeps the statistics' invariant and keeps the agent
/// on a free square of the grid, provided the start square is free and the
/// episode counter does not overflow.
pub proof fn lemma_run_keeps_agent_in_maze(stats: AgentStats, pos: State, grid: GridMap, actions: Seq<Action>)
    requires
        stats.wf(),
        stats.episode + actions.len() < u32::MAX,
        grid.open_at(pos.0 as int, pos.1 as int),
        grid.open_at(0, 0),
    ensures
        run(stats, pos, grid, actions).0.wf(),
        grid.open_at(run(stats, pos, grid, actions).1.0 as int, run(stats, pos, grid, actions).1.1 as int),
    decreases actions.len(),
{
    if actions.len() > 0 {
        lemma_step_keeps_agent_in_maze(stats, pos, grid, actions[0]);
        let (s, p) = stepped(stats, pos, grid, actions[0]);
        lemma_run_keeps_agent_in_maze(s, p, grid, actions.drop_first());
    }
}

/// The rewards of the steps `actions`, taken in order from `stats` and `pos`.
pub open spec fn rewards_of(stats: AgentStats, pos: State, grid: GridMap, actions: Seq<Action>) -> int
    decreases actions.len(),
{
    if actions.len() == 0 {
        0
    } else {
        let (s, p) = stepped(stats, pos, grid, actions[0]);
        step_result(grid, pos, actions[0]).1 + rewards_of(s, p, grid, actions.drop_first())
    }
}

/// The episode counter never goes down.
pub proof fn lemma_run_episode_grows(stats: AgentStats, pos: State, grid: GridMap, actions: Seq<Action>)
    requires
        stats.episode + actions.len() < u32::MAX,
    ensures
        run(stats, pos, grid, actions).0.episode >= stats.episode,
    decreases actions.len(),
{
    if actions.len() > 0 {
        let (s, p) = stepped(stats, pos, grid, actions[0]);
        lemma_run_episode_grows(s, p, grid, actions.drop_first());
    }
}

/// Within one episode the total reward is the reward it started with plus
/// the rewards of the steps taken since: when the steps `actions` leave the
/// episode counter unchanged, they add up exactly to the change in
/// `total_reward`.
pub proof fn lemma_total_reward_sums_episode(stats: AgentStats, pos: State, grid: GridMap, actions: Seq<Action>)
    requires
        stats.wf(),
        stats.episode + actions.len() < u32::MAX,
        run(stats, pos, grid, actions).0.episode == stats.episode,
    ensures
        run(stats, pos, grid, actions).0.total_reward == stats.total_reward + rewards_of(stats, pos, grid, actions),
    decreases actions.len(),
{
    if actions.len() > 0 {
        let (s, p) = stepped(stats, pos, grid, actions[0]);
        lemma_run_episode_grows(s, p, grid, actions.drop_first());
        assert(s.episode == stats.episode);
        assert(s.wf());
        lemma_total_reward_sums_episode(s, p, grid, actions.drop_first());
    }
}

/// Fewest steps from the start to the goal of the shipped maze: it lies
/// 9 columns and 9 rows away.
pub open spec fn goal_distance() -> int {
    (GRID_W - 1) + (GRID_H - 1)
}

/// In the shipped maze the agent is never further (counting columns plus
/// rows) from the start than the steps of its episode, and a best run, once
/// there is one, is no shorter than the distance to the goal.
pub open spec fn within_reach(stats: AgentStats, pos: State) -> bool {
    &&& pos.0 + pos.1 <= stats.steps
    &&& stats.best_steps == u32::MAX || goal_distance() <= stats.best_steps
}

/// One step in the shipped maze keeps `within_reach`.
pub proof fn lemma_step_within_reach(stats: AgentStats, pos: State, action: Action)
    requires
        stats.wf(),
        stats.episode < u32::MAX,
        (GridMap { cells: default_cells() }).open_at(pos.0 as int, pos.1 as int),
        within_reach(stats, pos),
    ensures
        ({
            let (s, p) = stepped(stats, pos, GridMap { cells: default_cells() }, action);
            within_reach(s, p)
        }),
{
    lemma_default_maze_start_and_goal();
    let grid = GridMap { cells: default_cells() };
    let n = moved(pos.0, pos.1, action);
    if grid.open_at(n.0 as int, n.1 as int) {
        assert(n.0 + n.1 <= pos.0 + pos.1 + 1);
        if grid.cell_at(n.0 as int, n.1 as int) == CellType::Goal {
            assert(default_cells()[n.1 as int][n.0 as int] == CellType::Goal);
            assert(n.0 == 9 && n.1 == 9);
        }
    }
}

/// Any number of steps in the shipped maze from a state within reach stays
/// within reach: no episode reaches the goal in fewer steps than its
/// distance from the start.
pub proof fn lemma_run_within_reach(stats: AgentStats, pos: State, actions: Seq<Action>)
    requires
        stats.wf(),
        stats.episode + actions.len() < u32::MAX,
        (GridMap { cells: default_cells() }).open_at(pos.0 as int, pos.1 as int),
        within_reach(stats, pos),
    ensures
        ({
            let (s, p) = run(stats, pos, GridMap { cells: default_cells() }, actions);
            within_reach(s, p)
        }),
    decreases actions.len(),
{
    if actions.len() > 0 {
        let grid = GridMap { cells: default_cells() };
        lemma_default_maze_start_and_goal();
        lemma_step_within_reach(stats, pos, actions[0]);
        lemma_step_keeps_agent_in_maze(stats, pos, grid, actions[0]);
        let (s, p) = stepped(stats, pos, grid, actions[0]);
        lemma_run_within_reach(s, p, actions.drop_first());
    }
}

/// Number of speed levels; pressing the speed key cycles through them.
pub const TURBO_LEVELS: u32 = 7;

/// The speed level after one press of the speed key.
pub open spec fn next_turbo(level: u32) -> u32 {
    ((level + 1) % (TURBO_LEVELS as int)) as u32
}

/// By how much a speed level divides the normal interval between steps:
/// 1, 8, 16, 32, 64, 1000 and 5000 for levels 0 to 6, and 1 beyond.
pub open spec fn speedup(level: u32) -> u32 {
    if level == 1 {
        8
    } else if level == 2 {
        16
    } else if level == 3 {
        32
    } else if level == 4 {
        64
    } else if level == 5 {
        1000
    } else if level == 6 {
        5000
    } else {
        1
    }
}

/// By how much speed level `level` divides the normal interval between steps.
pub fn turbo_speedup(level: u32) -> (f: u32)
    ensures
        f == speedup(level),
{
    match level {
        1 => 8,
        2 => 16,
        3 => 32,
        4 => 64,
        5 => 1000,
        6 => 5000,
        _ => 1,
    }
}

/// The parameter panel: shown or hidden, and the parameter that the left and
/// right keys adjust.
pub struct ParamPanel {
    pub visible: bool,
    pub selected: Param,
}

impl Default for ParamPanel {
    /// Hidden, on the learning rate.
    fn default() -> (p: ParamPanel)
        ensures
            !p.visible,
            p.selected == Param::Alpha,
    {
        ParamPanel { visible: false, selected: Param::Alpha }
    }
}

/// The keys pressed since the last frame: speed (T), pause (space), reset
/// (R), parameter panel (P) and the four arrows.
pub struct KeyPresses {
    pub turbo: bool,
    pub pause: bool,
    pub reset: bool,
    pub panel: bool,
    pub up: bool,
    pub down: bool,
    pub left: bool,
    pub right: bool,
}

/// A request to move parameter `param` one step up (`raise`) or down.
#[derive(Clone, Copy, PartialEq, Eq, Structural, Debug)]
pub struct Adjustment {
    pub param: Param,
    pub raise: bool,
}

/// What the keys ask of the caller: a new step interval (the normal one
/// divided by `speedup`), a reset of the training, a parameter adjustment.
pub struct InputEffect {
    pub speedup: Option<u32>,
    pub reset: bool,
    pub adjust: Option<Adjustment>,
}

/// Reacts to the keys. The speed key moves to the next speed level and
/// returns that level's speed-up; the pause key toggles the pause; the panel
/// key shows or hides the parameter panel; while the panel is shown, up and
/// down select the previous or next parameter and left or right ask to lower
/// or raise it; the reset key asks for a fresh start.
pub fn handle_input(turbo: &mut TurboMode, paused: &mut Paused, panel: &mut ParamPanel, keys: &KeyPresses) -> (e: InputEffect)
    requires
        keys.turbo ==> old(turbo).0 < u32::MAX,
    ensures
        final(turbo).0 == if keys.turbo { next_turbo(old(turbo).0) } else { old(turbo).0 },
        e.speedup == if keys.turbo { Some(speedup(final(turbo).0)) } else { None::<u32> },
        final(paused).0 == (old(paused).0 != keys.pause),
        final(panel).visible == (old(panel).visible != keys.panel),
        final(panel).selected == if final(panel).visible && keys.up && !keys.down {
            old(panel).selected.preceding()
        } else if final(panel).visible && keys.down && !keys.up {
            old(panel).selected.following()
        } else {
            old(panel).selected
        },
        e.reset == keys.reset,
        e.adjust == if final(panel).visible && keys.left != keys.right {
            Some(Adjustment { param: final(panel).selected, raise: keys.right })
        } else {
            None::<Adjustment>
        },
{
    let mut speed: Option<u32> = None;
    if keys.turbo {
        turbo.0 = (turbo.0 + 1) % TURBO_LEVELS;
        speed = Some(turbo_speedup(turbo.0));
    }
    if keys.pause {
        paused.0 = !paused.0;
    }
    if keys.panel {
        panel.visible = !panel.visible;
    }
    let mut adjust: Option<Adjustment> = None;
    if panel.visible {
        if keys.up && !keys.down {
            panel.selected = panel.selected.prev();
        } else if keys.down && !keys.up {
            panel.selected = panel.selected.next();
        }
        if keys.left != keys.right {
            adjust = Some(Adjustment { param: panel.selected, raise: keys.right });
        }
    }
    InputEffect { speedup: speed, reset: keys.reset, adjust }
}

/// Starts the training afresh: first episode, nothing learnt, the agent at
/// the start square, the shipped parameters.
pub fn reset_training(stats: &mut AgentStats, agent: &mut AgentMarker, qtable: &mut QTable)
    ensures
        final(stats).episode == 1,
        final(stats).steps == 0,
        final(stats).total_reward == 0,
        final(stats).best_steps == u32::MAX,
        final(stats).last_event == AgentEvent::Normal,
        final(agent).x == 0 && final(agent).y == 0,
        forall|s: State, a: Action| #[trigger] final(qtable).q(s, a) == POSITIVE_ZERO,
        final(qtable).epsilon == EPSILON_START,
        final(qtable).alpha == Q_ALPHA,
        final(qtable).gamma == Q_GAMMA,
        final(qtable).epsilon_min == EPSILON_MIN,
        final(qtable).epsilon_decay == EPSILON_DECAY,
{
    *stats = AgentStats::default();
    agent.x = 0;
    agent.y = 0;
    *qtable = QTable::default();
}

/// Speed levels stay below `TURBO_LEVELS`, and pressing the speed key
/// `TURBO_LEVELS` times from any level below it comes back to that level.
pub proof fn lemma_turbo_cycles(level: u32)
    ensures
        level < u32::MAX ==> next_turbo(level) < TURBO_LEVELS,
        level < TURBO_LEVELS ==> next_turbo(next_turbo(next_turbo(next_turbo(next_turbo(
            next_turbo(next_turbo(level)),
        ))))) == level,
{
}

} // verus!
