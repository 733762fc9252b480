use tapado::agent::{
    agent_step, apply_action, handle_input, reset_training, turbo_speedup, Adjustment, AgentEvent,
    AgentMarker, AgentStats, KeyPresses, ParamPanel, Paused, TurboMode, MAX_STEPS, REWARD_GOAL,
    REWARD_STEP, REWARD_WALL, TURBO_LEVELS,
};
use tapado::qlearning::{Param, QTable, EPSILON_START};

fn keys() -> KeyPresses {
    KeyPresses {
        turbo: false,
        pause: false,
        reset: false,
        panel: false,
        up: false,
        down: false,
        left: false,
        right: false,
    }
}
use tapado::grid::GridMap;
use tapado::qlearning::Action;

#[test]
fn moves_go_one_square() {
    assert_eq!(apply_action(4, 4, Action::Up), (4, 5));
    assert_eq!(apply_action(4, 4, Action::Down), (4, 3));
    assert_eq!(apply_action(4, 4, Action::Left), (3, 4));
    assert_eq!(apply_action(4, 4, Action::Right), (5, 4));
}

#[test]
fn moves_wrap_at_the_edges() {
    assert_eq!(apply_action(0, 0, Action::Left), (usize::MAX, 0));
    assert_eq!(apply_action(0, 0, Action::Down), (0, usize::MAX));
    assert_eq!(apply_action(usize::MAX, 3, Action::Right), (0, 3));
    assert_eq!(apply_action(3, usize::MAX, Action::Up), (3, 0));
}

#[test]
fn opposite_move_returns() {
    let pairs = [
        (Action::Up, Action::Down),
        (Action::Down, Action::Up),
        (Action::Left, Action::Right),
        (Action::Right, Action::Left),
    ];
    for &(x, y) in &[(0usize, 0usize), (5, 7), (usize::MAX, 0), (0, usize::MAX)] {
        for &(a, b) in &pairs {
            let (px, py) = apply_action(x, y, a);
            assert_eq!(apply_action(px, py, b), (x, y));
        }
    }
}

#[test]
fn default_stats() {
    let s = AgentStats::default();
    assert_eq!(s.episode, 1);
    assert_eq!(s.steps, 0);
    assert_eq!(s.total_reward, 0);
    assert_eq!(s.best_steps, u32::MAX);
    assert_eq!(s.last_event, AgentEvent::Normal);
}

#[test]
fn step_onto_free_square() {
    let g = GridMap::default();
    let mut s = AgentStats::default();
    let mut a = AgentMarker { x: 0, y: 0 };
    let o = agent_step(&mut s, &mut a, &g, Action::Right);
    assert_eq!(o.state, (0, 0));
    assert_eq!(o.next_state, (1, 0));
    assert_eq!(o.reward, REWARD_STEP);
    assert_eq!(o.event, AgentEvent::Normal);
    assert!(!o.done && !o.episode_over);
    assert_eq!((a.x, a.y), (1, 0));
    assert_eq!(s.steps, 1);
    assert_eq!(s.total_reward, -5);
    assert_eq!(s.last_event, AgentEvent::Normal);
}

#[test]
fn step_into_wall_stays() {
    let g = GridMap::default();
    let mut s = AgentStats::default();
    let mut a = AgentMarker { x: 2, y: 0 };
    let o = agent_step(&mut s, &mut a, &g, Action::Right);
    assert_eq!(o.next_state, (2, 0));
    assert_eq!(o.reward, REWARD_WALL);
    assert_eq!(o.event, AgentEvent::Crashed);
    assert_eq!((a.x, a.y), (2, 0));
    assert_eq!(s.steps, 1);
    assert_eq!(s.total_reward, -100);
    assert_eq!(s.last_event, AgentEvent::Crashed);
}

#[test]
fn step_off_the_grid_stays() {
    let g = GridMap::default();
    let mut s = AgentStats::default();
    let mut a = AgentMarker { x: 0, y: 0 };
    let o = agent_step(&mut s, &mut a, &g, Action::Down);
    assert_eq!(o.event, AgentEvent::Crashed);
    assert_eq!((a.x, a.y), (0, 0));
    let o = agent_step(&mut s, &mut a, &g, Action::Left);
    assert_eq!(o.event, AgentEvent::Crashed);
    assert_eq!((a.x, a.y), (0, 0));
    let mut b = AgentMarker { x: 9, y: 5 };
    let o = agent_step(&mut s, &mut b, &g, Action::Right);
    assert_eq!(o.event, AgentEvent::Crashed);
    assert_eq!((b.x, b.y), (9, 5));
    assert_eq!(s.total_reward, -300);
}

#[test]
fn reaching_goal_ends_episode() {
    let g = GridMap::default();
    let mut s = AgentStats::default();
    s.steps = 41;
    s.total_reward = -60;
    let mut a = AgentMarker { x: 9, y: 8 };
    let o = agent_step(&mut s, &mut a, &g, Action::Up);
    assert!(o.done && o.episode_over);
    assert_eq!(o.reward, REWARD_GOAL);
    assert_eq!(o.next_state, (9, 9));
    assert_eq!(o.event, AgentEvent::GoalReached);
    assert_eq!(s.best_steps, 42);
    assert_eq!(s.episode, 2);
    assert_eq!(s.steps, 0);
    assert_eq!(s.total_reward, 0);
    assert_eq!((a.x, a.y), (0, 0));
}

#[test]
fn best_steps_only_improves() {
    let g = GridMap::default();
    let mut s = AgentStats::default();
    s.best_steps = 20;
    s.steps = 30;
    let mut a = AgentMarker { x: 8, y: 9 };
    agent_step(&mut s, &mut a, &g, Action::Right);
    assert_eq!(s.best_steps, 20);
    s.steps = 10;
    let mut a = AgentMarker { x: 8, y: 9 };
    agent_step(&mut s, &mut a, &g, Action::Right);
    assert_eq!(s.best_steps, 11);
}

#[test]
fn step_limit_ends_episode() {
    let g = GridMap::default();
    let mut s = AgentStats::default();
    let mut a = AgentMarker { x: 0, y: 0 };
    for i in 0..MAX_STEPS - 1 {
        let o = agent_step(&mut s, &mut a, &g, Action::Down);
        assert!(!o.episode_over);
        assert_eq!(s.steps, i + 1);
    }
    assert_eq!(s.total_reward, -100 * (MAX_STEPS as i64 - 1));
    let o = agent_step(&mut s, &mut a, &g, Action::Right);
    assert!(o.episode_over && !o.done);
    assert_eq!(s.episode, 2);
    assert_eq!(s.steps, 0);
    assert_eq!(s.total_reward, 0);
    assert_eq!(s.best_steps, u32::MAX);
    assert_eq!((a.x, a.y), (0, 0));
}

#[test]
fn shortest_path_through_default_maze() {
    let (u, r) = (Action::Up, Action::Right);
    let path = [u, u, u, u, u, u, u, u, r, r, r, u, r, r, r, r, r, r];
    let g = GridMap::default();
    let mut s = AgentStats::default();
    let mut a = AgentMarker { x: 0, y: 0 };
    let mut total = 0;
    for (i, &act) in path.iter().enumerate() {
        let o = agent_step(&mut s, &mut a, &g, act);
        assert_ne!(o.event, AgentEvent::Crashed);
        total += o.reward;
        if i + 1 < path.len() {
            assert!(!o.episode_over);
            assert_eq!(s.total_reward, total);
        } else {
            assert!(o.done);
        }
    }
    assert_eq!(total, 17 * REWARD_STEP + REWARD_GOAL);
    assert_eq!(s.best_steps, 18);
    assert_eq!(s.episode, 2);
}

#[test]
fn turbo_cycles_through_seven_levels() {
    let mut t = TurboMode(0);
    let mut p = Paused(false);
    let mut panel = ParamPanel::default();
    let mut seen = Vec::new();
    for _ in 0..TURBO_LEVELS {
        let k = KeyPresses { turbo: true, ..keys() };
        seen.push(handle_input(&mut t, &mut p, &mut panel, &k).speedup.unwrap());
    }
    assert_eq!(seen, vec![8, 16, 32, 64, 1000, 5000, 1]);
    assert_eq!(t.0, 0);
    assert!(!p.0);
}

#[test]
fn pause_toggles() {
    let mut t = TurboMode(3);
    let mut p = Paused(false);
    let mut panel = ParamPanel::default();
    let k = KeyPresses { pause: true, ..keys() };
    assert_eq!(handle_input(&mut t, &mut p, &mut panel, &k).speedup, None);
    assert!(p.0);
    assert_eq!(t.0, 3);
    assert_eq!(handle_input(&mut t, &mut p, &mut panel, &k).speedup, None);
    assert!(!p.0);
    assert_eq!(handle_input(&mut t, &mut p, &mut panel, &keys()).speedup, None);
    assert!(!p.0);
}

#[test]
fn panel_selects_and_adjusts_only_when_shown() {
    let mut t = TurboMode(0);
    let mut p = Paused(false);
    let mut panel = ParamPanel::default();
    assert!(!panel.visible);
    let e = handle_input(&mut t, &mut p, &mut panel, &KeyPresses { right: true, down: true, ..keys() });
    assert_eq!(e.adjust, None);
    assert_eq!(panel.selected, Param::Alpha);
    let e = handle_input(&mut t, &mut p, &mut panel, &KeyPresses { panel: true, ..keys() });
    assert!(panel.visible);
    assert_eq!(e.adjust, None);
    let e = handle_input(&mut t, &mut p, &mut panel, &KeyPresses { down: true, right: true, ..keys() });
    assert_eq!(panel.selected, Param::Gamma);
    assert_eq!(e.adjust, Some(Adjustment { param: Param::Gamma, raise: true }));
    let e = handle_input(&mut t, &mut p, &mut panel, &KeyPresses { up: true, ..keys() });
    assert_eq!(panel.selected, Param::Alpha);
    assert_eq!(e.adjust, None);
    let e = handle_input(&mut t, &mut p, &mut panel, &KeyPresses { up: true, left: true, ..keys() });
    assert_eq!(panel.selected, Param::Epsilon);
    assert_eq!(e.adjust, Some(Adjustment { param: Param::Epsilon, raise: false }));
    let e = handle_input(&mut t, &mut p, &mut panel, &KeyPresses { left: true, right: true, ..keys() });
    assert_eq!(e.adjust, None);
    handle_input(&mut t, &mut p, &mut panel, &KeyPresses { panel: true, ..keys() });
    assert!(!panel.visible);
}

#[test]
fn reset_key_asks_for_reset() {
    let mut t = TurboMode(0);
    let mut p = Paused(false);
    let mut panel = ParamPanel::default();
    assert!(handle_input(&mut t, &mut p, &mut panel, &KeyPresses { reset: true, ..keys() }).reset);
    assert!(!handle_input(&mut t, &mut p, &mut panel, &keys()).reset);
}

#[test]
fn reset_training_starts_afresh() {
    let g = GridMap::default();
    let mut s = AgentStats::default();
    let mut a = AgentMarker { x: 0, y: 0 };
    let mut q = QTable::default();
    agent_step(&mut s, &mut a, &g, Action::Right);
    q.set((0, 0), Action::Right, 5);
    q.epsilon = 7;
    s.best_steps = 30;
    reset_training(&mut s, &mut a, &mut q);
    assert_eq!((s.episode, s.steps, s.total_reward, s.best_steps), (1, 0, 0, u32::MAX));
    assert_eq!((a.x, a.y), (0, 0));
    assert_eq!(q.get((0, 0), Action::Right), 0);
    assert_eq!(q.epsilon, EPSILON_START);
}

#[test]
fn speedups_per_level() {
    let v: Vec<u32> = (0..9).map(turbo_speedup).collect();
    assert_eq!(v, vec![1, 8, 16, 32, 64, 1000, 5000, 1, 1]);
}
