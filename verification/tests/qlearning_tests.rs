use tapado::binary32::NEGATIVE_INFINITY;
use tapado::qlearning::{
    action_count, choose_action, key_of, pick_action, Action, ActionValues, Param, QTable,
    EPSILON_DECAY, EPSILON_MIN, EPSILON_START, Q_ALPHA, Q_GAMMA,
};

fn b(v: f32) -> u32 {
    v.to_bits()
}

#[test]
fn parameters_are_the_documented_numbers() {
    assert_eq!(f32::from_bits(EPSILON_START), 1.0);
    assert_eq!(f32::from_bits(Q_ALPHA), 0.15);
    assert_eq!(f32::from_bits(Q_GAMMA), 0.99);
    assert_eq!(f32::from_bits(EPSILON_MIN), 0.05);
    assert_eq!(f32::from_bits(EPSILON_DECAY), 0.0015);
    let q = QTable::default();
    assert_eq!(q.epsilon, EPSILON_START);
    assert_eq!(q.alpha, Q_ALPHA);
    assert_eq!(q.gamma, Q_GAMMA);
    assert_eq!(q.epsilon_min, EPSILON_MIN);
    assert_eq!(q.epsilon_decay, EPSILON_DECAY);
}

#[test]
fn fresh_table_reads_zero() {
    let q = QTable::default();
    for a in Action::ALL {
        assert_eq!(q.get((0, 0), a), 0);
        assert_eq!(q.get((7, 3), a), 0);
        assert_eq!(q.get((usize::MAX, usize::MAX), a), 0);
    }
}

#[test]
fn get_returns_what_set_wrote() {
    let mut q = QTable::default();
    q.set((1, 2), Action::Left, b(3.5));
    q.set((2, 1), Action::Left, b(-1.25));
    assert_eq!(f32::from_bits(q.get((1, 2), Action::Left)), 3.5);
    assert_eq!(f32::from_bits(q.get((2, 1), Action::Left)), -1.25);
    assert_eq!(q.get((1, 2), Action::Right), 0);
    assert_eq!(q.get((1, 3), Action::Left), 0);
    q.set((1, 2), Action::Left, b(7.0));
    assert_eq!(f32::from_bits(q.get((1, 2), Action::Left)), 7.0);
    assert_eq!(f32::from_bits(q.get((2, 1), Action::Left)), -1.25);
    assert_eq!(q.epsilon, EPSILON_START);
}

#[test]
fn best_action_breaks_ties_towards_the_last() {
    let q = QTable::default();
    assert_eq!(q.best_action((4, 4)), Action::Right);
    let mut q = QTable::default();
    q.set((4, 4), Action::Up, b(2.0));
    q.set((4, 4), Action::Left, b(2.0));
    q.set((4, 4), Action::Right, b(1.0));
    assert_eq!(q.best_action((4, 4)), Action::Left);
}

#[test]
fn best_action_takes_the_largest() {
    let mut q = QTable::default();
    q.set((0, 0), Action::Up, b(-1.0));
    q.set((0, 0), Action::Down, b(5.0));
    q.set((0, 0), Action::Left, b(-3.0));
    q.set((0, 0), Action::Right, b(4.9));
    assert_eq!(q.best_action((0, 0)), Action::Down);
    let mut q = QTable::default();
    for a in Action::ALL {
        q.set((0, 0), a, b(-10.0));
    }
    q.set((0, 0), Action::Up, b(-0.5));
    assert_eq!(q.best_action((0, 0)), Action::Up);
}

#[test]
fn zeros_of_both_signs_tie() {
    let mut q = QTable::default();
    q.set((0, 0), Action::Right, b(-0.0));
    assert_eq!(q.best_action((0, 0)), Action::Right);
}

#[test]
fn best_value_is_the_maximum() {
    let mut q = QTable::default();
    q.set((0, 0), Action::Up, b(-1.0));
    q.set((0, 0), Action::Down, b(5.0));
    q.set((0, 0), Action::Left, b(-3.0));
    q.set((0, 0), Action::Right, b(4.9));
    assert_eq!(f32::from_bits(q.best_value((0, 0))), 5.0);
    assert_eq!(f32::from_bits(QTable::default().best_value((3, 3))), 0.0);
}

#[test]
fn best_value_ignores_nan() {
    let mut q = QTable::default();
    for a in Action::ALL {
        q.set((0, 0), a, b(-2.0));
    }
    q.set((0, 0), Action::Down, b(f32::NAN));
    assert_eq!(f32::from_bits(q.best_value((0, 0))), -2.0);
    for a in Action::ALL {
        q.set((0, 0), a, b(f32::NAN));
    }
    assert_eq!(q.best_value((0, 0)), NEGATIVE_INFINITY);
    assert_eq!(f32::from_bits(NEGATIVE_INFINITY), f32::NEG_INFINITY);
}

#[test]
fn best_value_matches_best_action() {
    let mut q = QTable::default();
    q.set((2, 2), Action::Left, b(0.75));
    q.set((2, 2), Action::Up, b(-0.75));
    let a = q.best_action((2, 2));
    assert_eq!(q.get((2, 2), a), q.best_value((2, 2)));
}

#[test]
fn epsilon_decays_to_its_floor() {
    let mut q = QTable::default();
    let lowered = f32::from_bits(q.epsilon) - f32::from_bits(q.epsilon_decay);
    q.decay_epsilon(b(lowered));
    assert_eq!(f32::from_bits(q.epsilon), 1.0 - 0.0015);
    q.decay_epsilon(b(0.01));
    assert_eq!(q.epsilon, EPSILON_MIN);
    q.decay_epsilon(b(f32::NAN));
    assert_eq!(q.epsilon, EPSILON_MIN);
    q.decay_epsilon(b(0.5));
    assert_eq!(f32::from_bits(q.epsilon), 0.5);
}

#[test]
fn epsilon_schedule_reaches_floor() {
    let mut q = QTable::default();
    let mut episodes = 0;
    while q.epsilon != EPSILON_MIN {
        let lowered = f32::from_bits(q.epsilon) - f32::from_bits(q.epsilon_decay);
        q.decay_epsilon(b(lowered));
        assert!(f32::from_bits(q.epsilon) >= 0.05);
        episodes += 1;
    }
    assert!((600..=640).contains(&episodes));
}

#[test]
fn greedy_when_draw_not_below_epsilon() {
    let mut rng = rand::thread_rng();
    let mut q = QTable::default();
    q.set((5, 5), Action::Down, b(1.0));
    q.epsilon = b(0.3);
    assert_eq!(pick_action(&q, (5, 5), b(0.3), &mut rng), Action::Down);
    assert_eq!(pick_action(&q, (5, 5), b(0.9), &mut rng), Action::Down);
    q.epsilon = b(0.0);
    assert_eq!(pick_action(&q, (5, 5), b(0.0), &mut rng), Action::Down);
}

#[test]
fn explores_when_draw_below_epsilon() {
    let mut rng = rand::thread_rng();
    let mut q = QTable::default();
    q.set((5, 5), Action::Down, b(1.0));
    let mut seen = [false; 4];
    for _ in 0..400 {
        let a = pick_action(&q, (5, 5), b(0.5), &mut rng);
        seen[a.index()] = true;
    }
    assert!(seen.iter().all(|&s| s));
}

#[test]
fn action_index_round_trip() {
    for (i, a) in Action::ALL.iter().enumerate() {
        assert_eq!(a.index(), i);
        assert_eq!(Action::from_index(i), *a);
    }
}

#[test]
fn state_keys_differ() {
    assert_ne!(key_of((1, 0)), key_of((0, 1)));
    assert_ne!(key_of((0, usize::MAX)), key_of((1, 0)));
    assert_eq!(key_of((2, 3)), (2u128 << 64) + 3);
}

#[test]
fn action_values_with_replaces_one() {
    let v = ActionValues::zeros().with(Action::Left, 9);
    assert_eq!(v.get(Action::Left), 9);
    assert_eq!(v.get(Action::Up), 0);
    assert_eq!(v.get(Action::Down), 0);
    assert_eq!(v.get(Action::Right), 0);
}

#[test]
fn explores_the_drawn_index() {
    let mut q = QTable::default();
    q.set((5, 5), Action::Down, b(1.0));
    q.epsilon = b(0.3);
    for (i, a) in Action::ALL.iter().enumerate() {
        assert_eq!(choose_action(&q, (5, 5), b(0.1), i), *a);
        assert_eq!(choose_action(&q, (5, 5), b(0.3), i), Action::Down);
    }
    assert_eq!(action_count(), 4);
}

#[test]
fn full_rate_always_explores() {
    let mut q = QTable::default();
    q.set((0, 0), Action::Left, b(50.0));
    for draw in [0.0f32, 0.25, 0.5, 0.999_999_94] {
        for i in 0..4 {
            assert_eq!(choose_action(&q, (0, 0), b(draw), i), Action::ALL[i]);
        }
    }
}

#[test]
fn parameters_stay_in_range() {
    let mut q = QTable::default();
    q.set_parameter(Param::Alpha, b(0.2));
    assert_eq!(f32::from_bits(q.alpha), 0.2);
    q.set_parameter(Param::Alpha, b(1.05));
    assert_eq!(f32::from_bits(q.alpha), 1.0);
    q.set_parameter(Param::Gamma, b(-0.05));
    assert_eq!(f32::from_bits(q.gamma), 0.0);
    q.set_parameter(Param::Gamma, b(f32::NAN));
    assert_eq!(f32::from_bits(q.gamma), 0.0);
    q.set_parameter(Param::Epsilon, b(0.01));
    assert_eq!(q.epsilon, EPSILON_MIN);
    q.set_parameter(Param::Epsilon, b(0.5));
    assert_eq!(f32::from_bits(q.epsilon), 0.5);
    assert_eq!(f32::from_bits(q.parameter(Param::Alpha)), 1.0);
    assert_eq!(Param::Alpha.next(), Param::Gamma);
    assert_eq!(Param::Alpha.prev(), Param::Epsilon);
}
