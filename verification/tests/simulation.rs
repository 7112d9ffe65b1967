use rotating_lights::{
    set_up_table, verdict, RotatingTable, SimError, Strategy, StrategyApplier, StrategyElement,
    Switch, STEP_BUDGET,
};

fn table_of(states: &[bool]) -> RotatingTable {
    RotatingTable::new(states.iter().map(|s| Switch::new(*s)).collect()).unwrap()
}

fn read(table: &RotatingTable) -> Vec<bool> {
    (0..table.len()).map(|n| table.get(n)).collect()
}

#[test]
fn test_switch() {
    let mut switch = Switch::On;
    assert!(switch.get_state());

    switch.flip();
    assert!(!switch.get_state());

    switch.flip();
    assert!(switch.get_state());

    let switch = Switch::random();
    assert!(switch.get_state() || !switch.get_state());
}

#[test]
fn test_rotating_table() {
    let mut table = RotatingTable::new(vec![Switch::On, Switch::Off]).unwrap();

    assert_eq!(table.len(), 2);

    assert!(!table.is_on());

    table.rotate(0);
    assert!(table.get(0));
    assert!(!table.get(1));

    table.rotate(1);
    assert!(!table.get(0));
    assert!(table.get(1));

    table.rotate(1);
    assert!(table.get(0));
    assert!(!table.get(1));

    table.rotate(12);
    assert!(table.get(0));
    assert!(!table.get(1));

    table.flip(1);
    assert!(table.get(0));
    assert!(table.get(1));

    table.rotate_randomly();
    assert!(table.get(0));
    assert!(table.get(1));

    assert!(table.is_on());
}

#[test]
fn test_strategy() {
    let strategy = Strategy::new(vec![
        StrategyElement(vec![0, 1, 2, 3]),
        StrategyElement(vec![0, 2]),
        StrategyElement(vec![]),
    ])
    .unwrap();

    let table =
        RotatingTable::new(vec![Switch::On, Switch::Off, Switch::On, Switch::Off]).unwrap();

    let mut applier = StrategyApplier::new(table, strategy);

    assert!(!applier.is_on());

    applier.apply();
    applier.apply();
    applier.apply();

    assert!(applier.is_on());

    applier.apply();
    assert!(!applier.is_on());
    applier.apply();
    assert!(!applier.is_on());
    applier.apply();
    assert!(!applier.is_on());
    applier.apply();
    assert!(!applier.is_on());
    applier.apply();
    assert!(applier.is_on());
    applier.apply();
    assert!(applier.is_on());
}

#[test]
fn switch_new_matches_state() {
    assert_eq!(Switch::new(true), Switch::On);
    assert_eq!(Switch::new(false), Switch::Off);
    assert!(Switch::new(true).get_state());
    assert!(!Switch::new(false).get_state());
}

#[test]
fn switch_random_gives_both_states() {
    let mut seen_on = false;
    let mut seen_off = false;
    for _ in 0..400 {
        match Switch::random() {
            Switch::On => seen_on = true,
            Switch::Off => seen_off = true,
        }
    }
    assert!(seen_on);
    assert!(seen_off);
}

#[test]
fn empty_table_is_refused() {
    assert!(matches!(RotatingTable::new(vec![]), Err(SimError::InvalidLength)));
}

#[test]
fn empty_strategy_is_refused() {
    assert!(matches!(Strategy::new(vec![]), Err(SimError::InvalidLength)));
}

#[test]
fn set_up_table_sizes() {
    assert!(matches!(set_up_table(0), Err(SimError::InvalidLength)));
    let table = set_up_table(4).unwrap();
    assert_eq!(table.len(), 4);
    let one = set_up_table(1).unwrap();
    assert_eq!(one.len(), 1);
}

#[test]
fn set_up_table_varies() {
    let mut seen_on = false;
    let mut seen_off = false;
    for _ in 0..200 {
        let table = set_up_table(3).unwrap();
        for n in 0..3 {
            if table.get(n) {
                seen_on = true;
            } else {
                seen_off = true;
            }
        }
    }
    assert!(seen_on && seen_off);
}

#[test]
fn new_table_reads_in_order() {
    let table = table_of(&[true, false, false, true, false]);
    assert_eq!(table.len(), 5);
    assert_eq!(read(&table), vec![true, false, false, true, false]);
}

#[test]
fn get_wraps_round_the_table() {
    let table = table_of(&[true, false, false]);
    assert!(table.get(3));
    assert!(!table.get(4));
    assert!(!table.get(5));
    assert!(table.get(300));
    // usize::MAX is 0 modulo 3 on 64-bit and on 32-bit machines alike.
    assert_eq!(usize::MAX % 3, 0);
    assert!(table.get(usize::MAX));
}

#[test]
fn get_wraps_after_rotation_near_the_integer_limit() {
    let mut table = table_of(&[true, false, false]);
    table.rotate(2);
    // offset 2, n = MAX (0 mod 3): position 2.
    assert!(!table.get(usize::MAX));
    // offset 2, n = MAX - 2 (1 mod 3): position 0.
    assert!(table.get(usize::MAX - 2));
    table.rotate(usize::MAX - 1);
    // offset (2 + 2) mod 3 = 1.
    assert_eq!(read(&table), vec![false, false, true]);
}

#[test]
fn rotate_composes() {
    for a in 0..12usize {
        for b in 0..12usize {
            let mut twice = table_of(&[true, false, false, true, false]);
            let mut once = table_of(&[true, false, false, true, false]);
            twice.rotate(a);
            twice.rotate(b);
            once.rotate(a + b);
            assert_eq!(read(&twice), read(&once));
        }
    }
}

#[test]
fn rotate_round_trip() {
    for start in 0..5usize {
        for n in 0..17usize {
            let mut table = table_of(&[true, true, false, true, false]);
            table.rotate(start);
            let before = read(&table);
            table.rotate(n);
            table.rotate(table.len() - n % table.len());
            assert_eq!(read(&table), before);
        }
    }
}

#[test]
fn rotate_relabels_positions() {
    let mut table = table_of(&[true, false, false, false]);
    table.rotate(1);
    assert_eq!(read(&table), vec![false, false, false, true]);
    table.rotate(2);
    assert_eq!(read(&table), vec![false, true, false, false]);
    table.rotate(5);
    assert_eq!(read(&table), vec![true, false, false, false]);
}

#[test]
fn flip_twice_restores() {
    for n in 0..9usize {
        let mut table = table_of(&[true, false, false, true]);
        table.rotate(3);
        let before = read(&table);
        table.flip(n);
        assert_ne!(read(&table), before);
        table.flip(n);
        assert_eq!(read(&table), before);
    }
}

#[test]
fn flip_follows_rotation() {
    let mut table = table_of(&[false, false, false, false]);
    table.rotate(3);
    table.flip(2);
    assert_eq!(table.pretty_print(), "0|1|0|0");
    assert_eq!(read(&table), vec![false, false, true, false]);
    table.flip(6);
    assert_eq!(table.pretty_print(), "0|0|0|0");
}

#[test]
fn is_on_ignores_rotation() {
    for n in 0..10usize {
        let mut all = table_of(&[true, true, true]);
        let mut some = table_of(&[true, false, true]);
        all.rotate(n);
        some.rotate(n);
        assert!(all.is_on());
        assert!(!some.is_on());
    }
}

#[test]
fn rotate_randomly_keeps_switches_and_moves() {
    let mut table = table_of(&[true, false]);
    let mut seen_first_on = false;
    let mut seen_first_off = false;
    for _ in 0..400 {
        table.rotate_randomly();
        assert_eq!(table.pretty_print(), "1|0");
        assert_ne!(table.get(0), table.get(1));
        if table.get(0) {
            seen_first_on = true;
        } else {
            seen_first_off = true;
        }
    }
    assert!(seen_first_on);
    assert!(seen_first_off);
}

#[test]
fn table_pretty_print_is_physical() {
    let mut table = table_of(&[true, false, true, false]);
    assert_eq!(table.pretty_print(), "1|0|1|0");
    table.rotate(1);
    assert_eq!(table.pretty_print(), "1|0|1|0");
    assert_eq!(table_of(&[false]).pretty_print(), "0");
    assert_eq!(table_of(&[true, true]).pretty_print(), "1|1");
}

#[test]
fn element_pretty_print_masks() {
    assert_eq!(StrategyElement(vec![0, 2]).pretty_print(4), "1|0|1|0");
    assert_eq!(StrategyElement(vec![]).pretty_print(3), "0|0|0");
    assert_eq!(StrategyElement(vec![3, 3, 1]).pretty_print(4), "0|1|0|1");
    assert_eq!(StrategyElement(vec![7]).pretty_print(4), "0|0|0|0");
    assert_eq!(StrategyElement(vec![0]).pretty_print(1), "1");
    assert_eq!(StrategyElement(vec![0]).pretty_print(0), "");
}

#[test]
fn element_clone_is_equal() {
    let element = StrategyElement(vec![4, 0, 4, 2]);
    assert_eq!(element.clone(), element);
    assert_eq!(element.clone().0, vec![4, 0, 4, 2]);
}

#[test]
fn strategy_cycles() {
    let moves = vec![vec![0, 1], vec![2], vec![], vec![3, 3]];
    let mut strategy =
        Strategy::new(moves.iter().map(|m| StrategyElement(m.clone())).collect()).unwrap();
    assert_eq!(strategy.len(), 4);
    for _round in 0..5 {
        for m in moves.iter() {
            assert_eq!(strategy.get_next().0, *m);
        }
    }
}

#[test]
fn strategy_of_one_move_repeats() {
    let mut strategy = Strategy::new(vec![StrategyElement(vec![1])]).unwrap();
    assert_eq!(strategy.len(), 1);
    for _ in 0..3 {
        assert_eq!(strategy.get_next(), StrategyElement(vec![1]));
    }
}

#[test]
fn apply_strategy_takes_the_first_move() {
    let mut table = table_of(&[false, false, false, false]);
    table.rotate(1);
    let strategy =
        Strategy::new(vec![StrategyElement(vec![0, 1]), StrategyElement(vec![3])]).unwrap();
    table.apply_strategy(strategy);
    assert_eq!(table.pretty_print(), "0|1|1|0");
}

#[test]
fn element_indices_wrap_and_repeat() {
    let mut table = table_of(&[false, false, false, false]);
    table.apply_strategy_element(StrategyElement(vec![5]));
    assert_eq!(table.pretty_print(), "0|1|0|0");
    table.apply_strategy_element(StrategyElement(vec![0, 0]));
    assert_eq!(table.pretty_print(), "0|1|0|0");
    table.apply_strategy_element(StrategyElement(vec![2, 0, 2, 2]));
    assert_eq!(table.pretty_print(), "1|1|1|0");
}

#[test]
fn scenario_trace() {
    let strategy = Strategy::new(vec![
        StrategyElement(vec![0, 1, 2, 3]),
        StrategyElement(vec![0, 2]),
        StrategyElement(vec![]),
    ])
    .unwrap();
    let mut table = table_of(&[true, false, true, false]);
    let mut cursor = strategy;
    let expected = ["0|1|0|1", "1|1|1|1", "1|1|1|1", "0|0|0|0", "1|0|1|0", "1|0|1|0", "0|1|0|1"];
    for text in expected.iter() {
        let element = cursor.get_next();
        table.apply_strategy_element(element);
        assert_eq!(table.pretty_print(), *text);
    }
}

#[test]
fn trial_on_solved_table_takes_no_step() {
    let applier = StrategyApplier::new(
        table_of(&[true, true, true]),
        Strategy::new(vec![StrategyElement(vec![0])]).unwrap(),
    );
    assert_eq!(rotating_lights::test_strategy(applier), Ok(0));
}

#[test]
fn trial_reports_moves_made() {
    let strategy = || {
        Strategy::new(vec![
            StrategyElement(vec![0, 1, 2, 3]),
            StrategyElement(vec![0, 2]),
            StrategyElement(vec![]),
        ])
        .unwrap()
    };
    let applier = StrategyApplier::new(table_of(&[true, false, true, false]), strategy());
    assert_eq!(rotating_lights::test_strategy(applier), Ok(2));
    let applier = StrategyApplier::new(table_of(&[false, false, false, false]), strategy());
    assert_eq!(rotating_lights::test_strategy(applier), Ok(1));
    let applier = StrategyApplier::new(table_of(&[false, true, false, true]), strategy());
    assert_eq!(rotating_lights::test_strategy(applier), Ok(4));
}

#[test]
fn trial_times_out_on_parity() {
    assert_eq!(STEP_BUDGET, 1000);
    let applier = StrategyApplier::new(
        table_of(&[true, false]),
        Strategy::new(vec![StrategyElement(vec![0, 1])]).unwrap(),
    );
    assert_eq!(rotating_lights::test_strategy(applier), Err(SimError::Timeout(1000)));
}

#[test]
fn trial_checks_after_the_last_move() {
    // One switch that is off, and a strategy whose last move alone flips it.
    let trial = |idle: usize| {
        let mut moves: Vec<StrategyElement> = (0..idle).map(|_| StrategyElement(vec![])).collect();
        moves.push(StrategyElement(vec![0]));
        let applier = StrategyApplier::new(table_of(&[false]), Strategy::new(moves).unwrap());
        rotating_lights::test_strategy(applier)
    };
    assert_eq!(trial(0), Ok(1));
    assert_eq!(trial(998), Ok(999));
    // Solved by the 1000th move, which is the last that the budget allows.
    assert_eq!(trial(999), Ok(1000));
    // Solved by the 1001st move only.
    assert_eq!(trial(1000), Err(SimError::Timeout(1000)));
}

#[test]
fn verdict_by_check_and_count() {
    assert_eq!(verdict(true, 0), Some(Ok(0)));
    assert_eq!(verdict(true, 17), Some(Ok(17)));
    assert_eq!(verdict(true, 1000), Some(Ok(1000)));
    assert_eq!(verdict(false, 0), None);
    assert_eq!(verdict(false, 999), None);
    assert_eq!(verdict(false, 1000), Some(Err(SimError::Timeout(1000))));
}

#[test]
fn applier_shows_table_and_next_move() {
    let strategy =
        Strategy::new(vec![StrategyElement(vec![0, 2]), StrategyElement(vec![1])]).unwrap();
    let mut applier = StrategyApplier::new(table_of(&[false, false, true]), strategy);
    assert_eq!(applier.table().pretty_print(), "0|0|1");
    assert_eq!(applier.table().len(), 3);
    assert_eq!(applier.strategy().len(), 2);
    assert_eq!(*applier.strategy().peek(), StrategyElement(vec![0, 2]));
    assert_eq!(*applier.strategy().peek(), StrategyElement(vec![0, 2]));
    applier.apply();
    assert_eq!(applier.table().pretty_print(), "1|0|0");
    assert_eq!(*applier.strategy().peek(), StrategyElement(vec![1]));
    applier.apply();
    assert_eq!(applier.table().pretty_print(), "1|1|0");
    assert_eq!(*applier.strategy().peek(), StrategyElement(vec![0, 2]));
}

#[test]
fn peek_leaves_the_cursor() {
    let mut strategy =
        Strategy::new(vec![StrategyElement(vec![3]), StrategyElement(vec![])]).unwrap();
    assert_eq!(*strategy.peek(), StrategyElement(vec![3]));
    assert_eq!(strategy.get_next(), StrategyElement(vec![3]));
    assert_eq!(*strategy.peek(), StrategyElement(vec![]));
    assert_eq!(strategy.get_next(), StrategyElement(vec![]));
    assert_eq!(*strategy.peek(), StrategyElement(vec![3]));
}

#[test]
fn winning_strategy_for_four_always_finishes() {
    let moves: Vec<Vec<usize>> = vec![
        vec![0, 1, 2, 3],
        vec![0, 2],
        vec![0, 1, 2, 3],
        vec![0, 1],
        vec![0, 1, 2, 3],
        vec![0, 2],
        vec![0, 1, 2, 3],
        vec![0],
        vec![0, 1, 2, 3],
        vec![0, 2],
        vec![0, 1, 2, 3],
        vec![0, 1],
        vec![0, 1, 2, 3],
        vec![0, 2],
        vec![0, 1, 2, 3],
    ];
    for bits in 0..16u32 {
        let states: Vec<bool> = (0..4).map(|i| bits & (1 << i) != 0).collect();
        let strategy =
            Strategy::new(moves.iter().map(|m| StrategyElement(m.clone())).collect()).unwrap();
        let applier = StrategyApplier::new(table_of(&states), strategy);
        let result = rotating_lights::test_strategy(applier);
        assert!(matches!(result, Ok(n) if n <= 15));
    }
}
