use cardsynth::sequencer::Sequencer;

#[test]
fn four_steps_come_back_to_the_first() {
    let mut seq = Sequencer::new(vec![800_000, 1_000_000, 1_200_000, 1_000_000]).unwrap();
    assert_eq!(seq.step(), 0);
    assert_eq!(seq.advance(), 800_000);
    assert_eq!(seq.advance(), 1_000_000);
    assert_eq!(seq.advance(), 1_200_000);
    assert_eq!(seq.advance(), 1_000_000);
    assert_eq!(seq.step(), 0);
    assert_eq!(seq.advance(), 800_000);
    assert_eq!(seq.step(), 1);
}

#[test]
fn advance_gives_the_current_step_then_moves_on() {
    let mut seq = Sequencer::new(vec![500_000, 2_000_000, 1_500_000]).unwrap();
    assert_eq!(seq.advance(), 500_000);
    assert_eq!(seq.step(), 1);
    assert_eq!(seq.advance(), 2_000_000);
    assert_eq!(seq.step(), 2);
    assert_eq!(seq.advance(), 1_500_000);
    assert_eq!(seq.step(), 0);
}

#[test]
fn a_cycle_of_one_stays_at_its_step() {
    let mut seq = Sequencer::new(vec![1_000_000]).unwrap();
    for _ in 0..5 {
        assert_eq!(seq.advance(), 1_000_000);
        assert_eq!(seq.step(), 0);
    }
}

#[test]
fn any_cycle_returns_after_its_length() {
    for len in 1usize..8 {
        let values: Vec<u32> = (1..=len as u32).map(|v| v * 100_000).collect();
        let mut seq = Sequencer::new(values.clone()).unwrap();
        seq.advance();
        let start = seq.step();
        let mut first_round = Vec::new();
        for _ in 0..len {
            first_round.push(seq.advance());
        }
        assert_eq!(seq.step(), start);
        for expected in first_round {
            assert_eq!(seq.advance(), expected);
        }
    }
}

#[test]
fn a_zero_multiplier_is_refused() {
    assert!(Sequencer::new(vec![800_000, 0, 1_200_000]).is_none());
    assert!(Sequencer::new(vec![0]).is_none());
}

#[test]
fn an_empty_cycle_is_accepted() {
    let seq = Sequencer::new(Vec::new()).unwrap();
    assert!(seq.is_empty());
    assert_eq!(seq.len(), 0);
    assert_eq!(seq.step(), 0);
}

#[test]
fn len_counts_the_multipliers() {
    let seq = Sequencer::new(vec![800_000, 1_000_000, 1_200_000, 1_000_000]).unwrap();
    assert_eq!(seq.len(), 4);
    assert!(!seq.is_empty());
}
