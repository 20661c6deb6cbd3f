use dice_pool::{FaceSource, Replay, Roll, Rolls, ThreadSource};

#[test]
fn replay_hands_out_its_faces_in_order() {
    let mut source = Replay::new(vec![3, 1, 6]);
    assert_eq!(source.remaining(), 3);
    assert_eq!(source.draw(1, 6), 3);
    assert_eq!(source.remaining(), 2);
    assert_eq!(source.draw(1, 6), 1);
    assert_eq!(source.draw(1, 6), 6);
    assert_eq!(source.remaining(), 0);
}

#[test]
fn replay_pulls_faces_into_the_range() {
    let mut source = Replay::new(vec![0, 9, 4, 200]);
    assert_eq!(source.draw(1, 6), 1);
    assert_eq!(source.draw(1, 6), 6);
    assert_eq!(source.draw(4, 4), 4);
    assert_eq!(source.draw(0, 255), 200);
}

#[test]
fn used_up_replay_hands_out_the_lowest() {
    let mut source = Replay::new(vec![5]);
    assert_eq!(source.draw(1, 6), 5);
    assert_eq!(source.draw(1, 6), 1);
    assert_eq!(source.draw(3, 6), 3);
    assert_eq!(source.remaining(), 0);
    let mut empty = Replay::new(Vec::new());
    assert_eq!(empty.remaining(), 0);
    assert_eq!(empty.draw(2, 5), 2);
}

#[test]
fn thread_source_stays_in_range() {
    let mut source = ThreadSource::new();
    for _ in 0..500 {
        let face = source.draw(1, 6);
        assert!(1 <= face && face <= 6);
    }
    for _ in 0..500 {
        let face = source.draw(10, 12);
        assert!(10 <= face && face <= 12);
    }
    assert_eq!(source.draw(7, 7), 7);
    assert_eq!(source.draw(0, 0), 0);
    assert_eq!(source.draw(255, 255), 255);
}

#[test]
fn thread_source_varies() {
    let mut source = ThreadSource::new();
    let mut seen = [false; 6];
    for _ in 0..2000 {
        let face = source.draw(1, 6);
        seen[(face - 1) as usize] = true;
    }
    assert_eq!(seen, [true; 6]);
}

#[test]
fn thread_source_covers_the_whole_byte() {
    let mut source = ThreadSource::new();
    let mut below = false;
    let mut above = false;
    for _ in 0..2000 {
        let value = source.draw(0, 255);
        below = below || value < 128;
        above = above || value >= 128;
    }
    assert!(below && above);
}

#[test]
fn thread_dice_come_to_die_outcomes() {
    let rolls = Rolls::new();
    let mut source = ThreadSource::new();
    let outcomes = rolls.roll_n(&mut source, 600);
    assert_eq!(outcomes.len(), 600);
    for roll in outcomes.iter() {
        assert_eq!(*roll, Rolls::classify(roll.face()));
        assert!(1 <= roll.face() && roll.face() <= 6);
    }
    assert!(outcomes.iter().any(|roll| matches!(roll, Roll::Grim(_))));
    assert!(outcomes.iter().any(|roll| matches!(roll, Roll::Messy(_))));
    assert!(outcomes.iter().any(|roll| matches!(roll, Roll::Perfect(_))));
}
