use dice_pool::{Roll, Rolls};
use std::cmp::Ordering;

fn every_outcome() -> Vec<Roll> {
    let mut all = Vec::new();
    for face in 0..=255u8 {
        all.push(Roll::Disaster(face));
        all.push(Roll::Grim(face));
        all.push(Roll::Messy(face));
        all.push(Roll::Perfect(face));
    }
    all.push(Roll::Critical);
    all
}

#[test]
fn low_faces_are_grim() {
    assert_eq!(Rolls::classify(1), Roll::Grim(1));
    assert_eq!(Rolls::classify(2), Roll::Grim(2));
    assert_eq!(Rolls::classify(3), Roll::Grim(3));
}

#[test]
fn middle_faces_are_messy() {
    assert_eq!(Rolls::classify(4), Roll::Messy(4));
    assert_eq!(Rolls::classify(5), Roll::Messy(5));
}

#[test]
fn six_is_perfect() {
    assert_eq!(Rolls::classify(6), Roll::Perfect(6));
}

#[test]
fn classification_keeps_the_face() {
    for face in 1..=6u8 {
        assert_eq!(Rolls::classify(face).face(), face);
    }
}

#[test]
fn only_grim_is_grim() {
    assert!(Roll::Grim(2).is_grim());
    assert!(!Roll::Disaster(2).is_grim());
    assert!(!Roll::Messy(4).is_grim());
    assert!(!Roll::Perfect(6).is_grim());
    assert!(!Roll::Critical.is_grim());
}

#[test]
fn only_perfect_is_perfect() {
    assert!(Roll::Perfect(6).is_perfect());
    assert!(!Roll::Disaster(6).is_perfect());
    assert!(!Roll::Grim(1).is_perfect());
    assert!(!Roll::Messy(5).is_perfect());
    assert!(!Roll::Critical.is_perfect());
}

#[test]
fn tiers_ascend() {
    assert!(Roll::Grim(3) < Roll::Messy(4));
    assert!(Roll::Messy(4) < Roll::Perfect(6));
    assert!(Roll::Perfect(6) < Roll::Critical);
    assert!(Roll::Disaster(6) < Roll::Grim(1));
}

#[test]
fn tier_counts_before_face() {
    assert!(Roll::Disaster(255) < Roll::Grim(0));
    assert!(Roll::Grim(255) < Roll::Messy(0));
    assert!(Roll::Messy(255) < Roll::Perfect(0));
    assert!(Roll::Perfect(255) < Roll::Critical);
    assert!(Roll::Critical > Roll::Disaster(255));
}

#[test]
fn face_orders_within_a_tier() {
    assert!(Roll::Grim(1) < Roll::Grim(2));
    assert!(Roll::Grim(3) > Roll::Grim(2));
    assert!(Roll::Messy(4) < Roll::Messy(5));
    assert!(Roll::Disaster(0) < Roll::Disaster(1));
    assert!(Roll::Grim(2) <= Roll::Grim(2));
    assert!(Roll::Grim(2) >= Roll::Grim(2));
    assert!(!(Roll::Grim(2) < Roll::Grim(2)));
}

#[test]
fn critical_equals_only_itself() {
    assert_eq!(Roll::Critical.partial_cmp(&Roll::Critical), Some(Ordering::Equal));
    assert!(!Roll::Critical.precedes(Roll::Critical));
    assert_ne!(Roll::Critical, Roll::Perfect(6));
}

#[test]
fn order_is_total() {
    let all = every_outcome();
    for a in all.iter() {
        for b in all.iter() {
            let holds = [a < b, a == b, a > b];
            assert_eq!(holds.iter().filter(|h| **h).count(), 1);
            assert_eq!(a.precedes(*b), a < b);
        }
    }
}

#[test]
fn order_is_transitive() {
    let mut some = Vec::new();
    for face in [0u8, 1, 3, 6, 255] {
        some.push(Roll::Disaster(face));
        some.push(Roll::Grim(face));
        some.push(Roll::Messy(face));
        some.push(Roll::Perfect(face));
    }
    some.push(Roll::Critical);
    for a in some.iter() {
        for b in some.iter() {
            for c in some.iter() {
                if a < b && b < c {
                    assert!(a < c);
                }
            }
        }
    }
}

#[test]
fn comparison_agrees_with_full_order() {
    let all = every_outcome();
    for a in all.iter() {
        for b in all.iter() {
            assert_eq!(a.partial_cmp(b), Some(a.cmp(b)));
        }
    }
}

#[test]
fn higher_and_lower_pick_by_rank() {
    assert_eq!(Roll::Grim(2).higher(Roll::Perfect(6)), Roll::Perfect(6));
    assert_eq!(Roll::Perfect(6).higher(Roll::Grim(2)), Roll::Perfect(6));
    assert_eq!(Roll::Grim(2).lower(Roll::Perfect(6)), Roll::Grim(2));
    assert_eq!(Roll::Perfect(6).lower(Roll::Grim(2)), Roll::Grim(2));
    assert_eq!(Roll::Messy(4).higher(Roll::Messy(5)), Roll::Messy(5));
    assert_eq!(Roll::Messy(4).lower(Roll::Messy(5)), Roll::Messy(4));
    assert_eq!(Roll::Critical.higher(Roll::Perfect(6)), Roll::Critical);
    assert_eq!(Roll::Critical.lower(Roll::Perfect(6)), Roll::Perfect(6));
    assert_eq!(Roll::Grim(1).higher(Roll::Grim(1)), Roll::Grim(1));
}

#[test]
fn higher_and_lower_agree_with_max_and_min() {
    let all = every_outcome();
    for a in all.iter().step_by(7) {
        for b in all.iter().step_by(5) {
            assert_eq!(a.higher(*b), Ord::max(*a, *b));
            assert_eq!(a.lower(*b), Ord::min(*a, *b));
        }
    }
}

#[test]
fn outcomes_render_as_their_face() {
    assert_eq!(Roll::Grim(1).to_string(), "1");
    assert_eq!(Roll::Grim(3).to_string(), "3");
    assert_eq!(Roll::Messy(4).to_string(), "4");
    assert_eq!(Roll::Messy(5).to_string(), "5");
    assert_eq!(Roll::Perfect(6).to_string(), "6");
    assert_eq!(Roll::Disaster(0).to_string(), "0");
}

#[test]
fn critical_renders_as_six() {
    assert_eq!(Roll::Critical.to_string(), "6");
    assert_eq!(Roll::Critical.to_string(), Roll::Perfect(6).to_string());
    assert_eq!(Roll::Critical.face(), 6);
}

#[test]
fn long_faces_render_in_decimal() {
    assert_eq!(Roll::Disaster(9).to_string(), "9");
    assert_eq!(Roll::Disaster(10).to_string(), "10");
    assert_eq!(Roll::Disaster(99).to_string(), "99");
    assert_eq!(Roll::Disaster(100).to_string(), "100");
    assert_eq!(Roll::Disaster(109).to_string(), "109");
    assert_eq!(Roll::Disaster(255).to_string(), "255");
}

#[test]
fn every_face_renders_as_its_number() {
    for face in 0..=255u8 {
        assert_eq!(Roll::Disaster(face).to_string(), format!("{}", face));
        assert_eq!(Roll::Grim(face).to_string(), format!("{}", face));
        assert_eq!(Roll::Messy(face).to_string(), format!("{}", face));
        assert_eq!(Roll::Perfect(face).to_string(), format!("{}", face));
    }
}
