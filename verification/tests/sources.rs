use wire_field::grid::{sample_positions, GridPoint, ARROW_INTERVAL, HEIGHT, WIDTH};
use wire_field::sources::{starting_sources, Polarity, SourcePlacement};

fn placed(strength: i32) -> SourcePlacement {
    SourcePlacement {
        position: GridPoint { x: 3, y: 4 },
        strength,
        orbit_center: GridPoint { x: 0, y: 0 },
    }
}

fn radius_squared(source: &SourcePlacement) -> i64 {
    let dx = (source.position.x - source.orbit_center.x) as i64;
    let dy = (source.position.y - source.orbit_center.y) as i64;
    dx * dx + dy * dy
}

#[test]
fn starting_sources_are_a_strong_and_a_weak_one() {
    assert_eq!(
        starting_sources(),
        vec![
            SourcePlacement {
                position: GridPoint { x: -50, y: 0 },
                strength: -10,
                orbit_center: GridPoint { x: -200, y: 0 },
            },
            SourcePlacement {
                position: GridPoint { x: 250, y: 0 },
                strength: 1,
                orbit_center: GridPoint { x: 200, y: 0 },
            },
        ]
    );
}

#[test]
fn starting_sources_turn_the_field_in_opposite_ways() {
    let sources = starting_sources();
    assert_eq!(sources[0].polarity(), Polarity::Negative);
    assert_eq!(sources[1].polarity(), Polarity::Positive);
    assert_ne!(sources[0].strength.abs(), sources[1].strength.abs());
}

#[test]
fn starting_sources_circle_separate_centres() {
    let sources = starting_sources();
    assert_ne!(sources[0].orbit_center, sources[1].orbit_center);
    for a in &sources {
        for b in &sources {
            assert_ne!(a.orbit_center, b.position);
        }
    }
    assert_eq!(radius_squared(&sources[0]), 150 * 150);
    assert_eq!(radius_squared(&sources[1]), 50 * 50);
}

#[test]
fn starting_sources_stand_between_the_samples() {
    let samples = sample_positions(WIDTH, HEIGHT, ARROW_INTERVAL);
    for source in starting_sources() {
        assert!(samples.iter().all(|p| *p != source.position));
    }
}

#[test]
fn polarity_follows_the_sign() {
    assert_eq!(placed(-1).polarity(), Polarity::Negative);
    assert_eq!(placed(-10).polarity(), Polarity::Negative);
    assert_eq!(placed(i32::MIN).polarity(), Polarity::Negative);
    assert_eq!(placed(0).polarity(), Polarity::Neutral);
    assert_eq!(placed(1).polarity(), Polarity::Positive);
    assert_eq!(placed(i32::MAX).polarity(), Polarity::Positive);
}
