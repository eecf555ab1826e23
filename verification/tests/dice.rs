use exercises::dice::{roll, roll_many};

#[test]
fn a_roll_shows_a_face() {
    let mut rng = rand::thread_rng();
    for _ in 0..1000 {
        let face = roll(&mut rng);
        assert!((1..=6).contains(&face));
    }
}

#[test]
fn five_rolls() {
    let mut rng = rand::thread_rng();
    let faces = roll_many(&mut rng, 5);
    assert_eq!(faces.len(), 5);
    for face in faces {
        assert!((1..=6).contains(&face));
    }
    assert!(roll_many(&mut rng, 0).is_empty());
}

#[test]
fn every_face_comes_up() {
    let mut rng = rand::thread_rng();
    let faces = roll_many(&mut rng, 3000);
    for face in 1..=6 {
        assert!(faces.contains(&face));
    }
}
