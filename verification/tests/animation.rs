use petto::animation::{
    default_fps, default_loop, AnimationClip, AnimationConfig, AnimationPlayer, FPS, SECOND,
};
use petto::catalog::Catalog;

fn clip(category: &str, name: &str, fps: u64, looping: bool, frames: usize) -> AnimationClip<usize> {
    AnimationClip {
        category: category.to_string(),
        name: name.to_string(),
        config: AnimationConfig { fps, looping },
        frames: (0..frames).collect(),
    }
}

fn catalog(clips: Vec<AnimationClip<usize>>) -> Catalog<AnimationClip<usize>> {
    let mut found = Catalog::new();
    for c in clips {
        found.insert(c.id(), c);
    }
    found
}

#[test]
fn config_has_defaults() {
    assert_eq!(default_fps(), 4 * FPS);
    assert!(default_loop());
    let config = AnimationConfig::default();
    assert_eq!(config.fps, 4_000_000);
    assert!(config.looping);
}

#[test]
fn clip_is_named_by_category_and_name() {
    assert_eq!(clip("idle", "idle", FPS, true, 0).id(), "idle");
    assert_eq!(clip("idle_normal", "normal_a", FPS, true, 0).id(), "idle_normal.normal_a");
}

#[test]
fn catalog_keeps_the_last_of_a_name() {
    let mut c = Catalog::new();
    assert!(!c.contains("a"));
    c.insert("a".to_string(), 1);
    c.insert("a".to_string(), 2);
    assert!(c.contains("a"));
    assert_eq!(c.get("a"), Some(&2));
    assert_eq!(c.get("b"), None);
}

#[test]
fn player_starts_at_the_first_frame() {
    let p = AnimationPlayer::new("x");
    assert_eq!((p.current(), p.frame()), ("x", 0));
}

#[test]
fn looping_clip_goes_round() {
    let clips = catalog(vec![clip("x", "x", 4 * FPS, true, 3)]);
    let mut p = AnimationPlayer::new("x");
    let mut frames = Vec::new();
    for _ in 0..7 {
        p.update(SECOND / 4, &clips);
        frames.push(p.frame());
    }
    assert_eq!(frames, vec![1, 2, 0, 1, 2, 0, 1]);
    assert_eq!(p.texture(&clips), Some(&1));
}

#[test]
fn clip_that_plays_once_stops_at_its_last_frame() {
    let clips = catalog(vec![clip("x", "x", 2 * FPS, false, 3)]);
    let mut p = AnimationPlayer::new("x");
    p.update(SECOND / 2, &clips);
    assert_eq!(p.frame(), 1);
    p.update(100 * SECOND, &clips);
    assert_eq!(p.frame(), 2);
    p.update(SECOND, &clips);
    assert_eq!(p.frame(), 2);
}

#[test]
fn long_delta_takes_several_steps() {
    let clips = catalog(vec![clip("x", "x", 4 * FPS, true, 5)]);
    let mut p = AnimationPlayer::new("x");
    p.update(3 * SECOND / 4 + 1, &clips);
    assert_eq!(p.frame(), 3);
}

#[test]
fn time_is_kept_from_update_to_update() {
    let clips = catalog(vec![clip("x", "x", 4 * FPS, true, 5)]);
    let mut one = AnimationPlayer::new("x");
    one.update(700_000_000, &clips);
    let mut many = AnimationPlayer::new("x");
    for _ in 0..7 {
        many.update(100_000_000, &clips);
    }
    assert_eq!(one.frame(), 2);
    assert_eq!(many.frame(), 2);
    one.update(50_000_000, &clips);
    many.update(50_000_000, &clips);
    assert_eq!((one.frame(), many.frame()), (3, 3));
}

#[test]
fn short_or_missing_clips_stand_still() {
    let clips = catalog(vec![clip("x", "x", 4 * FPS, true, 1), clip("z", "z", 0, true, 3)]);
    let mut p = AnimationPlayer::new("x");
    p.update(10 * SECOND, &clips);
    assert_eq!(p.frame(), 0);
    let mut p = AnimationPlayer::new("y");
    p.update(10 * SECOND, &clips);
    assert_eq!(p.frame(), 0);
    assert_eq!(p.texture(&clips), None);
    let mut p = AnimationPlayer::new("z");
    p.update(10 * SECOND, &clips);
    assert_eq!(p.frame(), 0);
    assert_eq!(p.texture(&clips), Some(&0));
}

#[test]
fn playing_on_does_not_start_again() {
    let clips = catalog(vec![clip("x", "x", 4 * FPS, true, 3), clip("y", "y", FPS, true, 2)]);
    let mut p = AnimationPlayer::new("x");
    p.update(SECOND / 4, &clips);
    p.play("x");
    assert_eq!(p.frame(), 1);
    p.play("y");
    assert_eq!((p.current(), p.frame()), ("y", 0));
}
