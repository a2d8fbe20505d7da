use petto::animation::{AnimationClip, AnimationConfig, FPS, SECOND};
use petto::catalog::Catalog;
use petto::state::{
    stat_text, Activity, IdleMood, Mood, PetState, ReactiveKind, Relationship, AFK_BLOCK, FULL,
    POINT,
};

const NOON: u32 = 12;
const LATE: u32 = 22;

fn clips(list: &[(&str, u64, usize)]) -> Catalog<AnimationClip<u8>> {
    let mut found = Catalog::new();
    for (id, fps, frames) in list {
        let clip = AnimationClip {
            category: id.to_string(),
            name: id.to_string(),
            config: AnimationConfig { fps: *fps, looping: true },
            frames: vec![0; *frames],
        };
        found.insert(id.to_string(), clip);
    }
    found
}

fn no_clips() -> Catalog<AnimationClip<u8>> {
    clips(&[])
}

fn fresh() -> PetState {
    PetState::starting(false, 0, 0)
}

#[test]
fn moods_are_read() {
    assert_eq!(Mood::from_llm("worried"), Mood::Worried);
    assert_eq!(Mood::from_llm(" Excited\n"), Mood::Excited);
    assert_eq!(Mood::from_llm("DISAPPOINTED"), Mood::Disappointed);
    for raw in ["pissed_off", "Pissed Off", "ANGRY"] {
        assert_eq!(Mood::from_llm(raw), Mood::PissedOff);
    }
    for raw in ["", "neutral", "pissed  off", "happy", "worried!"] {
        assert_eq!(Mood::from_llm(raw), Mood::Neutral);
    }
}

#[test]
fn lower_case_is_that_of_unicode() {
    // In lower case the dotted capital I becomes two characters.
    assert_eq!(Mood::from_llm("WORRİED"), Mood::Neutral);
    assert_eq!(Mood::from_name("worried"), Mood::Worried);
    assert_eq!(Mood::from_name("Worried"), Mood::Neutral);
}

#[test]
fn companion_starts_in_the_middle() {
    let s = PetState::starting(true, 50_000, 99_999);
    assert_eq!((s.closeness, s.stress), (50 * POINT, 0));
    assert_eq!(s.relationship, Relationship::B);
    assert_eq!(s.activity, Activity::Idle);
    assert_eq!(s.idle_mood, IdleMood::Normal);
    assert_eq!(s.sleep_countdown, 1050 * SECOND);
    assert_eq!(s.next_initiate_at, 120 * SECOND + 2880 * SECOND * 99_999 / 100_000);
    assert_eq!((s.one_shot_timer, s.reply_timer, s.idle_time, s.afk_penalty_ticks), (0, 0, 0, 0));
    assert_eq!(s.reply, None);
    assert!(s.debug);
}

#[test]
fn clock_gives_windows_in_range() {
    for _ in 0..100 {
        let s = PetState::new(false);
        assert!(300 * SECOND <= s.sleep_countdown && s.sleep_countdown < 1800 * SECOND);
        assert!(120 * SECOND <= s.next_initiate_at && s.next_initiate_at < 3000 * SECOND);
    }
}

#[test]
fn relationship_follows_closeness_and_stress() {
    let of = |closeness: u64, stress: u64, debug: bool| {
        let mut s = PetState::starting(debug, 0, 0);
        s.closeness = closeness * POINT;
        s.stress = stress * POINT;
        s.calculate_relationship()
    };
    assert_eq!(of(0, 0, false), Relationship::D);
    assert_eq!(of(9, 0, false), Relationship::D);
    assert_eq!(of(10, 0, false), Relationship::G);
    assert_eq!(of(20, 0, false), Relationship::A);
    assert_eq!(of(40, 0, false), Relationship::B);
    assert_eq!(of(59, 0, false), Relationship::B);
    assert_eq!(of(60, 0, false), Relationship::C);
    assert_eq!(of(100, 0, false), Relationship::C);
    assert_eq!(of(100, 49, false), Relationship::C);
    assert_eq!(of(100, 50, false), Relationship::F);
    assert_eq!(of(0, 79, true), Relationship::F);
    assert_eq!(of(0, 80, true), Relationship::E);
    assert_eq!(of(85, 0, true), Relationship::C);
    assert_eq!(of(86, 0, true), Relationship::G);
    assert_eq!(of(86, 1, true), Relationship::C);
}

#[test]
fn animations_follow_the_relationship() {
    for (r, letter) in [
        (Relationship::A, "a"),
        (Relationship::B, "b"),
        (Relationship::C, "c"),
        (Relationship::D, "d"),
        (Relationship::E, "e"),
        (Relationship::F, "f"),
        (Relationship::G, "g"),
    ] {
        let mut s = fresh();
        s.relationship = r;
        assert_eq!(s.tier(), letter);
        assert_eq!(s.idle_animation(), format!("idle_normal.normal_{}", letter));
        assert_eq!(s.anxiety_animation(), format!("idle_anxiety.anxiety_{}", letter));
        assert_eq!(s.iraira_animation(), format!("idle_iraira.iraira_{}", letter));
        assert_eq!(s.phone_animation(), format!("phone_chat.talk_{}", letter));
        assert_eq!(s.positive_animation(), format!("positive.positive_{}", letter));
        assert_eq!(s.negative_animation(), format!("negative.negative_{}", letter));
        assert_eq!(s.out_animation(), format!("out.out_{}", letter));
    }
}

#[test]
fn activity_decides_the_animation() {
    let mut s = fresh();
    assert_eq!(s.current_animation(), "idle_normal.normal_b");
    s.idle_mood = IdleMood::Anxiety;
    assert_eq!(s.current_animation(), "idle_anxiety.anxiety_b");
    s.idle_mood = IdleMood::Iraira;
    assert_eq!(s.current_animation(), "idle_iraira.iraira_b");
    s.set_activity(Activity::PhoneChat);
    assert_eq!(s.current_animation(), "phone_chat.talk_b");
    s.set_activity(Activity::Reactive(ReactiveKind::Positive));
    assert_eq!(s.current_animation(), "positive.positive_b");
    s.set_activity(Activity::Reactive(ReactiveKind::Negative));
    assert_eq!(s.current_animation(), "negative.negative_b");
    s.set_activity(Activity::Reactive(ReactiveKind::Pouting));
    assert_eq!(s.current_animation(), "pouting");
    s.set_activity(Activity::Sleeping);
    assert_eq!(s.current_animation(), "sleep");
    s.set_activity(Activity::Closing);
    assert_eq!(s.current_animation(), "out.out_b");
}

#[test]
fn closeness_and_stress_stay_in_range() {
    let mut s = fresh();
    s.add_closeness(60_000_000);
    assert_eq!(s.closeness, FULL);
    s.add_closeness(-5_000_000);
    assert_eq!(s.closeness, 95 * POINT);
    s.add_closeness(i64::MIN);
    assert_eq!(s.closeness, 0);
    s.add_stress(-1);
    assert_eq!(s.stress, 0);
    s.add_stress(i64::MAX);
    assert_eq!(s.stress, FULL);
}

#[test]
fn state_is_told_in_words() {
    let mut s = fresh();
    s.closeness = 12_500_000;
    s.stress = 13_500_000;
    for (r, text) in [
        (Relationship::D, "You know each other yet; distant and a little dismissive."),
        (Relationship::G, "You're starting to warm up to them."),
        (Relationship::A, "You're becoming friendly and comfortable with them."),
        (Relationship::B, "You're warm and familiar."),
        (Relationship::C, "You're very close, affectionate and playful."),
        (Relationship::E, "You're extremely stressed and overwhelmed right now."),
        (Relationship::F, "You're stressed and a bit on edge right now."),
    ] {
        s.relationship = r;
        let expected = format!("[Current state] closeness: 12/100, stress: 14/100. {}", text);
        assert_eq!(s.state_prompt(), expected);
    }
}

#[test]
fn points_are_shown_out_of_a_hundred() {
    assert_eq!(stat_text(0), "0/100");
    assert_eq!(stat_text(50_400_000), "50/100");
    assert_eq!(stat_text(99_500_001), "100/100");
    assert_eq!(stat_text(u64::MAX), "100/100");
}

#[test]
fn reply_stays_for_its_time() {
    let mut s = fresh();
    s.show_reply("hi", 6 * SECOND);
    s.update_at(6 * SECOND - 1, &no_clips(), NOON, 0);
    assert_eq!(s.reply.as_deref(), Some("hi"));
    assert_eq!(s.reply_timer, 1);
    s.update_at(1, &no_clips(), NOON, 0);
    assert_eq!(s.reply, None);
}

#[test]
fn reply_for_no_time_is_gone() {
    let mut s = fresh();
    s.show_reply("x", 0);
    s.update_at(SECOND, &no_clips(), NOON, 0);
    assert_eq!(s.reply, None);
}

#[test]
fn word_of_the_user_brings_closer() {
    let mut s = fresh();
    s.idle_time = 5;
    s.afk_penalty_ticks = 2;
    s.stress = POINT;
    s.record_chat_interaction_at(50_000);
    assert_eq!(s.closeness, 50_400_000);
    assert_eq!(s.stress, 900_000);
    assert_eq!((s.idle_time, s.afk_penalty_ticks), (0, 0));
    assert_eq!(s.next_initiate_at, 1560 * SECOND);
    s.record_chat_interaction();
    assert_eq!(s.closeness, 50_800_000);
}

#[test]
fn silence_costs_closeness_once_per_block() {
    let mut s = fresh();
    s.update_at(AFK_BLOCK - 1, &no_clips(), NOON, 0);
    assert_eq!((s.closeness, s.stress, s.afk_penalty_ticks), (50 * POINT, 0, 0));
    s.update_at(1, &no_clips(), NOON, 0);
    assert_eq!((s.closeness, s.stress, s.afk_penalty_ticks), (45 * POINT, 3 * POINT, 1));
    s.update_at(1, &no_clips(), NOON, 0);
    assert_eq!((s.closeness, s.stress, s.afk_penalty_ticks), (45 * POINT, 3 * POINT, 1));
    s.update_at(3 * AFK_BLOCK, &no_clips(), NOON, 0);
    assert_eq!((s.closeness, s.stress, s.afk_penalty_ticks), (30 * POINT, 12 * POINT, 4));
    s.update_at(100 * AFK_BLOCK, &no_clips(), NOON, 0);
    assert_eq!((s.closeness, s.stress, s.afk_penalty_ticks), (0, FULL, 104));
}

#[test]
fn companion_speaks_up_after_its_window() {
    let mut s = fresh();
    assert_eq!(s.next_initiate_at, 120 * SECOND);
    s.update_at(120 * SECOND - 1, &no_clips(), NOON, 0);
    assert_eq!(s.poll_initiate_at(0), None);
    s.update_at(1, &no_clips(), NOON, 0);
    assert_eq!(s.poll_initiate_at(50_000), Some(120 * SECOND));
    assert_eq!(s.next_initiate_at, 120 * SECOND + 1560 * SECOND);
    assert_eq!(s.idle_time, 120 * SECOND);
    assert_eq!(s.poll_initiate_at(0), None);
    s.update_at(3000 * SECOND, &no_clips(), NOON, 0);
    assert_eq!(s.poll_initiate(), Some(3120 * SECOND));
    assert_eq!(s.poll_initiate(), None);
}

#[test]
fn reactions_settle_into_their_idles() {
    let list = clips(&[
        ("positive.positive_b", 4 * FPS, 8),
        ("negative.negative_b", 2 * FPS, 2),
        ("pouting", 10_000, 1),
    ]);
    for (mood, kind, time, idle) in [
        (Mood::Excited, ReactiveKind::Positive, 2 * SECOND, IdleMood::Normal),
        (Mood::Disappointed, ReactiveKind::Negative, SECOND, IdleMood::Normal),
        (Mood::PissedOff, ReactiveKind::Pouting, 100 * SECOND, IdleMood::Iraira),
    ] {
        let mut s = fresh();
        s.idle_mood = IdleMood::Anxiety;
        s.set_mood(mood, &list);
        assert_eq!(s.activity, Activity::Reactive(kind));
        assert_eq!(s.one_shot_timer, time);
        assert!(!s.update_at(time - 1, &list, NOON, 0));
        assert_eq!(s.activity, Activity::Reactive(kind));
        assert!(!s.update_at(1, &list, NOON, 0));
        assert_eq!(s.activity, Activity::Idle);
        assert_eq!(s.idle_mood, idle);
    }
}

#[test]
fn missing_clip_lasts_a_second() {
    let mut s = fresh();
    s.set_mood(Mood::Excited, &no_clips());
    assert_eq!(s.one_shot_timer, SECOND);
    s.set_mood(Mood::Excited, &clips(&[("positive.positive_b", FPS, 0)]));
    assert_eq!(s.one_shot_timer, SECOND);
}

#[test]
fn very_slow_clip_counts_as_a_hundredth_of_a_frame_per_second() {
    let mut s = fresh();
    s.set_mood(Mood::PissedOff, &clips(&[("pouting", 0, 3)]));
    assert_eq!(s.one_shot_timer, 300 * SECOND);
}

#[test]
fn other_moods_change_the_idle_at_once() {
    let mut s = fresh();
    s.set_mood(Mood::Excited, &no_clips());
    s.set_mood(Mood::Worried, &no_clips());
    assert_eq!((s.activity, s.idle_mood, s.one_shot_timer), (Activity::Idle, IdleMood::Anxiety, 0));
    s.set_mood(Mood::Neutral, &no_clips());
    assert_eq!((s.activity, s.idle_mood, s.one_shot_timer), (Activity::Idle, IdleMood::Normal, 0));
}

#[test]
fn sleep_comes_late_and_only_into_an_idle() {
    let list = clips(&[("sleep", FPS, 5)]);
    let mut s = fresh();
    s.update_at(400 * SECOND, &list, 21, 0);
    assert_eq!(s.activity, Activity::Idle);
    assert_eq!(s.sleep_countdown, 300 * SECOND);
    s.set_activity(Activity::PhoneChat);
    s.update_at(400 * SECOND, &list, LATE, 0);
    assert_eq!(s.activity, Activity::PhoneChat);
    s.set_activity(Activity::Idle);
    s.update_at(299 * SECOND, &list, 23, 0);
    assert_eq!(s.activity, Activity::Idle);
    assert_eq!(s.sleep_countdown, SECOND);
    s.update_at(SECOND, &list, LATE, 50_000);
    assert_eq!(s.activity, Activity::Sleeping);
    assert_eq!(s.one_shot_timer, 5 * SECOND);
    assert_eq!(s.sleep_countdown, 1050 * SECOND);
    s.idle_mood = IdleMood::Iraira;
    s.update_at(5 * SECOND, &list, NOON, 0);
    assert_eq!((s.activity, s.idle_mood), (Activity::Idle, IdleMood::Iraira));
}

#[test]
fn leaving_clip_is_played_once() {
    let list = clips(&[("out.out_b", FPS, 3)]);
    let mut s = fresh();
    s.start_closing(&list);
    assert_eq!((s.activity, s.one_shot_timer), (Activity::Closing, 3 * SECOND));
    assert!(!s.update_at(SECOND, &list, NOON, 0));
    s.start_closing(&list);
    assert_eq!(s.one_shot_timer, 2 * SECOND);
    assert!(s.update_at(2 * SECOND, &list, NOON, 0));
}

#[test]
fn time_passes_by_the_clock() {
    let mut s = PetState::new(false);
    assert!(!s.update(SECOND, &no_clips()));
    assert_eq!(s.idle_time, SECOND);
}

#[test]
fn clocks_do_not_run_over() {
    let mut s = fresh();
    s.idle_time = u64::MAX - 1;
    s.afk_penalty_ticks = 2_562_047;
    s.update_at(5, &no_clips(), NOON, 0);
    assert_eq!(s.idle_time, u64::MAX);
}
