//! What holds of the companion's state, whatever happens to it.

use vstd::arithmetic::div_mod::*;
use vstd::prelude::*;

use crate::animation::{AnimationClip, SECOND};
use crate::state::{
    self, Activity, IdleMood, Mood, ReactiveKind, Relationship, StateView, AFK_BLOCK, FULL, POINT,
};
use crate::text;

verus! {

/// Closeness and stress lie between nothing and full, and no more stretches of silence have been
/// counted than there were.
pub open spec fn is_sound(s: StateView) -> bool {
    &&& s.closeness <= FULL
    &&& s.stress <= FULL
    &&& s.afk_penalty_ticks <= s.idle_time / AFK_BLOCK
}

proof fn lemma_neglected_frame(s: StateView, n: nat)
    requires
        s.afk_penalty_ticks + n <= u32::MAX,
    ensures
        s.neglected(n) == (StateView {
            closeness: s.neglected(n).closeness,
            stress: s.neglected(n).stress,
            afk_penalty_ticks: (s.afk_penalty_ticks + n) as u32,
            ..s
        }),
    decreases n,
{
    if n > 0 {
        lemma_neglected_frame(s, (n - 1) as nat);
    }
}

/// Each stretch of silence costs five points of closeness, down to nothing, and adds three points
/// of stress, up to full. Nothing else changes but the count.
pub proof fn law_neglect_adds_up(s: StateView, n: nat)
    requires
        s.closeness <= FULL,
        s.stress <= FULL,
        s.afk_penalty_ticks + n <= u32::MAX,
    ensures
        s.neglected(n) == (StateView {
            closeness: state::shifted(s.closeness, -5_000_000 * n as int),
            stress: state::shifted(s.stress, 3_000_000 * n as int),
            afk_penalty_ticks: (s.afk_penalty_ticks + n) as u32,
            ..s
        }),
    decreases n,
{
    if n > 0 {
        law_neglect_adds_up(s, (n - 1) as nat);
    }
}

/// The state is sound at the start, and stays so whatever happens.
pub proof fn law_state_stays_sound<T>(
    s: StateView,
    debug: bool,
    delta: u64,
    amount: int,
    mood: Mood,
    activity: Activity,
    text: Seq<char>,
    clips: Map<Seq<char>, AnimationClip<T>>,
    hour: u32,
    nanos: u32,
)
    ensures
        forall|a: u32, b: u32| is_sound(#[trigger] state::first_state(debug, a, b)),
        is_sound(s) ==> {
            &&& is_sound(s.later(delta, clips, hour, nanos))
            &&& is_sound(s.spoken_to(nanos))
            &&& is_sound(s.polled(nanos))
            &&& is_sound(s.closer(amount))
            &&& is_sound(s.stressed(amount))
            &&& is_sound(s.in_mood(mood, clips))
            &&& is_sound(s.closing(clips))
            &&& is_sound(s.showing(text, delta))
            &&& is_sound(StateView { activity, ..s })
        },
{
    if is_sound(s) {
        let shown = s.screen_later(delta).one_shot_later(delta);
        let idle = StateView { idle_time: shown.idle_time.saturating_add(delta), ..shown };
        let blocks = (idle.idle_time / AFK_BLOCK) as int;
        if idle.afk_penalty_ticks < blocks {
            law_neglect_adds_up(idle, (blocks - idle.afk_penalty_ticks) as nat);
        }
    }
}

/// After time has passed, each full stretch of silence since the user last spoke has been counted
/// exactly once, unless the companion has left.
pub proof fn law_silence_is_counted_once<T>(
    s: StateView,
    delta: u64,
    clips: Map<Seq<char>, AnimationClip<T>>,
    hour: u32,
    nanos: u32,
)
    requires
        is_sound(s),
        !s.exits_within(delta),
    ensures
        ({
            let after = s.later(delta, clips, hour, nanos);
            &&& after.idle_time == s.idle_time.saturating_add(delta)
            &&& after.afk_penalty_ticks == after.idle_time / AFK_BLOCK
            &&& after.afk_penalty_ticks == after.idle_time / 7_200_000_000_000
            &&& after.closeness == state::shifted(
                s.closeness,
                -5_000_000 * (after.afk_penalty_ticks - s.afk_penalty_ticks),
            )
            &&& after.stress == state::shifted(
                s.stress,
                3_000_000 * (after.afk_penalty_ticks - s.afk_penalty_ticks),
            )
        }),
{
    let shown = s.screen_later(delta).one_shot_later(delta);
    let idle = StateView { idle_time: shown.idle_time.saturating_add(delta), ..shown };
    let blocks = (idle.idle_time / AFK_BLOCK) as int;
    if idle.afk_penalty_ticks < blocks {
        law_neglect_adds_up(idle, (blocks - idle.afk_penalty_ticks) as nat);
    } else {
        assert(idle.afk_penalty_ticks == blocks);
    }
    assert(shown.silence_later(delta).afk_penalty_ticks == blocks);
}

proof fn lemma_jittered(nanos: u32, min: u64, max: u64)
    requires
        min < max,
    ensures
        min <= state::jittered(nanos, min, max) < max,
{
    let span = max - min;
    let part = (nanos % 100_000) as int;
    assert(0 <= span * part / 100_000 < span) by (nonlinear_arith)
        requires
            0 <= part < 100_000,
            span > 0,
    ;
}

/// Jitter keeps a sleep 5 to 30 minutes away and a window of silence 2 to 50 minutes long.
pub proof fn law_jitter_stays_in_range(nanos: u32)
    ensures
        300 * SECOND <= state::next_sleep(nanos) < 1800 * SECOND,
        120 * SECOND <= state::next_silence(nanos) < 3000 * SECOND,
{
    lemma_jittered(nanos, (300 * SECOND) as u64, (1800 * SECOND) as u64);
    lemma_jittered(nanos, (120 * SECOND) as u64, (3000 * SECOND) as u64);
}

/// Once the companion has spoken up it does not do so again within two minutes of silence, and
/// does so again after fifty. Speaking up does not end the silence. The idle time must not come
/// to its end.
pub proof fn law_windows_do_not_overlap(s: StateView, nanos: u32, more: u64)
    requires
        s.wants_to_speak(),
        s.idle_time + 3000 * SECOND <= u64::MAX,
        s.idle_time + more <= u64::MAX,
    ensures
        ({
            let polled = s.polled(nanos);
            let silent = StateView { idle_time: (s.idle_time + more) as u64, ..polled };
            &&& polled == (StateView { next_initiate_at: polled.next_initiate_at, ..s })
            &&& more < 120 * SECOND ==> !silent.wants_to_speak()
            &&& more >= 3000 * SECOND ==> silent.wants_to_speak()
        }),
{
    law_jitter_stays_in_range(nanos);
}

/// The idle look that a reaction settles into.
pub open spec fn idle_after(kind: ReactiveKind) -> IdleMood {
    match kind {
        ReactiveKind::Pouting => IdleMood::Iraira,
        _ => IdleMood::Normal,
    }
}

/// A reaction plays for as long as its clip and no longer, and then settles into the idle that
/// goes with it; late at night a sleep may follow at once.
pub proof fn law_reaction_settles<T>(
    s: StateView,
    kind: ReactiveKind,
    delta: u64,
    clips: Map<Seq<char>, AnimationClip<T>>,
    hour: u32,
    nanos: u32,
)
    ensures
        ({
            let start = s.reacting(kind, clips);
            let after = start.later(delta, clips, hour, nanos);
            &&& !start.exits_within(delta)
            &&& delta < start.one_shot_timer ==> after.activity == Activity::Reactive(kind)
                && after.idle_mood == s.idle_mood
            &&& delta >= start.one_shot_timer ==> after.idle_mood == idle_after(kind) && (
            after.activity == Activity::Idle || hour >= 22 && after.activity == Activity::Sleeping)
        }),
{
    let shown = s.reacting(kind, clips).screen_later(delta).one_shot_later(delta);
    lemma_silence_keeps_activity(shown, delta);
}

/// Silence changes nothing of what the companion is doing and showing.
pub proof fn lemma_silence_keeps_activity(s: StateView, delta: u64)
    ensures
        s.silence_later(delta).one_shot_timer == s.one_shot_timer,
        s.silence_later(delta).activity == s.activity,
        s.silence_later(delta).idle_mood == s.idle_mood,
        s.silence_later(delta).reply == s.reply,
        s.silence_later(delta).reply_timer == s.reply_timer,
{
    let idle = StateView { idle_time: s.idle_time.saturating_add(delta), ..s };
    let blocks = (idle.idle_time / AFK_BLOCK) as int;
    if idle.afk_penalty_ticks < blocks {
        lemma_neglected_frame(idle, (blocks - idle.afk_penalty_ticks) as nat);
    }
}

/// The companion leaves exactly when its leaving clip has played. Asking again to close changes
/// nothing.
pub proof fn law_closing_plays_once<T>(
    s: StateView,
    delta: u64,
    clips: Map<Seq<char>, AnimationClip<T>>,
)
    requires
        s.activity != Activity::Closing,
    ensures
        s.closing(clips).closing(clips) == s.closing(clips),
        s.closing(clips).exits_within(delta) == (delta >= s.closing(clips).one_shot_timer),
        s.closing(clips).animation() == state::tiered("out.out_"@, s.relationship),
        !s.exits_within(delta),
{
}

/// Sleep comes only late, and never into a chat, a reaction that still plays, or a farewell.
pub proof fn law_sleep_does_not_interrupt<T>(
    s: StateView,
    delta: u64,
    clips: Map<Seq<char>, AnimationClip<T>>,
    hour: u32,
    nanos: u32,
)
    requires
        s.activity != Activity::Sleeping,
        s.later(delta, clips, hour, nanos).activity == Activity::Sleeping,
    ensures
        hour >= 22,
        s.activity == Activity::Idle || s.activity is Reactive && s.ends_within(delta),
{
    lemma_silence_keeps_activity(s.screen_later(delta).one_shot_later(delta), delta);
}

/// A reply stays on screen for the time it was given, and not longer.
pub proof fn law_reply_fades<T>(
    s: StateView,
    text: Seq<char>,
    time: u64,
    delta: u64,
    clips: Map<Seq<char>, AnimationClip<T>>,
    hour: u32,
    nanos: u32,
)
    ensures
        s.showing(text, time).later(delta, clips, hour, nanos).reply == (if delta < time {
            Some(text)
        } else {
            None
        }),
{
    let shown = s.showing(text, time).screen_later(delta).one_shot_later(delta);
    lemma_silence_keeps_activity(shown, delta);
}

/// How far a friendship has come, from distant to very close.
pub open spec fn rank(r: Relationship) -> int {
    match r {
        Relationship::D => 0,
        Relationship::G => 1,
        Relationship::A => 2,
        Relationship::B => 3,
        Relationship::C => 4,
        _ => -1,
    }
}

/// Stress has priority over closeness; below half of it, more closeness never shows as less. This
/// leaves out the debugging look.
pub proof fn law_relationship_follows_closeness(
    closeness: u64,
    closer: u64,
    stress: u64,
    debug: bool,
)
    requires
        closeness <= closer,
    ensures
        stress >= 80 * POINT <==> state::relationship_of(closeness, stress, debug)
            == Relationship::E,
        50 * POINT <= stress < 80 * POINT <==> state::relationship_of(closeness, stress, debug)
            == Relationship::F,
        stress < 50 * POINT && !debug ==> 0 <= rank(
            state::relationship_of(closeness, stress, debug),
        ) <= rank(state::relationship_of(closer, stress, debug)),
{
}

/// Each mood has its names and no others; any other name is neutral.
pub proof fn law_moods_have_their_names(name: Seq<char>)
    ensures
        state::mood_named(name) == Mood::Worried <==> name == "worried"@,
        state::mood_named(name) == Mood::Excited <==> name == "excited"@,
        state::mood_named(name) == Mood::Disappointed <==> name == "disappointed"@,
        state::mood_named(name) == Mood::PissedOff <==> name == "pissed_off"@ || name
            == "pissed off"@ || name == "angry"@,
{
    reveal_strlit("worried");
    reveal_strlit("excited");
    reveal_strlit("disappointed");
    reveal_strlit("pissed_off");
    reveal_strlit("pissed off");
    reveal_strlit("angry");
    assert("worried"@[0] == 'w' && "excited"@[0] == 'e' && "disappointed"@[0] == 'd'
        && "pissed_off"@[0] == 'p' && "pissed off"@[0] == 'p' && "angry"@[0] == 'a');
}

/// The bands of closeness below which stress does not show, and those of stress above them. Points
/// are in millionths.
pub proof fn law_relationship_has_its_bands(closeness: u64, stress: u64, debug: bool)
    ensures
        ({
            let r = state::relationship_of(closeness, stress, debug);
            let calm = stress < 50_000_000;
            let showing_off = calm && debug && stress == 0 && closeness > 85_000_000;
            &&& r == Relationship::E <==> stress >= 80_000_000
            &&& r == Relationship::F <==> 50_000_000 <= stress < 80_000_000
            &&& r == Relationship::D <==> calm && closeness < 10_000_000
            &&& r == Relationship::G <==> showing_off || calm && 10_000_000 <= closeness
                < 20_000_000
            &&& r == Relationship::A <==> calm && 20_000_000 <= closeness < 40_000_000
            &&& r == Relationship::B <==> calm && 40_000_000 <= closeness < 60_000_000
            &&& r == Relationship::C <==> calm && closeness >= 60_000_000 && !showing_off
        }),
{
}

proof fn lemma_silence_keeps_the_rest(s: StateView, delta: u64)
    ensures
        s.silence_later(delta).relationship == s.relationship,
        s.silence_later(delta).sleep_countdown == s.sleep_countdown,
        s.silence_later(delta).next_initiate_at == s.next_initiate_at,
        s.silence_later(delta).debug == s.debug,
{
    let idle = StateView { idle_time: s.idle_time.saturating_add(delta), ..s };
    let blocks = (idle.idle_time / AFK_BLOCK) as int;
    if idle.afk_penalty_ticks < blocks {
        lemma_neglected_frame(idle, (blocks - idle.afk_penalty_ticks) as nat);
    }
}

/// Whenever time passes the relationship becomes the one that closeness and stress make.
pub proof fn law_relationship_is_taken_anew<T>(
    s: StateView,
    delta: u64,
    clips: Map<Seq<char>, AnimationClip<T>>,
    hour: u32,
    nanos: u32,
)
    ensures
        s.later(delta, clips, hour, nanos).relationship == state::relationship_of(
            s.closeness,
            s.stress,
            s.debug,
        ),
{
    lemma_silence_keeps_the_rest(s.screen_later(delta).one_shot_later(delta), delta);
}

/// Time runs off every timer alike: the reply has `delta` less to stay, and so has the clip that
/// plays once, unless a sleep takes its place. The window of silence stays where it was.
pub proof fn law_timers_run_down<T>(
    s: StateView,
    delta: u64,
    clips: Map<Seq<char>, AnimationClip<T>>,
    hour: u32,
    nanos: u32,
)
    ensures
        ({
            let after = s.later(delta, clips, hour, nanos);
            let falls_asleep = after.activity == Activity::Sleeping && (s.activity
                != Activity::Sleeping || s.one_shot_timer <= delta);
            &&& after.reply_timer == (if s.reply_timer > delta {
                s.reply_timer - delta
            } else {
                0
            })
            &&& after.reply == (if s.reply_timer > delta {
                s.reply
            } else {
                None
            })
            &&& !falls_asleep ==> after.one_shot_timer == (if s.one_shot_timer > delta {
                s.one_shot_timer - delta
            } else {
                0
            })
            &&& after.next_initiate_at == s.next_initiate_at
            &&& after.debug == s.debug
        }),
{
    let shown = s.screen_later(delta).one_shot_later(delta);
    lemma_silence_keeps_activity(shown, delta);
    lemma_silence_keeps_the_rest(shown, delta);
}

/// Late at night, and only then, an idle companion comes nearer to its sleep, and falls asleep
/// when the time for it has come: the sleeping clip is played and a new time is set.
pub proof fn law_sleep_comes_when_it_is_due<T>(
    s: StateView,
    delta: u64,
    clips: Map<Seq<char>, AnimationClip<T>>,
    hour: u32,
    nanos: u32,
)
    requires
        s.activity == Activity::Idle,
    ensures
        ({
            let after = s.later(delta, clips, hour, nanos);
            &&& hour < 22 ==> after.activity == Activity::Idle && after.sleep_countdown
                == s.sleep_countdown
            &&& hour >= 22 && s.sleep_countdown > delta ==> after.activity == Activity::Idle
                && after.sleep_countdown == s.sleep_countdown - delta
            &&& hour >= 22 && s.sleep_countdown <= delta ==> {
                &&& after.activity == Activity::Sleeping
                &&& after.one_shot_timer == state::clip_time(clips, "sleep"@)
                &&& 300_000_000_000 <= after.sleep_countdown < 1_800_000_000_000
            }
            &&& after.idle_mood == s.idle_mood
        }),
{
    let shown = s.screen_later(delta).one_shot_later(delta);
    lemma_silence_keeps_activity(shown, delta);
    lemma_silence_keeps_the_rest(shown, delta);
    law_jitter_stays_in_range(nanos);
}

/// A chat goes on, and so does a clip that still has time; a sleep that is over gives way to an
/// idle of the same look, or late at night to another sleep.
pub proof fn law_activity_goes_on<T>(
    s: StateView,
    delta: u64,
    clips: Map<Seq<char>, AnimationClip<T>>,
    hour: u32,
    nanos: u32,
)
    ensures
        ({
            let after = s.later(delta, clips, hour, nanos);
            &&& s.activity == Activity::PhoneChat ==> after.activity == Activity::PhoneChat
            &&& s.activity != Activity::Idle && (s.one_shot_timer == 0 || s.one_shot_timer > delta)
                ==> after.activity == s.activity && after.idle_mood == s.idle_mood
            &&& s.activity == Activity::Sleeping && 0 < s.one_shot_timer <= delta ==> after.idle_mood
                == s.idle_mood && (after.activity == Activity::Idle || hour >= 22
                && after.activity == Activity::Sleeping)
            &&& s.activity == Activity::PhoneChat || s.activity == Activity::Idle
                ==> after.idle_mood == s.idle_mood
        }),
{
    let shown = s.screen_later(delta).one_shot_later(delta);
    lemma_silence_keeps_activity(shown, delta);
    lemma_silence_keeps_the_rest(shown, delta);
}

/// A change adds up where it stays between nothing and full, and ends there where it does not.
pub proof fn law_points_stay_in_range(value: u64, amount: int)
    ensures
        0 <= value + amount <= 100_000_000 ==> state::shifted(value, amount) == value + amount,
        value + amount < 0 ==> state::shifted(value, amount) == 0,
        value + amount > 100_000_000 ==> state::shifted(value, amount) == 100_000_000,
{
}

/// A change of closeness or of stress changes nothing else.
pub proof fn law_points_change_alone(s: StateView, amount: int)
    ensures
        s.closer(amount) == (StateView { closeness: state::shifted(s.closeness, amount), ..s }),
        s.stressed(amount) == (StateView { stress: state::shifted(s.stress, amount), ..s }),
{
}

/// A word of the user brings four tenths of a point of closeness, takes a tenth of a point of
/// stress, and ends the silence; the next word of the companion is 2 to 50 minutes away. What the
/// companion is doing and showing stays.
pub proof fn law_word_of_the_user(s: StateView, nanos: u32)
    requires
        is_sound(s),
    ensures
        ({
            let after = s.spoken_to(nanos);
            &&& after.closeness == (if s.closeness + 400_000 > 100_000_000 {
                100_000_000
            } else {
                s.closeness + 400_000
            })
            &&& after.stress == (if s.stress < 100_000 {
                0
            } else {
                s.stress - 100_000
            })
            &&& after.idle_time == 0
            &&& after.afk_penalty_ticks == 0
            &&& 120_000_000_000 <= after.next_initiate_at < 3_000_000_000_000
            &&& after == (StateView {
                closeness: after.closeness,
                stress: after.stress,
                idle_time: 0,
                afk_penalty_ticks: 0,
                next_initiate_at: after.next_initiate_at,
                ..s
            })
        }),
{
    law_jitter_stays_in_range(nanos);
}

/// A mood changes what the companion is doing and nothing else: two of them make an idle at once,
/// three start a reaction that lasts as long as its clip.
pub proof fn law_mood_is_acted_out<T>(
    s: StateView,
    mood: Mood,
    clips: Map<Seq<char>, AnimationClip<T>>,
)
    ensures
        ({
            let after = s.in_mood(mood, clips);
            &&& after == (StateView {
                activity: after.activity,
                idle_mood: after.idle_mood,
                one_shot_timer: after.one_shot_timer,
                ..s
            })
            &&& mood == Mood::Worried ==> after.activity == Activity::Idle && after.idle_mood
                == IdleMood::Anxiety && after.one_shot_timer == 0
            &&& mood == Mood::Neutral ==> after.activity == Activity::Idle && after.idle_mood
                == IdleMood::Normal && after.one_shot_timer == 0
            &&& mood == Mood::Excited ==> after.activity == Activity::Reactive(
                ReactiveKind::Positive,
            )
            &&& mood == Mood::Disappointed ==> after.activity == Activity::Reactive(
                ReactiveKind::Negative,
            )
            &&& mood == Mood::PissedOff ==> after.activity == Activity::Reactive(
                ReactiveKind::Pouting,
            )
            &&& after.activity is Reactive ==> after.idle_mood == s.idle_mood
                && after.one_shot_timer == state::clip_time(clips, after.animation())
        }),
{
}

/// Asked to close, the companion starts its leaving clip, for as long as that lasts, and nothing
/// else changes.
pub proof fn law_closing_starts_the_farewell<T>(
    s: StateView,
    clips: Map<Seq<char>, AnimationClip<T>>,
)
    ensures
        ({
            let after = s.closing(clips);
            &&& after.activity == Activity::Closing
            &&& s.activity == Activity::Closing ==> after == s
            &&& s.activity != Activity::Closing ==> after == (StateView {
                activity: Activity::Closing,
                one_shot_timer: state::clip_time(clips, after.animation()),
                ..s
            })
        }),
{
}

/// A reply is shown with the time it was given, and nothing else changes.
pub proof fn law_reply_is_shown(s: StateView, text: Seq<char>, time: u64)
    ensures
        s.showing(text, time) == (StateView { reply: Some(text), reply_timer: time, ..s }),
{
}

proof fn lemma_jitter_is_even(nanos: u32, min: u64, max: u64)
    requires
        min <= max,
    ensures
        ({
            let part = nanos as int % 100_000;
            let over = state::jittered(nanos, min, max) - min;
            &&& 100_000 * over <= (max - min) * part < 100_000 * (over + 1)
        }),
{
    let span = max - min;
    let part = nanos as int % 100_000;
    assert(0 <= span * part / 100_000 <= span) by (nonlinear_arith)
        requires
            0 <= part < 100_000,
            span >= 0,
    ;
    assert((max - min) * (nanos % 100_000) == span * part);
}

/// Jitter takes as much of its range as the last five digits of the nanoseconds are of a hundred
/// thousand, to the nanosecond below.
pub proof fn law_jitter_follows_the_nanoseconds(nanos: u32)
    ensures
        ({
            let part = nanos as int % 100_000;
            let sleep = state::next_sleep(nanos) - 300_000_000_000;
            let silence = state::next_silence(nanos) - 120_000_000_000;
            &&& 100_000 * sleep <= 1_500_000_000_000 * part < 100_000 * (sleep + 1)
            &&& 100_000 * silence <= 2_880_000_000_000 * part < 100_000 * (silence + 1)
        }),
{
    lemma_jitter_is_even(nanos, (300 * SECOND) as u64, (1800 * SECOND) as u64);
    lemma_jitter_is_even(nanos, (120 * SECOND) as u64, (3000 * SECOND) as u64);
}

/// A clip plays for as long as its frames take at its rate, to the nanosecond below it and for at
/// least one nanosecond. A rate under a hundredth of a frame per second counts as that, and a clip
/// that is not there, or has no frame, takes a second.
pub proof fn law_clip_takes_its_time<T>(clips: Map<Seq<char>, AnimationClip<T>>, id: Seq<char>)
    ensures
        ({
            let time = state::clip_time(clips, id);
            &&& time >= 1
            &&& !clips.contains_key(id) || clips[id].frames@.len() == 0 ==> time == 1_000_000_000
            &&& clips.contains_key(id) && clips[id].frames@.len() > 0 && 1 < time < u64::MAX ==> {
                let rate = if clips[id].config.fps < 10_000 {
                    10_000int
                } else {
                    clips[id].config.fps as int
                };
                time * rate <= clips[id].frames@.len() * 1_000_000_000_000_000 < (time + 1) * rate
            }
            &&& clips.contains_key(id) && clips[id].frames@.len() > 0 && time == 1 ==> clips[
            id].frames@.len() * 1_000_000_000_000_000 < 2 * clips[id].config.fps
            &&& clips.contains_key(id) && clips[id].frames@.len() > 0 && time == u64::MAX
                ==> clips[id].frames@.len() * 1_000_000_000_000_000 >= u64::MAX * 10_000
        }),
{
    if clips.contains_key(id) && clips[id].frames@.len() > 0 {
        let rate = if clips[id].config.fps < 10_000 {
            10_000int
        } else {
            clips[id].config.fps as int
        };
        let work = clips[id].frames@.len() as int * 1_000_000_000_000_000;
        let q = work / rate;
        lemma_fundamental_div_mod(work, rate);
        lemma_mod_bound(work, rate);
        assert(rate * q == q * rate) by (nonlinear_arith);
        assert((q + 1) * rate == q * rate + rate) by (nonlinear_arith);
        assert(q >= u64::MAX ==> work >= u64::MAX * 10_000) by (nonlinear_arith)
            requires
                work >= q * rate,
                rate >= 10_000,
        ;
        assert(q <= 1 ==> work < 2 * rate) by (nonlinear_arith)
            requires
                work < (q + 1) * rate,
                rate >= 10_000,
        ;
        assert(work >= 1_000_000_000_000_000);
    }
}

/// The companion wants to speak exactly when its window of silence is over; where it does not,
/// asking it changes nothing.
pub proof fn law_companion_speaks_when_its_window_is_over(s: StateView, nanos: u32)
    ensures
        s.wants_to_speak() <==> s.idle_time >= s.next_initiate_at,
        s.idle_time < s.next_initiate_at ==> s.polled(nanos) == s,
        s.idle_time >= s.next_initiate_at && s.idle_time + 3000 * SECOND <= u64::MAX
            ==> 120_000_000_000 <= s.polled(nanos).next_initiate_at - s.idle_time
            < 3_000_000_000_000,
{
    law_jitter_stays_in_range(nanos);
}

/// The model is told of closeness and stress in whole points, the nearest ones, and of the
/// relationship in words.
pub proof fn law_state_is_told_in_points(s: StateView)
    ensures
        state::prompt_text(s) == "[Current state] closeness: "@ + text::decimal(
            text::nearest(s.closeness as nat, 1_000_000),
        ) + "/100, stress: "@ + text::decimal(text::nearest(s.stress as nat, 1_000_000))
            + "/100. "@ + state::tier_description(s.relationship),
        s.closeness <= 100_000_000 ==> state::stat_text_of(s.closeness) == text::decimal(
            text::nearest(s.closeness as nat, 1_000_000),
        ) + "/100"@,
{
}

/// At the start the companion is half close and without stress, idle and silent.
pub proof fn law_companion_starts_calm(debug: bool, sleep_nanos: u32, silence_nanos: u32)
    ensures
        ({
            let s = state::first_state(debug, sleep_nanos, silence_nanos);
            &&& s.closeness == 50_000_000
            &&& s.stress == 0
            &&& s.relationship == Relationship::B
            &&& s.activity == Activity::Idle
            &&& s.idle_mood == IdleMood::Normal
            &&& s.one_shot_timer == 0
            &&& s.sleep_countdown == state::next_sleep(sleep_nanos)
            &&& s.reply is None
            &&& s.reply_timer == 0
            &&& s.idle_time == 0
            &&& s.next_initiate_at == state::next_silence(silence_nanos)
            &&& s.afk_penalty_ticks == 0
            &&& s.debug == debug
        }),
{
}

/// The clip of what the companion is doing goes by its activity, by its look where it is idle, and
/// by the letter of the relationship.
pub proof fn law_clip_goes_by_activity(s: StateView)
    ensures
        ({
            let c = s.animation();
            let letter = state::tier_letter(s.relationship);
            &&& s.activity == Activity::Idle && s.idle_mood == IdleMood::Normal ==> c
                == "idle_normal.normal_"@.push(letter)
            &&& s.activity == Activity::Idle && s.idle_mood == IdleMood::Anxiety ==> c
                == "idle_anxiety.anxiety_"@.push(letter)
            &&& s.activity == Activity::Idle && s.idle_mood == IdleMood::Iraira ==> c
                == "idle_iraira.iraira_"@.push(letter)
            &&& s.activity == Activity::PhoneChat ==> c == "phone_chat.talk_"@.push(letter)
            &&& s.activity == Activity::Reactive(ReactiveKind::Positive) ==> c
                == "positive.positive_"@.push(letter)
            &&& s.activity == Activity::Reactive(ReactiveKind::Negative) ==> c
                == "negative.negative_"@.push(letter)
            &&& s.activity == Activity::Reactive(ReactiveKind::Pouting) ==> c == "pouting"@
            &&& s.activity == Activity::Sleeping ==> c == "sleep"@
            &&& s.activity == Activity::Closing ==> c == "out.out_"@.push(letter)
        }),
{
}

} // verus!
