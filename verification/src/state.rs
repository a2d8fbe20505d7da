//! How the companion feels, and how that changes with time and talk.
//!
//! Times are in nanoseconds. Closeness and stress are in millionths of a point.

use vstd::prelude::*;

use crate::animation::{AnimationClip, SECOND, SLOWEST_FRAME};
use crate::catalog::Catalog;
use crate::clock;
use crate::json;
use crate::text;

verus! {

broadcast use vstd::string::group_string_axioms;

/// One point of closeness or stress.
pub const POINT: u64 = 1_000_000;

/// The most that closeness and stress come to.
pub const FULL: u64 = 100_000_000;

/// A stretch of silence that costs closeness and adds stress: two hours.
pub const AFK_BLOCK: u64 = 7_200_000_000_000;

/// How close the two are, or how stressed the companion is.
#[derive(Debug, Clone, Copy, PartialEq, Eq, Structural)]
pub enum Relationship {
    A,
    B,
    C,
    D,
    E,
    F,
    G,
}

/// What an idle looks like.
#[derive(Debug, Clone, Copy, PartialEq, Eq, Structural)]
pub enum IdleMood {
    Normal,
    Anxiety,
    Iraira,
}

/// A reaction that is played once.
#[derive(Debug, Clone, Copy, PartialEq, Eq, Structural)]
pub enum ReactiveKind {
    Positive,
    Negative,
    Pouting,
}

/// What the companion is doing.
#[derive(Debug, Clone, Copy, PartialEq, Eq, Structural)]
pub enum Activity {
    Idle,
    PhoneChat,
    Reactive(ReactiveKind),
    Sleeping,
    Closing,
}

/// The mood that comes with an answer of the model.
#[derive(Debug, Clone, Copy, PartialEq, Eq, Structural)]
pub enum Mood {
    Worried,
    Excited,
    Disappointed,
    PissedOff,
    Neutral,
}

/// The mood of a name in lower case. A name that is not known is neutral.
pub open spec fn mood_named(name: Seq<char>) -> Mood {
    if name == "worried"@ {
        Mood::Worried
    } else if name == "excited"@ {
        Mood::Excited
    } else if name == "disappointed"@ {
        Mood::Disappointed
    } else if name == "pissed_off"@ || name == "pissed off"@ || name == "angry"@ {
        Mood::PissedOff
    } else {
        Mood::Neutral
    }
}

impl Mood {
    /// The mood of a name in lower case.
    pub fn from_name(name: &str) -> (mood: Mood)
        ensures
            mood == mood_named(name@),
    {
        if text::same(name, "worried") {
            Mood::Worried
        } else if text::same(name, "excited") {
            Mood::Excited
        } else if text::same(name, "disappointed") {
            Mood::Disappointed
        } else if text::same(name, "pissed_off") || text::same(name, "pissed off") || text::same(
            name,
            "angry",
        ) {
            Mood::PissedOff
        } else {
            Mood::Neutral
        }
    }

    /// The mood that the model named, whatever the case of the letters and the whitespace around.
    pub fn from_llm(raw: &str) -> (mood: Mood)
        ensures
            mood == mood_named(text::lowercase(text::trimmed(raw@))),
            text::is_ascii_text(text::trimmed(raw@)) ==> mood == mood_named(
                text::ascii_lowercase(text::trimmed(raw@)),
            ),
    {
        Mood::from_name(text::to_lowercase(text::trim(raw).as_str()).as_str())
    }
}

/// The letter of a relationship.
pub open spec fn tier_letter(r: Relationship) -> char {
    match r {
        Relationship::A => 'a',
        Relationship::B => 'b',
        Relationship::C => 'c',
        Relationship::D => 'd',
        Relationship::E => 'e',
        Relationship::F => 'f',
        Relationship::G => 'g',
    }
}

/// The clip of a family that goes with a relationship.
pub open spec fn tiered(family: Seq<char>, r: Relationship) -> Seq<char> {
    family.push(tier_letter(r))
}

/// The relationship that closeness and stress make. Stress has priority. With `debug` set, no
/// stress at all and a closeness above 85 show `G`.
pub open spec fn relationship_of(closeness: u64, stress: u64, debug: bool) -> Relationship {
    if stress >= 80 * POINT {
        Relationship::E
    } else if stress >= 50 * POINT {
        Relationship::F
    } else if debug && stress == 0 && closeness > 85 * POINT {
        Relationship::G
    } else if closeness < 10 * POINT {
        Relationship::D
    } else if closeness < 20 * POINT {
        Relationship::G
    } else if closeness < 40 * POINT {
        Relationship::A
    } else if closeness < 60 * POINT {
        Relationship::B
    } else {
        Relationship::C
    }
}

/// `value` moved by `amount`, kept between nothing and full.
pub open spec fn shifted(value: u64, amount: int) -> u64 {
    let sum = value + amount;
    if sum < 0 {
        0
    } else if sum > FULL {
        FULL
    } else {
        sum as u64
    }
}

/// A time from `min` to `max`, the nanoseconds of the clock deciding which.
pub open spec fn jittered(nanos: u32, min: u64, max: u64) -> u64 {
    (min + (max - min) * (nanos % 100_000) / 100_000) as u64
}

/// When the next sleep is thought of: in 5 to 30 minutes.
pub open spec fn next_sleep(nanos: u32) -> u64 {
    jittered(nanos, (300 * SECOND) as u64, (1800 * SECOND) as u64)
}

/// For how long the companion stays silent before it speaks up: 2 to 50 minutes.
pub open spec fn next_silence(nanos: u32) -> u64 {
    jittered(nanos, (120 * SECOND) as u64, (3000 * SECOND) as u64)
}

/// For how long a clip plays. One that is not there or has no frames takes a second.
pub open spec fn clip_time<T>(clips: Map<Seq<char>, AnimationClip<T>>, id: Seq<char>) -> u64 {
    if clips.contains_key(id) && clips[id].frames@.len() > 0 {
        let fps = if clips[id].config.fps < 10_000 {
            10_000
        } else {
            clips[id].config.fps as int
        };
        let time = clips[id].frames@.len() * SLOWEST_FRAME / fps;
        if time > u64::MAX {
            u64::MAX
        } else if time < 1 {
            1
        } else {
            time as u64
        }
    } else {
        SECOND
    }
}

fn pseudo_random_range(nanos: u32, min: u64, max: u64) -> (res: u64)
    requires
        min <= max,
    ensures
        res == jittered(nanos, min, max),
        min <= res <= max,
{
    let part: u128 = (nanos % 100_000) as u128;
    let span: u128 = (max - min) as u128;
    proof {
        assert(span * part / 100_000 <= span) by (nonlinear_arith)
            requires
                part < 100_000,
                span >= 0,
        ;
        assert(0 <= span * part <= u64::MAX * 100_000) by (nonlinear_arith)
            requires
                0 <= part < 100_000,
                0 <= span <= u64::MAX,
        ;
        assert((max - min) * (nanos % 100_000) == span * part);
    }
    min + (span * part / 100_000) as u64
}

fn clip_duration<T>(animations: &Catalog<AnimationClip<T>>, id: &str) -> (res: u64)
    ensures
        res == clip_time(animations@, id@),
{
    match animations.get(id) {
        Some(clip) => if clip.frames.len() > 0 {
            let fps: u64 = if clip.config.fps < 10_000 {
                10_000
            } else {
                clip.config.fps
            };
            let frames: u128 = clip.frames.len() as u128;
            assert(frames * SLOWEST_FRAME <= u128::MAX) by (nonlinear_arith)
                requires
                    frames <= u64::MAX,
                    SLOWEST_FRAME == 1_000_000_000_000_000,
            ;
            let time: u128 = frames * SLOWEST_FRAME as u128 / fps as u128;
            if time > u64::MAX as u128 {
                u64::MAX
            } else if time == 0 {
                1
            } else {
                time as u64
            }
        } else {
            SECOND
        },
        None => SECOND,
    }
}

/// How the companion feels and what it is doing.
pub struct PetState {
    pub closeness: u64,
    pub stress: u64,
    pub relationship: Relationship,
    pub activity: Activity,
    pub idle_mood: IdleMood,
    /// What is left of the clip that plays once.
    pub one_shot_timer: u64,
    /// What is left until a sleep is thought of.
    pub sleep_countdown: u64,
    /// The reply to show, and for how long.
    pub reply: Option<String>,
    pub reply_timer: u64,
    /// The time since the user last said something.
    pub idle_time: u64,
    /// The idle time at which the companion speaks up.
    pub next_initiate_at: u64,
    /// The stretches of silence that have been counted.
    pub afk_penalty_ticks: u32,
    /// Whether the debugging look of a very high closeness is on.
    pub debug: bool,
}

/// What a [`PetState`] holds.
pub struct StateView {
    pub closeness: u64,
    pub stress: u64,
    pub relationship: Relationship,
    pub activity: Activity,
    pub idle_mood: IdleMood,
    pub one_shot_timer: u64,
    pub sleep_countdown: u64,
    pub reply: Option<Seq<char>>,
    pub reply_timer: u64,
    pub idle_time: u64,
    pub next_initiate_at: u64,
    pub afk_penalty_ticks: u32,
    pub debug: bool,
}

impl View for PetState {
    type V = StateView;

    open spec fn view(&self) -> StateView {
        StateView {
            closeness: self.closeness,
            stress: self.stress,
            relationship: self.relationship,
            activity: self.activity,
            idle_mood: self.idle_mood,
            one_shot_timer: self.one_shot_timer,
            sleep_countdown: self.sleep_countdown,
            reply: json::opt_text(self.reply),
            reply_timer: self.reply_timer,
            idle_time: self.idle_time,
            next_initiate_at: self.next_initiate_at,
            afk_penalty_ticks: self.afk_penalty_ticks,
            debug: self.debug,
        }
    }
}

/// The state at the start.
pub open spec fn first_state(debug: bool, sleep_nanos: u32, silence_nanos: u32) -> StateView {
    StateView {
        closeness: (50 * POINT) as u64,
        stress: 0,
        relationship: Relationship::B,
        activity: Activity::Idle,
        idle_mood: IdleMood::Normal,
        one_shot_timer: 0,
        sleep_countdown: next_sleep(sleep_nanos),
        reply: None,
        reply_timer: 0,
        idle_time: 0,
        next_initiate_at: next_silence(silence_nanos),
        afk_penalty_ticks: 0,
        debug,
    }
}

impl StateView {
    /// The clip of what the companion is doing.
    pub open spec fn animation(self) -> Seq<char> {
        match self.activity {
            Activity::Idle => match self.idle_mood {
                IdleMood::Normal => tiered("idle_normal.normal_"@, self.relationship),
                IdleMood::Anxiety => tiered("idle_anxiety.anxiety_"@, self.relationship),
                IdleMood::Iraira => tiered("idle_iraira.iraira_"@, self.relationship),
            },
            Activity::PhoneChat => tiered("phone_chat.talk_"@, self.relationship),
            Activity::Reactive(kind) => self.reaction(kind),
            Activity::Sleeping => "sleep"@,
            Activity::Closing => tiered("out.out_"@, self.relationship),
        }
    }

    /// The clip of a reaction.
    pub open spec fn reaction(self, kind: ReactiveKind) -> Seq<char> {
        match kind {
            ReactiveKind::Positive => tiered("positive.positive_"@, self.relationship),
            ReactiveKind::Negative => tiered("negative.negative_"@, self.relationship),
            ReactiveKind::Pouting => "pouting"@,
        }
    }

    /// After a change of closeness.
    pub open spec fn closer(self, amount: int) -> StateView {
        StateView { closeness: shifted(self.closeness, amount), ..self }
    }

    /// After a change of stress.
    pub open spec fn stressed(self, amount: int) -> StateView {
        StateView { stress: shifted(self.stress, amount), ..self }
    }

    /// While `text` is shown for `time`.
    pub open spec fn showing(self, text: Seq<char>, time: u64) -> StateView {
        StateView { reply: Some(text), reply_timer: time, ..self }
    }

    /// After the user said something: a little closer, a little less stressed, not idle.
    pub open spec fn spoken_to(self, nanos: u32) -> StateView {
        StateView {
            idle_time: 0,
            afk_penalty_ticks: 0,
            next_initiate_at: next_silence(nanos),
            ..self.closer(400_000).stressed(-100_000)
        }
    }

    /// In an idle of the given look.
    pub open spec fn idling(self, idle_mood: IdleMood) -> StateView {
        StateView { idle_mood, activity: Activity::Idle, one_shot_timer: 0, ..self }
    }

    /// At the start of a reaction.
    pub open spec fn reacting<T>(
        self,
        kind: ReactiveKind,
        clips: Map<Seq<char>, AnimationClip<T>>,
    ) -> StateView {
        StateView {
            activity: Activity::Reactive(kind),
            one_shot_timer: clip_time(clips, self.reaction(kind)),
            ..self
        }
    }

    /// After a mood came with an answer.
    pub open spec fn in_mood<T>(
        self,
        mood: Mood,
        clips: Map<Seq<char>, AnimationClip<T>>,
    ) -> StateView {
        match mood {
            Mood::Worried => self.idling(IdleMood::Anxiety),
            Mood::Neutral => self.idling(IdleMood::Normal),
            Mood::Excited => self.reacting(ReactiveKind::Positive, clips),
            Mood::Disappointed => self.reacting(ReactiveKind::Negative, clips),
            Mood::PissedOff => self.reacting(ReactiveKind::Pouting, clips),
        }
    }

    /// At the start of a sleep.
    pub open spec fn asleep<T>(
        self,
        clips: Map<Seq<char>, AnimationClip<T>>,
        nanos: u32,
    ) -> StateView {
        StateView {
            activity: Activity::Sleeping,
            one_shot_timer: clip_time(clips, "sleep"@),
            sleep_countdown: next_sleep(nanos),
            ..self
        }
    }

    /// After the window was asked to close. One that is closing already goes on.
    pub open spec fn closing<T>(self, clips: Map<Seq<char>, AnimationClip<T>>) -> StateView {
        if self.activity == Activity::Closing {
            self
        } else {
            StateView {
                activity: Activity::Closing,
                one_shot_timer: clip_time(clips, tiered("out.out_"@, self.relationship)),
                ..self
            }
        }
    }

    /// After a clip that plays once has ended.
    pub open spec fn settled(self) -> StateView {
        match self.activity {
            Activity::Reactive(ReactiveKind::Pouting) => StateView {
                idle_mood: IdleMood::Iraira,
                activity: Activity::Idle,
                ..self
            },
            Activity::Reactive(_) => StateView {
                idle_mood: IdleMood::Normal,
                activity: Activity::Idle,
                ..self
            },
            Activity::Sleeping => StateView { activity: Activity::Idle, ..self },
            _ => self,
        }
    }

    /// After `n` stretches of silence.
    pub open spec fn neglected(self, n: nat) -> StateView
        decreases n,
    {
        if n == 0 {
            self
        } else {
            let before = self.neglected((n - 1) as nat);
            StateView {
                afk_penalty_ticks: (before.afk_penalty_ticks + 1) as u32,
                ..before.closer(-5 * POINT).stressed(3 * POINT)
            }
        }
    }

    /// `delta` later, as far as the reply on screen goes: it is gone once its time is over.
    pub open spec fn reply_later(self, delta: u64) -> StateView {
        let timer = self.reply_timer.saturating_sub(delta);
        StateView {
            reply_timer: timer,
            reply: if timer == 0 {
                None
            } else {
                self.reply
            },
            ..self
        }
    }

    /// Tells whether the clip that plays once comes to its end within `delta`.
    pub open spec fn ends_within(self, delta: u64) -> bool {
        0 < self.one_shot_timer <= delta
    }

    /// `delta` later, as far as the clip that plays once goes.
    pub open spec fn one_shot_later(self, delta: u64) -> StateView {
        let timer = self.one_shot_timer.saturating_sub(delta);
        let later = StateView { one_shot_timer: timer, ..self };
        if self.ends_within(delta) {
            later.settled()
        } else {
            later
        }
    }

    /// `delta` later, as far as silence goes: each full stretch since the user last said
    /// something is counted once.
    pub open spec fn silence_later(self, delta: u64) -> StateView {
        let idle = StateView { idle_time: self.idle_time.saturating_add(delta), ..self };
        let blocks = (idle.idle_time / AFK_BLOCK) as int;
        if idle.afk_penalty_ticks < blocks {
            idle.neglected((blocks - idle.afk_penalty_ticks) as nat)
        } else {
            idle
        }
    }

    /// `delta` later, as far as sleep goes. Sleep comes only out of an idle, and late.
    pub open spec fn sleep_later<T>(
        self,
        delta: u64,
        clips: Map<Seq<char>, AnimationClip<T>>,
        hour: u32,
        nanos: u32,
    ) -> StateView {
        if self.activity == Activity::Idle && hour >= 22 {
            let countdown = self.sleep_countdown.saturating_sub(delta);
            let later = StateView { sleep_countdown: countdown, ..self };
            if countdown == 0 {
                later.asleep(clips, nanos)
            } else {
                later
            }
        } else {
            self
        }
    }

    /// The relationship taken anew, and what is on screen `delta` later.
    pub open spec fn screen_later(self, delta: u64) -> StateView {
        let now = StateView {
            relationship: relationship_of(self.closeness, self.stress, self.debug),
            ..self
        };
        now.reply_later(delta)
    }

    /// Tells whether the leaving clip comes to its end within `delta`.
    pub open spec fn exits_within(self, delta: u64) -> bool {
        self.activity == Activity::Closing && self.ends_within(delta)
    }

    /// `delta` later, at `hour` by the local clock. After the leaving clip nothing more happens.
    pub open spec fn later<T>(
        self,
        delta: u64,
        clips: Map<Seq<char>, AnimationClip<T>>,
        hour: u32,
        nanos: u32,
    ) -> StateView {
        let shown = self.screen_later(delta).one_shot_later(delta);
        if self.exits_within(delta) {
            shown
        } else {
            shown.silence_later(delta).sleep_later(delta, clips, hour, nanos)
        }
    }

    /// Tells whether the companion has been silent for long enough to speak up.
    pub open spec fn wants_to_speak(self) -> bool {
        self.idle_time >= self.next_initiate_at
    }

    /// After it was asked whether the companion speaks up.
    pub open spec fn polled(self, nanos: u32) -> StateView {
        if self.wants_to_speak() {
            StateView {
                next_initiate_at: self.idle_time.saturating_add(next_silence(nanos)),
                ..self
            }
        } else {
            self
        }
    }
}

/// What the model is told of a relationship.
pub open spec fn tier_description(r: Relationship) -> Seq<char> {
    match r {
        Relationship::D => "You know each other yet; distant and a little dismissive."@,
        Relationship::G => "You're starting to warm up to them."@,
        Relationship::A => "You're becoming friendly and comfortable with them."@,
        Relationship::B => "You're warm and familiar."@,
        Relationship::C => "You're very close, affectionate and playful."@,
        Relationship::E => "You're extremely stressed and overwhelmed right now."@,
        Relationship::F => "You're stressed and a bit on edge right now."@,
    }
}

/// A number of points, to the nearest whole one.
pub open spec fn points_text(value: u64) -> Seq<char> {
    text::decimal(text::nearest(value as nat, POINT as nat))
}

/// What the model is told of a state.
pub open spec fn prompt_text(s: StateView) -> Seq<char> {
    "[Current state] closeness: "@ + points_text(s.closeness) + "/100, stress: "@ + points_text(
        s.stress,
    ) + "/100. "@ + tier_description(s.relationship)
}

/// A number of points out of a hundred, as it is shown.
pub open spec fn stat_text_of(value: u64) -> Seq<char> {
    points_text(shifted(value, 0)) + "/100"@
}

/// Writes a number of points, to the nearest whole one.
fn write_points(value: u64) -> (res: String)
    ensures
        res@ == points_text(value),
{
    text::decimal_of(text::nearest_of(value, POINT))
}

/// A number of points out of a hundred, as it is shown.
pub fn stat_text(value: u64) -> (res: String)
    ensures
        res@ == stat_text_of(value),
{
    let shown: u64 = if value > FULL {
        FULL
    } else {
        value
    };
    write_points(shown).concat("/100")
}

fn shift(value: u64, amount: i64) -> (res: u64)
    ensures
        res == shifted(value, amount as int),
{
    let sum: i128 = value as i128 + amount as i128;
    if sum < 0 {
        0
    } else if sum > FULL as i128 {
        FULL
    } else {
        sum as u64
    }
}

impl PetState {
    /// The state at the start, the nanoseconds of the clock deciding when the first sleep and the
    /// first word come.
    pub fn starting(debug: bool, sleep_nanos: u32, silence_nanos: u32) -> (res: PetState)
        ensures
            res@ == first_state(debug, sleep_nanos, silence_nanos),
    {
        PetState {
            closeness: 50 * POINT,
            stress: 0,
            relationship: Relationship::B,
            activity: Activity::Idle,
            idle_mood: IdleMood::Normal,
            one_shot_timer: 0,
            sleep_countdown: pseudo_random_range(sleep_nanos, 300 * SECOND, 1800 * SECOND),
            reply: None,
            reply_timer: 0,
            idle_time: 0,
            next_initiate_at: pseudo_random_range(silence_nanos, 120 * SECOND, 3000 * SECOND),
            afk_penalty_ticks: 0,
            debug,
        }
    }

    /// The state at the start.
    pub fn new(debug: bool) -> (res: PetState)
        ensures
            exists|a: u32, b: u32|
                a < 1_000_000_000 && b < 1_000_000_000 && res@ == #[trigger] first_state(
                    debug,
                    a,
                    b,
                ),
    {
        PetState::starting(debug, clock::clock_nanos(), clock::clock_nanos())
    }

    /// Lets `delta` pass, at `hour` by the local clock. Returns whether the companion has left.
    pub fn update_at<T>(
        &mut self,
        delta: u64,
        animations: &Catalog<AnimationClip<T>>,
        hour: u32,
        nanos: u32,
    ) -> (exit: bool)
        ensures
            final(self)@ == old(self)@.later(delta, animations@, hour, nanos),
            exit == old(self)@.exits_within(delta),
    {
        self.relationship = self.calculate_relationship();
        self.pass_reply(delta);
        if self.pass_one_shot(delta) {
            return true;
        }
        self.pass_silence(delta);
        self.pass_sleep(delta, animations, hour, nanos);
        false
    }

    fn pass_reply(&mut self, delta: u64)
        ensures
            final(self)@ == old(self)@.reply_later(delta),
    {
        self.reply_timer = self.reply_timer.saturating_sub(delta);
        if self.reply_timer == 0 {
            self.reply = None;
        }
    }

    fn pass_one_shot(&mut self, delta: u64) -> (exit: bool)
        ensures
            final(self)@ == old(self)@.one_shot_later(delta),
            exit == old(self)@.exits_within(delta),
    {
        if self.one_shot_timer > 0 {
            self.one_shot_timer = self.one_shot_timer.saturating_sub(delta);
            if self.one_shot_timer == 0 {
                return self.finish_one_shot();
            }
        }
        false
    }

    fn pass_silence(&mut self, delta: u64)
        ensures
            final(self)@ == old(self)@.silence_later(delta),
    {
        self.idle_time = self.idle_time.saturating_add(delta);
        let ghost idle = self@;
        let blocks: u32 = (self.idle_time / AFK_BLOCK) as u32;
        while self.afk_penalty_ticks < blocks
            invariant
                idle.afk_penalty_ticks <= self.afk_penalty_ticks,
                self.afk_penalty_ticks <= blocks || self@ == idle,
                self@ == idle.neglected((self.afk_penalty_ticks - idle.afk_penalty_ticks) as nat),
            decreases blocks - self.afk_penalty_ticks,
        {
            self.add_closeness(-5_000_000);
            self.add_stress(3_000_000);
            self.afk_penalty_ticks = self.afk_penalty_ticks + 1;
        }
    }

    fn pass_sleep<T>(
        &mut self,
        delta: u64,
        animations: &Catalog<AnimationClip<T>>,
        hour: u32,
        nanos: u32,
    )
        ensures
            final(self)@ == old(self)@.sleep_later(delta, animations@, hour, nanos),
    {
        if self.activity == Activity::Idle && hour >= 22 {
            self.sleep_countdown = self.sleep_countdown.saturating_sub(delta);
            if self.sleep_countdown == 0 {
                self.start_sleep(animations, nanos);
            }
        }
    }

    /// Lets `delta` pass. Returns whether the companion has left.
    pub fn update<T>(&mut self, delta: u64, animations: &Catalog<AnimationClip<T>>) -> (exit: bool)
        ensures
            exists|hour: u32, nanos: u32|
                hour < 24 && nanos < 1_000_000_000 && final(self)@ == #[trigger] old(self)@.later(
                    delta,
                    animations@,
                    hour,
                    nanos,
                ),
            exit == old(self)@.exits_within(delta),
    {
        let hour: u32 = clock::local_now().hour;
        let nanos: u32 = clock::clock_nanos();
        self.update_at(delta, animations, hour, nanos)
    }

    /// The user said something: nudges closeness up and stress down and starts the silence anew.
    pub fn record_chat_interaction_at(&mut self, nanos: u32)
        ensures
            final(self)@ == old(self)@.spoken_to(nanos),
    {
        self.add_closeness(400_000);
        self.add_stress(-100_000);
        self.idle_time = 0;
        self.afk_penalty_ticks = 0;
        self.next_initiate_at = pseudo_random_range(nanos, 120 * SECOND, 3000 * SECOND);
    }

    /// The user said something, now.
    pub fn record_chat_interaction(&mut self)
        ensures
            exists|nanos: u32|
                nanos < 1_000_000_000 && final(self)@ == #[trigger] old(self)@.spoken_to(nanos),
    {
        let nanos: u32 = clock::clock_nanos();
        self.record_chat_interaction_at(nanos);
    }

    /// Returns the idle time once the current window of silence is over, and sets the next
    /// window. The idle time goes on, so that neglect counts even while the companion tries to
    /// talk.
    pub fn poll_initiate_at(&mut self, nanos: u32) -> (res: Option<u64>)
        ensures
            final(self)@ == old(self)@.polled(nanos),
            res == (if old(self)@.wants_to_speak() {
                Some(old(self)@.idle_time)
            } else {
                None
            }),
    {
        if self.idle_time >= self.next_initiate_at {
            let window: u64 = pseudo_random_range(nanos, 120 * SECOND, 3000 * SECOND);
            self.next_initiate_at = self.idle_time.saturating_add(window);
            Some(self.idle_time)
        } else {
            None
        }
    }

    /// Returns the idle time once the current window of silence is over, and sets the next one.
    pub fn poll_initiate(&mut self) -> (res: Option<u64>)
        ensures
            exists|nanos: u32|
                nanos < 1_000_000_000 && final(self)@ == #[trigger] old(self)@.polled(nanos),
            res == (if old(self)@.wants_to_speak() {
                Some(old(self)@.idle_time)
            } else {
                None
            }),
    {
        let nanos: u32 = clock::clock_nanos();
        self.poll_initiate_at(nanos)
    }

    /// The relationship that closeness and stress make.
    pub fn calculate_relationship(&self) -> (res: Relationship)
        ensures
            res == relationship_of(self.closeness, self.stress, self.debug),
    {
        if self.stress >= 80 * POINT {
            return Relationship::E;
        }
        if self.stress >= 50 * POINT {
            return Relationship::F;
        }
        if self.debug && self.stress == 0 && self.closeness > 85 * POINT {
            return Relationship::G;
        }
        if self.closeness < 10 * POINT {
            return Relationship::D;
        }
        if self.closeness < 20 * POINT {
            return Relationship::G;
        }
        if self.closeness < 40 * POINT {
            return Relationship::A;
        }
        if self.closeness < 60 * POINT {
            return Relationship::B;
        }
        Relationship::C
    }

    /// The letter of the relationship.
    pub fn tier(&self) -> (res: &'static str)
        ensures
            res@ == seq![tier_letter(self.relationship)],
    {
        proof {
            reveal_strlit("a");
            assert("a"@ =~= seq!['a']);
            reveal_strlit("b");
            assert("b"@ =~= seq!['b']);
            reveal_strlit("c");
            assert("c"@ =~= seq!['c']);
            reveal_strlit("d");
            assert("d"@ =~= seq!['d']);
            reveal_strlit("e");
            assert("e"@ =~= seq!['e']);
            reveal_strlit("f");
            assert("f"@ =~= seq!['f']);
            reveal_strlit("g");
            assert("g"@ =~= seq!['g']);
        }
        match self.relationship {
            Relationship::A => "a",
            Relationship::B => "b",
            Relationship::C => "c",
            Relationship::D => "d",
            Relationship::E => "e",
            Relationship::F => "f",
            Relationship::G => "g",
        }
    }

    /// The clip of a calm idle.
    pub fn idle_animation(&self) -> (res: &'static str)
        ensures
            res@ == tiered("idle_normal.normal_"@, self.relationship),
    {
        proof {
            reveal_strlit("idle_normal.normal_");
            reveal_strlit("idle_normal.normal_a");
            assert("idle_normal.normal_a"@ =~= "idle_normal.normal_"@.push('a'));
            reveal_strlit("idle_normal.normal_b");
            assert("idle_normal.normal_b"@ =~= "idle_normal.normal_"@.push('b'));
            reveal_strlit("idle_normal.normal_c");
            assert("idle_normal.normal_c"@ =~= "idle_normal.normal_"@.push('c'));
            reveal_strlit("idle_normal.normal_d");
            assert("idle_normal.normal_d"@ =~= "idle_normal.normal_"@.push('d'));
            reveal_strlit("idle_normal.normal_e");
            assert("idle_normal.normal_e"@ =~= "idle_normal.normal_"@.push('e'));
            reveal_strlit("idle_normal.normal_f");
            assert("idle_normal.normal_f"@ =~= "idle_normal.normal_"@.push('f'));
            reveal_strlit("idle_normal.normal_g");
            assert("idle_normal.normal_g"@ =~= "idle_normal.normal_"@.push('g'));
        }
        match self.relationship {
            Relationship::A => "idle_normal.normal_a",
            Relationship::B => "idle_normal.normal_b",
            Relationship::C => "idle_normal.normal_c",
            Relationship::D => "idle_normal.normal_d",
            Relationship::E => "idle_normal.normal_e",
            Relationship::F => "idle_normal.normal_f",
            Relationship::G => "idle_normal.normal_g",
        }
    }

    /// The clip of a worried idle.
    pub fn anxiety_animation(&self) -> (res: &'static str)
        ensures
            res@ == tiered("idle_anxiety.anxiety_"@, self.relationship),
    {
        proof {
            reveal_strlit("idle_anxiety.anxiety_");
            reveal_strlit("idle_anxiety.anxiety_a");
            assert("idle_anxiety.anxiety_a"@ =~= "idle_anxiety.anxiety_"@.push('a'));
            reveal_strlit("idle_anxiety.anxiety_b");
            assert("idle_anxiety.anxiety_b"@ =~= "idle_anxiety.anxiety_"@.push('b'));
            reveal_strlit("idle_anxiety.anxiety_c");
            assert("idle_anxiety.anxiety_c"@ =~= "idle_anxiety.anxiety_"@.push('c'));
            reveal_strlit("idle_anxiety.anxiety_d");
            assert("idle_anxiety.anxiety_d"@ =~= "idle_anxiety.anxiety_"@.push('d'));
            reveal_strlit("idle_anxiety.anxiety_e");
            assert("idle_anxiety.anxiety_e"@ =~= "idle_anxiety.anxiety_"@.push('e'));
            reveal_strlit("idle_anxiety.anxiety_f");
            assert("idle_anxiety.anxiety_f"@ =~= "idle_anxiety.anxiety_"@.push('f'));
            reveal_strlit("idle_anxiety.anxiety_g");
            assert("idle_anxiety.anxiety_g"@ =~= "idle_anxiety.anxiety_"@.push('g'));
        }
        match self.relationship {
            Relationship::A => "idle_anxiety.anxiety_a",
            Relationship::B => "idle_anxiety.anxiety_b",
            Relationship::C => "idle_anxiety.anxiety_c",
            Relationship::D => "idle_anxiety.anxiety_d",
            Relationship::E => "idle_anxiety.anxiety_e",
            Relationship::F => "idle_anxiety.anxiety_f",
            Relationship::G => "idle_anxiety.anxiety_g",
        }
    }

    /// The clip of an irritated idle.
    pub fn iraira_animation(&self) -> (res: &'static str)
        ensures
            res@ == tiered("idle_iraira.iraira_"@, self.relationship),
    {
        proof {
            reveal_strlit("idle_iraira.iraira_");
            reveal_strlit("idle_iraira.iraira_a");
            assert("idle_iraira.iraira_a"@ =~= "idle_iraira.iraira_"@.push('a'));
            reveal_strlit("idle_iraira.iraira_b");
            assert("idle_iraira.iraira_b"@ =~= "idle_iraira.iraira_"@.push('b'));
            reveal_strlit("idle_iraira.iraira_c");
            assert("idle_iraira.iraira_c"@ =~= "idle_iraira.iraira_"@.push('c'));
            reveal_strlit("idle_iraira.iraira_d");
            assert("idle_iraira.iraira_d"@ =~= "idle_iraira.iraira_"@.push('d'));
            reveal_strlit("idle_iraira.iraira_e");
            assert("idle_iraira.iraira_e"@ =~= "idle_iraira.iraira_"@.push('e'));
            reveal_strlit("idle_iraira.iraira_f");
            assert("idle_iraira.iraira_f"@ =~= "idle_iraira.iraira_"@.push('f'));
            reveal_strlit("idle_iraira.iraira_g");
            assert("idle_iraira.iraira_g"@ =~= "idle_iraira.iraira_"@.push('g'));
        }
        match self.relationship {
            Relationship::A => "idle_iraira.iraira_a",
            Relationship::B => "idle_iraira.iraira_b",
            Relationship::C => "idle_iraira.iraira_c",
            Relationship::D => "idle_iraira.iraira_d",
            Relationship::E => "idle_iraira.iraira_e",
            Relationship::F => "idle_iraira.iraira_f",
            Relationship::G => "idle_iraira.iraira_g",
        }
    }

    /// The clip of talking on the phone.
    pub fn phone_animation(&self) -> (res: &'static str)
        ensures
            res@ == tiered("phone_chat.talk_"@, self.relationship),
    {
        proof {
            reveal_strlit("phone_chat.talk_");
            reveal_strlit("phone_chat.talk_a");
            assert("phone_chat.talk_a"@ =~= "phone_chat.talk_"@.push('a'));
            reveal_strlit("phone_chat.talk_b");
            assert("phone_chat.talk_b"@ =~= "phone_chat.talk_"@.push('b'));
            reveal_strlit("phone_chat.talk_c");
            assert("phone_chat.talk_c"@ =~= "phone_chat.talk_"@.push('c'));
            reveal_strlit("phone_chat.talk_d");
            assert("phone_chat.talk_d"@ =~= "phone_chat.talk_"@.push('d'));
            reveal_strlit("phone_chat.talk_e");
            assert("phone_chat.talk_e"@ =~= "phone_chat.talk_"@.push('e'));
            reveal_strlit("phone_chat.talk_f");
            assert("phone_chat.talk_f"@ =~= "phone_chat.talk_"@.push('f'));
            reveal_strlit("phone_chat.talk_g");
            assert("phone_chat.talk_g"@ =~= "phone_chat.talk_"@.push('g'));
        }
        match self.relationship {
            Relationship::A => "phone_chat.talk_a",
            Relationship::B => "phone_chat.talk_b",
            Relationship::C => "phone_chat.talk_c",
            Relationship::D => "phone_chat.talk_d",
            Relationship::E => "phone_chat.talk_e",
            Relationship::F => "phone_chat.talk_f",
            Relationship::G => "phone_chat.talk_g",
        }
    }

    /// The clip of a glad reaction.
    pub fn positive_animation(&self) -> (res: &'static str)
        ensures
            res@ == tiered("positive.positive_"@, self.relationship),
    {
        proof {
            reveal_strlit("positive.positive_");
            reveal_strlit("positive.positive_a");
            assert("positive.positive_a"@ =~= "positive.positive_"@.push('a'));
            reveal_strlit("positive.positive_b");
            assert("positive.positive_b"@ =~= "positive.positive_"@.push('b'));
            reveal_strlit("positive.positive_c");
            assert("positive.positive_c"@ =~= "positive.positive_"@.push('c'));
            reveal_strlit("positive.positive_d");
            assert("positive.positive_d"@ =~= "positive.positive_"@.push('d'));
            reveal_strlit("positive.positive_e");
            assert("positive.positive_e"@ =~= "positive.positive_"@.push('e'));
            reveal_strlit("positive.positive_f");
            assert("positive.positive_f"@ =~= "positive.positive_"@.push('f'));
            reveal_strlit("positive.positive_g");
            assert("positive.positive_g"@ =~= "positive.positive_"@.push('g'));
        }
        match self.relationship {
            Relationship::A => "positive.positive_a",
            Relationship::B => "positive.positive_b",
            Relationship::C => "positive.positive_c",
            Relationship::D => "positive.positive_d",
            Relationship::E => "positive.positive_e",
            Relationship::F => "positive.positive_f",
            Relationship::G => "positive.positive_g",
        }
    }

    /// The clip of a sad reaction.
    pub fn negative_animation(&self) -> (res: &'static str)
        ensures
            res@ == tiered("negative.negative_"@, self.relationship),
    {
        proof {
            reveal_strlit("negative.negative_");
            reveal_strlit("negative.negative_a");
            assert("negative.negative_a"@ =~= "negative.negative_"@.push('a'));
            reveal_strlit("negative.negative_b");
            assert("negative.negative_b"@ =~= "negative.negative_"@.push('b'));
            reveal_strlit("negative.negative_c");
            assert("negative.negative_c"@ =~= "negative.negative_"@.push('c'));
            reveal_strlit("negative.negative_d");
            assert("negative.negative_d"@ =~= "negative.negative_"@.push('d'));
            reveal_strlit("negative.negative_e");
            assert("negative.negative_e"@ =~= "negative.negative_"@.push('e'));
            reveal_strlit("negative.negative_f");
            assert("negative.negative_f"@ =~= "negative.negative_"@.push('f'));
            reveal_strlit("negative.negative_g");
            assert("negative.negative_g"@ =~= "negative.negative_"@.push('g'));
        }
        match self.relationship {
            Relationship::A => "negative.negative_a",
            Relationship::B => "negative.negative_b",
            Relationship::C => "negative.negative_c",
            Relationship::D => "negative.negative_d",
            Relationship::E => "negative.negative_e",
            Relationship::F => "negative.negative_f",
            Relationship::G => "negative.negative_g",
        }
    }

    /// The clip of leaving.
    pub fn out_animation(&self) -> (res: &'static str)
        ensures
            res@ == tiered("out.out_"@, self.relationship),
    {
        proof {
            reveal_strlit("out.out_");
            reveal_strlit("out.out_a");
            assert("out.out_a"@ =~= "out.out_"@.push('a'));
            reveal_strlit("out.out_b");
            assert("out.out_b"@ =~= "out.out_"@.push('b'));
            reveal_strlit("out.out_c");
            assert("out.out_c"@ =~= "out.out_"@.push('c'));
            reveal_strlit("out.out_d");
            assert("out.out_d"@ =~= "out.out_"@.push('d'));
            reveal_strlit("out.out_e");
            assert("out.out_e"@ =~= "out.out_"@.push('e'));
            reveal_strlit("out.out_f");
            assert("out.out_f"@ =~= "out.out_"@.push('f'));
            reveal_strlit("out.out_g");
            assert("out.out_g"@ =~= "out.out_"@.push('g'));
        }
        match self.relationship {
            Relationship::A => "out.out_a",
            Relationship::B => "out.out_b",
            Relationship::C => "out.out_c",
            Relationship::D => "out.out_d",
            Relationship::E => "out.out_e",
            Relationship::F => "out.out_f",
            Relationship::G => "out.out_g",
        }
    }

    /// The clip of what the companion is doing.
    pub fn current_animation(&self) -> (res: &'static str)
        ensures
            res@ == self@.animation(),
    {
        match self.activity {
            Activity::Idle => match self.idle_mood {
                IdleMood::Normal => self.idle_animation(),
                IdleMood::Anxiety => self.anxiety_animation(),
                IdleMood::Iraira => self.iraira_animation(),
            },
            Activity::PhoneChat => self.phone_animation(),
            Activity::Reactive(ReactiveKind::Positive) => self.positive_animation(),
            Activity::Reactive(ReactiveKind::Negative) => self.negative_animation(),
            Activity::Reactive(ReactiveKind::Pouting) => "pouting",
            Activity::Sleeping => "sleep",
            Activity::Closing => self.out_animation(),
        }
    }

    /// Turns to `activity`.
    pub fn set_activity(&mut self, activity: Activity)
        ensures
            final(self)@ == (StateView { activity, ..old(self)@ }),
    {
        self.activity = activity;
    }

    /// Changes closeness by `amount` millionths of a point.
    pub fn add_closeness(&mut self, amount: i64)
        ensures
            final(self)@ == old(self)@.closer(amount as int),
    {
        self.closeness = shift(self.closeness, amount);
    }

    /// Changes stress by `amount` millionths of a point.
    pub fn add_stress(&mut self, amount: i64)
        ensures
            final(self)@ == old(self)@.stressed(amount as int),
    {
        self.stress = shift(self.stress, amount);
    }

    /// What the model is told of the state, so that its answers stay in character.
    pub fn state_prompt(&self) -> (res: String)
        ensures
            res@ == prompt_text(self@),
    {
        let description = match self.relationship {
            Relationship::D => "You know each other yet; distant and a little dismissive.",
            Relationship::G => "You're starting to warm up to them.",
            Relationship::A => "You're becoming friendly and comfortable with them.",
            Relationship::B => "You're warm and familiar.",
            Relationship::C => "You're very close, affectionate and playful.",
            Relationship::E => "You're extremely stressed and overwhelmed right now.",
            Relationship::F => "You're stressed and a bit on edge right now.",
        };
        let mut res = "[Current state] closeness: ".to_string();
        res.append(write_points(self.closeness).as_str());
        res.append("/100, stress: ");
        res.append(write_points(self.stress).as_str());
        res.append("/100. ");
        res.append(description);
        res
    }

    /// Shows `text` for `time` nanoseconds.
    pub fn show_reply(&mut self, text: &str, time: u64)
        ensures
            final(self)@ == old(self)@.showing(text@, time),
    {
        self.reply = Some(text.to_string());
        self.reply_timer = time;
    }

    /// Takes on the mood that came with an answer. A reaction is played once and then settles
    /// into an idle; the other moods change the idle at once.
    pub fn set_mood<T>(&mut self, mood: Mood, animations: &Catalog<AnimationClip<T>>)
        ensures
            final(self)@ == old(self)@.in_mood(mood, animations@),
    {
        match mood {
            Mood::Worried => {
                self.idle_mood = IdleMood::Anxiety;
                self.activity = Activity::Idle;
                self.one_shot_timer = 0;
            },
            Mood::Neutral => {
                self.idle_mood = IdleMood::Normal;
                self.activity = Activity::Idle;
                self.one_shot_timer = 0;
            },
            Mood::Excited => self.start_reactive(ReactiveKind::Positive, animations),
            Mood::Disappointed => self.start_reactive(ReactiveKind::Negative, animations),
            Mood::PissedOff => self.start_reactive(ReactiveKind::Pouting, animations),
        }
    }

    fn start_reactive<T>(&mut self, kind: ReactiveKind, animations: &Catalog<AnimationClip<T>>)
        ensures
            final(self)@ == old(self)@.reacting(kind, animations@),
    {
        self.activity = Activity::Reactive(kind);
        let id = match kind {
            ReactiveKind::Positive => self.positive_animation(),
            ReactiveKind::Negative => self.negative_animation(),
            ReactiveKind::Pouting => "pouting",
        };
        self.one_shot_timer = clip_duration(animations, id);
    }

    fn start_sleep<T>(&mut self, animations: &Catalog<AnimationClip<T>>, nanos: u32)
        ensures
            final(self)@ == old(self)@.asleep(animations@, nanos),
    {
        self.activity = Activity::Sleeping;
        self.one_shot_timer = clip_duration(animations, "sleep");
        self.sleep_countdown = pseudo_random_range(nanos, 300 * SECOND, 1800 * SECOND);
    }

    /// The window was asked to close: the leaving clip is played once, and then the companion
    /// is gone.
    pub fn start_closing<T>(&mut self, animations: &Catalog<AnimationClip<T>>)
        ensures
            final(self)@ == old(self)@.closing(animations@),
    {
        if self.activity == Activity::Closing {
            return;
        }
        self.activity = Activity::Closing;
        let id = self.out_animation();
        self.one_shot_timer = clip_duration(animations, id);
    }

    fn finish_one_shot(&mut self) -> (exit: bool)
        ensures
            final(self)@ == old(self)@.settled(),
            exit == (old(self)@.activity == Activity::Closing),
    {
        match self.activity {
            Activity::Reactive(ReactiveKind::Positive) | Activity::Reactive(
                ReactiveKind::Negative,
            ) => {
                self.idle_mood = IdleMood::Normal;
                self.activity = Activity::Idle;
                false
            },
            Activity::Reactive(ReactiveKind::Pouting) => {
                self.idle_mood = IdleMood::Iraira;
                self.activity = Activity::Idle;
                false
            },
            Activity::Sleeping => {
                self.activity = Activity::Idle;
                false
            },
            Activity::Closing => true,
            _ => false,
        }
    }
}

} // verus!
