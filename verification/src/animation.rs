//! Clips, and the player that steps through their frames.

use vstd::arithmetic::div_mod::*;
use vstd::prelude::*;

use crate::catalog::Catalog;

verus! {

broadcast use vstd::string::group_string_axioms;

/// Nanoseconds in a second.
pub const SECOND: u64 = 1_000_000_000;

/// One frame per second, in the unit of [`AnimationConfig::fps`].
pub const FPS: u64 = 1_000_000;

/// Nanoseconds of one frame at one millionth of a frame per second.
pub const SLOWEST_FRAME: u64 = 1_000_000_000_000_000;

/// How a clip is played.
#[derive(Debug, Clone, Copy)]
pub struct AnimationConfig {
    /// Frames per second, in millionths.
    pub fps: u64,
    /// Whether the clip starts again after its last frame.
    pub looping: bool,
}

/// The frame rate of a clip that does not set one.
pub fn default_fps() -> (fps: u64)
    ensures
        fps == 4 * FPS,
{
    4_000_000
}

/// Whether a clip that does not say so starts again.
pub fn default_loop() -> (looping: bool)
    ensures
        looping,
{
    true
}

impl Default for AnimationConfig {
    fn default() -> (config: AnimationConfig)
        ensures
            config.fps == 4 * FPS,
            config.looping,
    {
        AnimationConfig { fps: default_fps(), looping: default_loop() }
    }
}

/// A named run of frames.
pub struct AnimationClip<T> {
    pub category: String,
    pub name: String,
    pub config: AnimationConfig,
    pub frames: Vec<T>,
}

/// The identifier of a clip: its name, after its category where the two differ.
pub open spec fn clip_id(category: Seq<char>, name: Seq<char>) -> Seq<char> {
    if category == name {
        name
    } else {
        category + "."@ + name
    }
}

impl<T> AnimationClip<T> {
    /// The identifier of the clip.
    pub fn id(&self) -> (res: String)
        ensures
            res@ == clip_id(self.category@, self.name@),
    {
        if self.category == self.name {
            self.name.clone()
        } else {
            self.category.clone().concat(".").concat(self.name.as_str())
        }
    }
}

/// The nanoseconds for which one frame is shown. A rate of zero never comes to the next frame.
pub open spec fn frame_time(fps: u64) -> u64
    recommends
        fps > 0,
{
    let time = SLOWEST_FRAME / fps;
    if time == 0 {
        1
    } else {
        time
    }
}

/// The frame after `frame` in a clip of `len` frames.
pub open spec fn next_frame(frame: nat, len: nat, looping: bool) -> nat {
    if frame + 1 < len {
        frame + 1
    } else if looping {
        0
    } else {
        (len - 1) as nat
    }
}

/// The frame that comes `steps` frames after `frame`.
pub open spec fn frame_after(frame: nat, steps: nat, len: nat, looping: bool) -> nat
    decreases steps,
{
    if steps == 0 {
        frame
    } else {
        next_frame(frame_after(frame, (steps - 1) as nat, len, looping), len, looping)
    }
}

/// What an [`AnimationPlayer`] holds.
pub struct PlayerView {
    pub current: Seq<char>,
    pub frame: nat,
    pub timer: u64,
}

/// A player that starts to play `animation`.
pub open spec fn player_at_start(animation: Seq<char>) -> PlayerView {
    PlayerView { current: animation, frame: 0, timer: 0 }
}

/// A player after `delta` nanoseconds. A clip that is not there, or has less than two frames,
/// leaves it as it is.
pub open spec fn player_after<T>(
    player: PlayerView,
    delta: u64,
    clips: Map<Seq<char>, AnimationClip<T>>,
) -> PlayerView {
    if !clips.contains_key(player.current) || clips[player.current].frames@.len() <= 1 {
        player
    } else {
        let clip = clips[player.current];
        let timer = player.timer.saturating_add(delta);
        if clip.config.fps == 0 {
            PlayerView { timer, ..player }
        } else {
            let time = frame_time(clip.config.fps);
            PlayerView {
                frame: frame_after(
                    player.frame,
                    (timer / time) as nat,
                    clip.frames@.len(),
                    clip.config.looping,
                ),
                timer: timer % time,
                ..player
            }
        }
    }
}

/// Plays one clip at a time.
pub struct AnimationPlayer {
    current: String,
    frame: usize,
    timer: u64,
}

impl View for AnimationPlayer {
    type V = PlayerView;

    closed spec fn view(&self) -> PlayerView {
        PlayerView { current: self.current@, frame: self.frame as nat, timer: self.timer }
    }
}

impl AnimationPlayer {
    /// A player that starts to play `default`.
    pub fn new(default: &str) -> (res: AnimationPlayer)
        ensures
            res@ == player_at_start(default@),
    {
        AnimationPlayer { current: default.to_string(), frame: 0, timer: 0 }
    }

    /// Turns to `animation`. The one that is playing plays on.
    pub fn play(&mut self, animation: &str)
        ensures
            final(self)@ == (if animation@ == old(self)@.current {
                old(self)@
            } else {
                player_at_start(animation@)
            }),
    {
        let animation = animation.to_string();
        if animation == self.current {
            return;
        }
        self.current = animation;
        self.frame = 0;
        self.timer = 0;
    }

    /// Lets `delta` nanoseconds pass.
    pub fn update<T>(&mut self, delta: u64, animations: &Catalog<AnimationClip<T>>)
        ensures
            final(self)@ == player_after(old(self)@, delta, animations@),
    {
        let animation = match animations.get(self.current.as_str()) {
            Some(animation) => animation,
            None => {
                return;
            },
        };
        let len: usize = animation.frames.len();
        if len <= 1 {
            return;
        }
        self.timer = self.timer.saturating_add(delta);
        let fps: u64 = animation.config.fps;
        if fps == 0 {
            return;
        }
        let mut time: u64 = SLOWEST_FRAME / fps;
        if time == 0 {
            time = 1;
        }
        let looping: bool = animation.config.looping;
        let ghost start = *self;
        let ghost mut steps: nat = 0;
        while self.timer >= time
            invariant
                time > 0,
                len > 1,
                self.current == start.current,
                start.timer == steps * time + self.timer,
                self.frame == frame_after(start.frame as nat, steps, len as nat, looping),
            decreases self.timer,
        {
            self.timer = self.timer - time;
            if self.frame >= len - 1 {
                self.frame = if looping {
                    0
                } else {
                    len - 1
                };
            } else {
                self.frame = self.frame + 1;
            }
            proof {
                assert((steps + 1) * time == steps * time + time) by (nonlinear_arith);
                steps = steps + 1;
            }
        }
        proof {
            lemma_fundamental_div_mod_converse(
                start.timer as int,
                time as int,
                steps as int,
                self.timer as int,
            );
        }
    }

    /// The frame to show, if the clip is there and has it.
    pub fn texture<'a, T>(&self, animations: &'a Catalog<AnimationClip<T>>) -> (res: Option<&'a T>)
        ensures
            match res {
                Some(frame) => animations@.contains_key(self@.current) && self@.frame
                    < animations@[self@.current].frames@.len() && *frame
                    == animations@[self@.current].frames@[self@.frame as int],
                None => animations@.contains_key(self@.current) ==> self@.frame
                    >= animations@[self@.current].frames@.len(),
            },
    {
        match animations.get(self.current.as_str()) {
            Some(animation) => if self.frame < animation.frames.len() {
                Some(&animation.frames[self.frame])
            } else {
                None
            },
            None => None,
        }
    }

    /// The identifier of the clip that is playing.
    pub fn current(&self) -> (res: &str)
        ensures
            res@ == self@.current,
    {
        self.current.as_str()
    }

    /// The index of the frame that is shown.
    pub fn frame(&self) -> (res: usize)
        ensures
            res == self@.frame,
    {
        self.frame
    }
}

/// A clip is known by its category and its name with a dot between, or by its name alone where the
/// two are one.
pub proof fn law_clip_is_known_by_category_and_name(category: Seq<char>, name: Seq<char>)
    ensures
        category == name ==> clip_id(category, name) == name,
        category != name ==> clip_id(category, name) == category.push('.') + name,
{
    reveal_strlit(".");
    assert("."@ =~= seq!['.']);
    assert(category + "."@ + name =~= category.push('.') + name);
}

/// Tells whether the frame of a player is one of the frames of its clip.
pub open spec fn shows_frame<T>(
    player: PlayerView,
    clips: Map<Seq<char>, AnimationClip<T>>,
) -> bool {
    &&& clips.contains_key(player.current)
    &&& player.frame < clips[player.current].frames@.len()
}

proof fn lemma_frame_after_in_clip(frame: nat, steps: nat, len: nat, looping: bool)
    requires
        frame < len,
    ensures
        frame_after(frame, steps, len, looping) < len,
    decreases steps,
{
    if steps > 0 {
        lemma_frame_after_in_clip(frame, (steps - 1) as nat, len, looping);
    }
}

/// A player shows a frame of its clip from the start, if the clip has any, and goes on doing so
/// however much time passes.
pub proof fn law_frame_stays_in_clip<T>(
    player: PlayerView,
    delta: u64,
    clips: Map<Seq<char>, AnimationClip<T>>,
)
    ensures
        clips.contains_key(player.current) && clips[player.current].frames@.len() > 0
            ==> shows_frame(player_at_start(player.current), clips),
        shows_frame(player, clips) ==> shows_frame(player_after(player, delta, clips), clips),
{
    if shows_frame(player, clips) && clips[player.current].config.fps > 0 {
        let clip = clips[player.current];
        let timer = player.timer.saturating_add(delta);
        lemma_frame_after_in_clip(
            player.frame,
            (timer / frame_time(clip.config.fps)) as nat,
            clip.frames@.len(),
            clip.config.looping,
        );
    }
}

/// A looping clip goes round.
pub proof fn law_looping_goes_round(frame: nat, steps: nat, len: nat)
    requires
        frame < len,
    ensures
        frame_after(frame, steps, len, true) == (frame + steps) % len,
    decreases steps,
{
    if steps > 0 {
        law_looping_goes_round(frame, (steps - 1) as nat, len);
        let before = frame + steps - 1;
        let n = len as int;
        lemma_fundamental_div_mod(before, n);
        let q = before / n;
        let r = before % n;
        if r + 1 < n {
            lemma_fundamental_div_mod_converse(before + 1, n, q, r + 1);
        } else {
            assert((q + 1) * n == q * n + n) by (nonlinear_arith);
            assert(n * q == q * n) by (nonlinear_arith);
            lemma_fundamental_div_mod_converse(before + 1, n, q + 1, 0);
        }
    } else {
        lemma_small_mod(frame, len);
    }
}

/// A clip that does not loop stops at its last frame.
pub proof fn law_once_stops_at_last(frame: nat, steps: nat, len: nat)
    requires
        frame < len,
    ensures
        frame_after(frame, steps, len, false) == (if frame + steps < len {
            frame + steps
        } else {
            (len - 1) as nat
        }),
    decreases steps,
{
    if steps > 0 {
        law_once_stops_at_last(frame, (steps - 1) as nat, len);
    }
}

proof fn lemma_frame_after_adds(frame: nat, a: nat, b: nat, len: nat, looping: bool)
    ensures
        frame_after(frame_after(frame, a, len, looping), b, len, looping) == frame_after(
            frame,
            a + b,
            len,
            looping,
        ),
    decreases b,
{
    if b > 0 {
        lemma_frame_after_adds(frame, a, (b - 1) as nat, len, looping);
    }
}

/// A frame is shown for one part in `fps` of a second, to the nanosecond below it, and for at
/// least one nanosecond.
pub proof fn law_frame_lasts_its_part_of_a_second(fps: u64)
    requires
        fps > 0,
    ensures
        frame_time(fps) >= 1,
        fps <= 1_000_000_000_000_000 ==> frame_time(fps) * fps <= 1_000_000_000_000_000 < (
        frame_time(fps) + 1) * fps,
{
    let time = (SLOWEST_FRAME / fps) as int;
    lemma_fundamental_div_mod(SLOWEST_FRAME as int, fps as int);
    assert(fps * time == time * fps) by (nonlinear_arith);
    assert((time + 1) * fps == time * fps + fps) by (nonlinear_arith);
    if fps <= SLOWEST_FRAME && time == 0 {
        assert(time * fps == 0) by (nonlinear_arith)
            requires
                time == 0,
        ;
    }
}

/// A clip keeps its rate: as many frames go by as fit into the time that has passed, and what is
/// left of that time is less than one frame. A looping clip comes round, another one stops at its
/// last frame. The clock of the player must not come to its end.
pub proof fn law_clip_keeps_its_rate<T>(
    player: PlayerView,
    delta: u64,
    clips: Map<Seq<char>, AnimationClip<T>>,
) -> (steps: int)
    requires
        shows_frame(player, clips),
        clips[player.current].frames@.len() > 1,
        clips[player.current].config.fps > 0,
        player.timer + delta <= u64::MAX,
    ensures
        ({
            let clip = clips[player.current];
            let after = player_after(player, delta, clips);
            let time = frame_time(clip.config.fps);
            &&& steps >= 0
            &&& player.timer + delta == steps * time + after.timer
            &&& after.timer < time
            &&& after.current == player.current
            &&& clip.config.looping ==> after.frame == (player.frame + steps)
                % clip.frames@.len() as int
            &&& !clip.config.looping ==> after.frame == (if player.frame + steps
                < clip.frames@.len() {
                player.frame + steps
            } else {
                clip.frames@.len() - 1
            })
        }),
{
    let clip = clips[player.current];
    let time = frame_time(clip.config.fps) as int;
    let all = player.timer + delta;
    let steps = all / time;
    lemma_fundamental_div_mod(all, time);
    lemma_mod_bound(all, time);
    lemma_div_pos_is_pos(all, time);
    assert(time * steps == steps * time) by (nonlinear_arith);
    if clip.config.looping {
        law_looping_goes_round(player.frame, steps as nat, clip.frames@.len());
    } else {
        law_once_stops_at_last(player.frame, steps as nat, clip.frames@.len());
    }
    steps
}

/// A clip that is not there, has less than two frames, or has no rate shows the same frame however
/// much time passes.
pub proof fn law_other_clips_stand_still<T>(
    player: PlayerView,
    delta: u64,
    clips: Map<Seq<char>, AnimationClip<T>>,
)
    requires
        clips.contains_key(player.current) ==> clips[player.current].frames@.len() < 2
            || clips[player.current].config.fps == 0,
    ensures
        player_after(player, delta, clips).frame == player.frame,
        player_after(player, delta, clips).current == player.current,
{
}

/// A looping clip whose rate divides a second evenly shows `rate` frames in each second.
pub proof fn law_looping_clip_shows_its_rate<T>(
    player: PlayerView,
    rate: int,
    seconds: int,
    clips: Map<Seq<char>, AnimationClip<T>>,
)
    requires
        shows_frame(player, clips),
        clips[player.current].frames@.len() > 1,
        clips[player.current].config.looping,
        rate > 0,
        clips[player.current].config.fps == rate * 1_000_000,
        1_000_000_000int % rate == 0,
        player.timer == 0,
        0 <= seconds,
        seconds * 1_000_000_000 <= u64::MAX,
    ensures
        player_after(player, (seconds * 1_000_000_000) as u64, clips).frame == (player.frame + rate
            * seconds) % clips[player.current].frames@.len() as int,
        player_after(player, (seconds * 1_000_000_000) as u64, clips).timer == 0,
{
    let fps = clips[player.current].config.fps;
    let delta = (seconds * 1_000_000_000) as u64;
    let time = frame_time(fps) as int;
    let part = 1_000_000_000int / rate;
    lemma_fundamental_div_mod(1_000_000_000, rate);
    assert(rate * part == 1_000_000_000);
    assert(part >= 1 && rate <= 1_000_000_000) by (nonlinear_arith)
        requires
            rate * part == 1_000_000_000,
            rate > 0,
    ;
    law_frame_lasts_its_part_of_a_second(fps);
    assert(part * fps == 1_000_000_000_000_000) by (nonlinear_arith)
        requires
            rate * part == 1_000_000_000,
            fps == rate * 1_000_000,
    ;
    assert(time == part) by (nonlinear_arith)
        requires
            time * fps <= 1_000_000_000_000_000 < (time + 1) * fps,
            part * fps == 1_000_000_000_000_000,
            fps > 0,
    ;
    let steps = law_clip_keeps_its_rate(player, delta, clips);
    let after = player_after(player, delta, clips);
    let wanted = rate * seconds;
    assert(wanted * part == seconds * 1_000_000_000) by (nonlinear_arith)
        requires
            wanted == rate * seconds,
            rate * part == 1_000_000_000,
    ;
    assert(steps == wanted && after.timer == 0) by (nonlinear_arith)
        requires
            wanted * part == steps * part + after.timer,
            0 <= after.timer < part,
    ;
}

/// Time that passes in two parts moves a player as far as time that passes at once. The clock of
/// the player must not come to its end.
pub proof fn law_time_adds_up<T>(
    player: PlayerView,
    a: u64,
    b: u64,
    clips: Map<Seq<char>, AnimationClip<T>>,
)
    requires
        player.timer + a + b <= u64::MAX,
    ensures
        player_after(player_after(player, a, clips), b, clips) == player_after(
            player,
            (a + b) as u64,
            clips,
        ),
{
    if clips.contains_key(player.current) && clips[player.current].frames@.len() > 1
        && clips[player.current].config.fps > 0 {
        let clip = clips[player.current];
        let time = frame_time(clip.config.fps) as int;
        let first = player.timer + a;
        let rest = first % time;
        lemma_fundamental_div_mod(first, time);
        lemma_fundamental_div_mod(rest + b, time);
        let q1 = first / time;
        let q2 = (rest + b) / time;
        let r2 = (rest + b) % time;
        assert(time * q1 + time * q2 == (q1 + q2) * time) by (nonlinear_arith);
        lemma_fundamental_div_mod_converse(first + b, time, q1 + q2, r2);
        lemma_mod_bound(first, time);
        lemma_div_pos_is_pos(first, time);
        lemma_div_pos_is_pos(rest + b, time);
        assert(rest <= first) by {
            lemma_mod_decreases(first as nat, time as nat);
        }
        lemma_frame_after_adds(
            player.frame,
            q1 as nat,
            q2 as nat,
            clip.frames@.len(),
            clip.config.looping,
        );
    }
}

} // verus!
