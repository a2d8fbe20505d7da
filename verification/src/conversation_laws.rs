//! What each step of the application does to everything it holds, said field by field.

use vstd::prelude::*;

use crate::animation::{self, AnimationClip};
use crate::app::{self, AppView, DebugKey, DisplayView};
use crate::llm::{self, LlmReplyView, MessageView};
use crate::state::{self, Activity, Mood, StateView};
use crate::text;
use crate::text_laws;

verus! {

/// Something is sent exactly where there is more than whitespace to send and nothing is awaited.
pub proof fn law_text_is_sent_where_there_is_some(a: AppView)
    ensures
        a.can_send() <==> !a.waiting_for_reply && exists|i: int|
            0 <= i < a.input.len() && !text::is_whitespace(#[trigger] a.input[i]),
{
    text_laws::law_trim_leaves_nothing_of_blank(a.input);
}

proof fn lemma_request_with_a_turn(a: AppView, b: AppView, m: MessageView)
    requires
        a.conversation.len() > 0,
        b.conversation == a.conversation.push(m),
        b.examples == a.examples,
    ensures
        b.request(None) == seq![a.conversation[0]] + a.examples + a.conversation.skip(1) + seq![m],
        forall|note: MessageView| #[trigger]
            b.request(Some(note)) == seq![a.conversation[0]] + a.examples + a.conversation.skip(1)
                + seq![m, note],
{
    let wanted = seq![a.conversation[0]] + a.examples + a.conversation.skip(1) + seq![m];
    assert(b.request(None) =~= wanted);
    assert forall|note: MessageView| #[trigger] b.request(Some(note)) == seq![a.conversation[0]]
        + a.examples + a.conversation.skip(1) + seq![m, note] by {
        assert(b.request(Some(note)) =~= seq![a.conversation[0]] + a.examples
            + a.conversation.skip(1) + seq![m, note]);
    }
}

/// What the user says is one more turn at the end of the conversation and one more bubble. The
/// whole conversation is sent: its start, the examples, all turns so far, the new one, and the
/// note. Apart from the log and how the companion feels, only the input, which is emptied, and the
/// wait change.
pub proof fn law_message_is_one_more_turn(
    a: AppView,
    said: Seq<char>,
    nanos: u32,
    note: MessageView,
)
    ensures
        ({
            let turn = MessageView { role: "user"@, content: said };
            let b = a.saying(said, nanos).asking(Some(note));
            &&& b == (AppView {
                input: Seq::empty(),
                waiting_for_reply: true,
                conversation: a.conversation.push(turn),
                display_log: a.display_log.push(DisplayView::Text { role: "user"@, text: said }),
                state: StateView { activity: Activity::PhoneChat, ..a.state.spoken_to(nanos) },
                raw_log: b.raw_log,
                logged_message_count: a.conversation.len() + 1 + a.examples.len(),
                ..a
            })
            &&& a.conversation.len() > 0 ==> a.saying(said, nanos).request(Some(note)) == seq![
                a.conversation[0],
            ] + a.examples + a.conversation.skip(1) + seq![turn, note]
        }),
{
    let turn = MessageView { role: "user"@, content: said };
    if a.conversation.len() > 0 {
        lemma_request_with_a_turn(a, a.saying(said, nanos), turn);
    }
}

/// A sticker is one more turn, told in words, and one more picture. The whole conversation is
/// sent.
pub proof fn law_sticker_is_one_more_turn(a: AppView, name: Seq<char>, nanos: u32)
    ensures
        ({
            let turn = MessageView {
                role: "user"@,
                content: "[pchan sent a sticker: "@ + name + "]"@,
            };
            let b = a.sending(name, nanos).asking(None);
            &&& b == (AppView {
                waiting_for_reply: true,
                conversation: a.conversation.push(turn),
                display_log: a.display_log.push(DisplayView::Sticker { role: "user"@, name }),
                state: StateView { activity: Activity::PhoneChat, ..a.state.spoken_to(nanos) },
                raw_log: b.raw_log,
                logged_message_count: a.conversation.len() + 1 + a.examples.len(),
                ..a
            })
            &&& a.conversation.len() > 0 ==> a.sending(name, nanos).request(None) == seq![
                a.conversation[0],
            ] + a.examples + a.conversation.skip(1) + seq![turn]
        }),
{
    if a.conversation.len() > 0 {
        lemma_request_with_a_turn(
            a,
            a.sending(name, nanos),
            MessageView { role: "user"@, content: "[pchan sent a sticker: "@ + name + "]"@ },
        );
    }
}

/// A word about a silence is one more turn, from the system, which names the silence in whole
/// minutes, the nearest ones; nothing is shown. The whole conversation is sent.
pub proof fn law_nudge_is_one_more_turn(a: AppView, idle: u64)
    ensures
        ({
            let turn = MessageView {
                role: "system"@,
                content: app::NUDGE_START@ + text::decimal(
                    text::nearest(idle as nat, 60_000_000_000),
                ) + app::NUDGE_END@,
            };
            let b = a.nudging(idle).asking(None);
            &&& b == (AppView {
                waiting_for_reply: true,
                conversation: a.conversation.push(turn),
                state: StateView { activity: Activity::PhoneChat, ..a.state },
                raw_log: b.raw_log,
                logged_message_count: a.conversation.len() + 1 + a.examples.len(),
                ..a
            })
            &&& a.conversation.len() > 0 ==> a.nudging(idle).request(None) == seq![
                a.conversation[0],
            ] + a.examples + a.conversation.skip(1) + seq![turn]
        }),
{
    if a.conversation.len() > 0 {
        lemma_request_with_a_turn(a, a.nudging(idle), a.nudging(idle).conversation.last());
    }
}

/// A request is the last entry of the log: the number of entries before it, how much of it is new,
/// and the new messages in full.
pub proof fn law_request_is_logged(a: AppView, note: Option<MessageView>)
    ensures
        ({
            let ms = a.request(note);
            let n = text::decimal(a.raw_log.len());
            let total = text::decimal(ms.len());
            let known = a.logged_message_count;
            let entry = a.asking(note).raw_log.last();
            &&& a.asking(note).raw_log.len() > 0
            &&& known == 0 ==> entry == ">>> ["@ + n + "] SENT — full context ("@ + total
                + " messages)"@ + "\n"@ + llm::messages_text(ms)
            &&& 0 < known <= ms.len() ==> entry == ">>> ["@ + n + "] SENT — "@ + text::decimal(
                (ms.len() - known) as nat,
            ) + " new message(s) appended (total "@ + total + ", "@ + text::decimal(known)
                + " unchanged since last send)"@ + "\n"@ + llm::messages_text(
                ms.skip(known as int),
            )
        }),
{
    let ms = a.request(note);
    assert(ms.skip(0) =~= ms);
}

/// The log keeps its newest two hundred entries.
pub proof fn law_log_is_a_window(log: Seq<Seq<char>>)
    ensures
        app::capped(log).len() == (if log.len() < 200 {
            log.len()
        } else {
            200
        }),
        app::capped(log) == log.skip(log.len() - app::capped(log).len()),
{
    assert(log.skip(0) =~= log);
}

/// The bubbles of an answer are those of its reply; an answer that has none is shown as it came.
pub proof fn law_answer_is_always_shown(raw: Seq<char>, parsed: LlmReplyView)
    ensures
        AppView::bubbles_of(raw, parsed).len() > 0,
        llm::bubbles(parsed.reply).len() > 0 ==> AppView::bubbles_of(raw, parsed) == llm::bubbles(
            parsed.reply,
        ),
        llm::bubbles(parsed.reply).len() == 0 ==> AppView::bubbles_of(raw, parsed) == seq![raw],
{
}

/// An answer ends the wait, is logged as it came, becomes one turn, shows its first bubble, and its
/// sticker where there is a picture of it, and queues the other bubbles. Its first bubble stays on
/// the companion's screen for six seconds, and its mood is acted out. Nothing else changes.
pub proof fn law_answer_is_taken_in<T, S>(
    a: AppView,
    raw: Seq<char>,
    parsed: LlmReplyView,
    mood: Mood,
    clips: Map<Seq<char>, AnimationClip<T>>,
    stickers: Map<Seq<char>, S>,
)
    ensures
        ({
            let shown = AppView::bubbles_of(raw, parsed);
            let b = a.answered(raw, parsed, mood, clips, stickers);
            let bubble = a.display_log.push(
                DisplayView::Text { role: "assistant"@, text: shown[0] },
            );
            let pictured = parsed.sticker is Some && stickers.contains_key(parsed.sticker->0);
            &&& b == (AppView {
                waiting_for_reply: false,
                conversation: a.conversation.push(
                    MessageView { role: "assistant"@, content: llm::reply_text(parsed) },
                ),
                display_log: if pictured {
                    bubble.push(
                        DisplayView::Sticker { role: "assistant"@, name: parsed.sticker->0 },
                    )
                } else {
                    bubble
                },
                pending_bubbles: shown.skip(1),
                bubble_timer: 0,
                state: a.state.showing(shown[0], 6_000_000_000).in_mood(mood, clips),
                raw_log: b.raw_log,
                ..a
            })
            &&& b.raw_log.len() > 0
            &&& b.raw_log.last() == "<<< ["@ + text::decimal(a.raw_log.len())
                + "] RECEIVED (raw)\n"@ + raw
        }),
{
}

/// A failure ends the wait, is logged, and is told in character for four seconds; the companion
/// falls back into its calm idle. Nothing else changes.
pub proof fn law_failure_is_taken_in<T>(
    a: AppView,
    err: Seq<char>,
    clips: Map<Seq<char>, AnimationClip<T>>,
)
    ensures
        ({
            let b = a.failed(err, clips);
            &&& b == (AppView {
                waiting_for_reply: false,
                state: a.state.showing(
                    "...hmm, something's wrong ("@ + err + ")"@,
                    4_000_000_000,
                ).in_mood(Mood::Neutral, clips),
                raw_log: b.raw_log,
                ..a
            })
            &&& b.raw_log.len() > 0
            &&& b.raw_log.last() == "<<< ["@ + text::decimal(a.raw_log.len()) + "] ERROR\n"@ + err
        }),
{
}

/// What came of a request is taken in as the answer that it is read as, with the mood that the
/// answer names, or as the failure that it is; where nothing came nothing changes.
pub proof fn law_result_is_taken_in<T, S>(
    a: AppView,
    raw: String,
    err: String,
    clips: Map<Seq<char>, AnimationClip<T>>,
    stickers: Map<Seq<char>, S>,
)
    ensures
        a.polled(None, clips, stickers) == a,
        a.polled(Some(Err(err)), clips, stickers) == a.failed(err@, clips),
        ({
            let parsed = llm::reply_in(raw@, llm::json_in(raw@));
            let mood = state::mood_named(text::lowercase(text::trimmed(parsed.mood)));
            a.polled(Some(Ok(raw)), clips, stickers) == a.answered(
                raw@,
                parsed,
                mood,
                clips,
                stickers,
            )
        }),
{
}

/// A queued bubble comes when the time of the one before it is over and not earlier: it is shown
/// in the chat, and by the companion for six seconds, and its own typing time starts. Until then
/// only that time runs off. Nothing else changes.
pub proof fn law_bubble_comes_in_its_time(a: AppView, delta: u64)
    ensures
        a.pending_bubbles.len() == 0 ==> a.bubbles_later(delta) == a,
        a.pending_bubbles.len() > 0 && a.bubble_timer > delta ==> a.bubbles_later(delta) == (
        AppView { bubble_timer: (a.bubble_timer - delta) as u64, ..a }),
        a.pending_bubbles.len() > 0 && a.bubble_timer <= delta ==> a.bubbles_later(delta) == (
        AppView {
            bubble_timer: app::typing_time(a.pending_bubbles[0]),
            pending_bubbles: a.pending_bubbles.skip(1),
            display_log: a.display_log.push(
                DisplayView::Text { role: "assistant"@, text: a.pending_bubbles[0] },
            ),
            state: a.state.showing(a.pending_bubbles[0], 6_000_000_000),
            ..a
        }),
{
}

/// Typing takes half a second and 25 milliseconds for each character, within its bounds of 0.9 and
/// 3.2 seconds.
pub proof fn law_typing_time_grows_with_the_text(s: Seq<char>)
    ensures
        s.len() <= 16 ==> app::typing_time(s) == 900_000_000,
        16 <= s.len() <= 108 ==> app::typing_time(s) == 500_000_000 + 25_000_000 * s.len(),
        s.len() >= 108 ==> app::typing_time(s) == 3_200_000_000,
{
}

/// The model is told the clock, the part of the day and the day of the week.
pub proof fn law_time_note_tells_the_time(hour: u32, clock: Seq<char>, weekday: Seq<char>)
    ensures
        app::time_note(hour, clock, weekday) == app::TIME_NOTE_START@ + clock + " ("@
            + app::part_of_day(hour) + "), on "@ + weekday + app::TIME_NOTE_END@,
        5 <= hour < 12 ==> app::part_of_day(hour) == "morning"@,
        12 <= hour < 17 ==> app::part_of_day(hour) == "afternoon"@,
        17 <= hour < 21 ==> app::part_of_day(hour) == "evening"@,
        hour < 5 || hour >= 21 ==> app::part_of_day(hour) == "late at night"@,
{
}

/// A list of models is taken over as it is, and nothing else changes but, where it has to, the
/// selected one.
pub proof fn law_models_are_taken_over(a: AppView, models: Seq<Seq<char>>)
    ensures
        a.adopting(models) == (AppView {
            available_models: models,
            selected_model: a.adopting(models).selected_model,
            ..a
        }),
        models.contains(a.selected_model) || models.len() == 0 ==> a.adopting(models).selected_model
            == a.selected_model,
        !models.contains(a.selected_model) && models.len() > 0 ==> a.adopting(models).selected_model
            == models[0],
{
}

/// The models that were listed are all there, in their order; without a list there is the
/// fallback alone.
pub proof fn law_listed_models_are_all_there(listed: Vec<String>, fallback: Seq<char>, i: int)
    ensures
        app::models_or(Some(listed), fallback).len() == listed@.len(),
        0 <= i < listed@.len() ==> app::models_or(Some(listed), fallback)[i] == listed@[i]@,
        app::models_or(None, fallback) == seq![fallback],
{
}

/// The application starts with the system prompt as its conversation, with the models and examples
/// it was given, the first model selected, nothing shown or logged, and the two small windows open.
pub proof fn law_application_starts_empty(
    models: Seq<Seq<char>>,
    examples: Seq<MessageView>,
    debug: bool,
    sleep_nanos: u32,
    silence_nanos: u32,
)
    ensures
        ({
            let a = app::first_app(models, examples, debug, sleep_nanos, silence_nanos);
            &&& a.state == state::first_state(debug, sleep_nanos, silence_nanos)
            &&& a.player.current == a.state.animation()
            &&& a.player.frame == 0
            &&& a.player.timer == 0
            &&& a.available_models == models
            &&& a.selected_model == models[0]
            &&& a.conversation == seq![
                MessageView { role: "system"@, content: app::SYSTEM_PROMPT@ },
            ]
            &&& a.examples == examples
            &&& a.proxy.len() == 0
            &&& a.proxy_input.len() == 0
            &&& a.input.len() == 0
            &&& a.display_log.len() == 0
            &&& a.raw_log.len() == 0
            &&& a.pending_bubbles.len() == 0
            &&& a.logged_message_count == 0
            &&& a.bubble_timer == 0
            &&& a.chat_window_open && a.task_manager_open
            &&& !a.settings_open && !a.sticker_picker_open && !a.raw_history_open
            &&& !a.waiting_for_reply
        }),
{
}

/// Keys change what they are for and nothing else: an activity, a mood, five points, or whether a
/// window is open.
pub proof fn law_keys_change_one_thing<T>(a: AppView, clips: Map<Seq<char>, AnimationClip<T>>)
    ensures
        a.pressed(DebugKey::Num1, clips) == (AppView {
            state: StateView { activity: Activity::Idle, ..a.state },
            ..a
        }),
        a.pressed(DebugKey::Num2, clips) == (AppView {
            state: StateView { activity: Activity::PhoneChat, ..a.state },
            ..a
        }),
        a.pressed(DebugKey::Num3, clips) == (AppView {
            state: a.state.in_mood(Mood::Worried, clips),
            ..a
        }),
        a.pressed(DebugKey::Num4, clips) == (AppView {
            state: a.state.in_mood(Mood::Excited, clips),
            ..a
        }),
        a.pressed(DebugKey::Num5, clips) == (AppView {
            state: a.state.in_mood(Mood::Disappointed, clips),
            ..a
        }),
        a.pressed(DebugKey::Num6, clips) == (AppView {
            state: a.state.in_mood(Mood::PissedOff, clips),
            ..a
        }),
        a.pressed(DebugKey::ArrowUp, clips) == (AppView {
            state: StateView {
                closeness: state::shifted(a.state.closeness, 5_000_000),
                ..a.state
            },
            ..a
        }),
        a.pressed(DebugKey::ArrowDown, clips) == (AppView {
            state: StateView {
                closeness: state::shifted(a.state.closeness, -5_000_000),
                ..a.state
            },
            ..a
        }),
        a.pressed(DebugKey::ArrowRight, clips) == (AppView {
            state: StateView { stress: state::shifted(a.state.stress, 5_000_000), ..a.state },
            ..a
        }),
        a.pressed(DebugKey::ArrowLeft, clips) == (AppView {
            state: StateView { stress: state::shifted(a.state.stress, -5_000_000), ..a.state },
            ..a
        }),
        a.pressed(DebugKey::C, clips) == (AppView { chat_window_open: !a.chat_window_open, ..a }),
        a.pressed(DebugKey::T, clips) == (AppView {
            task_manager_open: !a.task_manager_open,
            ..a
        }),
        a.pressed(DebugKey::O, clips) == (AppView { raw_history_open: !a.raw_history_open, ..a }),
{
}

/// In each frame what came of a request is taken in as at any time, and then the bubbles go on, in
/// the state that the passing of time has left; a companion that is leaving goes on leaving.
pub proof fn law_frame_takes_in_what_came<T, S>(
    a: AppView,
    delta: u64,
    result: Option<Result<String, String>>,
    clips: Map<Seq<char>, AnimationClip<T>>,
    stickers: Map<Seq<char>, S>,
    hour: u32,
    nanos: u32,
)
    ensures
        ({
            let moved = AppView { state: a.state.later(delta, clips, hour, nanos), ..a };
            let told = a.polled(result, clips, stickers);
            let now = a.caught_up(delta, result, clips, stickers, hour, nanos);
            &&& now == (AppView { state: now.state, ..told.bubbles_later(delta) })
            &&& a.state.activity != Activity::Closing ==> now == moved.polled(
                result,
                clips,
                stickers,
            ).bubbles_later(delta)
            &&& a.state.activity == Activity::Closing ==> now.state.activity == moved.state.activity
                && now.state.one_shot_timer == moved.state.one_shot_timer && now.state
                == (StateView {
                activity: moved.state.activity,
                one_shot_timer: moved.state.one_shot_timer,
                ..moved.polled(result, clips, stickers).bubbles_later(delta).state
            })
            &&& result is None && a.pending_bubbles.len() == 0 ==> now == moved
        }),
{
}

/// After that the companion speaks up where its window of silence is over, nothing is awaited and
/// it is not leaving, and is asked then and only then; whichever way, the clip of what it is doing
/// plays. Once it has left nothing more happens.
pub proof fn law_frame_ends_with_the_clip<T, S>(
    a: AppView,
    delta: u64,
    result: Option<Result<String, String>>,
    clips: Map<Seq<char>, AnimationClip<T>>,
    stickers: Map<Seq<char>, S>,
    hour: u32,
    sleep_nanos: u32,
    silence_nanos: u32,
)
    ensures
        ({
            let now = a.caught_up(delta, result, clips, stickers, hour, sleep_nanos);
            let b = a.frame_later(delta, result, clips, stickers, hour, sleep_nanos, silence_nanos);
            let asked = a.frame_request(delta, result, clips, stickers, hour, sleep_nanos);
            let left = a.state.activity == Activity::Closing && 0 < a.state.one_shot_timer <= delta;
            let speaks = now.state.idle_time >= now.state.next_initiate_at && !now.waiting_for_reply
                && now.state.activity != Activity::Closing;
            &&& left ==> b == (AppView {
                state: a.state.later(delta, clips, hour, sleep_nanos),
                ..a
            }) && asked is None
            &&& !left && speaks ==> {
                &&& b == (AppView {
                    player: b.player,
                    ..(AppView { state: now.state.polled(silence_nanos), ..now }).nudging(
                        now.state.idle_time,
                    ).asking(None)
                })
                &&& asked == Some(now.nudging(now.state.idle_time).request(None))
            }
            &&& !left && !speaks ==> b == (AppView {
                player: b.player,
                state: now.state.polled(silence_nanos),
                ..now
            }) && asked is None
            &&& !left ==> b.player == animation::player_after(
                if now.player.current == b.state.animation() {
                    now.player
                } else {
                    animation::PlayerView { current: b.state.animation(), frame: 0, timer: 0 }
                },
                delta,
                clips,
            )
        }),
{
}

} // verus!
