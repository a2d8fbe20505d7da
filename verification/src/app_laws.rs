//! What holds of the application, whatever happens to it.

use vstd::prelude::*;

use crate::animation::AnimationClip;
use crate::app::{self, AppView, BubbleKind, DebugKey, DisplayView};
use crate::llm::{self, LlmReplyView, MessageView};
use crate::state::{self, Activity, Mood};
use crate::state_laws;
use crate::text;

verus! {

/// The conversation starts with the system prompt; the log keeps to its limit and no more
/// messages count as logged than are sent; every bubble is from the user or the companion; and
/// the state is sound.
pub open spec fn is_sound(a: AppView) -> bool {
    &&& a.conversation.len() > 0
    &&& a.conversation[0] == llm::system_message(app::SYSTEM_PROMPT@)
    &&& a.raw_log.len() <= app::MAX_RAW_LOG_ENTRIES
    &&& a.logged_message_count <= app::outgoing(a.conversation, a.examples).len()
    &&& forall|i: int|
        0 <= i < a.display_log.len() ==> app::bubble_kind(#[trigger] a.display_log[i])
            != BubbleKind::Hidden
    &&& state_laws::is_sound(a.state)
}

/// The application is sound at the start.
pub proof fn law_app_starts_sound(
    models: Seq<Seq<char>>,
    examples: Seq<MessageView>,
    debug: bool,
    sleep_nanos: u32,
    silence_nanos: u32,
)
    ensures
        is_sound(app::first_app(models, examples, debug, sleep_nanos, silence_nanos)),
{
}

/// What the user says, a sticker, a word of the companion and the request that follows leave the
/// application sound.
pub proof fn law_asking_keeps_sound(
    a: AppView,
    text: Seq<char>,
    idle: u64,
    nanos: u32,
    note: Option<MessageView>,
)
    requires
        is_sound(a),
    ensures
        is_sound(a.saying(text, nanos).asking(note)),
        is_sound(a.sending(text, nanos).asking(note)),
        is_sound(a.nudging(idle).asking(note)),
{
}

/// An answer, a failure and the passing of time between bubbles leave the application sound.
pub proof fn law_answers_keep_sound<T, S>(
    a: AppView,
    raw: Seq<char>,
    parsed: LlmReplyView,
    mood: Mood,
    delta: u64,
    clips: Map<Seq<char>, AnimationClip<T>>,
    stickers: Map<Seq<char>, S>,
)
    requires
        is_sound(a),
    ensures
        is_sound(a.answered(raw, parsed, mood, clips, stickers)),
        is_sound(a.failed(raw, clips)),
        is_sound(a.bubbles_later(delta)),
{
}

/// Settings and keys leave the application sound.
pub proof fn law_controls_keep_sound<T>(
    a: AppView,
    key: DebugKey,
    models: Seq<Seq<char>>,
    clips: Map<Seq<char>, AnimationClip<T>>,
)
    requires
        is_sound(a),
    ensures
        is_sound(a.pressed(key, clips)),
        is_sound(a.adopting(models)),
        is_sound(AppView { state: a.state.closing(clips), ..a }),
{
}

proof fn lemma_polling_keeps_sound<T, S>(
    a: AppView,
    result: Option<Result<String, String>>,
    clips: Map<Seq<char>, AnimationClip<T>>,
    stickers: Map<Seq<char>, S>,
)
    requires
        is_sound(a),
    ensures
        is_sound(a.polled(result, clips, stickers)),
{
    match result {
        Some(Ok(raw)) => {
            let parsed = llm::reply_in(raw@, llm::json_in(raw@));
            let mood = state::mood_named(text::lowercase(text::trimmed(parsed.mood)));
            law_answers_keep_sound(a, raw@, parsed, mood, 0, clips, stickers);
        },
        Some(Err(err)) => {
            law_answers_keep_sound(a, err@, arbitrary(), Mood::Neutral, 0, clips, stickers);
        },
        None => {},
    }
}

proof fn lemma_catching_up_keeps_sound<T, S>(
    a: AppView,
    delta: u64,
    result: Option<Result<String, String>>,
    clips: Map<Seq<char>, AnimationClip<T>>,
    stickers: Map<Seq<char>, S>,
    hour: u32,
    nanos: u32,
)
    requires
        is_sound(a),
    ensures
        is_sound(AppView { state: a.state.later(delta, clips, hour, nanos), ..a }),
        is_sound(a.caught_up(delta, result, clips, stickers, hour, nanos)),
{
    state_laws::law_state_stays_sound(
        a.state,
        true,
        delta,
        0,
        Mood::Neutral,
        a.state.activity,
        Seq::empty(),
        clips,
        hour,
        nanos,
    );
    let moved = AppView { state: a.state.later(delta, clips, hour, nanos), ..a };
    lemma_polling_keeps_sound(moved, result, clips, stickers);
    let told = moved.polled(result, clips, stickers);
    let kept = told.going_on(moved.state);
    law_answers_keep_sound(told, Seq::empty(), arbitrary(), Mood::Neutral, delta, clips, stickers);
    law_answers_keep_sound(kept, Seq::empty(), arbitrary(), Mood::Neutral, delta, clips, stickers);
}

/// A frame leaves the application sound.
pub proof fn law_frame_keeps_sound<T, S>(
    a: AppView,
    delta: u64,
    result: Option<Result<String, String>>,
    clips: Map<Seq<char>, AnimationClip<T>>,
    stickers: Map<Seq<char>, S>,
    hour: u32,
    sleep_nanos: u32,
    silence_nanos: u32,
)
    requires
        is_sound(a),
    ensures
        is_sound(
            a.frame_later(delta, result, clips, stickers, hour, sleep_nanos, silence_nanos),
        ),
{
    lemma_catching_up_keeps_sound(a, delta, result, clips, stickers, hour, sleep_nanos);
    let now = a.caught_up(delta, result, clips, stickers, hour, sleep_nanos);
    lemma_speaking_up_keeps_sound(now, silence_nanos);
    lemma_playing_keeps_sound(now.initiated(silence_nanos), delta, clips);
}

proof fn lemma_speaking_up_keeps_sound(a: AppView, nanos: u32)
    requires
        is_sound(a),
    ensures
        is_sound(a.initiated(nanos)),
{
    let quiet = a.silence_polled(nanos);
    assert(is_sound(quiet));
    law_asking_keeps_sound(quiet, Seq::empty(), a.state.idle_time, nanos, None);
}

proof fn lemma_playing_keeps_sound<T>(
    a: AppView,
    delta: u64,
    clips: Map<Seq<char>, AnimationClip<T>>,
)
    requires
        is_sound(a),
    ensures
        is_sound(a.playing(delta, clips)),
{
}

/// What is logged of a request is what was said since the last one, each message once: after a
/// request, once `more` turns have been added, the next entry holds exactly these and a note for
/// that time only.
pub proof fn law_log_holds_what_is_new(
    a: AppView,
    note: Option<MessageView>,
    next: AppView,
    more: Seq<MessageView>,
    next_note: Option<MessageView>,
)
    requires
        a.conversation.len() > 0,
        next.conversation == a.conversation + more,
        next.examples == a.examples,
        next.logged_message_count == a.asking(note).logged_message_count,
    ensures
        ({
            let ms = next.request(next_note);
            ms.skip(next.logged_of(ms) as int) == match next_note {
                Some(m) => more.push(m),
                None => more,
            }
        }),
{
    let before = app::outgoing(a.conversation, a.examples);
    let after = app::outgoing(next.conversation, next.examples);
    assert(after =~= before + more);
    let ms = next.request(next_note);
    assert(next.logged_of(ms) == before.len());
    assert(after.skip(before.len() as int) =~= more);
    if let Some(m) = next_note {
        assert(ms.skip(before.len() as int) =~= more.push(m));
    }
}

/// Where nothing has been logged, a request is logged in full.
pub proof fn law_first_request_is_logged_in_full(a: AppView, note: Option<MessageView>)
    requires
        a.logged_message_count == 0,
    ensures
        a.asking(note).raw_log == app::capped(
            a.raw_log.push(app::sent_entry(a.raw_log.len(), a.request(note), 0)),
        ),
{
}

/// A request leaves no trace of its note or of the examples in the conversation: they are sent
/// and not kept. It makes no bubble either.
pub proof fn law_notes_are_not_kept(a: AppView, note: MessageView)
    ensures
        a.asking(Some(note)).conversation == a.conversation,
        a.asking(Some(note)).examples == a.examples,
        a.asking(Some(note)).display_log == a.display_log,
        a.request(Some(note)) == a.request(None).push(note),
        a.asking(Some(note)).request(None) == a.request(None),
{
}

/// A request starts with the system prompt, goes on with the examples, and ends with the turns of
/// the conversation.
pub proof fn law_request_has_everything(a: AppView)
    requires
        is_sound(a),
    ensures
        a.request(None).len() == a.conversation.len() + a.examples.len(),
        a.request(None)[0] == llm::system_message(app::SYSTEM_PROMPT@),
        forall|i: int|
            0 <= i < a.examples.len() ==> a.request(None)[1 + i] == #[trigger] a.examples[i],
        forall|i: int|
            1 <= i < a.conversation.len() ==> a.request(None)[a.examples.len() + i]
                == #[trigger] a.conversation[i],
{
}

/// A word to the companion about a silence shows in no bubble.
pub proof fn law_nudges_are_not_shown(a: AppView, idle: u64)
    ensures
        a.nudging(idle).asking(None).display_log == a.display_log,
        a.nudging(idle).asking(None).conversation == a.conversation.push(
            llm::system_message(app::nudge_text(idle)),
        ),
{
}

/// An answer is one turn of the conversation, however many bubbles it has; none of them is lost:
/// the first is shown and the others are queued. No further answer is awaited.
pub proof fn law_answer_is_one_turn<T, S>(
    a: AppView,
    raw: Seq<char>,
    parsed: LlmReplyView,
    mood: Mood,
    clips: Map<Seq<char>, AnimationClip<T>>,
    stickers: Map<Seq<char>, S>,
)
    ensures
        ({
            let b = a.answered(raw, parsed, mood, clips, stickers);
            let n = a.display_log.len() as int;
            &&& b.conversation == a.conversation.push(
                llm::assistant_message(llm::reply_text(parsed)),
            )
            &&& b.display_log.len() > n
            &&& b.display_log.take(n) == a.display_log
            &&& b.display_log[n] matches DisplayView::Text { role, text } && seq![text]
                + b.pending_bubbles == AppView::bubbles_of(raw, parsed)
            &&& !b.waiting_for_reply
        }),
{
    let b = a.answered(raw, parsed, mood, clips, stickers);
    let shown = AppView::bubbles_of(raw, parsed);
    assert(b.display_log.take(a.display_log.len() as int) =~= a.display_log);
    assert(seq![shown[0]] + shown.skip(1) =~= shown);
}

/// Whatever came of a request, it is no longer awaited. A failure leaves the conversation and
/// the bubbles as they were.
pub proof fn law_every_result_ends_the_wait<T, S>(
    a: AppView,
    result: Result<String, String>,
    clips: Map<Seq<char>, AnimationClip<T>>,
    stickers: Map<Seq<char>, S>,
)
    ensures
        ({
            let b = a.polled(Some(result), clips, stickers);
            &&& !b.waiting_for_reply
            &&& result is Err ==> b.conversation == a.conversation && b.display_log == a.display_log
                && b.pending_bubbles == a.pending_bubbles
        }),
{
}

/// While the companion is leaving, each frame brings it nearer to its end, whatever comes of a
/// request: it has left once the clip is over, and is leaving until then. What came is logged and
/// becomes a turn as at any other time, and is no longer awaited; nothing is asked of the model on
/// the way.
pub proof fn law_farewell_goes_on<T, S>(
    a: AppView,
    delta: u64,
    result: Option<Result<String, String>>,
    clips: Map<Seq<char>, AnimationClip<T>>,
    stickers: Map<Seq<char>, S>,
    hour: u32,
    sleep_nanos: u32,
    silence_nanos: u32,
)
    requires
        a.state.activity == Activity::Closing,
        a.state.one_shot_timer > 0,
    ensures
        ({
            let b = a.frame_later(delta, result, clips, stickers, hour, sleep_nanos, silence_nanos);
            &&& a.state.exits_within(delta) <==> delta >= a.state.one_shot_timer
            &&& b.state.activity == Activity::Closing
            &&& b.state.one_shot_timer == a.state.one_shot_timer.saturating_sub(delta)
            &&& !a.state.exits_within(delta) ==> {
                let told = a.polled(result, clips, stickers);
                &&& b.raw_log == told.raw_log
                &&& b.conversation == told.conversation
                &&& b.waiting_for_reply == told.waiting_for_reply
                &&& b.waiting_for_reply == (a.waiting_for_reply && result is None)
            }
            &&& a.frame_request(delta, result, clips, stickers, hour, sleep_nanos) is None
        }),
{
    state_laws::lemma_silence_keeps_activity(
        a.state.screen_later(delta).one_shot_later(delta),
        delta,
    );
}

/// A sticker that there is no picture of is not shown.
pub proof fn law_unknown_sticker_is_not_shown<T, S>(
    a: AppView,
    raw: Seq<char>,
    parsed: LlmReplyView,
    mood: Mood,
    clips: Map<Seq<char>, AnimationClip<T>>,
    stickers: Map<Seq<char>, S>,
    i: int,
)
    requires
        a.display_log.len() <= i < a.answered(raw, parsed, mood, clips, stickers).display_log.len(),
    ensures
        a.answered(raw, parsed, mood, clips, stickers).display_log[i] matches DisplayView::Sticker {
            role,
            name,
        } ==> stickers.contains_key(name) && parsed.sticker == Some(name),
{
}

/// The bubbles of the companion that show `texts`.
pub open spec fn as_bubbles(texts: Seq<Seq<char>>) -> Seq<DisplayView> {
    texts.map_values(|text: Seq<char>| DisplayView::Text { role: "assistant"@, text })
}

/// After frames of the given lengths, as far as queued bubbles go.
pub open spec fn bubbles_through(a: AppView, deltas: Seq<u64>) -> AppView
    decreases deltas.len(),
{
    if deltas.len() == 0 {
        a
    } else {
        bubbles_through(a, deltas.drop_last()).bubbles_later(deltas.last())
    }
}

/// Queued bubbles come in their order, none lost and none twice, and not more than one at a time;
/// with 3.2 seconds between each and the next, one comes each time until all have come.
pub proof fn law_bubbles_come_in_order(a: AppView, deltas: Seq<u64>)
    requires
        a.bubble_timer <= 3_200_000_000,
    ensures
        ({
            let b = bubbles_through(a, deltas);
            let n = a.pending_bubbles.len() - b.pending_bubbles.len();
            &&& 0 <= n <= deltas.len()
            &&& b.pending_bubbles == a.pending_bubbles.skip(n)
            &&& b.display_log == a.display_log + as_bubbles(a.pending_bubbles.take(n))
            &&& b.conversation == a.conversation
            &&& b.bubble_timer <= 3_200_000_000
            &&& (forall|i: int| 0 <= i < deltas.len() ==> #[trigger] deltas[i] >= 3_200_000_000)
                ==> n == deltas.len() || b.pending_bubbles.len() == 0
        }),
    decreases deltas.len(),
{
    let all = a.pending_bubbles;
    if deltas.len() == 0 {
        assert(all.skip(0) =~= all);
        assert(a.display_log + as_bubbles(all.take(0)) =~= a.display_log);
    } else {
        law_bubbles_come_in_order(a, deltas.drop_last());
        let before = bubbles_through(a, deltas.drop_last());
        let n = all.len() - before.pending_bubbles.len();
        let b = bubbles_through(a, deltas);
        assert forall|i: int| 0 <= i < deltas.drop_last().len() implies deltas.drop_last()[i]
            == #[trigger] deltas[i] by {}
        if b.pending_bubbles.len() < before.pending_bubbles.len() {
            assert(all.skip(n).skip(1) =~= all.skip(n + 1));
            assert(b.display_log =~= a.display_log + as_bubbles(all.take(n + 1)));
        }
    }
}

/// A longer bubble is typed for no shorter time, and each for 0.9 to 3.2 seconds.
pub proof fn law_typing_takes_its_time(short: Seq<char>, long: Seq<char>)
    requires
        short.len() <= long.len(),
    ensures
        900_000_000 <= app::typing_time(short) <= app::typing_time(long) <= 3_200_000_000,
{
}

/// After a list of models was taken over, the selected model is among them, and it has changed
/// only where it had to.
pub proof fn law_selected_model_is_listed(a: AppView, models: Seq<Seq<char>>)
    requires
        models.len() > 0,
    ensures
        models.contains(a.adopting(models).selected_model),
        models.contains(a.selected_model) ==> a.adopting(models).selected_model == a.selected_model,
{
    assert(models.contains(models[0]));
}

/// The log keeps its newest entries, at most as many as its limit: what was noted last is there.
pub proof fn law_log_keeps_the_newest(a: AppView, entry: Seq<char>)
    requires
        a.raw_log.len() <= app::MAX_RAW_LOG_ENTRIES,
    ensures
        ({
            let log = a.noting(entry).raw_log;
            &&& log.len() <= app::MAX_RAW_LOG_ENTRIES
            &&& log.last() == entry
            &&& log.drop_last() == a.raw_log.skip(a.raw_log.len() + 1 - log.len())
        }),
{
    let log = a.noting(entry).raw_log;
    assert(log.drop_last() =~= a.raw_log.skip(a.raw_log.len() + 1 - log.len()));
}

} // verus!
