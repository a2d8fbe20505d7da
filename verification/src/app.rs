//! The application without its windows: the conversation, its logs, and what is on screen.

use std::collections::VecDeque;
use vstd::prelude::*;

use crate::animation::{self, AnimationClip, AnimationPlayer, PlayerView};
use crate::catalog::Catalog;
use crate::clock::{self, LocalMoment};
use crate::conversation_laws;
use crate::llm::{self, ChatMessage, LlmReply, LlmReplyView, MessageView, OllamaClient};
use crate::state::{self, Activity, Mood, PetState, StateView};
use crate::text;

verus! {

broadcast use vstd::string::group_string_axioms;

/// The most entries that the raw log keeps.
pub const MAX_RAW_LOG_ENTRIES: usize = 200;

/// The model that is asked for where none can be listed.
pub const FALLBACK_MODEL: &'static str = "llama3.2";

/// For how long a reply stays on screen.
pub const REPLY_TIME: u64 = 6_000_000_000;

/// For how long an error stays on screen.
pub const ERROR_TIME: u64 = 4_000_000_000;

/// What the model is told before anything else.
pub const SYSTEM_PROMPT: &'static str = "You are Ame, a small desktop companion living on someone's \
    screen. Reply in 1-2 short, casual sentences most of the \
    time. Warm, a little playful, never robotic. \
    Occasionally (roughly 1 in every 5-6 replies, never forced) \
    if it genuinely fits the moment — excitement, rambling, a \
    joke with a setup and punchline — you may instead send a \
    quick back-to-back burst of 2 to 10 very short messages, \
    like someone texting in a row, by making \"reply\" a JSON \
    array of strings instead of a single string. Most replies \
    should still be a single string. \
    do NOT ever send a JSON array of objects, only a single object with a \"reply\" \
    do NOT ever use emoji \
    You also have a small set of stickers you can send: aseru, \
    ignoring_u, im_orb, selfie_time, so_NOT_cute, toketeiru, zzz \
    — think of them as short mood/reaction images. Include a \
    \"sticker\" field ONLY when one genuinely fits the moment; \
    this should be rare, most replies send no sticker at all. \
    Omit the field or set it to null otherwise. Never invent a \
    sticker name outside this exact list. If a message tells \
    you the user sent a sticker, react to it the way you'd \
    react to a little picture they shared. \
    Before most replies you'll get a system note with the real \
    current time and day. Only bring it up when it actually fits \
    — being sleepy late at night, greeting a new day, noting \
    it's the weekend — most replies shouldn't mention it at all, \
    and you should never state the exact time/date like a clock \
    or acknowledge that you were told it. \
    Sometimes you'll get a system note saying the user hasn't \
    talked to you in a while — when that happens, initiate a \
    short, natural message first, as if reaching out on your \
    own. Never mention the note itself. \
    You MUST respond with ONLY a JSON object, no other text, no \
    markdown fences, in exactly this shape: \
    {\"reply\": \"<your 1-2 sentence reply>\" or [\"<msg1>\", \
    \"<msg2>\", ...], \"mood\": \"<one of: worried, excited, \
    disappointed, pissed_off, neutral>\", \"sticker\": \"<one \
    of the sticker names above>\" or null}";

/// What a bubble shows: a text, or a sticker by its name.
#[derive(Debug)]
pub enum DisplayContent {
    Text(String),
    Sticker(String),
}

/// One bubble of the chat window.
#[derive(Debug)]
pub struct DisplayMessage {
    pub role: &'static str,
    pub content: DisplayContent,
}

/// What a [`DisplayMessage`] holds.
pub enum DisplayView {
    Text { role: Seq<char>, text: Seq<char> },
    Sticker { role: Seq<char>, name: Seq<char> },
}

impl View for DisplayMessage {
    type V = DisplayView;

    open spec fn view(&self) -> DisplayView {
        match self.content {
            DisplayContent::Text(text) => DisplayView::Text { role: self.role@, text: text@ },
            DisplayContent::Sticker(name) => DisplayView::Sticker { role: self.role@, name: name@ },
        }
    }
}

/// How a bubble is drawn.
#[derive(Debug, Clone, Copy, PartialEq, Eq, Structural)]
pub enum BubbleKind {
    UserText,
    AssistantText,
    UserSticker,
    AssistantSticker,
    Hidden,
}

/// How a bubble is drawn, by who it is from and what it shows.
pub open spec fn bubble_kind(m: DisplayView) -> BubbleKind {
    match m {
        DisplayView::Text { role, .. } => if role == "user"@ {
            BubbleKind::UserText
        } else if role == "assistant"@ {
            BubbleKind::AssistantText
        } else {
            BubbleKind::Hidden
        },
        DisplayView::Sticker { role, .. } => if role == "user"@ {
            BubbleKind::UserSticker
        } else if role == "assistant"@ {
            BubbleKind::AssistantSticker
        } else {
            BubbleKind::Hidden
        },
    }
}

impl DisplayMessage {
    /// A text of the user.
    pub fn user_text(s: &str) -> (m: DisplayMessage)
        ensures
            m@ == (DisplayView::Text { role: "user"@, text: s@ }),
    {
        DisplayMessage { role: "user", content: DisplayContent::Text(s.to_string()) }
    }

    /// A text of the companion.
    pub fn assistant_text(s: &str) -> (m: DisplayMessage)
        ensures
            m@ == (DisplayView::Text { role: "assistant"@, text: s@ }),
    {
        DisplayMessage { role: "assistant", content: DisplayContent::Text(s.to_string()) }
    }

    /// A sticker of the user.
    pub fn user_sticker(name: &str) -> (m: DisplayMessage)
        ensures
            m@ == (DisplayView::Sticker { role: "user"@, name: name@ }),
    {
        DisplayMessage { role: "user", content: DisplayContent::Sticker(name.to_string()) }
    }

    /// A sticker of the companion.
    pub fn assistant_sticker(name: &str) -> (m: DisplayMessage)
        ensures
            m@ == (DisplayView::Sticker { role: "assistant"@, name: name@ }),
    {
        DisplayMessage { role: "assistant", content: DisplayContent::Sticker(name.to_string()) }
    }

    /// How the bubble is drawn.
    pub fn kind(&self) -> (res: BubbleKind)
        ensures
            res == bubble_kind(self@),
    {
        let user: bool = text::same(self.role, "user");
        let assistant: bool = text::same(self.role, "assistant");
        match &self.content {
            DisplayContent::Text(_) => if user {
                BubbleKind::UserText
            } else if assistant {
                BubbleKind::AssistantText
            } else {
                BubbleKind::Hidden
            },
            DisplayContent::Sticker(_) => if user {
                BubbleKind::UserSticker
            } else if assistant {
                BubbleKind::AssistantSticker
            } else {
                BubbleKind::Hidden
            },
        }
    }
}

/// The views of a list of bubbles.
pub open spec fn displayed(v: Seq<DisplayMessage>) -> Seq<DisplayView> {
    v.map_values(|m: DisplayMessage| m@)
}

/// For how long a bubble is typed: half a second and 25 milliseconds per character, not less than
/// 0.9 and not more than 3.2 seconds.
pub open spec fn typing_time(s: Seq<char>) -> u64 {
    let millis = 500 + 25 * s.len();
    (if millis < 900 {
        900
    } else if millis > 3200 {
        3200
    } else {
        millis
    } * 1_000_000) as u64
}

/// For how long a bubble is typed before the next one comes.
pub fn typing_delay(s: &str) -> (res: u64)
    ensures
        res == typing_time(s@),
{
    let n: usize = s.unicode_len();
    if n <= 16 {
        900_000_000
    } else if n >= 108 {
        3_200_000_000
    } else {
        (500 + 25 * n as u64) * 1_000_000
    }
}

/// The part of the day that an hour belongs to.
pub open spec fn part_of_day(hour: u32) -> Seq<char> {
    if 5 <= hour <= 11 {
        "morning"@
    } else if 12 <= hour <= 16 {
        "afternoon"@
    } else if 17 <= hour <= 20 {
        "evening"@
    } else {
        "late at night"@
    }
}

/// What the model is told of the time, up to the clock.
pub const TIME_NOTE_START: &'static str = "[System note: the real-world time right now is ";

/// What the model is told of the time, behind the day.
pub const TIME_NOTE_END: &'static str = ". Weave this in naturally only if it genuinely fits — \
    noticing it's late, commenting on a weekend, etc. Don't recite the time like a clock, don't \
    treat this as something the user said, and never mention receiving this note.]";

/// What the model is told of the time.
pub open spec fn time_note(hour: u32, clock: Seq<char>, weekday: Seq<char>) -> Seq<char> {
    TIME_NOTE_START@ + clock + " ("@ + part_of_day(hour) + "), on "@ + weekday + TIME_NOTE_END@
}

/// What the model is told of a moment.
pub fn time_context(moment: &LocalMoment) -> (res: String)
    ensures
        res@ == time_note(moment.hour, moment.clock@, moment.weekday@),
{
    let part = if 5 <= moment.hour && moment.hour <= 11 {
        "morning"
    } else if 12 <= moment.hour && moment.hour <= 16 {
        "afternoon"
    } else if 17 <= moment.hour && moment.hour <= 20 {
        "evening"
    } else {
        "late at night"
    };
    let mut res = TIME_NOTE_START.to_string();
    res.append(moment.clock.as_str());
    res.append(" (");
    res.append(part);
    res.append("), on ");
    res.append(moment.weekday.as_str());
    res.append(TIME_NOTE_END);
    res
}

/// What the model is told of the current moment.
pub fn current_time_context() -> (res: String)
    ensures
        exists|m: LocalMoment|
            clock::is_moment(m) && res@ == #[trigger] time_note(m.hour, m.clock@, m.weekday@),
{
    let moment = clock::local_now();
    time_context(&moment)
}

/// What the model is told of a silence, up to its length.
pub const NUDGE_START: &'static str = "[System note: the user hasn't talked to you in about ";

/// What the model is told of a silence, behind its length.
pub const NUDGE_END: &'static str = " minute(s). Initiate a short, casual message to them first — \
    check in, share a passing thought, or ask something. Don't mention this note.]";

/// Nanoseconds in a minute.
pub const MINUTE: u64 = 60_000_000_000;

/// What the model is told of a silence of `idle` nanoseconds, to the nearest minute.
pub open spec fn nudge_text(idle: u64) -> Seq<char> {
    NUDGE_START@ + text::decimal(text::nearest(idle as nat, MINUTE as nat)) + NUDGE_END@
}

fn write_nudge(idle: u64) -> (res: String)
    ensures
        res@ == nudge_text(idle),
{
    let mut res = NUDGE_START.to_string();
    res.append(text::decimal_of(text::nearest_of(idle, MINUTE)).as_str());
    res.append(NUDGE_END);
    res
}

/// What the model is told of a sticker.
pub open spec fn sticker_note(name: Seq<char>) -> Seq<char> {
    "[pchan sent a sticker: "@ + name + "]"@
}

/// The stickers that the companion may send.
pub fn ame_stickers() -> (res: [&'static str; 7])
    ensures
        res@.map_values(|s: &'static str| s@) == seq![
            "aseru"@,
            "ignoring_u"@,
            "im_orb"@,
            "selfie_time"@,
            "so_NOT_cute"@,
            "toketeiru"@,
            "zzz"@,
        ],
{
    let res = [
        "aseru",
        "ignoring_u",
        "im_orb",
        "selfie_time",
        "so_NOT_cute",
        "toketeiru",
        "zzz",
    ];
    assert(res@.map_values(|s: &'static str| s@) =~= seq![
        "aseru"@,
        "ignoring_u"@,
        "im_orb"@,
        "selfie_time"@,
        "so_NOT_cute"@,
        "toketeiru"@,
        "zzz"@,
    ]);
    res
}

/// The names of the stickers that the user can pick, in the order in which they are offered.
pub open spec fn pchan_names() -> Seq<Seq<char>> {
    seq![
        "idc"@,
        "im_ded"@,
        "love_forever"@,
        "omg"@,
        "sad"@,
        "sorry"@,
        "this"@,
        "tired_ok"@,
    ]
}

/// The stickers that the user can pick, in the order in which they are offered.
pub fn pchan_stickers() -> (res: [&'static str; 8])
    ensures
        res@.map_values(|s: &'static str| s@) == pchan_names(),
{
    let res = ["idc", "im_ded", "love_forever", "omg", "sad", "sorry", "this", "tired_ok"];
    assert(res@.map_values(|s: &'static str| s@) =~= pchan_names());
    res
}

/// The stickers that are offered to the user: those that there is a picture of.
pub fn offered_stickers<S>(pictures: &Catalog<S>) -> (res: Vec<&'static str>)
    ensures
        res@.map_values(|s: &'static str| s@) == pchan_names().filter(
            |name: Seq<char>| pictures@.contains_key(name),
        ),
{
    let names = pchan_stickers();
    let ghost all = pchan_names();
    let ghost pictured = |name: Seq<char>| pictures@.contains_key(name);
    let mut res: Vec<&'static str> = Vec::new();
    proof {
        reveal(Seq::filter);
    }
    assert(res@.map_values(|s: &'static str| s@) =~= all.take(0).filter(pictured));
    let mut i: usize = 0;
    while i < 8
        invariant
            i <= 8,
            all == names@.map_values(|s: &'static str| s@),
            all == pchan_names(),
            pictured == (|name: Seq<char>| pictures@.contains_key(name)),
            res@.map_values(|s: &'static str| s@) == all.take(i as int).filter(pictured),
        decreases 8 - i,
    {
        let ghost before = res@;
        let name: &'static str = names[i];
        if pictures.contains(name) {
            res.push(name);
            assert(res@.map_values(|s: &'static str| s@) =~= before.map_values(
                |s: &'static str| s@,
            ).push(name@));
        }
        proof {
            reveal(Seq::filter);
            assert(all.take(i + 1).drop_last() =~= all.take(i as int));
            assert(all.take(i + 1).last() == name@);
        }
        i += 1;
    }
    assert(all.take(8) =~= all);
    res
}

/// The entry that is logged when messages are sent. `n` is the number of entries before it and
/// `start` the number of messages that were logged before.
pub open spec fn sent_entry(n: nat, ms: Seq<MessageView>, start: nat) -> Seq<char> {
    let label = if start == 0 {
        ">>> ["@ + text::decimal(n) + "] SENT — full context ("@ + text::decimal(ms.len())
            + " messages)"@
    } else {
        ">>> ["@ + text::decimal(n) + "] SENT — "@ + text::decimal((ms.len() - start) as nat)
            + " new message(s) appended (total "@ + text::decimal(ms.len()) + ", "@ + text::decimal(
            start,
        ) + " unchanged since last send)"@
    };
    label + "\n"@ + llm::messages_text(ms.skip(start as int))
}

/// The entry that is logged when an answer comes.
pub open spec fn received_entry(n: nat, raw: Seq<char>) -> Seq<char> {
    "<<< ["@ + text::decimal(n) + "] RECEIVED (raw)\n"@ + raw
}

/// The entry that is logged when an answer fails to come.
pub open spec fn error_entry(n: nat, err: Seq<char>) -> Seq<char> {
    "<<< ["@ + text::decimal(n) + "] ERROR\n"@ + err
}

/// The newest entries of a log, as many as are kept.
pub open spec fn capped(log: Seq<Seq<char>>) -> Seq<Seq<char>> {
    if log.len() > MAX_RAW_LOG_ENTRIES {
        log.skip(log.len() - MAX_RAW_LOG_ENTRIES)
    } else {
        log
    }
}

/// What is shown of an error.
pub open spec fn error_text(err: Seq<char>) -> Seq<char> {
    "...hmm, something's wrong ("@ + err + ")"@
}

/// Messages as they are sent: the system prompt, the examples, and the conversation so far.
pub open spec fn outgoing(
    conversation: Seq<MessageView>,
    examples: Seq<MessageView>,
) -> Seq<MessageView> {
    conversation.take(1) + examples + conversation.skip(1)
}

/// What a [`PetApp`] holds.
#[verifier::ext_equal]
pub struct AppView {
    pub state: StateView,
    pub player: PlayerView,
    pub available_models: Seq<Seq<char>>,
    pub selected_model: Seq<char>,
    pub proxy: Seq<char>,
    pub proxy_input: Seq<char>,
    pub settings_open: bool,
    pub conversation: Seq<MessageView>,
    pub examples: Seq<MessageView>,
    pub display_log: Seq<DisplayView>,
    pub input: Seq<char>,
    pub waiting_for_reply: bool,
    pub chat_window_open: bool,
    pub task_manager_open: bool,
    pub sticker_picker_open: bool,
    pub raw_history_open: bool,
    pub raw_log: Seq<Seq<char>>,
    pub logged_message_count: nat,
    pub pending_bubbles: Seq<Seq<char>>,
    pub bubble_timer: u64,
}

/// The companion, its conversation, and what its windows show.
pub struct PetApp {
    pub state: PetState,
    pub player: AnimationPlayer,
    pub available_models: Vec<String>,
    pub selected_model: String,
    /// The proxy that is in use, and the one that is being typed.
    pub proxy: String,
    pub proxy_input: String,
    pub settings_open: bool,
    /// What the model sees: the system prompt and the turns since. An answer is one turn,
    /// however many bubbles it is shown in.
    pub conversation: Vec<ChatMessage>,
    pub examples: Vec<ChatMessage>,
    /// What the chat window shows, bubble by bubble.
    pub display_log: Vec<DisplayMessage>,
    pub input: String,
    pub waiting_for_reply: bool,
    pub chat_window_open: bool,
    pub task_manager_open: bool,
    pub sticker_picker_open: bool,
    pub raw_history_open: bool,
    /// What was sent and received, oldest first.
    pub raw_log: Vec<String>,
    /// How many of the messages that are sent each time have been logged.
    pub logged_message_count: usize,
    /// The bubbles of a burst that are still to come.
    pub pending_bubbles: VecDeque<String>,
    pub bubble_timer: u64,
}

impl View for PetApp {
    type V = AppView;

    open spec fn view(&self) -> AppView {
        AppView {
            state: self.state@,
            player: self.player@,
            available_models: text::texts(self.available_models@),
            selected_model: self.selected_model@,
            proxy: self.proxy@,
            proxy_input: self.proxy_input@,
            settings_open: self.settings_open,
            conversation: llm::messages(self.conversation@),
            examples: llm::messages(self.examples@),
            display_log: displayed(self.display_log@),
            input: self.input@,
            waiting_for_reply: self.waiting_for_reply,
            chat_window_open: self.chat_window_open,
            task_manager_open: self.task_manager_open,
            sticker_picker_open: self.sticker_picker_open,
            raw_history_open: self.raw_history_open,
            raw_log: text::texts(self.raw_log@),
            logged_message_count: self.logged_message_count as nat,
            pending_bubbles: text::texts(self.pending_bubbles@),
            bubble_timer: self.bubble_timer,
        }
    }
}

impl AppView {
    /// With one more entry in the log, which keeps the newest ones only.
    pub open spec fn noting(self, entry: Seq<char>) -> AppView {
        AppView { raw_log: capped(self.raw_log.push(entry)), ..self }
    }

    /// With one more turn in the conversation.
    pub open spec fn with_turn(self, m: MessageView) -> AppView {
        AppView { conversation: self.conversation.push(m), ..self }
    }

    /// With one more bubble in the chat window.
    pub open spec fn with_bubble(self, m: DisplayView) -> AppView {
        AppView { display_log: self.display_log.push(m), ..self }
    }

    /// How many of the messages `ms` have been logged before.
    pub open spec fn logged_of(self, ms: Seq<MessageView>) -> nat {
        if self.logged_message_count < ms.len() {
            self.logged_message_count
        } else {
            ms.len()
        }
    }

    /// After `ms` were logged, of which the first `kept` will be sent again next time.
    pub open spec fn logging(self, ms: Seq<MessageView>, kept: nat) -> AppView {
        AppView {
            logged_message_count: kept,
            ..self.noting(sent_entry(self.raw_log.len(), ms, self.logged_of(ms)))
        }
    }

    /// The messages that are sent, with a note for this time only.
    pub open spec fn request(self, note: Option<MessageView>) -> Seq<MessageView> {
        match note {
            Some(note) => outgoing(self.conversation, self.examples).push(note),
            None => outgoing(self.conversation, self.examples),
        }
    }

    /// After the model was asked.
    pub open spec fn asking(self, note: Option<MessageView>) -> AppView {
        AppView {
            waiting_for_reply: true,
            state: StateView { activity: Activity::PhoneChat, ..self.state },
            ..self.logging(
                self.request(note),
                outgoing(self.conversation, self.examples).len(),
            )
        }
    }

    /// After the user said `text`, before the model is asked.
    pub open spec fn saying(self, text: Seq<char>, nanos: u32) -> AppView {
        AppView { input: Seq::empty(), state: self.state.spoken_to(nanos), ..self }.with_turn(
            llm::user_message(text),
        ).with_bubble(DisplayView::Text { role: "user"@, text })
    }

    /// After the user sent a sticker, before the model is asked.
    pub open spec fn sending(self, name: Seq<char>, nanos: u32) -> AppView {
        AppView { state: self.state.spoken_to(nanos), ..self }.with_turn(
            llm::user_message(sticker_note(name)),
        ).with_bubble(DisplayView::Sticker { role: "user"@, name })
    }

    /// With the sticker picker closed.
    pub open spec fn without_picker(self) -> AppView {
        AppView { sticker_picker_open: false, ..self }
    }

    /// After the model was told of a silence, before it is asked.
    pub open spec fn nudging(self, idle: u64) -> AppView {
        self.with_turn(llm::system_message(nudge_text(idle)))
    }

    /// Tells whether there is something to send and nothing is awaited.
    pub open spec fn can_send(self) -> bool {
        text::trimmed(self.input).len() > 0 && !self.waiting_for_reply
    }

    /// The bubbles in which an answer is shown. One that has none is shown as it came.
    pub open spec fn bubbles_of(raw: Seq<char>, parsed: LlmReplyView) -> Seq<Seq<char>> {
        let shown = llm::bubbles(parsed.reply);
        if shown.len() == 0 {
            seq![raw]
        } else {
            shown
        }
    }

    /// After an answer came: it is one turn of the conversation; its first bubble is shown and
    /// the others are queued; a sticker is shown if there is one of that name.
    pub open spec fn answered<T, S>(
        self,
        raw: Seq<char>,
        parsed: LlmReplyView,
        mood: Mood,
        clips: Map<Seq<char>, AnimationClip<T>>,
        stickers: Map<Seq<char>, S>,
    ) -> AppView {
        let shown = AppView::bubbles_of(raw, parsed);
        let told = AppView {
            waiting_for_reply: false,
            state: self.state.showing(shown[0], REPLY_TIME).in_mood(mood, clips),
            pending_bubbles: shown.skip(1),
            bubble_timer: 0,
            ..self
        }.noting(received_entry(self.raw_log.len(), raw)).with_turn(
            llm::assistant_message(llm::reply_text(parsed)),
        ).with_bubble(DisplayView::Text { role: "assistant"@, text: shown[0] });
        match parsed.sticker {
            Some(name) => if stickers.contains_key(name) {
                told.with_bubble(DisplayView::Sticker { role: "assistant"@, name })
            } else {
                told
            },
            None => told,
        }
    }

    /// After no answer came.
    pub open spec fn failed<T>(
        self,
        err: Seq<char>,
        clips: Map<Seq<char>, AnimationClip<T>>,
    ) -> AppView {
        AppView {
            waiting_for_reply: false,
            state: self.state.showing(error_text(err), ERROR_TIME).in_mood(Mood::Neutral, clips),
            ..self
        }.noting(error_entry(self.raw_log.len(), err))
    }

    /// After it was looked for an answer.
    pub open spec fn polled<T, S>(
        self,
        result: Option<Result<String, String>>,
        clips: Map<Seq<char>, AnimationClip<T>>,
        stickers: Map<Seq<char>, S>,
    ) -> AppView {
        match result {
            None => self,
            Some(Ok(raw)) => {
                let parsed = llm::reply_in(raw@, llm::json_in(raw@));
                let mood = state::mood_named(text::lowercase(text::trimmed(parsed.mood)));
                self.answered(raw@, parsed, mood, clips, stickers)
            },
            Some(Err(err)) => self.failed(err@, clips),
        }
    }

    /// After a list of models was taken over.
    pub open spec fn adopting(self, models: Seq<Seq<char>>) -> AppView {
        AppView {
            available_models: models,
            selected_model: if models.contains(self.selected_model) || models.len() == 0 {
                self.selected_model
            } else {
                models[0]
            },
            ..self
        }
    }

    /// `delta` later, as far as queued bubbles go: the next one is shown once the one before has
    /// been typed.
    pub open spec fn bubbles_later(self, delta: u64) -> AppView {
        let timer = self.bubble_timer.saturating_sub(delta);
        if self.pending_bubbles.len() == 0 {
            self
        } else if timer > 0 {
            AppView { bubble_timer: timer, ..self }
        } else {
            let next = self.pending_bubbles[0];
            AppView {
                bubble_timer: typing_time(next),
                pending_bubbles: self.pending_bubbles.skip(1),
                state: self.state.showing(next, REPLY_TIME),
                ..self
            }.with_bubble(DisplayView::Text { role: "assistant"@, text: next })
        }
    }
}

/// The keys that try things out.
#[derive(Debug, Clone, Copy, PartialEq, Eq, Structural)]
pub enum DebugKey {
    Num1,
    Num2,
    Num3,
    Num4,
    Num5,
    Num6,
    ArrowUp,
    ArrowDown,
    ArrowRight,
    ArrowLeft,
    C,
    T,
    O,
}

/// What one frame asks of the surroundings.
#[derive(Debug)]
pub struct FrameOutcome {
    /// The companion has left.
    pub exit: bool,
    /// The messages to ask the model with.
    pub ask: Option<Vec<ChatMessage>>,
}

impl AppView {
    /// After a key was pressed.
    pub open spec fn pressed<T>(
        self,
        key: DebugKey,
        clips: Map<Seq<char>, AnimationClip<T>>,
    ) -> AppView {
        match key {
            DebugKey::Num1 => AppView {
                state: StateView { activity: Activity::Idle, ..self.state },
                ..self
            },
            DebugKey::Num2 => AppView {
                state: StateView { activity: Activity::PhoneChat, ..self.state },
                ..self
            },
            DebugKey::Num3 => AppView { state: self.state.in_mood(Mood::Worried, clips), ..self },
            DebugKey::Num4 => AppView { state: self.state.in_mood(Mood::Excited, clips), ..self },
            DebugKey::Num5 => AppView {
                state: self.state.in_mood(Mood::Disappointed, clips),
                ..self
            },
            DebugKey::Num6 => AppView { state: self.state.in_mood(Mood::PissedOff, clips), ..self },
            DebugKey::ArrowUp => AppView { state: self.state.closer(5_000_000), ..self },
            DebugKey::ArrowDown => AppView { state: self.state.closer(-5_000_000), ..self },
            DebugKey::ArrowRight => AppView { state: self.state.stressed(5_000_000), ..self },
            DebugKey::ArrowLeft => AppView { state: self.state.stressed(-5_000_000), ..self },
            DebugKey::C => AppView { chat_window_open: !self.chat_window_open, ..self },
            DebugKey::T => AppView { task_manager_open: !self.task_manager_open, ..self },
            DebugKey::O => AppView { raw_history_open: !self.raw_history_open, ..self },
        }
    }

    /// With the clip of the state playing, `delta` later.
    pub open spec fn playing<T>(
        self,
        delta: u64,
        clips: Map<Seq<char>, AnimationClip<T>>,
    ) -> AppView {
        let clip = self.state.animation();
        let player = if clip == self.player.current {
            self.player
        } else {
            animation::player_at_start(clip)
        };
        AppView { player: animation::player_after(player, delta, clips), ..self }
    }

    /// Tells whether the companion speaks up: the silence has lasted long enough, nothing is
    /// awaited, and it is not leaving.
    pub open spec fn speaks_up(self) -> bool {
        &&& self.state.wants_to_speak()
        &&& !self.waiting_for_reply
        &&& self.state.activity != Activity::Closing
    }

    /// After it was looked whether the silence has lasted long enough.
    pub open spec fn silence_polled(self, nanos: u32) -> AppView {
        AppView { state: self.state.polled(nanos), ..self }
    }

    /// After the companion spoke up, where it does.
    pub open spec fn initiated(self, nanos: u32) -> AppView {
        if self.speaks_up() {
            self.silence_polled(nanos).nudging(self.state.idle_time).asking(None)
        } else {
            self.silence_polled(nanos)
        }
    }

    /// As it is, but doing what the companion did in `before`, with as much of the clip left.
    pub open spec fn going_on(self, before: StateView) -> AppView {
        AppView {
            state: StateView {
                activity: before.activity,
                one_shot_timer: before.one_shot_timer,
                ..self.state
            },
            ..self
        }
    }

    /// In the middle of a frame: time has passed, and what came of a request was taken in. A
    /// companion that is leaving takes it in too, and goes on leaving.
    pub open spec fn caught_up<T, S>(
        self,
        delta: u64,
        result: Option<Result<String, String>>,
        clips: Map<Seq<char>, AnimationClip<T>>,
        stickers: Map<Seq<char>, S>,
        hour: u32,
        sleep_nanos: u32,
    ) -> AppView {
        let moved = AppView { state: self.state.later(delta, clips, hour, sleep_nanos), ..self };
        let told = moved.polled(result, clips, stickers);
        if self.state.activity == Activity::Closing {
            told.going_on(moved.state).bubbles_later(delta)
        } else {
            told.bubbles_later(delta)
        }
    }

    /// After a frame. Once the leaving clip has ended nothing more happens.
    pub open spec fn frame_later<T, S>(
        self,
        delta: u64,
        result: Option<Result<String, String>>,
        clips: Map<Seq<char>, AnimationClip<T>>,
        stickers: Map<Seq<char>, S>,
        hour: u32,
        sleep_nanos: u32,
        silence_nanos: u32,
    ) -> AppView {
        if self.state.exits_within(delta) {
            AppView { state: self.state.later(delta, clips, hour, sleep_nanos), ..self }
        } else {
            self.caught_up(delta, result, clips, stickers, hour, sleep_nanos).initiated(
                silence_nanos,
            ).playing(delta, clips)
        }
    }

    /// The messages that the model is asked with in a frame.
    pub open spec fn frame_request<T, S>(
        self,
        delta: u64,
        result: Option<Result<String, String>>,
        clips: Map<Seq<char>, AnimationClip<T>>,
        stickers: Map<Seq<char>, S>,
        hour: u32,
        sleep_nanos: u32,
    ) -> Option<Seq<MessageView>> {
        let now = self.caught_up(delta, result, clips, stickers, hour, sleep_nanos);
        if self.state.exits_within(delta) || !now.speaks_up() {
            None
        } else {
            Some(now.nudging(now.state.idle_time).request(None))
        }
    }
}

/// The views of messages, where there are any.
pub open spec fn opt_messages(ms: Option<Vec<ChatMessage>>) -> Option<Seq<MessageView>> {
    match ms {
        Some(ms) => Some(llm::messages(ms@)),
        None => None,
    }
}

/// The models that were listed, or `fallback` alone where listing failed.
pub open spec fn models_or(listed: Option<Vec<String>>, fallback: Seq<char>) -> Seq<Seq<char>> {
    match listed {
        Some(models) => text::texts(models@),
        None => seq![fallback],
    }
}

/// The application at the start.
pub open spec fn first_app(
    models: Seq<Seq<char>>,
    examples: Seq<MessageView>,
    debug: bool,
    sleep_nanos: u32,
    silence_nanos: u32,
) -> AppView {
    let state = state::first_state(debug, sleep_nanos, silence_nanos);
    AppView {
        state,
        player: animation::player_at_start(state.animation()),
        available_models: models,
        selected_model: models[0],
        proxy: Seq::empty(),
        proxy_input: Seq::empty(),
        settings_open: false,
        conversation: seq![llm::system_message(SYSTEM_PROMPT@)],
        examples,
        display_log: Seq::empty(),
        input: Seq::empty(),
        waiting_for_reply: false,
        chat_window_open: true,
        task_manager_open: true,
        sticker_picker_open: false,
        raw_history_open: false,
        raw_log: Seq::empty(),
        logged_message_count: 0,
        pending_bubbles: Seq::empty(),
        bubble_timer: 0,
    }
}

fn models_from(listed: Option<Vec<String>>, fallback: &str) -> (res: Vec<String>)
    ensures
        text::texts(res@) == models_or(listed, fallback@),
{
    match listed {
        Some(models) => models,
        None => {
            let mut models: Vec<String> = Vec::new();
            models.push(fallback.to_string());
            assert(text::texts(models@) =~= seq![fallback@]);
            models
        },
    }
}

impl PetApp {
    /// The application at the start, with the models that were listed, the nanoseconds of the
    /// clock deciding when the first sleep and the first word come.
    pub fn starting(
        listed: Option<Vec<String>>,
        examples: Vec<ChatMessage>,
        debug: bool,
        sleep_nanos: u32,
        silence_nanos: u32,
    ) -> (res: PetApp)
        requires
            listed matches Some(models) ==> models@.len() > 0,
        ensures
            res@ == first_app(
                models_or(listed, FALLBACK_MODEL@),
                llm::messages(examples@),
                debug,
                sleep_nanos,
                silence_nanos,
            ),
    {
        let available_models = models_from(listed, FALLBACK_MODEL);
        let ghost models = text::texts(available_models@);
        assert(models.len() == available_models@.len());
        assert(models.len() > 0 && models[0] == available_models@[0]@);
        let selected_model = available_models[0].clone();
        let state = PetState::starting(debug, sleep_nanos, silence_nanos);
        let player = AnimationPlayer::new(state.current_animation());
        let mut conversation: Vec<ChatMessage> = Vec::new();
        conversation.push(ChatMessage::system(SYSTEM_PROMPT));
        let res = PetApp {
            state,
            player,
            available_models,
            selected_model,
            proxy: String::new(),
            proxy_input: String::new(),
            settings_open: false,
            conversation,
            examples,
            display_log: Vec::new(),
            input: String::new(),
            waiting_for_reply: false,
            chat_window_open: true,
            task_manager_open: true,
            sticker_picker_open: false,
            raw_history_open: false,
            raw_log: Vec::new(),
            logged_message_count: 0,
            pending_bubbles: VecDeque::new(),
            bubble_timer: 0,
        };
        assert(res@ =~= first_app(
            models,
            llm::messages(examples@),
            debug,
            sleep_nanos,
            silence_nanos,
        ));
        res
    }

    /// The application at the start, with the models that were listed.
    pub fn new(
        listed: Option<Vec<String>>,
        examples: Vec<ChatMessage>,
        debug: bool,
    ) -> (res: PetApp)
        requires
            listed matches Some(models) ==> models@.len() > 0,
        ensures
            exists|a: u32, b: u32|
                a < 1_000_000_000 && b < 1_000_000_000 && res@ == #[trigger] first_app(
                    models_or(listed, FALLBACK_MODEL@),
                    llm::messages(examples@),
                    debug,
                    a,
                    b,
                ),
    {
        PetApp::starting(listed, examples, debug, clock::clock_nanos(), clock::clock_nanos())
    }

    /// Takes the typed proxy into use. Returns the base URL at which to list the models.
    pub fn apply_proxy(&mut self) -> (base_url: String)
        ensures
            final(self)@ == (AppView {
                proxy: text::trimmed(old(self)@.proxy_input),
                ..old(self)@
            }),
            base_url@ == llm::base_url_of(old(self)@.proxy_input),
    {
        self.proxy = text::trim(self.proxy_input.as_str());
        proof {
            llm::law_base_url_takes_a_path(self.proxy_input@);
        }
        llm::effective_base_url(self.proxy.as_str())
    }

    /// Takes over the models that were listed at the proxy, or keeps to the selected one where
    /// listing failed. A selected model that is not among them gives way to the first of them.
    /// Returns the client to ask from now on.
    pub fn adopt_models(&mut self, listed: Option<Vec<String>>) -> (client: OllamaClient)
        ensures
            final(self)@ == old(self)@.adopting(models_or(listed, old(self)@.selected_model)),
            client.model@ == final(self)@.selected_model,
            client.base_url@ == llm::base_url_of(old(self)@.proxy),
    {
        self.available_models = models_from(listed, self.selected_model.as_str());
        if !text::has(&self.available_models, self.selected_model.as_str()) {
            if self.available_models.len() > 0 {
                assert(text::texts(self.available_models@)[0] == self.available_models@[0]@);
                self.selected_model = self.available_models[0].clone();
            }
        }
        self.client()
    }

    /// The client of the selected model at the proxy.
    pub fn client(&self) -> (client: OllamaClient)
        ensures
            client.model@ == self@.selected_model,
            client.base_url@ == llm::base_url_of(self@.proxy),
    {
        let base_url = llm::effective_base_url(self.proxy.as_str());
        OllamaClient::new(self.selected_model.as_str(), base_url.as_str())
    }

    /// Turns to another model. Returns the client to ask from now on.
    pub fn change_model(&mut self, model: &str) -> (client: OllamaClient)
        ensures
            final(self)@ == (AppView { selected_model: model@, ..old(self)@ }),
            client.model@ == model@,
            client.base_url@ == llm::base_url_of(old(self)@.proxy),
    {
        self.selected_model = model.to_string();
        self.client()
    }

    fn push_turn(&mut self, m: ChatMessage)
        ensures
            final(self)@ == old(self)@.with_turn(m@),
    {
        self.conversation.push(m);
        assert(self@ =~= old(self)@.with_turn(m@));
    }

    fn push_bubble(&mut self, m: DisplayMessage)
        ensures
            final(self)@ == old(self)@.with_bubble(m@),
    {
        self.display_log.push(m);
        assert(self@ =~= old(self)@.with_bubble(m@));
    }

    /// Keeps the log from growing beyond its limit: the oldest entries go.
    fn trim_raw_log(&mut self)
        ensures
            final(self)@ == (AppView { raw_log: capped(old(self)@.raw_log), ..old(self)@ }),
    {
        let ghost all = self@.raw_log;
        let ghost mut gone: int = 0;
        assert(all.skip(0) =~= all);
        while self.raw_log.len() > MAX_RAW_LOG_ENTRIES
            invariant
                0 <= gone <= all.len(),
                gone > 0 ==> all.len() - gone >= MAX_RAW_LOG_ENTRIES,
                self@ == (AppView { raw_log: all.skip(gone), ..old(self)@ }),
            decreases self.raw_log@.len(),
        {
            let ghost before = self.raw_log@;
            let _ = self.raw_log.remove(0);
            proof {
                assert(text::texts(self.raw_log@) =~= text::texts(before).skip(1));
                assert(all.skip(gone).skip(1) =~= all.skip(gone + 1));
                gone = gone + 1;
            }
        }
        assert(self@.raw_log =~= capped(all));
    }

    fn note(&mut self, entry: String)
        ensures
            final(self)@ == old(self)@.noting(entry@),
    {
        self.raw_log.push(entry);
        assert(text::texts(self.raw_log@) =~= old(self)@.raw_log.push(entry@));
        self.trim_raw_log();
    }

    /// Logs the messages that are sent, leaving out those that have been logged before. The first
    /// `kept` of them are sent again next time; a note behind them is for this time only.
    pub fn log_sent(&mut self, ms: &Vec<ChatMessage>, kept: usize)
        ensures
            final(self)@ == old(self)@.logging(llm::messages(ms@), kept as nat),
    {
        let n: usize = self.raw_log.len();
        let total: usize = ms.len();
        let start: usize = if self.logged_message_count < total {
            self.logged_message_count
        } else {
            total
        };
        let mut entry = ">>> [".to_string();
        entry.append(text::decimal_of(n as u64).as_str());
        if start == 0 {
            entry.append("] SENT — full context (");
            entry.append(text::decimal_of(total as u64).as_str());
            entry.append(" messages)");
        } else {
            entry.append("] SENT — ");
            entry.append(text::decimal_of((total - start) as u64).as_str());
            entry.append(" new message(s) appended (total ");
            entry.append(text::decimal_of(total as u64).as_str());
            entry.append(", ");
            entry.append(text::decimal_of(start as u64).as_str());
            entry.append(" unchanged since last send)");
        }
        entry.append("\n");
        entry.append(llm::write_messages(ms, start).as_str());
        self.note(entry);
        self.logged_message_count = kept;
    }

    /// Logs an answer as it came.
    pub fn log_received(&mut self, raw: &str)
        ensures
            final(self)@ == old(self)@.noting(received_entry(old(self)@.raw_log.len(), raw@)),
    {
        let mut entry = "<<< [".to_string();
        entry.append(text::decimal_of(self.raw_log.len() as u64).as_str());
        entry.append("] RECEIVED (raw)\n");
        entry.append(raw);
        self.note(entry);
    }

    /// Logs an error.
    pub fn log_error(&mut self, err: &str)
        ensures
            final(self)@ == old(self)@.noting(error_entry(old(self)@.raw_log.len(), err@)),
    {
        let mut entry = "<<< [".to_string();
        entry.append(text::decimal_of(self.raw_log.len() as u64).as_str());
        entry.append("] ERROR\n");
        entry.append(err);
        self.note(entry);
    }

    /// Empties the log. What is sent next is logged in full.
    pub fn clear_raw_log(&mut self)
        ensures
            final(self)@ == (AppView {
                raw_log: Seq::empty(),
                logged_message_count: 0,
                ..old(self)@
            }),
    {
        self.raw_log = Vec::new();
        self.logged_message_count = 0;
        assert(self@.raw_log =~= Seq::empty());
    }

    fn ask(&mut self, note: Option<ChatMessage>) -> (ms: Vec<ChatMessage>)
        requires
            old(self)@.conversation.len() > 0,
        ensures
            final(self)@ == old(self)@.asking(llm::opt_message(note)),
            llm::messages(ms@) == old(self)@.request(llm::opt_message(note)),
    {
        let mut ms: Vec<ChatMessage> = Vec::new();
        ms.push(self.conversation[0].clone());
        ms.extend_from_slice(self.examples.as_slice());
        let rest = self.conversation.as_slice();
        ms.extend_from_slice(vstd::slice::slice_subrange(rest, 1, rest.len()));
        let kept: usize = ms.len();
        assert(llm::messages(ms@) =~= outgoing(self@.conversation, self@.examples));
        match note {
            Some(note) => {
                ms.push(note);
                assert(llm::messages(ms@) =~= outgoing(self@.conversation, self@.examples).push(
                    note@,
                ));
            },
            None => {},
        }
        self.log_sent(&ms, kept);
        self.waiting_for_reply = true;
        self.state.set_activity(Activity::PhoneChat);
        ms
    }

    /// Sends what the user typed, with a note on the time. Returns the messages to ask the model
    /// with, or nothing if there is no text or an answer is still awaited.
    pub fn send_message_at(&mut self, moment: &LocalMoment, nanos: u32) -> (res: Option<
        Vec<ChatMessage>,
    >)
        ensures
            ({
                let said = old(self)@.saying(text::trimmed(old(self)@.input), nanos);
                let note = Some(
                    llm::system_message(time_note(moment.hour, moment.clock@, moment.weekday@)),
                );
                match res {
                    Some(ms) => old(self)@.can_send() && final(self)@ == said.asking(note)
                        && llm::messages(ms@) == said.request(note),
                    None => !old(self)@.can_send() && final(self)@ == old(self)@,
                }
            }),
            res matches Some(ms) ==> {
                let turn = llm::user_message(text::trimmed(old(self)@.input));
                let note = llm::system_message(
                    time_note(moment.hour, moment.clock@, moment.weekday@),
                );
                &&& final(self)@.conversation == old(self)@.conversation.push(turn)
                &&& old(self)@.conversation.len() > 0 ==> llm::messages(ms@) == seq![
                    old(self)@.conversation[0],
                ] + old(self)@.examples + old(self)@.conversation.skip(1) + seq![turn, note]
            },
    {
        proof {
            conversation_laws::law_message_is_one_more_turn(
                old(self)@,
                text::trimmed(old(self)@.input),
                nanos,
                llm::system_message(time_note(moment.hour, moment.clock@, moment.weekday@)),
            );
        }
        let text = text::trim(self.input.as_str());
        if text.as_str().is_empty() || self.waiting_for_reply {
            return None;
        }
        self.input = String::new();
        self.push_turn(ChatMessage::user(text.as_str()));
        self.push_bubble(DisplayMessage::user_text(text.as_str()));
        self.state.record_chat_interaction_at(nanos);
        assert(self@ =~= old(self)@.saying(text@, nanos));
        let note = ChatMessage::system(time_context(moment).as_str());
        Some(self.ask(Some(note)))
    }

    /// Sends what the user typed, now.
    pub fn send_message(&mut self) -> (res: Option<Vec<ChatMessage>>)
        ensures
            res is Some <==> old(self)@.can_send(),
            res is None ==> final(self)@ == old(self)@,
            res matches Some(ms) ==> exists|m: LocalMoment, nanos: u32|
                {
                    let said = #[trigger] old(self)@.saying(
                        text::trimmed(old(self)@.input),
                        nanos,
                    );
                    let note = Some(
                        llm::system_message(
                            #[trigger] time_note(m.hour, m.clock@, m.weekday@),
                        ),
                    );
                    &&& clock::is_moment(m)
                    &&& nanos < 1_000_000_000
                    &&& final(self)@ == said.asking(note)
                    &&& llm::messages(ms@) == said.request(note)
                },
    {
        let moment = clock::local_now();
        let nanos: u32 = clock::clock_nanos();
        self.send_message_at(&moment, nanos)
    }

    /// Sends a sticker that the user picked. Returns the messages to ask the model with, or
    /// nothing if an answer is still awaited.
    pub fn send_sticker_at(&mut self, name: &str, nanos: u32) -> (res: Option<Vec<ChatMessage>>)
        ensures
            match res {
                Some(ms) => !old(self)@.waiting_for_reply && final(self)@ == old(self)@.sending(
                    name@,
                    nanos,
                ).asking(None) && llm::messages(ms@) == old(self)@.sending(name@, nanos).request(
                    None,
                ),
                None => old(self)@.waiting_for_reply && final(self)@ == old(self)@,
            },
            res matches Some(ms) ==> {
                let turn = llm::user_message("[pchan sent a sticker: "@ + name@ + "]"@);
                &&& final(self)@.conversation == old(self)@.conversation.push(turn)
                &&& old(self)@.conversation.len() > 0 ==> llm::messages(ms@) == seq![
                    old(self)@.conversation[0],
                ] + old(self)@.examples + old(self)@.conversation.skip(1) + seq![turn]
            },
    {
        proof {
            conversation_laws::law_sticker_is_one_more_turn(old(self)@, name@, nanos);
        }
        if self.waiting_for_reply {
            return None;
        }
        let note = "[pchan sent a sticker: ".to_string().concat(name).concat("]");
        self.push_turn(ChatMessage::user(note.as_str()));
        self.push_bubble(DisplayMessage::user_sticker(name));
        self.state.record_chat_interaction_at(nanos);
        assert(self@ =~= old(self)@.sending(name@, nanos));
        Some(self.ask(None))
    }

    /// Sends a sticker that the user picked, now.
    pub fn send_sticker(&mut self, name: &str) -> (res: Option<Vec<ChatMessage>>)
        ensures
            res is Some <==> !old(self)@.waiting_for_reply,
            res is None ==> final(self)@ == old(self)@,
            res matches Some(ms) ==> exists|nanos: u32|
                {
                    let sent = #[trigger] old(self)@.sending(name@, nanos);
                    &&& nanos < 1_000_000_000
                    &&& final(self)@ == sent.asking(None)
                    &&& llm::messages(ms@) == sent.request(None)
                },
    {
        let nanos: u32 = clock::clock_nanos();
        self.send_sticker_at(name, nanos)
    }

    /// Sends a sticker that the user picked, and closes the picker.
    pub fn pick_sticker_at(&mut self, name: &str, nanos: u32) -> (res: Option<Vec<ChatMessage>>)
        ensures
            ({
                let closed = old(self)@.without_picker();
                match res {
                    Some(ms) => !closed.waiting_for_reply && final(self)@ == closed.sending(
                        name@,
                        nanos,
                    ).asking(None) && llm::messages(ms@) == closed.sending(name@, nanos).request(
                        None,
                    ),
                    None => closed.waiting_for_reply && final(self)@ == closed,
                }
            }),
    {
        self.sticker_picker_open = false;
        self.send_sticker_at(name, nanos)
    }

    /// Sends a sticker that the user picked, now, and closes the picker.
    pub fn pick_sticker(&mut self, name: &str) -> (res: Option<Vec<ChatMessage>>)
        ensures
            res is Some <==> !old(self)@.waiting_for_reply,
            res is None ==> final(self)@ == old(self)@.without_picker(),
            res matches Some(ms) ==> exists|nanos: u32|
                {
                    let sent = #[trigger] old(self)@.without_picker().sending(name@, nanos);
                    &&& nanos < 1_000_000_000
                    &&& final(self)@ == sent.asking(None)
                    &&& llm::messages(ms@) == sent.request(None)
                },
    {
        let nanos: u32 = clock::clock_nanos();
        self.pick_sticker_at(name, nanos)
    }

    /// Turns to the model that the user chose. Returns the client to ask from now on, or nothing
    /// if it is the one that is selected.
    pub fn choose_model(&mut self, model: &str) -> (res: Option<OllamaClient>)
        ensures
            final(self)@ == (AppView { selected_model: model@, ..old(self)@ }),
            match res {
                Some(client) => model@ != old(self)@.selected_model && client.model@ == model@
                    && client.base_url@ == llm::base_url_of(old(self)@.proxy),
                None => model@ == old(self)@.selected_model,
            },
    {
        if text::same(model, self.selected_model.as_str()) {
            None
        } else {
            Some(self.change_model(model))
        }
    }

    /// Lets the companion speak up after a silence of `idle` nanoseconds. Returns the messages to
    /// ask the model with, or nothing if an answer is still awaited.
    pub fn initiate_chat(&mut self, idle: u64) -> (res: Option<Vec<ChatMessage>>)
        ensures
            match res {
                Some(ms) => !old(self)@.waiting_for_reply && final(self)@ == old(self)@.nudging(
                    idle,
                ).asking(None) && llm::messages(ms@) == old(self)@.nudging(idle).request(None),
                None => old(self)@.waiting_for_reply && final(self)@ == old(self)@,
            },
    {
        if self.waiting_for_reply {
            return None;
        }
        self.push_turn(ChatMessage::system(write_nudge(idle).as_str()));
        Some(self.ask(None))
    }

    /// Takes in an answer, given what was made of it.
    pub fn take_answer<T, S>(
        &mut self,
        raw: &str,
        parsed: LlmReply,
        mood: Mood,
        animations: &Catalog<AnimationClip<T>>,
        stickers: &Catalog<S>,
    )
        ensures
            final(self)@ == old(self)@.answered(raw@, parsed@, mood, animations@, stickers@),
    {
        let ghost answer = parsed@;
        self.waiting_for_reply = false;
        self.log_received(raw);
        self.push_turn(ChatMessage::assistant(parsed.to_json().as_str()));
        let sticker = parsed.sticker;
        let mut bubbles = parsed.reply.into_bubbles();
        if bubbles.len() == 0 {
            bubbles.push(raw.to_string());
        }
        let ghost shown = AppView::bubbles_of(raw@, answer);
        assert(text::texts(bubbles@) =~= shown);
        let ghost all = bubbles@;
        let first = bubbles.remove(0);
        assert(first@ == shown[0]);
        assert(text::texts(bubbles@) =~= shown.skip(1));
        self.push_bubble(DisplayMessage::assistant_text(first.as_str()));
        self.state.show_reply(first.as_str(), REPLY_TIME);
        self.state.set_mood(mood, animations);
        match sticker {
            Some(name) => if stickers.contains(name.as_str()) {
                self.push_bubble(DisplayMessage::assistant_sticker(name.as_str()));
            },
            None => {},
        }
        self.pending_bubbles = queue_of(bubbles);
        self.bubble_timer = 0;
        assert(self@ =~= old(self)@.answered(raw@, answer, mood, animations@, stickers@));
    }

    /// Takes in what came of a request, if anything did.
    pub fn poll_llm<T, S>(
        &mut self,
        result: Option<Result<String, String>>,
        animations: &Catalog<AnimationClip<T>>,
        stickers: &Catalog<S>,
    )
        ensures
            final(self)@ == old(self)@.polled(result, animations@, stickers@),
    {
        match result {
            None => {},
            Some(Ok(raw)) => {
                let parsed = llm::parse_llm_reply(raw.as_str());
                let mood = Mood::from_llm(parsed.mood.as_str());
                self.take_answer(raw.as_str(), parsed, mood, animations, stickers);
            },
            Some(Err(err)) => {
                self.waiting_for_reply = false;
                self.log_error(err.as_str());
                let shown = "...hmm, something's wrong (".to_string().concat(err.as_str()).concat(
                    ")",
                );
                self.state.show_reply(shown.as_str(), ERROR_TIME);
                self.state.set_mood(Mood::Neutral, animations);
                assert(self@ =~= old(self)@.failed(err@, animations@));
            },
        }
    }

    /// Shows the next queued bubble once its time has come.
    pub fn advance_pending_bubbles(&mut self, delta: u64)
        ensures
            final(self)@ == old(self)@.bubbles_later(delta),
    {
        if self.pending_bubbles.len() == 0 {
            return;
        }
        self.bubble_timer = self.bubble_timer.saturating_sub(delta);
        if self.bubble_timer > 0 {
            return;
        }
        let ghost pending = self.pending_bubbles@;
        if let Some(next) = self.pending_bubbles.pop_front() {
            assert(next@ == text::texts(pending)[0]);
            assert(text::texts(self.pending_bubbles@) =~= text::texts(pending).skip(1));
            self.bubble_timer = typing_delay(next.as_str());
            self.push_bubble(DisplayMessage::assistant_text(next.as_str()));
            self.state.show_reply(next.as_str(), REPLY_TIME);
        }
        assert(self@ =~= old(self)@.bubbles_later(delta));
    }
}

impl PetApp {
    /// The log as one text.
    pub fn raw_log_text(&self) -> (res: String)
        ensures
            res@ == text::joined(self@.raw_log, "\n\n"@),
    {
        text::join(&self.raw_log, "\n\n")
    }

    /// Opens the settings on the proxy that is in use.
    pub fn open_settings(&mut self)
        ensures
            final(self)@ == (AppView {
                proxy_input: old(self)@.proxy,
                settings_open: true,
                ..old(self)@
            }),
    {
        self.proxy_input = self.proxy.clone();
        self.settings_open = true;
    }

    /// Acts on a key.
    pub fn on_key<T>(&mut self, key: DebugKey, animations: &Catalog<AnimationClip<T>>)
        ensures
            final(self)@ == old(self)@.pressed(key, animations@),
    {
        match key {
            DebugKey::Num1 => self.state.set_activity(Activity::Idle),
            DebugKey::Num2 => self.state.set_activity(Activity::PhoneChat),
            DebugKey::Num3 => self.state.set_mood(Mood::Worried, animations),
            DebugKey::Num4 => self.state.set_mood(Mood::Excited, animations),
            DebugKey::Num5 => self.state.set_mood(Mood::Disappointed, animations),
            DebugKey::Num6 => self.state.set_mood(Mood::PissedOff, animations),
            DebugKey::ArrowUp => self.state.add_closeness(5_000_000),
            DebugKey::ArrowDown => self.state.add_closeness(-5_000_000),
            DebugKey::ArrowRight => self.state.add_stress(5_000_000),
            DebugKey::ArrowLeft => self.state.add_stress(-5_000_000),
            DebugKey::C => {
                self.chat_window_open = !self.chat_window_open;
            },
            DebugKey::T => {
                self.task_manager_open = !self.task_manager_open;
            },
            DebugKey::O => {
                self.raw_history_open = !self.raw_history_open;
            },
        }
    }

    /// The window was asked to close. Tells whether that has to wait until the leaving clip has
    /// been played.
    pub fn request_close<T>(&mut self, animations: &Catalog<AnimationClip<T>>) -> (cancel: bool)
        ensures
            final(self)@ == (AppView {
                state: old(self)@.state.closing(animations@),
                ..old(self)@
            }),
            cancel == (old(self)@.state.activity != Activity::Closing),
    {
        let cancel = !(self.state.activity == Activity::Closing);
        self.state.start_closing(animations);
        cancel
    }

    fn catch_up<T, S>(
        &mut self,
        delta: u64,
        result: Option<Result<String, String>>,
        animations: &Catalog<AnimationClip<T>>,
        stickers: &Catalog<S>,
        hour: u32,
        sleep_nanos: u32,
    ) -> (exit: bool)
        ensures
            exit == old(self)@.state.exits_within(delta),
            final(self)@ == (if exit {
                AppView {
                    state: old(self)@.state.later(delta, animations@, hour, sleep_nanos),
                    ..old(self)@
                }
            } else {
                old(self)@.caught_up(delta, result, animations@, stickers@, hour, sleep_nanos)
            }),
    {
        let leaving: bool = self.state.activity == Activity::Closing;
        if self.state.update_at(delta, animations, hour, sleep_nanos) {
            return true;
        }
        let activity = self.state.activity;
        let timer: u64 = self.state.one_shot_timer;
        self.poll_llm(result, animations, stickers);
        if leaving {
            self.state.activity = activity;
            self.state.one_shot_timer = timer;
        }
        self.advance_pending_bubbles(delta);
        false
    }

    fn speak_up(&mut self, nanos: u32) -> (ask: Option<Vec<ChatMessage>>)
        ensures
            final(self)@ == old(self)@.initiated(nanos),
            opt_messages(ask) == (if old(self)@.speaks_up() {
                Some(old(self)@.nudging(old(self)@.state.idle_time).request(None))
            } else {
                None
            }),
    {
        match self.state.poll_initiate_at(nanos) {
            Some(idle) => if self.state.activity == Activity::Closing {
                None
            } else {
                self.initiate_chat(idle)
            },
            None => None,
        }
    }

    fn play_on<T>(&mut self, delta: u64, animations: &Catalog<AnimationClip<T>>)
        ensures
            final(self)@ == old(self)@.playing(delta, animations@),
    {
        self.player.play(self.state.current_animation());
        self.player.update(delta, animations);
    }

    /// Lets a frame pass, given what came of a request, the hour, and the nanoseconds of the
    /// clock by which the next sleep and the next word are set.
    pub fn update_at<T, S>(
        &mut self,
        delta: u64,
        result: Option<Result<String, String>>,
        animations: &Catalog<AnimationClip<T>>,
        stickers: &Catalog<S>,
        hour: u32,
        sleep_nanos: u32,
        silence_nanos: u32,
    ) -> (res: FrameOutcome)
        ensures
            final(self)@ == old(self)@.frame_later(
                delta,
                result,
                animations@,
                stickers@,
                hour,
                sleep_nanos,
                silence_nanos,
            ),
            res.exit == old(self)@.state.exits_within(delta),
            opt_messages(res.ask) == old(self)@.frame_request(
                delta,
                result,
                animations@,
                stickers@,
                hour,
                sleep_nanos,
            ),
    {
        if self.catch_up(delta, result, animations, stickers, hour, sleep_nanos) {
            return FrameOutcome { exit: true, ask: None };
        }
        let ask = self.speak_up(silence_nanos);
        self.play_on(delta, animations);
        FrameOutcome { exit: false, ask }
    }

    /// Lets a frame pass, given what came of a request.
    pub fn update<T, S>(
        &mut self,
        delta: u64,
        result: Option<Result<String, String>>,
        animations: &Catalog<AnimationClip<T>>,
        stickers: &Catalog<S>,
    ) -> (res: FrameOutcome)
        ensures
            res.exit == old(self)@.state.exits_within(delta),
            exists|hour: u32, a: u32, b: u32|
                hour < 24 && a < 1_000_000_000 && b < 1_000_000_000 && final(self)@
                    == #[trigger] old(self)@.frame_later(
                    delta,
                    result,
                    animations@,
                    stickers@,
                    hour,
                    a,
                    b,
                ) && opt_messages(res.ask) == old(self)@.frame_request(
                    delta,
                    result,
                    animations@,
                    stickers@,
                    hour,
                    a,
                ),
    {
        let hour: u32 = clock::local_now().hour;
        let sleep_nanos: u32 = clock::clock_nanos();
        let silence_nanos: u32 = clock::clock_nanos();
        self.update_at(delta, result, animations, stickers, hour, sleep_nanos, silence_nanos)
    }
}

fn queue_of(items: Vec<String>) -> (queue: VecDeque<String>)
    ensures
        text::texts(queue@) == text::texts(items@),
{
    let mut queue: VecDeque<String> = VecDeque::new();
    let mut i: usize = 0;
    while i < items.len()
        invariant
            i <= items@.len(),
            queue@ == items@.take(i as int),
        decreases items@.len() - i,
    {
        queue.push_back(items[i].clone());
        assert(queue@ =~= items@.take(i + 1));
        i += 1;
    }
    assert(items@.take(i as int) =~= items@);
    queue
}

} // verus!
