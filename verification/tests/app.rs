use petto::animation::{AnimationClip, AnimationConfig, FPS, SECOND};
use petto::app::{
    ame_stickers, offered_stickers, pchan_stickers, typing_delay, BubbleKind, DebugKey,
    DisplayContent, DisplayMessage, PetApp, MAX_RAW_LOG_ENTRIES, SYSTEM_PROMPT,
};
use petto::catalog::Catalog;
use petto::clock::LocalMoment;
use petto::llm::{ChatMessage, LlmReply, ReplyContent};
use petto::state::{Activity, IdleMood, Mood, POINT};

fn strings(items: &[&str]) -> Vec<String> {
    items.iter().map(|s| s.to_string()).collect()
}

fn no_clips() -> Catalog<AnimationClip<u8>> {
    Catalog::new()
}

fn pictures(names: &[&str]) -> Catalog<u8> {
    let mut found = Catalog::new();
    for name in names {
        found.insert(name.to_string(), 0);
    }
    found
}

fn examples() -> Vec<ChatMessage> {
    vec![ChatMessage::user("example"), ChatMessage::assistant("{}")]
}

fn app() -> PetApp {
    PetApp::starting(Some(strings(&["m1", "m2"])), examples(), false, 0, 0)
}

fn moment() -> LocalMoment {
    LocalMoment {
        hour: 9,
        minute: 5,
        clock: "09:05 AM".to_string(),
        weekday: "Monday".to_string(),
    }
}

fn shown(m: &DisplayMessage) -> (&str, &str) {
    match &m.content {
        DisplayContent::Text(text) => (m.role, text),
        DisplayContent::Sticker(name) => (m.role, name),
    }
}

#[test]
fn application_starts_with_the_prompt() {
    let a = app();
    assert_eq!(a.available_models, strings(&["m1", "m2"]));
    assert_eq!(a.selected_model, "m1");
    assert_eq!((a.proxy.as_str(), a.proxy_input.as_str(), a.input.as_str()), ("", "", ""));
    assert_eq!(a.conversation.len(), 1);
    assert_eq!(a.conversation[0].role, "system");
    assert_eq!(a.conversation[0].content, SYSTEM_PROMPT);
    assert!(a.display_log.is_empty() && a.raw_log.is_empty() && a.pending_bubbles.is_empty());
    assert!(a.chat_window_open && a.task_manager_open);
    assert!(!a.settings_open && !a.sticker_picker_open && !a.raw_history_open);
    assert!(!a.waiting_for_reply);
    assert_eq!((a.player.current(), a.player.frame()), ("idle_normal.normal_b", 0));
    assert_eq!(a.state.next_initiate_at, 120 * SECOND);
}

#[test]
fn without_a_list_there_is_a_fallback_model() {
    let a = PetApp::new(None, Vec::new(), true);
    assert_eq!(a.available_models, strings(&["llama3.2"]));
    assert_eq!(a.selected_model, "llama3.2");
    assert!(a.state.debug);
}

#[test]
fn prompt_asks_for_the_envelope() {
    assert!(SYSTEM_PROMPT.starts_with(
        "You are Ame, a small desktop companion living on someone's screen. Reply in 1-2 short,"
    ));
    assert!(SYSTEM_PROMPT.ends_with(
        "{\"reply\": \"<your 1-2 sentence reply>\" or [\"<msg1>\", \"<msg2>\", ...], \"mood\": \
         \"<one of: worried, excited, disappointed, pissed_off, neutral>\", \"sticker\": \"<one \
         of the sticker names above>\" or null}"
    ));
    for name in ame_stickers() {
        assert!(SYSTEM_PROMPT.contains(name));
    }
    assert!(!SYSTEM_PROMPT.contains("  ") && !SYSTEM_PROMPT.contains('\n'));
}

#[test]
fn message_is_sent_with_everything_before_it() {
    let mut a = app();
    a.input = "  hello \n".to_string();
    let ms = a.send_message_at(&moment(), 50_000).unwrap();
    let found: Vec<(&str, &str)> =
        ms.iter().map(|m| (m.role.as_str(), m.content.as_str())).collect();
    assert_eq!(found.len(), 5);
    assert_eq!(found[0], ("system", SYSTEM_PROMPT));
    assert_eq!(found[1], ("user", "example"));
    assert_eq!(found[2], ("assistant", "{}"));
    assert_eq!(found[3], ("user", "hello"));
    assert_eq!(found[4].0, "system");
    assert!(found[4].1.contains("right now is 09:05 AM (morning), on Monday."));
    assert_eq!(a.input, "");
    assert_eq!(a.conversation.len(), 2);
    assert_eq!(a.display_log.len(), 1);
    assert_eq!(shown(&a.display_log[0]), ("user", "hello"));
    assert!(a.waiting_for_reply);
    assert_eq!(a.state.activity, Activity::PhoneChat);
    assert_eq!(a.state.closeness, 50_400_000);
    assert_eq!(a.state.next_initiate_at, 1560 * SECOND);
}

#[test]
fn nothing_is_sent_while_an_answer_is_awaited() {
    let mut a = app();
    a.input = "one".to_string();
    assert!(a.send_message().is_some());
    a.input = "two".to_string();
    assert!(a.send_message().is_none());
    assert_eq!(a.input, "two");
    assert!(a.send_sticker("idc").is_none());
    assert!(a.initiate_chat(5).is_none());
    assert_eq!(a.conversation.len(), 2);
    assert_eq!(a.raw_log.len(), 1);
}

#[test]
fn blank_input_is_not_sent() {
    let mut a = app();
    a.input = "  \n".to_string();
    assert!(a.send_message_at(&moment(), 0).is_none());
    assert_eq!(a.input, "  \n");
    assert_eq!(a.conversation.len(), 1);
    assert!(!a.waiting_for_reply);
}

#[test]
fn sticker_is_told_in_words_and_shown_as_a_picture() {
    let mut a = app();
    a.sticker_picker_open = true;
    let ms = a.pick_sticker("omg").unwrap();
    assert!(!a.sticker_picker_open);
    assert_eq!(ms.len(), 4);
    assert_eq!(ms[3].content, "[pchan sent a sticker: omg]");
    assert_eq!(a.display_log[0].kind(), BubbleKind::UserSticker);
    assert_eq!(shown(&a.display_log[0]), ("user", "omg"));
    let mut b = app();
    assert_eq!(b.send_sticker_at("omg", 0).unwrap().len(), 4);
    assert_eq!(b.state.next_initiate_at, 120 * SECOND);
    assert_eq!(b.pick_sticker_at("sad", 0).map(|m| m.len()), None);
}

#[test]
fn silence_is_told_to_the_nearest_minute() {
    let mut a = app();
    let ms = a.initiate_chat(150 * SECOND).unwrap();
    assert_eq!(ms.len(), 4);
    assert_eq!(ms[3].role, "system");
    assert_eq!(
        ms[3].content,
        "[System note: the user hasn't talked to you in about 2 \
         minute(s). Initiate a short, casual message to them first — \
         check in, share a passing thought, or ask something. Don't \
         mention this note.]"
    );
    assert!(a.display_log.is_empty());
    assert_eq!(a.conversation.len(), 2);
}

#[test]
fn only_new_messages_are_logged() {
    let mut a = app();
    let clips = no_clips();
    let none = pictures(&[]);
    a.input = "one".to_string();
    a.send_message_at(&moment(), 0);
    assert!(a.raw_log[0].starts_with(">>> [0] SENT — full context (5 messages)\n[\n"));
    assert!(a.raw_log[0].contains("\"content\": \"example\""));
    a.poll_llm(Some(Ok("{\"reply\":\"two\"}".to_string())), &clips, &none);
    assert_eq!(a.raw_log[1], "<<< [1] RECEIVED (raw)\n{\"reply\":\"two\"}");
    a.send_sticker_at("idc", 0);
    assert_eq!(
        a.raw_log[2],
        ">>> [2] SENT — 2 new message(s) appended (total 6, 4 unchanged since last send)\n[\n  {\n    \
         \"role\": \"assistant\",\n    \"content\": \
         \"{\\\"reply\\\":\\\"two\\\",\\\"mood\\\":\\\"\\\",\\\"sticker\\\":null}\"\n  },\n  {\n    \
         \"role\": \"user\",\n    \"content\": \"[pchan sent a sticker: idc]\"\n  }\n]"
    );
    a.poll_llm(Some(Err("gone".to_string())), &clips, &none);
    assert_eq!(a.raw_log[3], "<<< [3] ERROR\ngone");
    assert!(a.raw_log_text().ends_with("]\n\n<<< [3] ERROR\ngone"));
    a.clear_raw_log();
    assert_eq!(a.raw_log_text(), "");
    a.send_sticker_at("idc", 0);
    assert!(a.raw_log[0].starts_with(">>> [0] SENT — full context (7 messages)\n"));
}

#[test]
fn log_keeps_the_newest_entries() {
    let mut a = app();
    for i in 0..MAX_RAW_LOG_ENTRIES + 5 {
        a.log_received(&format!("entry {}", i));
    }
    assert_eq!(a.raw_log.len(), 200);
    assert!(a.raw_log[0].ends_with("entry 5"));
    assert_eq!(a.raw_log[199], "<<< [200] RECEIVED (raw)\nentry 204");
    a.log_error("x");
    assert_eq!(a.raw_log[199], "<<< [200] ERROR\nx");
    a.log_sent(&vec![ChatMessage::user("u")], 1);
    assert!(a.raw_log[199].starts_with(">>> [200] SENT — full context (1 messages)\n"));
    assert_eq!(a.raw_log.len(), 200);
}

#[test]
fn answer_is_one_turn_and_many_bubbles() {
    let mut a = app();
    let clips = no_clips();
    a.send_sticker_at("idc", 0);
    let raw = "{\"reply\": [\"one\", \" two \", \"\", \"three\"], \"mood\": \"Worried\", \"sticker\": \"zzz\"}";
    a.poll_llm(Some(Ok(raw.to_string())), &clips, &pictures(&["zzz"]));
    assert!(!a.waiting_for_reply);
    assert_eq!(a.conversation.len(), 3);
    assert_eq!(a.conversation[2].role, "assistant");
    assert_eq!(
        a.conversation[2].content,
        "{\"reply\":[\"one\",\" two \",\"\",\"three\"],\"mood\":\"Worried\",\"sticker\":\"zzz\"}"
    );
    assert_eq!(a.display_log.len(), 3);
    assert_eq!(shown(&a.display_log[1]), ("assistant", "one"));
    assert_eq!(a.display_log[1].kind(), BubbleKind::AssistantText);
    assert_eq!(shown(&a.display_log[2]), ("assistant", "zzz"));
    assert_eq!(a.display_log[2].kind(), BubbleKind::AssistantSticker);
    assert_eq!(a.pending_bubbles.len(), 2);
    assert_eq!(a.state.reply.as_deref(), Some("one"));
    assert_eq!(a.state.reply_timer, 6 * SECOND);
    assert_eq!((a.state.activity, a.state.idle_mood), (Activity::Idle, IdleMood::Anxiety));

    a.advance_pending_bubbles(0);
    assert_eq!(shown(&a.display_log[3]), ("assistant", "two"));
    assert_eq!(a.bubble_timer, 900_000_000);
    a.advance_pending_bubbles(899_999_999);
    assert_eq!(a.display_log.len(), 4);
    a.advance_pending_bubbles(1);
    assert_eq!(shown(&a.display_log[4]), ("assistant", "three"));
    assert_eq!(a.state.reply.as_deref(), Some("three"));
    a.advance_pending_bubbles(10 * SECOND);
    assert_eq!(a.display_log.len(), 5);
    assert_eq!(a.conversation.len(), 3);
}

#[test]
fn unknown_sticker_is_left_out() {
    let mut a = app();
    let raw = "{\"reply\": \"hi\", \"sticker\": \"made_up\"}";
    a.poll_llm(Some(Ok(raw.to_string())), &no_clips(), &pictures(&["zzz"]));
    assert_eq!(a.display_log.len(), 1);
}

#[test]
fn answer_without_bubbles_is_shown_as_it_came() {
    let mut a = app();
    a.poll_llm(Some(Ok(" [\"\", 1] ".to_string())), &no_clips(), &pictures(&[]));
    assert_eq!(shown(&a.display_log[0]), ("assistant", " [\"\", 1] "));
    assert_eq!(
        a.conversation[1].content,
        "{\"reply\":[\"\"],\"mood\":\"neutral\",\"sticker\":null}"
    );
}

#[test]
fn given_answer_is_taken_in() {
    let mut a = app();
    let parsed = LlmReply {
        reply: ReplyContent::Multi(strings(&["x", "y"])),
        mood: "excited".to_string(),
        sticker: None,
    };
    a.take_answer("raw", parsed, Mood::Excited, &no_clips(), &pictures(&[]));
    assert_eq!(a.raw_log[0], "<<< [0] RECEIVED (raw)\nraw");
    assert_eq!(shown(&a.display_log[0]), ("assistant", "x"));
    assert_eq!(a.pending_bubbles.front().map(|s| s.as_str()), Some("y"));
    assert_eq!(a.state.current_animation(), "positive.positive_b");
}

#[test]
fn failure_is_shown_in_character() {
    let mut a = app();
    a.send_sticker_at("idc", 0);
    a.poll_llm(Some(Err("no route".to_string())), &no_clips(), &pictures(&[]));
    assert!(!a.waiting_for_reply);
    assert_eq!(a.state.reply.as_deref(), Some("...hmm, something's wrong (no route)"));
    assert_eq!(a.state.reply_timer, 4 * SECOND);
    assert_eq!((a.state.activity, a.state.idle_mood), (Activity::Idle, IdleMood::Normal));
    assert_eq!(a.conversation.len(), 2);
    assert_eq!(a.display_log.len(), 1);
}

#[test]
fn nothing_to_poll_changes_nothing() {
    let mut a = app();
    a.send_sticker_at("idc", 0);
    a.poll_llm(None, &no_clips(), &pictures(&[]));
    assert!(a.waiting_for_reply);
    assert_eq!(a.raw_log.len(), 1);
}

#[test]
fn typing_takes_between_0_9_and_3_2_seconds() {
    assert_eq!(typing_delay(""), 900_000_000);
    assert_eq!(typing_delay(&"x".repeat(16)), 900_000_000);
    assert_eq!(typing_delay(&"é".repeat(17)), 925_000_000);
    assert_eq!(typing_delay(&"x".repeat(60)), 2_000_000_000);
    assert_eq!(typing_delay(&"x".repeat(107)), 3_175_000_000);
    assert_eq!(typing_delay(&"x".repeat(108)), 3_200_000_000);
    assert_eq!(typing_delay(&"x".repeat(1000)), 3_200_000_000);
}

#[test]
fn bubbles_are_drawn_by_role_and_content() {
    assert_eq!(DisplayMessage::user_text("a").kind(), BubbleKind::UserText);
    assert_eq!(DisplayMessage::assistant_text("a").kind(), BubbleKind::AssistantText);
    assert_eq!(DisplayMessage::user_sticker("a").kind(), BubbleKind::UserSticker);
    assert_eq!(DisplayMessage::assistant_sticker("a").kind(), BubbleKind::AssistantSticker);
    let other = DisplayMessage { role: "system", content: DisplayContent::Text("a".to_string()) };
    assert_eq!(other.kind(), BubbleKind::Hidden);
}

#[test]
fn stickers_with_pictures_are_offered() {
    assert_eq!(
        pchan_stickers(),
        ["idc", "im_ded", "love_forever", "omg", "sad", "sorry", "this", "tired_ok"]
    );
    assert_eq!(offered_stickers(&pictures(&["this", "zzz", "idc"])), vec!["idc", "this"]);
    assert_eq!(offered_stickers(&pictures(&[])), Vec::<&str>::new());
    assert_eq!(offered_stickers(&pictures(&pchan_stickers())).len(), 8);
}

#[test]
fn proxy_is_applied_and_models_are_adopted() {
    let mut a = app();
    a.proxy = "http://old".to_string();
    a.open_settings();
    assert!(a.settings_open);
    assert_eq!(a.proxy_input, "http://old");
    a.proxy_input = " http://new/ ".to_string();
    assert_eq!(a.apply_proxy(), "http://new");
    assert_eq!(a.proxy, "http://new/");
    let client = a.adopt_models(Some(strings(&["m3", "m1"])));
    assert_eq!((client.model.as_str(), client.base_url.as_str()), ("m1", "http://new"));
    let client = a.adopt_models(Some(strings(&["m4", "m5"])));
    assert_eq!(client.model, "m4");
    assert_eq!(a.selected_model, "m4");
    let client = a.adopt_models(None);
    assert_eq!(client.model, "m4");
    assert_eq!(a.available_models, strings(&["m4"]));
    a.adopt_models(Some(Vec::new()));
    assert_eq!(a.selected_model, "m4");
    assert!(a.available_models.is_empty());
    a.proxy_input = String::new();
    assert_eq!(a.apply_proxy(), "http://localhost:8080");
}

#[test]
fn model_is_changed_where_it_differs() {
    let mut a = app();
    assert!(a.choose_model("m1").is_none());
    let client = a.choose_model("m2").unwrap();
    assert_eq!((client.model.as_str(), client.base_url.as_str()), ("m2", "http://localhost:8080"));
    assert_eq!(a.selected_model, "m2");
    assert_eq!(a.change_model("m9").model, "m9");
    assert_eq!(a.client().model, "m9");
}

#[test]
fn keys_try_things_out() {
    let mut a = app();
    let clips = no_clips();
    a.on_key(DebugKey::Num2, &clips);
    assert_eq!(a.state.activity, Activity::PhoneChat);
    a.on_key(DebugKey::Num1, &clips);
    assert_eq!(a.state.activity, Activity::Idle);
    for (key, clip) in [
        (DebugKey::Num3, "idle_anxiety.anxiety_b"),
        (DebugKey::Num4, "positive.positive_b"),
        (DebugKey::Num5, "negative.negative_b"),
        (DebugKey::Num6, "pouting"),
    ] {
        a.on_key(key, &clips);
        assert_eq!(a.state.current_animation(), clip);
    }
    a.on_key(DebugKey::ArrowUp, &clips);
    assert_eq!(a.state.closeness, 55 * POINT);
    a.on_key(DebugKey::ArrowDown, &clips);
    a.on_key(DebugKey::ArrowDown, &clips);
    assert_eq!(a.state.closeness, 45 * POINT);
    a.on_key(DebugKey::ArrowRight, &clips);
    assert_eq!(a.state.stress, 5 * POINT);
    a.on_key(DebugKey::ArrowLeft, &clips);
    assert_eq!(a.state.stress, 0);
    a.on_key(DebugKey::C, &clips);
    a.on_key(DebugKey::T, &clips);
    a.on_key(DebugKey::O, &clips);
    assert!(!a.chat_window_open && !a.task_manager_open && a.raw_history_open);
}

#[test]
fn close_waits_for_the_leaving_clip() {
    let mut a = app();
    let clips = no_clips();
    let none = pictures(&[]);
    assert!(a.request_close(&clips));
    assert!(!a.request_close(&clips));
    let frame = a.update_at(SECOND - 1, None, &clips, &none, 12, 0, 0);
    assert!(!frame.exit);
    assert_eq!(a.player.current(), "out.out_b");
    let frame = a.update_at(1, Some(Ok("late".to_string())), &clips, &none, 12, 0, 0);
    assert!(frame.exit && frame.ask.is_none());
    assert!(a.display_log.is_empty());
}

#[test]
fn nothing_keeps_the_companion_from_leaving() {
    let clips = no_clips();
    let none = pictures(&[]);
    for (result, turns, entry) in [
        (Ok("{\"reply\": \"wait\"}".to_string()), 3, "<<< [1] RECEIVED (raw)\n{\"reply\": \"wait\"}"),
        (Err("gone".to_string()), 2, "<<< [1] ERROR\ngone"),
    ] {
        let mut a = app();
        a.send_sticker_at("idc", 0);
        assert!(a.request_close(&clips));
        let frame = a.update_at(SECOND / 2, Some(result), &clips, &none, 12, 0, 0);
        assert!(!frame.exit && frame.ask.is_none());
        assert_eq!(a.state.activity, Activity::Closing);
        assert_eq!(a.state.one_shot_timer, SECOND / 2);
        assert_eq!(a.conversation.len(), turns);
        assert_eq!(a.display_log.len(), turns - 1);
        assert_eq!(a.raw_log[1], entry);
        assert!(!a.waiting_for_reply);
        assert_eq!(a.player.current(), "out.out_b");
        assert!(a.update_at(SECOND / 2, None, &clips, &none, 12, 0, 0).exit);
    }
    let mut a = app();
    a.state.idle_time = 10_000 * SECOND;
    assert!(a.request_close(&clips));
    let frame = a.update_at(1, None, &clips, &none, 12, 0, 0);
    assert!(!frame.exit && frame.ask.is_none());
    assert_eq!(a.state.activity, Activity::Closing);
}

#[test]
fn frame_does_everything_in_turn() {
    let mut clips = no_clips();
    clips.insert(
        "positive.positive_b".to_string(),
        AnimationClip {
            category: "positive".to_string(),
            name: "positive_b".to_string(),
            config: AnimationConfig { fps: 4 * FPS, looping: true },
            frames: vec![0; 8],
        },
    );
    let none = pictures(&[]);
    let mut a = app();
    a.send_sticker_at("idc", 0);
    let raw = "{\"reply\": [\"one\", \"two\"], \"mood\": \"excited\"}";
    let frame = a.update_at(SECOND / 4, Some(Ok(raw.to_string())), &clips, &none, 12, 0, 0);
    assert!(!frame.exit && frame.ask.is_none());
    assert_eq!(a.display_log.len(), 3);
    assert_eq!((a.player.current(), a.player.frame()), ("positive.positive_b", 1));
    assert_eq!(a.state.idle_time, SECOND / 4);
    let frame = a.update_at(120 * SECOND, None, &clips, &none, 12, 0, 50_000);
    let ms = frame.ask.unwrap();
    assert!(ms[ms.len() - 1].content.contains("in about 2 minute(s)"));
    assert!(a.waiting_for_reply);
    assert_eq!(a.state.activity, Activity::PhoneChat);
    assert_eq!(a.player.current(), "phone_chat.talk_b");
    assert_eq!(a.state.next_initiate_at, 120 * SECOND + SECOND / 4 + 1560 * SECOND);
    let frame = a.update(4000 * SECOND, None, &clips, &none);
    assert!(!frame.exit && frame.ask.is_none());
}
