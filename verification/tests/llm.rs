use petto::json::Json;
use petto::llm::{
    build_llm_messages, effective_base_url, find_json_start, llm_reply_from_value,
    parse_example_dialogue, parse_llm_reply, reply_from_found, tags_url, wrap_as_llm_json,
    wrap_line, write_messages, ChatMessage, LlmReply, OllamaClient, ReplyContent,
    DEFAULT_BASE_URL,
};
use petto::state::PetState;

fn strings(items: &[&str]) -> Vec<String> {
    items.iter().map(|s| s.to_string()).collect()
}

fn single(r: &LlmReply) -> &str {
    match &r.reply {
        ReplyContent::Single(s) => s,
        ReplyContent::Multi(_) => panic!("a burst"),
    }
}

fn multi(r: &LlmReply) -> &Vec<String> {
    match &r.reply {
        ReplyContent::Multi(items) => items,
        ReplyContent::Single(s) => panic!("{}", s),
    }
}

#[test]
fn messages_have_their_roles() {
    let m = ChatMessage::system("a");
    assert_eq!((m.role.as_str(), m.content.as_str()), ("system", "a"));
    let m = ChatMessage::user("b").clone();
    assert_eq!((m.role.as_str(), m.content.as_str()), ("user", "b"));
    let m = ChatMessage::assistant("c");
    assert_eq!((m.role.as_str(), m.content.as_str()), ("assistant", "c"));
}

#[test]
fn burst_drops_blank_bubbles_and_trims() {
    let reply = ReplyContent::Multi(strings(&[" a ", "", "  \n", "b"]));
    assert_eq!(reply.into_bubbles(), vec!["a", "b"]);
    assert_eq!(ReplyContent::Multi(Vec::new()).into_bubbles(), Vec::<String>::new());
}

#[test]
fn single_reply_is_one_bubble_as_it_is() {
    assert_eq!(ReplyContent::Single("  a ".to_string()).into_bubbles(), vec!["  a "]);
    assert_eq!(ReplyContent::Single(String::new()).into_bubbles(), vec![""]);
}

#[test]
fn proper_object_is_read() {
    let r = parse_llm_reply(r#"{"reply": "hi", "mood": "excited", "sticker": "zzz"}"#);
    assert_eq!(single(&r), "hi");
    assert_eq!(r.mood, "excited");
    assert_eq!(r.sticker, Some("zzz".to_string()));
}

#[test]
fn missing_mood_is_empty_and_missing_sticker_is_none() {
    let r = parse_llm_reply(r#"{"reply": ["a", "b"], "sticker": null}"#);
    assert_eq!(multi(&r), &strings(&["a", "b"]));
    assert_eq!(r.mood, "");
    assert_eq!(r.sticker, None);
}

#[test]
fn garbage_after_an_object_is_ignored() {
    let r = parse_llm_reply("Sure! {\"reply\":\"hi\",\"mood\":\"worried\"}]}\" and more {");
    assert_eq!(single(&r), "hi");
    assert_eq!(r.mood, "worried");
}

#[test]
fn unknown_fields_are_ignored() {
    let r = parse_llm_reply(r#"{"a": {"b": [1, 2.5e3, true]}, "reply": "hi"}"#);
    assert_eq!(single(&r), "hi");
}

#[test]
fn object_without_a_reply_is_shown_as_text() {
    for raw in [
        r#"  {"mood": "excited"} "#,
        r#"{"reply": 3}"#,
        r#"{"reply": ["a", 1]}"#,
        r#"{"reply": null}"#,
        r#"{"reply": "x", "mood": null}"#,
        r#"{"reply": "x", "mood": 1}"#,
        r#"{"reply": "x", "sticker": 1}"#,
    ] {
        let r = parse_llm_reply(raw);
        assert_eq!(single(&r), raw.trim());
        assert_eq!(r.mood, "neutral");
        assert_eq!(r.sticker, None);
    }
}

#[test]
fn bare_list_is_a_burst() {
    let r = parse_llm_reply(r#"["one", 2, "three", null] trailing"#);
    assert_eq!(multi(&r), &strings(&["one", "three"]));
    assert_eq!(r.mood, "neutral");
}

#[test]
fn plain_text_is_trimmed() {
    let r = parse_llm_reply("  just text \n");
    assert_eq!(single(&r), "just text");
    assert_eq!(r.mood, "neutral");
    assert_eq!(r.sticker, None);
}

#[test]
fn broken_json_is_shown_as_text() {
    let r = parse_llm_reply(" see {\"reply\": \"hi\" ");
    assert_eq!(single(&r), "see {\"reply\": \"hi\"");
}

#[test]
fn escapes_are_read() {
    let r = parse_llm_reply(r#"{"reply": "a\nbé😀\"\\\/"}"#);
    assert_eq!(single(&r), "a\nbé😀\"\\/");
}

#[test]
fn json_starts_at_the_first_brace_or_bracket() {
    assert_eq!(find_json_start("ab{["), Some(2));
    assert_eq!(find_json_start("é{"), Some(2));
    assert_eq!(find_json_start("日😀[{"), Some(7));
    for raw in ["x{", "é[", "日本 {\"a\"", "ū̆𝄞]}[", "Ż"] {
        assert_eq!(find_json_start(raw), raw.find(|c| c == '{' || c == '['));
        if let Some(i) = find_json_start(raw) {
            assert!(raw[i..].starts_with(|c| c == '{' || c == '['));
        }
    }
    assert_eq!(find_json_start("none"), None);
    assert_eq!(find_json_start(""), None);
}

#[test]
fn values_become_replies() {
    assert_eq!(single(&llm_reply_from_value(Json::Str("s".to_string()), "raw")), "s");
    assert_eq!(single(&llm_reply_from_value(Json::Null, "raw")), "null");
    assert_eq!(single(&llm_reply_from_value(Json::Bool(true), "raw")), "true");
    assert_eq!(single(&llm_reply_from_value(Json::Bool(false), "raw")), "false");
    assert_eq!(single(&llm_reply_from_value(Json::Number("1.5".to_string()), "raw")), "1.5");
    let list = Json::Array(vec![Json::Str("a".to_string()), Json::Null]);
    assert_eq!(multi(&llm_reply_from_value(list, "raw")), &strings(&["a"]));
    assert_eq!(single(&llm_reply_from_value(Json::Object(Vec::new()), " raw ")), "raw");
    let fields = vec![("reply".to_string(), Json::Str("hi".to_string()))];
    assert_eq!(single(&llm_reply_from_value(Json::Object(fields), "raw")), "hi");
}

#[test]
fn nothing_found_gives_the_trimmed_text() {
    assert_eq!(single(&reply_from_found(" x ", None)), "x");
    assert_eq!(single(&reply_from_found(" x ", Some(Json::Null))), "null");
}

#[test]
fn reply_is_written_in_the_envelope() {
    let r = LlmReply {
        reply: ReplyContent::Single("a\"b".to_string()),
        mood: "neutral".to_string(),
        sticker: None,
    };
    assert_eq!(r.to_json(), r#"{"reply":"a\"b","mood":"neutral","sticker":null}"#);
    let r = LlmReply {
        reply: ReplyContent::Multi(strings(&["x", "y"])),
        mood: String::new(),
        sticker: Some("zzz".to_string()),
    };
    assert_eq!(r.to_json(), r#"{"reply":["x","y"],"mood":"","sticker":"zzz"}"#);
}

#[test]
fn what_is_written_is_read_back() {
    for text in ["", "plain", "\"quotes\" \\ and \n\t\r\u{8}\u{c}\u{1}\u{1f}\u{7f} é😀 {[]}"] {
        let r = LlmReply {
            reply: ReplyContent::Single(text.to_string()),
            mood: text.to_string(),
            sticker: Some(text.to_string()),
        };
        let back = parse_llm_reply(&format!("so: {} and {{", r.to_json()));
        assert_eq!(single(&back), text);
        assert_eq!(back.mood, text);
        assert_eq!(back.sticker.as_deref(), Some(text));
        let burst = LlmReply {
            reply: ReplyContent::Multi(strings(&[text, "b"])),
            mood: String::new(),
            sticker: None,
        };
        assert_eq!(multi(&parse_llm_reply(&burst.to_json())), &strings(&[text, "b"]));
    }
}

#[test]
fn strings_are_quoted_as_serde_json_does() {
    for code in 0..0x300u32 {
        let s = format!("x{}y", char::from_u32(code).unwrap());
        let expected =
            format!("{{\"mood\":\"neutral\",\"reply\":{}}}", serde_json::to_string(s.trim()).unwrap());
        assert_eq!(wrap_as_llm_json(&s), expected);
    }
}

#[test]
fn example_line_becomes_a_string() {
    assert_eq!(wrap_as_llm_json("  hi \"you\" "), r#"{"mood":"neutral","reply":"hi \"you\""}"#);
    assert_eq!(wrap_as_llm_json(""), r#"{"mood":"neutral","reply":""}"#);
}

#[test]
fn example_list_becomes_a_list() {
    assert_eq!(
        wrap_as_llm_json(r#" [ "hi.",  "hi again." ] "#),
        r#"{"mood":"neutral","reply":["hi.","hi again."]}"#
    );
    assert_eq!(
        wrap_as_llm_json(r#"["hi.","hi again."]"#),
        r#"{"mood":"neutral","reply":["hi.","hi again."]}"#
    );
    assert_eq!(
        wrap_as_llm_json(r#"["hi.", "hi again."]"#),
        r#"{"mood":"neutral","reply":["hi.","hi again."]}"#
    );
    assert_eq!(wrap_as_llm_json("[]"), r#"{"mood":"neutral","reply":[]}"#);
}

#[test]
fn broken_example_list_becomes_a_string() {
    assert_eq!(wrap_as_llm_json("[\"hi\", "), r#"{"mood":"neutral","reply":"[\"hi\","}"#);
    assert_eq!(wrap_as_llm_json("[1] x"), r#"{"mood":"neutral","reply":"[1] x"}"#);
    assert_eq!(wrap_as_llm_json("{\"a\":1}"), r#"{"mood":"neutral","reply":"{\"a\":1}"}"#);
}

#[test]
fn wrapping_is_that_of_a_sorted_map() {
    for line in ["plain", "[\"a\", {\"z\": 1, \"b\": [2.50, null]}]", "[broken"] {
        let mut map = serde_json::Map::new();
        let value = if line.starts_with('[') {
            serde_json::from_str(line).unwrap_or(serde_json::Value::String(line.to_string()))
        } else {
            serde_json::Value::String(line.to_string())
        };
        map.insert("reply".to_string(), value);
        map.insert("mood".to_string(), serde_json::Value::String("neutral".to_string()));
        assert_eq!(wrap_as_llm_json(line), serde_json::Value::Object(map).to_string());
    }
}

#[test]
fn wrapped_line_takes_the_list_only_where_it_looks_like_one() {
    let list = Some("[1]".to_string());
    assert_eq!(wrap_line(" [ 1 ]", list.clone()), r#"{"mood":"neutral","reply":[1]}"#);
    assert_eq!(wrap_line("1", list), r#"{"mood":"neutral","reply":"1"}"#);
    assert_eq!(wrap_line("[1", None), r#"{"mood":"neutral","reply":"[1"}"#);
}

#[test]
fn wrapped_examples_are_read_back() {
    assert_eq!(single(&parse_llm_reply(&wrap_as_llm_json("hi there"))), "hi there");
    let r = parse_llm_reply(&wrap_as_llm_json("[\"a\", \"b\"]"));
    assert_eq!(multi(&r), &strings(&["a", "b"]));
    assert_eq!(r.mood, "neutral");
}

#[test]
fn example_dialogue_is_read_block_by_block() {
    let text = "User: hello \n Petto:  hi!\n\nSystem: it is late\r\nPetto: [\"go\", \"to bed\"]\n\n\
                User: no answer\n\nPetto: no lead\n\nnothing\n\n\
                User: first\nUser: second\nPetto: one\nPetto: two\n";
    let ms = parse_example_dialogue(text);
    let found: Vec<(&str, &str)> =
        ms.iter().map(|m| (m.role.as_str(), m.content.as_str())).collect();
    assert_eq!(
        found,
        vec![
            ("user", "hello"),
            ("assistant", r#"{"mood":"neutral","reply":"hi!"}"#),
            ("system", "it is late"),
            ("assistant", r#"{"mood":"neutral","reply":["go","to bed"]}"#),
            ("user", "second"),
            ("assistant", r#"{"mood":"neutral","reply":"two"}"#),
        ]
    );
    assert!(parse_example_dialogue("").is_empty());
}

#[test]
fn blocks_may_have_other_line_ends_and_blank_lines() {
    for text in [
        "User: a\r\nPetto: b\r\n\r\nUser: c\r\nPetto: d",
        "User: a\nPetto: b\n \t\nUser: c\nPetto: d\n",
        "\n\nUser: a\nPetto: b\n\n\n\nUser: c\nPetto: d\n\n",
    ] {
        let ms = parse_example_dialogue(text);
        let found: Vec<(&str, &str)> =
            ms.iter().map(|m| (m.role.as_str(), m.content.as_str())).collect();
        assert_eq!(
            found,
            vec![
                ("user", "a"),
                ("assistant", r#"{"mood":"neutral","reply":"b"}"#),
                ("user", "c"),
                ("assistant", r#"{"mood":"neutral","reply":"d"}"#),
            ]
        );
    }
}

#[test]
fn what_stands_around_an_answer_makes_no_difference() {
    for part in [
        "{\"reply\": \"hi\", \"mood\": \"excited\", \"sticker\": null}",
        "{ \"mood\" : \"excited\" ,\n\t\"reply\" : \"h\\u0069\" }",
    ] {
        for raw in [part.to_string(), format!("é: {}", part), format!("ok {} }}] [\"x\"]", part)] {
            let r = parse_llm_reply(&raw);
            assert_eq!(single(&r), "hi");
            assert_eq!(r.mood, "excited");
            assert_eq!(r.sticker, None);
        }
    }
}

#[test]
fn answers_can_be_copied() {
    let r = parse_llm_reply("{\"reply\": [\"a\", \"b\"], \"mood\": \"m\", \"sticker\": \"s\"}");
    assert_eq!(r.clone().to_json(), r.to_json());
    assert_eq!(single(&parse_llm_reply("x").clone()), "x");
}

#[test]
fn empty_proxy_falls_back_to_the_default() {
    for proxy in ["", "   ", "/", " /// "] {
        assert_eq!(effective_base_url(proxy), DEFAULT_BASE_URL);
    }
    assert_eq!(DEFAULT_BASE_URL, "http://localhost:8080");
}

#[test]
fn proxy_loses_its_last_slash() {
    assert_eq!(effective_base_url(" http://host:1/ "), "http://host:1");
    assert_eq!(effective_base_url("http://host:1/a//"), "http://host:1/a");
    assert_eq!(effective_base_url("http://host:1/ /"), "http://host:1/ ");
}

#[test]
fn requests_go_to_the_client() {
    let client = OllamaClient::new("m", "http://h");
    assert_eq!(client.chat_url(), "http://h/api/chat");
    assert_eq!(tags_url("http://h"), "http://h/api/tags");
    let request = client.request(vec![ChatMessage::user("x")]);
    assert_eq!(request.model, "m");
    assert_eq!(request.messages.len(), 1);
    assert!(!request.stream);
}

#[test]
fn messages_are_written_one_by_one() {
    let ms = vec![ChatMessage::system("a"), ChatMessage::user("b\n"), ChatMessage::assistant("c")];
    assert_eq!(
        write_messages(&ms, 1),
        "[\n  {\n    \"role\": \"user\",\n    \"content\": \"b\\n\"\n  },\n  {\n    \
         \"role\": \"assistant\",\n    \"content\": \"c\"\n  }\n]"
    );
    assert_eq!(write_messages(&ms, 3), "[]");
}

#[test]
fn a_request_is_built_from_its_parts() {
    let state = PetState::starting(false, 0, 0);
    let examples = vec![ChatMessage::user("e"), ChatMessage::assistant("f")];
    let history = vec![ChatMessage::user("h")];
    let ms = build_llm_messages("persona", &examples, &history, &state, "now");
    let found: Vec<(&str, &str)> =
        ms.iter().map(|m| (m.role.as_str(), m.content.as_str())).collect();
    assert_eq!(
        found,
        vec![
            ("system", "persona"),
            ("user", "e"),
            ("assistant", "f"),
            ("user", "h"),
            (
                "system",
                "[Current state] closeness: 50/100, stress: 0/100. You're warm and familiar."
            ),
            ("user", "now"),
        ]
    );
}
