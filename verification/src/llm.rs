//! What is said to the language model and what is made of its answers.

use vstd::prelude::*;
use vstd::string::StringSliceAdditionalSpecFns;
use vstd::utf8::*;

use crate::json::{self, FieldView, Flat, Json, JsonView};
use crate::llm_laws;
use crate::state::{self, PetState};
use crate::text;

verus! {

broadcast use vstd::string::group_string_axioms;

/// One message of a conversation with the model.
#[derive(Debug)]
pub struct ChatMessage {
    pub role: String,
    pub content: String,
}

/// What a [`ChatMessage`] holds.
pub struct MessageView {
    pub role: Seq<char>,
    pub content: Seq<char>,
}

impl View for ChatMessage {
    type V = MessageView;

    open spec fn view(&self) -> MessageView {
        MessageView { role: self.role@, content: self.content@ }
    }
}

impl Clone for ChatMessage {
    fn clone(&self) -> (res: ChatMessage)
        ensures
            res == *self,
    {
        ChatMessage { role: self.role.clone(), content: self.content.clone() }
    }
}

/// The views of a list of messages.
pub open spec fn messages(v: Seq<ChatMessage>) -> Seq<MessageView> {
    v.map_values(|m: ChatMessage| m@)
}

/// An instruction to the model.
pub open spec fn system_message(content: Seq<char>) -> MessageView {
    MessageView { role: "system"@, content }
}

/// A message of the user.
pub open spec fn user_message(content: Seq<char>) -> MessageView {
    MessageView { role: "user"@, content }
}

/// A message of the model.
pub open spec fn assistant_message(content: Seq<char>) -> MessageView {
    MessageView { role: "assistant"@, content }
}

impl ChatMessage {
    /// An instruction to the model.
    pub fn system(content: &str) -> (m: ChatMessage)
        ensures
            m@ == system_message(content@),
    {
        ChatMessage { role: "system".to_string(), content: content.to_string() }
    }

    /// A message of the user.
    pub fn user(content: &str) -> (m: ChatMessage)
        ensures
            m@ == user_message(content@),
    {
        ChatMessage { role: "user".to_string(), content: content.to_string() }
    }

    /// A message of the model.
    pub fn assistant(content: &str) -> (m: ChatMessage)
        ensures
            m@ == assistant_message(content@),
    {
        ChatMessage { role: "assistant".to_string(), content: content.to_string() }
    }
}

/// The `reply` of an answer: one text, or a burst of short ones.
#[derive(Debug)]
pub enum ReplyContent {
    Multi(Vec<String>),
    Single(String),
}

/// What a [`ReplyContent`] holds.
pub enum ReplyContentView {
    Multi(Seq<Seq<char>>),
    Single(Seq<char>),
}

impl View for ReplyContent {
    type V = ReplyContentView;

    open spec fn view(&self) -> ReplyContentView {
        match self {
            ReplyContent::Multi(items) => ReplyContentView::Multi(text::texts(items@)),
            ReplyContent::Single(s) => ReplyContentView::Single(s@),
        }
    }
}

impl Clone for ReplyContent {
    fn clone(&self) -> (res: ReplyContent)
        ensures
            res@ == self@,
    {
        match self {
            ReplyContent::Multi(items) => {
                let copy = items.clone();
                assert(text::texts(copy@) =~= text::texts(items@));
                ReplyContent::Multi(copy)
            },
            ReplyContent::Single(s) => ReplyContent::Single(s.clone()),
        }
    }
}

/// The bubbles of a burst: its entries, trimmed, without the empty ones.
pub open spec fn burst(items: Seq<Seq<char>>) -> Seq<Seq<char>>
    decreases items.len(),
{
    if items.len() == 0 {
        Seq::empty()
    } else {
        let before = burst(items.drop_last());
        let last = text::trimmed(items.last());
        if last.len() == 0 {
            before
        } else {
            before.push(last)
        }
    }
}

/// The bubbles in which a reply is shown.
pub open spec fn bubbles(reply: ReplyContentView) -> Seq<Seq<char>> {
    match reply {
        ReplyContentView::Multi(items) => burst(items),
        ReplyContentView::Single(s) => seq![s],
    }
}

impl ReplyContent {
    /// The bubbles to show, in order. A plain text is one bubble; a burst is one bubble per
    /// entry, trimmed, without the entries that are empty or only whitespace.
    pub fn into_bubbles(self) -> (res: Vec<String>)
        ensures
            text::texts(res@) == bubbles(self@),
            self@ matches ReplyContentView::Multi(items) ==> text::texts(res@) == items.map_values(
                |entry: Seq<char>| text::trimmed(entry),
            ).filter(|entry: Seq<char>| entry.len() > 0),
            self@ matches ReplyContentView::Single(s) ==> text::texts(res@) == seq![s],
    {
        proof {
            if let ReplyContentView::Multi(items) = self@ {
                llm_laws::law_bubbles_are_the_entries(items, Seq::empty());
            }
        }
        match self {
            ReplyContent::Multi(items) => {
                let mut res: Vec<String> = Vec::new();
                let mut i: usize = 0;
                assert(text::texts(res@) =~= burst(text::texts(items@).take(0)));
                while i < items.len()
                    invariant
                        i <= items@.len(),
                        text::texts(res@) == burst(text::texts(items@).take(i as int)),
                    decreases items@.len() - i,
                {
                    let bubble = text::trim(items[i].as_str());
                    proof {
                        let all = text::texts(items@);
                        assert(all.take(i + 1).drop_last() =~= all.take(i as int));
                        assert(all.take(i + 1).last() == items@[i as int]@);
                    }
                    if !bubble.as_str().is_empty() {
                        let ghost before = text::texts(res@);
                        let ghost shown = bubble@;
                        res.push(bubble);
                        assert(text::texts(res@) =~= before.push(shown));
                    }
                    i += 1;
                }
                assert(text::texts(items@).take(i as int) =~= text::texts(items@));
                res
            },
            ReplyContent::Single(s) => {
                let mut res: Vec<String> = Vec::new();
                res.push(s);
                assert(text::texts(res@) =~= seq![s@]);
                res
            },
        }
    }
}

/// An answer of the model, taken apart. `sticker` is there only when it sends one.
#[derive(Debug)]
pub struct LlmReply {
    pub reply: ReplyContent,
    pub mood: String,
    pub sticker: Option<String>,
}

/// What an [`LlmReply`] holds.
pub struct LlmReplyView {
    pub reply: ReplyContentView,
    pub mood: Seq<char>,
    pub sticker: Option<Seq<char>>,
}

impl View for LlmReply {
    type V = LlmReplyView;

    open spec fn view(&self) -> LlmReplyView {
        LlmReplyView { reply: self.reply@, mood: self.mood@, sticker: json::opt_text(self.sticker) }
    }
}

impl Clone for LlmReply {
    fn clone(&self) -> (res: LlmReply)
        ensures
            res@ == self@,
    {
        let sticker = match &self.sticker {
            Some(s) => Some(s.clone()),
            None => None,
        };
        LlmReply { reply: self.reply.clone(), mood: self.mood.clone(), sticker }
    }
}

/// A text with no mood and no sticker of its own.
pub open spec fn neutral(reply: ReplyContentView) -> LlmReplyView {
    LlmReplyView { reply, mood: "neutral"@, sticker: None }
}

/// The strings among `items`, in order.
pub open spec fn strings_among(items: Seq<JsonView>) -> Seq<Seq<char>>
    decreases items.len(),
{
    if items.len() == 0 {
        Seq::empty()
    } else {
        let before = strings_among(items.drop_last());
        match items.last() {
            JsonView::Str(s) => before.push(s),
            _ => before,
        }
    }
}

/// Tells whether each item is a string.
pub open spec fn all_strings(items: Seq<JsonView>) -> bool {
    forall|i: int| 0 <= i < items.len() ==> items[i] is Str
}

/// The reply that a value stands for: a string, or a list of strings.
pub open spec fn reply_content(value: JsonView) -> Option<ReplyContentView> {
    match value {
        JsonView::Str(s) => Some(ReplyContentView::Single(s)),
        JsonView::Array(items) => if all_strings(items) {
            Some(ReplyContentView::Multi(strings_among(items)))
        } else {
            None
        },
        _ => None,
    }
}

/// The answer that the fields of an object stand for. `reply` has to be there; `mood` may be
/// left out and is empty then; `sticker` may be left out or null. Other fields are ignored.
pub open spec fn reply_of_fields(fields: Seq<FieldView>) -> Option<LlmReplyView> {
    let reply = match json::field(fields, "reply"@) {
        Some(value) => reply_content(value),
        None => None,
    };
    let mood = match json::field(fields, "mood"@) {
        None => Some(Seq::<char>::empty()),
        Some(JsonView::Str(s)) => Some(s),
        Some(_) => None,
    };
    let sticker = match json::field(fields, "sticker"@) {
        None => Some(None),
        Some(JsonView::Null) => Some(None),
        Some(JsonView::Str(s)) => Some(Some(s)),
        Some(_) => None,
    };
    match (reply, mood, sticker) {
        (Some(reply), Some(mood), Some(sticker)) => Some(LlmReplyView { reply, mood, sticker }),
        _ => None,
    }
}

/// The answer that a JSON value stands for. `raw` is the whole text it was found in.
pub open spec fn reply_of_value(value: JsonView, raw: Seq<char>) -> LlmReplyView {
    match value {
        JsonView::Object(fields) => match reply_of_fields(fields) {
            Some(reply) => reply,
            None => neutral(ReplyContentView::Single(text::trimmed(raw))),
        },
        JsonView::Array(items) => neutral(ReplyContentView::Multi(strings_among(items))),
        JsonView::Str(s) => neutral(ReplyContentView::Single(s)),
        JsonView::Null => neutral(ReplyContentView::Single("null"@)),
        JsonView::Bool(b) => neutral(
            ReplyContentView::Single(if b {
                "true"@
            } else {
                "false"@
            }),
        ),
        JsonView::Number(n) => neutral(ReplyContentView::Single(n)),
    }
}

/// Tells whether a JSON object or list may start with `c`.
pub open spec fn opens_json(c: char) -> bool {
    c == '{' || c == '['
}

/// The position of the first character of `raw` at which an object or a list may start.
pub open spec fn json_start(raw: Seq<char>) -> Option<int>
    decreases raw.len(),
{
    if raw.len() == 0 {
        None
    } else if opens_json(raw.first()) {
        Some(0)
    } else {
        match json_start(raw.drop_first()) {
            Some(i) => Some(i + 1),
            None => None,
        }
    }
}

/// Tells whether a byte is a `{` or a `[`.
pub open spec fn opens_json_byte(b: u8) -> bool {
    b == 0x7b || b == 0x5b
}

/// The position, counted in bytes, of the first `{` or `[` of `raw`. The text can be cut there.
pub fn find_json_start(raw: &str) -> (res: Option<usize>)
    ensures
        match res {
            Some(i) => {
                &&& i < raw.spec_bytes().len()
                &&& opens_json_byte(raw.spec_bytes()[i as int])
                &&& forall|j: int|
                    0 <= j < i ==> !opens_json_byte(#[trigger] raw.spec_bytes()[j])
                &&& is_char_boundary(raw.spec_bytes(), i as int)
            },
            None => forall|j: int|
                0 <= j < raw.spec_bytes().len() ==> !opens_json_byte(
                    #[trigger] raw.spec_bytes()[j],
                ),
        },
{
    let bytes = raw.as_bytes();
    let mut i: usize = 0;
    while i < bytes.len()
        invariant
            bytes@ == raw.spec_bytes(),
            i <= bytes@.len(),
            forall|j: int| 0 <= j < i ==> !opens_json_byte(#[trigger] raw.spec_bytes()[j]),
        decreases bytes@.len() - i,
    {
        if bytes[i] == 0x7b || bytes[i] == 0x5b {
            proof {
                encode_utf8_valid_utf8(raw@);
                is_char_boundary_iff_not_is_continuation_byte(raw.spec_bytes(), i as int);
            }
            return Some(i);
        }
        i += 1;
    }
    None
}

/// In the encoding of a character a `{` or a `[` occurs only where the character is one.
proof fn lemma_char_bytes(c: char)
    ensures
        encode_scalar(c as u32).len() > 0,
        opens_json(c) ==> encode_scalar(c as u32).len() == 1 && opens_json_byte(
            encode_scalar(c as u32)[0],
        ),
        !opens_json(c) ==> forall|j: int|
            0 <= j < encode_scalar(c as u32).len() ==> !opens_json_byte(
                #[trigger] encode_scalar(c as u32)[j],
            ),
{
    let v = c as u32;
    char_is_scalar(c);
    assert(v <= 0x7f ==> (v & 0x7f) as u8 == v) by (bit_vector);
    assert(0xc0 | ((v >> 6) & 0x1f) as u8 >= 0x80u8) by (bit_vector);
    assert(0xe0 | ((v >> 12) & 0x0f) as u8 >= 0x80u8) by (bit_vector);
    assert(0xf0 | ((v >> 18) & 0x7) as u8 >= 0x80u8) by (bit_vector);
    assert(0x80 | (v & 0x3f) as u8 >= 0x80u8) by (bit_vector);
    assert(0x80 | ((v >> 6) & 0x3f) as u8 >= 0x80u8) by (bit_vector);
    assert(0x80 | ((v >> 12) & 0x3f) as u8 >= 0x80u8) by (bit_vector);
}

/// The first `{` or `[` among the bytes of a text is the first one among its characters.
proof fn lemma_start_in_bytes(chars: Seq<char>)
    ensures
        match json_start(chars) {
            Some(k) => {
                let n = encode_utf8(chars.take(k)).len() as int;
                let bytes = encode_utf8(chars);
                &&& 0 <= k < chars.len()
                &&& n < bytes.len()
                &&& opens_json_byte(bytes[n])
                &&& forall|j: int| 0 <= j < n ==> !opens_json_byte(#[trigger] bytes[j])
                &&& bytes.subrange(n, bytes.len() as int) == encode_utf8(chars.skip(k))
            },
            None => forall|j: int|
                0 <= j < encode_utf8(chars).len() ==> !opens_json_byte(
                    #[trigger] encode_utf8(chars)[j],
                ),
        },
    decreases chars.len(),
{
    if chars.len() > 0 {
        let c = chars[0];
        let rest = chars.drop_first();
        let head = encode_scalar(c as u32);
        let bytes = encode_utf8(chars);
        lemma_char_bytes(c);
        lemma_start_in_bytes(rest);
        assert(bytes == head + encode_utf8(rest));
        if opens_json(c) {
            assert(chars.take(0) =~= Seq::<char>::empty());
            assert(chars.skip(0) =~= chars);
            assert(bytes.subrange(0, bytes.len() as int) =~= bytes);
        } else if let Some(k) = json_start(rest) {
            let n = encode_utf8(rest.take(k)).len() as int;
            assert(chars.take(k + 1).drop_first() =~= rest.take(k));
            assert(encode_utf8(chars.take(k + 1)) == head + encode_utf8(rest.take(k)));
            assert(chars.skip(k + 1) =~= rest.skip(k));
            assert forall|j: int| 0 <= j < head.len() + n implies !opens_json_byte(
                #[trigger] bytes[j],
            ) by {
                if j >= head.len() {
                    assert(bytes[j] == encode_utf8(rest)[j - head.len()]);
                } else {
                    assert(bytes[j] == head[j]);
                }
            }
            assert(bytes[head.len() + n] == encode_utf8(rest)[n]);
            assert(bytes.subrange(head.len() + n, bytes.len() as int) =~= encode_utf8(
                rest,
            ).subrange(n, encode_utf8(rest).len() as int));
        } else {
            assert forall|j: int| 0 <= j < bytes.len() implies !opens_json_byte(
                #[trigger] bytes[j],
            ) by {
                if j >= head.len() {
                    assert(bytes[j] == encode_utf8(rest)[j - head.len()]);
                } else {
                    assert(bytes[j] == head[j]);
                }
            }
        }
    }
}

/// The strings among `items`, in order, and whether they are all of them.
fn pick_strings(items: &Vec<Json>) -> (res: (Vec<String>, bool))
    ensures
        text::texts(res.0@) == strings_among(json::items_view(items@)),
        res.1 == all_strings(json::items_view(items@)),
{
    let ghost all = json::items_view(items@);
    let mut strings: Vec<String> = Vec::new();
    let mut only: bool = true;
    let mut i: usize = 0;
    assert(text::texts(strings@) =~= strings_among(all.take(0)));
    while i < items.len()
        invariant
            i <= items@.len(),
            all == json::items_view(items@),
            text::texts(strings@) == strings_among(all.take(i as int)),
            only == all_strings(all.take(i as int)),
        decreases items@.len() - i,
    {
        let ghost before = text::texts(strings@);
        proof {
            assert(all.take(i + 1).drop_last() =~= all.take(i as int));
            assert(all.take(i + 1).last() == items@[i as int]@);
            assert forall|k: int| 0 <= k < i implies #[trigger] all.take(i as int)[k] == all.take(
                i + 1,
            )[k] by {}
        }
        match &items[i] {
            Json::Str(s) => {
                strings.push(s.clone());
                assert(text::texts(strings@) =~= before.push(s@));
                assert(all_strings(all.take(i + 1)) == all_strings(all.take(i as int)));
            },
            _ => {
                only = false;
                assert(!(all.take(i + 1)[i as int] is Str));
            },
        }
        i += 1;
    }
    assert(all.take(i as int) =~= all);
    (strings, only)
}

fn content_of(value: &Json) -> (res: Option<ReplyContent>)
    ensures
        match res {
            Some(reply) => reply_content(value@) == Some(reply@),
            None => reply_content(value@) is None,
        },
{
    proof {
        json::lemma_view(*value);
    }
    match value {
        Json::Str(s) => Some(ReplyContent::Single(s.clone())),
        Json::Array(items) => {
            let (strings, only) = pick_strings(items);
            if only {
                Some(ReplyContent::Multi(strings))
            } else {
                None
            }
        },
        _ => None,
    }
}

fn reply_of_object(fields: &Vec<(String, Json)>) -> (res: Option<LlmReply>)
    ensures
        match res {
            Some(reply) => reply_of_fields(json::fields_view(fields@)) == Some(reply@),
            None => reply_of_fields(json::fields_view(fields@)) is None,
        },
{
    let reply = match json::find_field(fields, "reply") {
        Some(value) => match content_of(value) {
            Some(reply) => reply,
            None => {
                return None;
            },
        },
        None => {
            return None;
        },
    };
    let mood = match json::find_field(fields, "mood") {
        None => String::new(),
        Some(Json::Str(s)) => s.clone(),
        Some(_) => {
            return None;
        },
    };
    let sticker = match json::find_field(fields, "sticker") {
        None => None,
        Some(Json::Null) => None,
        Some(Json::Str(s)) => Some(s.clone()),
        Some(_) => {
            return None;
        },
    };
    Some(LlmReply { reply, mood, sticker })
}

fn neutral_reply(reply: ReplyContent) -> (res: LlmReply)
    ensures
        res@ == neutral(reply@),
{
    LlmReply { reply, mood: "neutral".to_string(), sticker: None }
}

/// The answer that a JSON value stands for. An object that has not the asked-for shape is
/// shown as the trimmed `raw` text; of a list the strings are kept.
pub fn llm_reply_from_value(value: Json, raw: &str) -> (res: LlmReply)
    ensures
        res@ == reply_of_value(value@, raw@),
{
    proof {
        json::lemma_view(value);
    }
    match value {
        Json::Object(fields) => match reply_of_object(&fields) {
            Some(reply) => reply,
            None => neutral_reply(ReplyContent::Single(text::trim(raw))),
        },
        Json::Array(items) => {
            let (strings, _) = pick_strings(&items);
            neutral_reply(ReplyContent::Multi(strings))
        },
        Json::Str(s) => neutral_reply(ReplyContent::Single(s)),
        Json::Null => neutral_reply(ReplyContent::Single("null".to_string())),
        Json::Bool(true) => neutral_reply(ReplyContent::Single("true".to_string())),
        Json::Bool(false) => neutral_reply(ReplyContent::Single("false".to_string())),
        Json::Number(n) => neutral_reply(ReplyContent::Single(n)),
    }
}

/// The answer that `raw` stands for, `found` being the JSON value found in it, if any.
pub open spec fn reply_in(raw: Seq<char>, found: Option<JsonView>) -> LlmReplyView {
    match found {
        Some(value) => reply_of_value(value, raw),
        None => neutral(ReplyContentView::Single(text::trimmed(raw))),
    }
}

/// The JSON value found in `raw`: the one that starts at its first `{` or `[`.
pub open spec fn json_in(raw: Seq<char>) -> Option<JsonView> {
    match json_start(raw) {
        Some(i) => json::first_json(raw.skip(i)),
        None => None,
    }
}

/// A reply as a field value.
pub open spec fn flat_reply(reply: ReplyContentView) -> Flat {
    match reply {
        ReplyContentView::Multi(items) => Flat::List(items),
        ReplyContentView::Single(s) => Flat::Str(s),
    }
}

/// The fields in which an answer is written.
pub open spec fn reply_fields(r: LlmReplyView) -> Seq<(Seq<char>, Flat)> {
    seq![
        ("reply"@, flat_reply(r.reply)),
        ("mood"@, Flat::Str(r.mood)),
        (
            "sticker"@,
            match r.sticker {
                Some(s) => Flat::Str(s),
                None => Flat::Null,
            },
        ),
    ]
}

/// An answer as compact JSON, in the shape that the model is asked for.
pub open spec fn reply_text(r: LlmReplyView) -> Seq<char> {
    json::object_text(reply_fields(r))
}

/// The answer that `raw` stands for, given the JSON value that was found in it.
pub fn reply_from_found(raw: &str, found: Option<Json>) -> (res: LlmReply)
    ensures
        res@ == reply_in(raw@, json::opt_json(found)),
        found is None ==> res.reply@ == ReplyContentView::Single(text::trimmed(raw@)) && res.mood@
            == "neutral"@ && res.sticker is None,
{
    match found {
        Some(value) => llm_reply_from_value(value, raw),
        None => neutral_reply(ReplyContent::Single(text::trim(raw))),
    }
}

/// Strings are all strings, and the strings among them are they.
pub proof fn lemma_strings_among_strings(items: Seq<Seq<char>>)
    ensures
        strings_among(items.map_values(|s: Seq<char>| JsonView::Str(s))) == items,
        all_strings(items.map_values(|s: Seq<char>| JsonView::Str(s))),
    decreases items.len(),
{
    let values = items.map_values(|s: Seq<char>| JsonView::Str(s));
    if items.len() > 0 {
        lemma_strings_among_strings(items.drop_last());
        assert(values.drop_last() =~= items.drop_last().map_values(
            |s: Seq<char>| JsonView::Str(s),
        ));
        assert(items.drop_last().push(items.last()) =~= items);
    } else {
        assert(strings_among(values) =~= items);
    }
}

proof fn lemma_field_names()
    ensures
        "reply"@ != "mood"@,
        "reply"@ != "sticker"@,
        "mood"@ != "sticker"@,
{
    reveal_strlit("reply");
    reveal_strlit("mood");
    reveal_strlit("sticker");
    assert("reply"@.len() == 5);
    assert("mood"@.len() == 4);
    assert("sticker"@.len() == 7);
}

/// Which answer an object stands for depends on its fields by name alone.
proof fn lemma_read_by_name(fields: Seq<(Seq<char>, Flat)>, found: Seq<FieldView>)
    requires
        json::holds_fields(Some(JsonView::Object(found)), fields),
    ensures
        reply_of_fields(found) == reply_of_fields(json::flat_fields(fields)),
{
    let flat = json::flat_fields(fields);
    assert(json::field(found, "reply"@) == json::field(flat, "reply"@));
    assert(json::field(found, "mood"@) == json::field(flat, "mood"@));
    assert(json::field(found, "sticker"@) == json::field(flat, "sticker"@));
}

/// The fields in which an answer is written are read as that answer.
proof fn lemma_reply_fields_read(r: LlmReplyView)
    ensures
        json::distinct_names(reply_fields(r)),
        reply_of_fields(json::flat_fields(reply_fields(r))) == Some(r),
{
    lemma_field_names();
    let flat = json::flat_fields(reply_fields(r));
    let rest = flat.drop_first();
    let last = rest.drop_first();
    assert(json::field(flat, "reply"@) == Some(flat[0].value));
    assert(json::field(flat, "mood"@) == json::field(rest, "mood"@));
    assert(json::field(rest, "mood"@) == Some(flat[1].value));
    assert(json::field(flat, "sticker"@) == json::field(rest, "sticker"@));
    assert(json::field(rest, "sticker"@) == json::field(last, "sticker"@));
    assert(json::field(last, "sticker"@) == Some(flat[2].value));
    if let ReplyContentView::Multi(items) = r.reply {
        lemma_strings_among_strings(items);
    }
}

/// The fields of an envelope.
pub open spec fn envelope_fields(reply: ReplyContentView) -> Seq<(Seq<char>, Flat)> {
    seq![("mood"@, Flat::Str("neutral"@)), ("reply"@, flat_reply(reply))]
}

/// An envelope is an object of two fields, and is read as the reply it holds, with a neutral
/// mood and no sticker.
proof fn lemma_envelope_read(reply: ReplyContentView)
    ensures
        envelope(json::flat_text(flat_reply(reply))) == json::object_text(envelope_fields(reply)),
        json::distinct_names(envelope_fields(reply)),
        reply_of_fields(json::flat_fields(envelope_fields(reply))) == Some(neutral(reply)),
{
    lemma_field_names();
    let fields = envelope_fields(reply);
    let value = json::flat_text(flat_reply(reply));
    let start = "{\"mood\":\"neutral\",\"reply\":"@;
    assert(fields.take(1).drop_last() =~= Seq::<(Seq<char>, Flat)>::empty());
    assert(fields.drop_last() =~= fields.take(1));
    assert(json::fields_text(fields.take(1)) == json::quoted("mood"@) + seq![':'] + json::quoted(
        "neutral"@,
    ));
    reveal_strlit("mood");
    reveal_strlit("neutral");
    reveal_strlit("reply");
    reveal_strlit("{\"mood\":\"neutral\",\"reply\":");
    reveal_strlit("}");
    lemma_plain_is_not_escaped("mood"@);
    lemma_plain_is_not_escaped("neutral"@);
    lemma_plain_is_not_escaped("reply"@);
    assert(start =~= seq!['{'] + (json::fields_text(fields.take(1)) + seq![','] + json::quoted(
        "reply"@,
    ) + seq![':']));
    assert(envelope(value) =~= json::object_text(fields));
    let flat = json::flat_fields(fields);
    let rest = flat.drop_first();
    let end = rest.drop_first();
    assert(json::field(flat, "mood"@) == Some(flat[0].value));
    assert(json::field(flat, "reply"@) == json::field(rest, "reply"@));
    assert(json::field(rest, "reply"@) == Some(flat[1].value));
    assert(json::field(flat, "sticker"@) == json::field(rest, "sticker"@));
    assert(json::field(rest, "sticker"@) == json::field(end, "sticker"@));
    assert(json::field(end, "sticker"@) is None);
    if let ReplyContentView::Multi(items) = reply {
        lemma_strings_among_strings(items);
    }
}

/// Characters that need no escape are written as they are.
proof fn lemma_plain_is_not_escaped(s: Seq<char>)
    requires
        forall|i: int| 0 <= i < s.len() ==> #[trigger] json::escaped_char(s[i]) == seq![s[i]],
    ensures
        json::escaped(s) == s,
    decreases s.len(),
{
    if s.len() > 0 {
        let before = s.drop_last();
        assert forall|i: int| 0 <= i < before.len() implies #[trigger] json::escaped_char(before[i])
            == seq![before[i]] by {
            assert(before[i] == s[i]);
        }
        lemma_plain_is_not_escaped(before);
        assert(json::escaped_char(s[s.len() - 1]) == seq![s.last()]);
        assert(json::escaped(s) =~= s);
    } else {
        assert(json::escaped(s) =~= s);
    }
}

/// Text in which neither an object nor a list may start does not hide one that follows it.
proof fn lemma_json_start_after(before: Seq<char>, rest: Seq<char>)
    requires
        forall|i: int| 0 <= i < before.len() ==> !opens_json(#[trigger] before[i]),
        rest.len() > 0,
        opens_json(rest.first()),
    ensures
        json_start(before + rest) == Some(before.len() as int),
        (before + rest).skip(before.len() as int) == rest,
    decreases before.len(),
{
    let all = before + rest;
    assert(all.skip(before.len() as int) =~= rest);
    if before.len() > 0 {
        let shorter = before.drop_first();
        assert forall|i: int| 0 <= i < shorter.len() implies !opens_json(#[trigger] shorter[i]) by {
            assert(shorter[i] == before[i + 1]);
        }
        lemma_json_start_after(shorter, rest);
        assert(all.drop_first() =~= shorter + rest);
        assert(all.first() == before[0]);
    } else {
        assert(all =~= rest);
    }
}

/// Tells whether the first JSON value of `raw` is written as `value`, whatever stands around it.
pub open spec fn holds_first(raw: Seq<char>, value: Seq<char>) -> bool {
    match json_start(raw) {
        Some(i) => value.is_prefix_of(raw.skip(i)),
        None => false,
    }
}

/// The JSON value that starts at the first `{` or `[` of `raw`.
fn value_in(raw: &str) -> (found: Option<Json>)
    ensures
        json::opt_json(found) == json_in(raw@),
        forall|fields: Seq<(Seq<char>, Flat)>, gap: Seq<char>|
            #![trigger json::spaced_object(fields, gap)]
            holds_first(raw@, json::spaced_object(fields, gap)) && json::is_gap(gap)
                && json::distinct_names(fields) ==> json::holds_fields(
                json::opt_json(found),
                fields,
            ),
        forall|items: Seq<Seq<char>>, gap: Seq<char>|
            #![trigger json::spaced_list(items, gap)]
            holds_first(raw@, json::spaced_list(items, gap)) && json::is_gap(gap)
                ==> json::opt_json(found) == Some(json::flat_json(Flat::List(items))),
        forall|part: Seq<char>| #[trigger]
            holds_first(raw@, part) && json::is_json_text(part) ==> json::opt_json(found)
                == json::first_json(part) && json::is_opened_by(
                json::opt_json(found),
                part.first(),
            ),
{
    proof {
        lemma_start_in_bytes(raw@);
    }
    match find_json_start(raw) {
        Some(start) => {
            let (_, rest) = raw.split_at(start);
            proof {
                let bytes = raw.spec_bytes();
                assert(json_start(raw@) is Some) by {
                    assert(opens_json_byte(bytes[start as int]));
                }
                let k = json_start(raw@)->0;
                let n = encode_utf8(raw@.take(k)).len() as int;
                assert(start == n) by {
                    assert(opens_json_byte(bytes[n]));
                    assert(opens_json_byte(bytes[start as int]));
                }
                encode_utf8_decode_utf8(rest@);
                encode_utf8_decode_utf8(raw@.skip(k));
                assert(rest@ == raw@.skip(k));
            }
            json::first_value(rest)
        },
        None => {
            assert(json_start(raw@) is None) by {
                if let Some(k) = json_start(raw@) {
                    let n = encode_utf8(raw@.take(k)).len() as int;
                    assert(opens_json_byte(raw.spec_bytes()[n]));
                }
            }
            None
        },
    }
}

/// Tells whether a value is an answer by itself: a list, or an object of the asked-for shape.
pub open spec fn is_answer(found: Option<JsonView>) -> bool {
    match found {
        Some(JsonView::Object(fields)) => reply_of_fields(fields) is Some,
        Some(_) => true,
        None => false,
    }
}

/// Makes an answer of whatever the model sent. The earliest `{` or `[` is looked for and one
/// JSON value is read there, whatever stands before and behind it; where none is found, the
/// trimmed text is the answer. An object of flat fields is read by its fields, and a list of
/// strings as a burst; so an answer written by [`LlmReply::to_json`] is read back as it was, and
/// an envelope as the reply it holds.
pub fn parse_llm_reply(raw: &str) -> (res: LlmReply)
    ensures
        res@ == reply_in(raw@, json_in(raw@)),
        json_in(raw@) is None ==> res.reply@ == ReplyContentView::Single(text::trimmed(raw@))
            && res.mood@ == "neutral"@ && res.sticker is None,
        (forall|i: int| 0 <= i < raw@.len() ==> #[trigger] raw@[i] != '{' && raw@[i] != '[')
            ==> res.reply@ == ReplyContentView::Single(text::trimmed(raw@)) && res.mood@
            == "neutral"@ && res.sticker is None,
        forall|part: Seq<char>| #[trigger]
            holds_first(raw@, part) && json::is_json_text(part) ==> {
                &&& json_in(raw@) == json_in(part)
                &&& json::is_opened_by(json_in(part), part.first())
                &&& is_answer(json_in(part)) ==> res@ == reply_in(part, json_in(part))
            },
        forall|fields: Seq<(Seq<char>, Flat)>, gap: Seq<char>|
            #![trigger json::spaced_object(fields, gap)]
            holds_first(raw@, json::spaced_object(fields, gap)) && json::is_gap(gap)
                && json::distinct_names(fields) ==> res@ == reply_of_value(
                JsonView::Object(json::flat_fields(fields)),
                raw@,
            ),
        forall|items: Seq<Seq<char>>, gap: Seq<char>|
            #![trigger json::spaced_list(items, gap)]
            holds_first(raw@, json::spaced_list(items, gap)) && json::is_gap(gap) ==> res@
                == neutral(ReplyContentView::Multi(items)),
        forall|r: LlmReplyView| holds_first(raw@, #[trigger] reply_text(r)) ==> res@ == r,
        forall|reply: ReplyContentView|
            holds_first(raw@, envelope(json::flat_text(#[trigger] flat_reply(reply)))) ==> res@
                == neutral(reply),
{
    let found = value_in(raw);
    proof {
        llm_laws::law_json_starts_at_the_first_opener(raw@);
        assert forall|part: Seq<char>| #[trigger]
            holds_first(raw@, part) && json::is_json_text(part) implies json_in(raw@) == json_in(
            part,
        ) && json::is_opened_by(json_in(part), part.first()) by {
            assert(json_start(part) == Some(0int));
            assert(part.skip(0) =~= part);
        }
        assert forall|fields: Seq<(Seq<char>, Flat)>, gap: Seq<char>|
            #![trigger json::spaced_object(fields, gap)]
            holds_first(raw@, json::spaced_object(fields, gap)) && json::is_gap(gap)
                && json::distinct_names(fields) implies reply_in(raw@, json_in(raw@))
            == reply_of_value(JsonView::Object(json::flat_fields(fields)), raw@) by {
            assert(json::holds_fields(json::opt_json(found), fields));
            lemma_read_by_name(fields, json_in(raw@)->0->Object_0);
        }
        assert forall|items: Seq<Seq<char>>, gap: Seq<char>|
            #![trigger json::spaced_list(items, gap)]
            holds_first(raw@, json::spaced_list(items, gap)) && json::is_gap(gap) implies reply_in(
            raw@,
            json_in(raw@),
        ) == neutral(ReplyContentView::Multi(items)) by {
            lemma_strings_among_strings(items);
        }
        assert forall|r: LlmReplyView| holds_first(raw@, #[trigger] reply_text(r)) implies reply_in(
            raw@,
            json_in(raw@),
        ) == r by {
            lemma_reply_fields_read(r);
            json::lemma_object_without_gap(reply_fields(r));
        }
        assert forall|reply: ReplyContentView|
            holds_first(
                raw@,
                envelope(json::flat_text(#[trigger] flat_reply(reply))),
            ) implies reply_in(raw@, json_in(raw@)) == neutral(reply) by {
            lemma_envelope_read(reply);
            json::lemma_object_without_gap(envelope_fields(reply));
        }
    }
    reply_from_found(raw, found)
}

/// An object or a list is the first one of a text, whatever follows it, where nothing that could
/// start one stands before it. Of the whole text [`parse_llm_reply`] then makes what it makes of
/// that object or list alone, if that is an answer by itself.
pub proof fn law_first_value_is_found(before: Seq<char>, value: Seq<char>, after: Seq<char>)
    requires
        forall|i: int| 0 <= i < before.len() ==> !opens_json(#[trigger] before[i]),
        value.len() > 0,
        opens_json(value.first()),
    ensures
        holds_first(before + value + after, value),
{
    lemma_json_start_after(before, value + after);
    assert(before + value + after =~= before + (value + after));
    assert(value =~= (value + after).take(value.len() as int));
}

impl LlmReply {
    /// Writes the answer as compact JSON: `reply`, `mood`, `sticker`, in this order.
    pub fn to_json(&self) -> (res: String)
        ensures
            res@ == reply_text(self@),
    {
        let mut res = String::new();
        res.push('{');
        res.append(json::quote("reply").as_str());
        res.push(':');
        match &self.reply {
            ReplyContent::Multi(items) => {
                res.append(json::write_list(items).as_str());
            },
            ReplyContent::Single(s) => {
                res.append(json::quote(s.as_str()).as_str());
            },
        }
        let ghost fields = reply_fields(self@);
        proof {
            assert(fields.take(1).drop_last() =~= Seq::<(Seq<char>, Flat)>::empty());
            assert(fields.take(1).last() == fields[0]);
            assert(res@ =~= seq!['{'] + json::fields_text(fields.take(1)));
        }
        res.push(',');
        res.append(json::quote("mood").as_str());
        res.push(':');
        res.append(json::quote(self.mood.as_str()).as_str());
        proof {
            assert(fields.take(2).drop_last() =~= fields.take(1));
            assert(fields.take(2).last() == fields[1]);
            assert(res@ =~= seq!['{'] + json::fields_text(fields.take(2)));
        }
        res.push(',');
        res.append(json::quote("sticker").as_str());
        res.push(':');
        match &self.sticker {
            Some(s) => {
                res.append(json::quote(s.as_str()).as_str());
            },
            None => {
                proof {
                    reveal_strlit("null");
                    assert("null"@ =~= seq!['n', 'u', 'l', 'l']);
                }
                res.append("null");
            },
        }
        proof {
            assert(fields.drop_last() =~= fields.take(2));
            assert(fields.last() == fields[2]);
            assert(res@ =~= seq!['{'] + json::fields_text(fields));
        }
        res.push('}');
        assert(res@ =~= reply_text(self@));
        res
    }
}

/// One message as indented JSON.
pub open spec fn message_text(m: MessageView) -> Seq<char> {
    "  {\n    \"role\": "@ + json::quoted(m.role) + ",\n    \"content\": "@ + json::quoted(m.content)
        + "\n  }"@
}

/// Messages as indented JSON, separated by commas.
pub open spec fn messages_lines(ms: Seq<MessageView>) -> Seq<char>
    decreases ms.len(),
{
    if ms.len() == 0 {
        Seq::empty()
    } else if ms.len() == 1 {
        message_text(ms[0])
    } else {
        messages_lines(ms.drop_last()) + ",\n"@ + message_text(ms.last())
    }
}

/// A list of messages as indented JSON.
pub open spec fn messages_text(ms: Seq<MessageView>) -> Seq<char> {
    if ms.len() == 0 {
        "[]"@
    } else {
        "[\n"@ + messages_lines(ms) + "\n]"@
    }
}

fn write_message(m: &ChatMessage) -> (res: String)
    ensures
        res@ == message_text(m@),
{
    let mut res = "  {\n    \"role\": ".to_string();
    res.append(json::quote(m.role.as_str()).as_str());
    res.append(",\n    \"content\": ");
    res.append(json::quote(m.content.as_str()).as_str());
    res.append("\n  }");
    res
}

/// Writes `ms[from..]` as indented JSON.
pub fn write_messages(ms: &Vec<ChatMessage>, from: usize) -> (res: String)
    requires
        from <= ms@.len(),
    ensures
        res@ == messages_text(messages(ms@).skip(from as int)),
{
    let ghost all = messages(ms@).skip(from as int);
    if from == ms.len() {
        return "[]".to_string();
    }
    let mut res = "[\n".to_string();
    let mut i: usize = from;
    assert(res@ =~= "[\n"@ + messages_lines(all.take(0)));
    while i < ms.len()
        invariant
            from <= i <= ms@.len(),
            all == messages(ms@).skip(from as int),
            res@ == "[\n"@ + messages_lines(all.take(i - from)),
        decreases ms@.len() - i,
    {
        proof {
            assert(all.take(i + 1 - from).drop_last() =~= all.take(i - from));
            assert(all.take(i + 1 - from).last() == ms@[i as int]@);
        }
        if i > from {
            res.append(",\n");
        }
        res.append(write_message(&ms[i]).as_str());
        assert(res@ =~= "[\n"@ + messages_lines(all.take(i + 1 - from)));
        i += 1;
    }
    assert(all.take(i - from) =~= all);
    res.append("\n]");
    res
}

/// An example answer in the asked-for envelope.
pub open spec fn envelope(reply: Seq<char>) -> Seq<char> {
    "{\"mood\":\"neutral\",\"reply\":"@ + reply + "}"@
}

/// The envelope of an example line, `list` being the line as compact JSON, if it is JSON. A line
/// that looks like a list and is JSON is the reply as it is; any other is a string.
pub open spec fn wrapped(raw: Seq<char>, list: Option<Seq<char>>) -> Seq<char> {
    let line = text::trimmed(raw);
    if line.len() > 0 && line.first() == '[' && list is Some {
        envelope(list->0)
    } else {
        envelope(json::quoted(line))
    }
}

fn write_envelope(reply: &str) -> (res: String)
    ensures
        res@ == envelope(reply@),
{
    let mut res = "{\"mood\":\"neutral\",\"reply\":".to_string();
    res.append(reply);
    res.append("}");
    res
}

/// The envelope of an example line, given the line as compact JSON, if it is JSON.
pub fn wrap_line(raw: &str, list: Option<String>) -> (res: String)
    ensures
        res@ == wrapped(raw@, json::opt_text(list)),
{
    let line = text::trim(raw);
    let looks_like_list: bool = !line.as_str().is_empty() && line.as_str().get_char(0) == '[';
    match list {
        Some(list) if looks_like_list => write_envelope(list.as_str()),
        _ => write_envelope(json::quote(line.as_str()).as_str()),
    }
}

/// Wraps an example line into the envelope that the model is asked for. A line that is a JSON
/// list becomes the list of replies; any other line becomes one string.
pub fn wrap_as_llm_json(raw: &str) -> (res: String)
    ensures
        res@ == wrapped(raw@, json::compact_json(text::trimmed(raw@))),
        text::trimmed(raw@).len() == 0 || text::trimmed(raw@)[0] != '[' ==> res@ == envelope(
            json::quoted(text::trimmed(raw@)),
        ),
        forall|items: Seq<Seq<char>>, gap: Seq<char>|
            #![trigger json::spaced_list(items, gap)]
            text::trimmed(raw@) == json::spaced_list(items, gap) && json::is_gap(gap) ==> res@
                == envelope(json::list_text(items)),
{
    let line = text::trim(raw);
    let looks_like_list: bool = !line.as_str().is_empty() && line.as_str().get_char(0) == '[';
    let list = if looks_like_list {
        json::compact(line.as_str())
    } else {
        None
    };
    proof {
        assert forall|items: Seq<Seq<char>>, gap: Seq<char>|
            #![trigger json::spaced_list(items, gap)]
            line@ == json::spaced_list(items, gap) implies line@.first() == '[' by {}
    }
    wrap_line(raw, list)
}

/// An example line in its envelope is what [`parse_llm_reply`] reads there: the envelope of a list
/// of strings is read as that burst, and any other as that text, with a neutral mood.
pub proof fn law_envelope_is_read_back(items: Seq<Seq<char>>, line: Seq<char>)
    ensures
        holds_first(
            envelope(json::list_text(items)),
            envelope(json::flat_text(flat_reply(ReplyContentView::Multi(items)))),
        ),
        holds_first(
            envelope(json::quoted(line)),
            envelope(json::flat_text(flat_reply(ReplyContentView::Single(line)))),
        ),
{
    reveal_strlit("{\"mood\":\"neutral\",\"reply\":");
    let list = envelope(json::list_text(items));
    let text = envelope(json::quoted(line));
    law_first_value_is_found(Seq::empty(), list, Seq::empty());
    law_first_value_is_found(Seq::empty(), text, Seq::empty());
    assert(Seq::<char>::empty() + list + Seq::<char>::empty() =~= list);
    assert(Seq::<char>::empty() + text + Seq::<char>::empty() =~= text);
}

/// A lead and an answer, as far as they are known.
pub type BlockParts = (Option<MessageView>, Option<Seq<char>>);

/// What is known of a block after one more line. A later line of a kind takes the place of an
/// earlier one.
pub open spec fn parts_after(parts: BlockParts, raw: Seq<char>) -> BlockParts {
    let (lead, answer) = parts;
    let line = text::trimmed(raw);
    if "User:"@.is_prefix_of(line) {
        (Some(user_message(text::trimmed(line.skip("User:"@.len() as int)))), answer)
    } else if "System:"@.is_prefix_of(line) {
        (Some(system_message(text::trimmed(line.skip("System:"@.len() as int)))), answer)
    } else if "Petto:"@.is_prefix_of(line) {
        (lead, Some(text::trimmed(line.skip("Petto:"@.len() as int))))
    } else {
        (lead, answer)
    }
}

/// What the lines of a block say: the message that leads, and the answer to it.
pub open spec fn block_parts(lines: Seq<Seq<char>>) -> BlockParts
    decreases lines.len(),
{
    if lines.len() == 0 {
        (None, None)
    } else {
        parts_after(block_parts(lines.drop_last()), lines.last())
    }
}

/// The blocks that lines make: a blank line, one with nothing but whitespace, ends a block.
pub open spec fn blocks_of(lines: Seq<Seq<char>>) -> Seq<Seq<Seq<char>>>
    decreases lines.len(),
{
    if lines.len() == 0 {
        seq![Seq::empty()]
    } else {
        let before = blocks_of(lines.drop_last());
        if text::trimmed(lines.last()).len() == 0 {
            before.push(Seq::empty())
        } else {
            before.drop_last().push(before.last().push(lines.last()))
        }
    }
}

/// The example that a lead and an answer make, the answer in the envelope, or nothing where one
/// of them is missing.
pub open spec fn example_of(parts: BlockParts) -> Seq<MessageView> {
    match parts {
        (Some(lead), Some(answer)) => seq![
            lead,
            assistant_message(wrapped(answer, json::compact_json(text::trimmed(answer)))),
        ],
        _ => Seq::empty(),
    }
}

/// The examples that blocks hold, in order.
pub open spec fn blocks_messages(blocks: Seq<Seq<Seq<char>>>) -> Seq<MessageView>
    decreases blocks.len(),
{
    if blocks.len() == 0 {
        Seq::empty()
    } else {
        blocks_messages(blocks.drop_last()) + example_of(block_parts(blocks.last()))
    }
}

proof fn lemma_block_lead(lines: Seq<Seq<char>>)
    ensures
        block_parts(lines).0 matches Some(lead) ==> lead.role == "user"@ || lead.role == "system"@,
    decreases lines.len(),
{
    if lines.len() > 0 {
        lemma_block_lead(lines.drop_last());
    }
}

/// Examples come in pairs: a message of the user or of the system, and the answer to it in the
/// envelope that the model is asked for.
pub proof fn law_examples_come_in_pairs(blocks: Seq<Seq<Seq<char>>>)
    ensures
        blocks_messages(blocks).len() % 2 == 0,
        forall|i: int|
            0 <= i < blocks_messages(blocks).len() && i % 2 == 0 ==> (#[trigger] blocks_messages(
                blocks,
            )[i]).role == "user"@ || blocks_messages(blocks)[i].role == "system"@,
        forall|i: int|
            0 <= i < blocks_messages(blocks).len() && i % 2 == 1 ==> (#[trigger] blocks_messages(
                blocks,
            )[i]).role == "assistant"@ && exists|reply: Seq<char>|
                blocks_messages(blocks)[i].content == #[trigger] envelope(reply),
    decreases blocks.len(),
{
    if blocks.len() > 0 {
        law_examples_come_in_pairs(blocks.drop_last());
        lemma_block_lead(blocks.last());
    }
}

/// The view of an optional message.
pub open spec fn opt_message(m: Option<ChatMessage>) -> Option<MessageView> {
    match m {
        Some(m) => Some(m@),
        None => None,
    }
}

fn read_line(
    raw: &str,
    lead: Option<ChatMessage>,
    answer: Option<String>,
) -> (res: (Option<ChatMessage>, Option<String>))
    ensures
        (opt_message(res.0), json::opt_text(res.1)) == parts_after(
            (opt_message(lead), json::opt_text(answer)),
            raw@,
        ),
{
    let line = text::trim(raw);
    if let Some(rest) = text::strip_prefix(line.as_str(), "User:") {
        (Some(ChatMessage::user(text::trim(rest.as_str()).as_str())), answer)
    } else if let Some(rest) = text::strip_prefix(line.as_str(), "System:") {
        (Some(ChatMessage::system(text::trim(rest.as_str()).as_str())), answer)
    } else if let Some(rest) = text::strip_prefix(line.as_str(), "Petto:") {
        (lead, Some(text::trim(rest.as_str())))
    } else {
        (lead, answer)
    }
}

fn push_example(res: &mut Vec<ChatMessage>, lead: Option<ChatMessage>, answer: Option<String>)
    ensures
        messages(final(res)@) == messages(old(res)@) + example_of(
            (opt_message(lead), json::opt_text(answer)),
        ),
{
    let ghost before = messages(res@);
    match (lead, answer) {
        (Some(lead), Some(answer)) => {
            let wrapped_answer = wrap_as_llm_json(answer.as_str());
            let reply = ChatMessage::assistant(wrapped_answer.as_str());
            let ghost pair = seq![lead@, reply@];
            res.push(lead);
            res.push(reply);
            assert(messages(res@) =~= before + pair);
        },
        _ => {
            assert(before + Seq::<MessageView>::empty() =~= before);
        },
    }
}

/// There is always a block that is open.
pub proof fn lemma_a_block_is_open(lines: Seq<Seq<char>>)
    ensures
        blocks_of(lines).len() > 0,
    decreases lines.len(),
{
    if lines.len() > 0 {
        lemma_a_block_is_open(lines.drop_last());
    }
}

/// Reads example exchanges from a plain text: blocks separated by a blank line, each with a
/// `User:` or a `System:` line and a `Petto:` line. A block that lacks one of the two is left
/// out. Answers are wrapped into the envelope that the model is asked for.
pub fn parse_example_dialogue(dialogue: &str) -> (res: Vec<ChatMessage>)
    ensures
        messages(res@) == blocks_messages(blocks_of(text::split_text(dialogue@, "\n"@))),
{
    proof {
        reveal_strlit("\n");
    }
    let lines = text::split(dialogue, "\n");
    let ghost all = text::texts(lines@);
    let mut res: Vec<ChatMessage> = Vec::new();
    let mut lead: Option<ChatMessage> = None;
    let mut answer: Option<String> = None;
    let mut i: usize = 0;
    assert(messages(res@) =~= blocks_messages(blocks_of(all.take(0)).drop_last()));
    while i < lines.len()
        invariant
            i <= lines@.len(),
            all == text::texts(lines@),
            messages(res@) == blocks_messages(blocks_of(all.take(i as int)).drop_last()),
            (opt_message(lead), json::opt_text(answer)) == block_parts(
                blocks_of(all.take(i as int)).last(),
            ),
        decreases lines@.len() - i,
    {
        let ghost before = blocks_of(all.take(i as int));
        proof {
            lemma_a_block_is_open(all.take(i as int));
            assert(all.take(i + 1).drop_last() =~= all.take(i as int));
            assert(all.take(i + 1).last() == lines@[i as int]@);
        }
        if text::trim(lines[i].as_str()).as_str().is_empty() {
            push_example(&mut res, lead, answer);
            lead = None;
            answer = None;
            assert(before.push(Seq::empty()).drop_last() =~= before);
        } else {
            let ghost open = before.last().push(lines@[i as int]@);
            let parts = read_line(lines[i].as_str(), lead, answer);
            lead = parts.0;
            answer = parts.1;
            proof {
                assert(before.drop_last().push(open).drop_last() =~= before.drop_last());
                assert(open.drop_last() =~= before.last());
            }
        }
        i += 1;
    }
    push_example(&mut res, lead, answer);
    proof {
        assert(all.take(i as int) =~= all);
        lemma_a_block_is_open(all);
    }
    res
}

/// The endpoint that is used where no proxy is set.
pub const DEFAULT_BASE_URL: &'static str = "http://localhost:8080";

/// Where the model is, and which one it is.
#[derive(Debug)]
pub struct OllamaClient {
    pub base_url: String,
    pub model: String,
}

/// What is asked of the model: an answer to `messages`, in one piece.
#[derive(Debug)]
pub struct ChatRequest {
    pub model: String,
    pub messages: Vec<ChatMessage>,
    pub stream: bool,
}

impl OllamaClient {
    /// A client of `model` at `base_url`.
    pub fn new(model: &str, base_url: &str) -> (res: OllamaClient)
        ensures
            res.model@ == model@,
            res.base_url@ == base_url@,
    {
        OllamaClient { base_url: base_url.to_string(), model: model.to_string() }
    }

    /// Where a request is posted.
    pub fn chat_url(&self) -> (res: String)
        ensures
            res@ == self.base_url@ + "/api/chat"@,
    {
        self.base_url.clone().concat("/api/chat")
    }

    /// The request for an answer to `messages`.
    pub fn request(&self, messages: Vec<ChatMessage>) -> (res: ChatRequest)
        ensures
            res.model@ == self.model@,
            res.messages == messages,
            !res.stream,
    {
        ChatRequest { model: self.model.clone(), messages, stream: false }
    }
}

/// The messages of a request: who the companion is, examples, the conversation so far, how the
/// companion feels, and what the user says.
pub fn build_llm_messages(
    persona: &str,
    examples: &[ChatMessage],
    history: &[ChatMessage],
    state: &PetState,
    user_message: &str,
) -> (res: Vec<ChatMessage>)
    ensures
        messages(res@) == seq![system_message(persona@)] + messages(examples@) + messages(history@)
            + seq![system_message(state::prompt_text(state@)), self::user_message(user_message@)],
{
    let mut res: Vec<ChatMessage> = Vec::new();
    res.push(ChatMessage::system(persona));
    res.extend_from_slice(examples);
    res.extend_from_slice(history);
    res.push(ChatMessage::system(state.state_prompt().as_str()));
    res.push(ChatMessage::user(user_message));
    assert(messages(res@) =~= seq![system_message(persona@)] + messages(examples@) + messages(
        history@,
    ) + seq![system_message(state::prompt_text(state@)), self::user_message(user_message@)]);
    res
}

/// Where the names of the models are listed.
pub fn tags_url(base_url: &str) -> (res: String)
    ensures
        res@ == base_url@ + "/api/tags"@,
{
    base_url.to_string().concat("/api/tags")
}

/// The base URL that a proxy setting stands for: the setting, trimmed and without slashes at its
/// end, or the default where nothing is left of it.
pub open spec fn base_url_of(proxy: Seq<char>) -> Seq<char> {
    let url = text::without_end_slashes(text::trimmed(proxy));
    if url.len() == 0 {
        DEFAULT_BASE_URL@
    } else {
        url
    }
}

/// The base URL that a proxy setting stands for. An empty setting falls back to the default; a
/// slash at the end is dropped, so that a path can be appended.
pub fn effective_base_url(proxy: &str) -> (res: String)
    ensures
        res@ == base_url_of(proxy@),
{
    let url = text::trim_end_slashes(text::trim(proxy).as_str());
    if url.as_str().is_empty() {
        DEFAULT_BASE_URL.to_string()
    } else {
        url
    }
}

/// A base URL is never empty and never ends with a slash, so that a path can be appended to it;
/// whitespace around a setting makes no difference.
pub proof fn law_base_url_takes_a_path(proxy: Seq<char>)
    ensures
        base_url_of(proxy).len() > 0,
        base_url_of(proxy).last() != '/',
        base_url_of(text::trimmed(proxy)) == base_url_of(proxy),
{
    text::law_trim_is_stable(proxy);
    text::lemma_drop_while(text::trimmed(proxy), |c: char| c == '/');
    reveal_strlit("http://localhost:8080");
    assert(DEFAULT_BASE_URL@.len() == 21);
}

proof fn lemma_burst(items: Seq<Seq<char>>)
    ensures
        burst(items).len() <= items.len(),
        forall|i: int|
            0 <= i < burst(items).len() ==> (#[trigger] burst(items)[i]).len() > 0
                && text::trimmed(burst(items)[i]) == burst(items)[i],
    decreases items.len(),
{
    if items.len() > 0 {
        lemma_burst(items.drop_last());
        text::law_trim_is_stable(items.last());
    }
}

/// A burst has at most one bubble per entry, and no bubble is empty or has whitespace at its ends.
pub proof fn law_burst_has_no_blank_bubbles(items: Seq<Seq<char>>)
    ensures
        bubbles(ReplyContentView::Multi(items)).len() <= items.len(),
        forall|i: int|
            0 <= i < bubbles(ReplyContentView::Multi(items)).len() ==> {
                let bubble = #[trigger] bubbles(ReplyContentView::Multi(items))[i];
                bubble.len() > 0 && text::trimmed(bubble) == bubble
            },
{
    lemma_burst(items);
}

} // verus!
