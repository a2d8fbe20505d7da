//! What is made of answers, examples and settings, said in terms of what goes in and comes out.

use vstd::prelude::*;

use crate::json::{self, FieldView, JsonView};
use crate::llm::{self, BlockParts, LlmReplyView, MessageView, ReplyContentView};
use crate::text;
use crate::text_laws;

verus! {

/// The place at which a JSON value is looked for is that of the first `{` or `[`; where none is
/// named there is none.
pub proof fn law_json_starts_at_the_first_opener(raw: Seq<char>)
    ensures
        match llm::json_start(raw) {
            Some(i) => {
                &&& 0 <= i < raw.len()
                &&& raw[i] == '{' || raw[i] == '['
                &&& forall|j: int| 0 <= j < i ==> #[trigger] raw[j] != '{' && raw[j] != '['
            },
            None => forall|j: int|
                0 <= j < raw.len() ==> #[trigger] raw[j] != '{' && raw[j] != '[',
        },
    decreases raw.len(),
{
    if raw.len() > 0 && !llm::opens_json(raw.first()) {
        let rest = raw.drop_first();
        law_json_starts_at_the_first_opener(rest);
        assert forall|j: int| 0 < j < raw.len() implies #[trigger] raw[j] == rest[j - 1] by {}
    }
}

/// The value of a text is the one that is read from its first `{` or `[` on, and from nowhere else.
pub proof fn law_value_is_read_at_the_first_opener(raw: Seq<char>, i: int)
    requires
        0 <= i < raw.len(),
        raw[i] == '{' || raw[i] == '[',
        forall|j: int| 0 <= j < i ==> #[trigger] raw[j] != '{' && raw[j] != '[',
    ensures
        llm::json_in(raw) == json::first_json(raw.subrange(i, raw.len() as int)),
{
    law_json_starts_at_the_first_opener(raw);
    assert(raw.skip(i) =~= raw.subrange(i, raw.len() as int));
}

/// A text without any `{` or `[` is the answer as it stands, without the whitespace around it:
/// nothing between its first and its last character is lost. The mood is neutral and there is no
/// sticker.
pub proof fn law_plain_text_is_kept(raw: Seq<char>)
    requires
        forall|i: int| 0 <= i < raw.len() ==> #[trigger] raw[i] != '{' && raw[i] != '[',
    ensures
        llm::reply_in(raw, llm::json_in(raw)) == (LlmReplyView {
            reply: ReplyContentView::Single(text::trimmed(raw)),
            mood: "neutral"@,
            sticker: None,
        }),
{
    law_json_starts_at_the_first_opener(raw);
}

/// So is a text in which no JSON value is read.
pub proof fn law_text_without_a_value_is_kept(raw: Seq<char>)
    ensures
        llm::reply_in(raw, None) == (LlmReplyView {
            reply: ReplyContentView::Single(text::trimmed(raw)),
            mood: "neutral"@,
            sticker: None,
        }),
{
}

/// The string that a value is, if it is one.
pub open spec fn as_string(value: JsonView) -> Option<Seq<char>> {
    match value {
        JsonView::Str(s) => Some(s),
        _ => None,
    }
}

proof fn lemma_strings_among(items: Seq<JsonView>)
    ensures
        llm::strings_among(items) == items.filter_map(|v: JsonView| as_string(v)),
    decreases items.len(),
{
    if items.len() > 0 {
        lemma_strings_among(items.drop_last());
        let before = llm::strings_among(items.drop_last());
        if let JsonView::Str(s) = items.last() {
            assert(before.push(s) =~= before + seq![s]);
        }
    } else {
        assert(llm::strings_among(items) =~= items.filter_map(|v: JsonView| as_string(v)));
    }
}

/// A bare list is a burst of its strings, all of them and in their order, with a neutral mood and
/// no sticker, whatever text it was found in.
pub proof fn law_list_is_a_burst_of_its_strings(items: Seq<JsonView>, raw: Seq<char>)
    ensures
        llm::reply_in(raw, Some(JsonView::Array(items))) == (LlmReplyView {
            reply: ReplyContentView::Multi(items.filter_map(|v: JsonView| as_string(v))),
            mood: "neutral"@,
            sticker: None,
        }),
{
    lemma_strings_among(items);
}

/// Any other value that is no object is shown as it is written, a string without its quotes.
pub proof fn law_simple_value_is_shown(s: Seq<char>, b: bool, raw: Seq<char>)
    ensures
        llm::reply_in(raw, Some(JsonView::Str(s))).reply == ReplyContentView::Single(s),
        llm::reply_in(raw, Some(JsonView::Number(s))).reply == ReplyContentView::Single(s),
        llm::reply_in(raw, Some(JsonView::Null)).reply == ReplyContentView::Single("null"@),
        llm::reply_in(raw, Some(JsonView::Bool(true))).reply == ReplyContentView::Single("true"@),
        llm::reply_in(raw, Some(JsonView::Bool(false))).reply == ReplyContentView::Single(
            "false"@,
        ),
        llm::reply_in(raw, Some(JsonView::Str(s))).mood == "neutral"@,
        llm::reply_in(raw, Some(JsonView::Str(s))).sticker is None,
{
}

/// An object with a text as its reply is that text, one with a list of strings that burst; mood
/// and sticker are the object's own.
pub proof fn law_object_is_read_by_its_fields(
    fields: Seq<FieldView>,
    text: Seq<char>,
    items: Seq<Seq<char>>,
    mood: Seq<char>,
    sticker: Seq<char>,
    raw: Seq<char>,
)
    ensures
        ({
            let r = llm::reply_in(raw, Some(JsonView::Object(fields)));
            let mood_field = json::field(fields, "mood"@);
            let sticker_field = json::field(fields, "sticker"@);
            let mood_fits = mood_field is None || mood_field == Some(JsonView::Str(mood));
            let sticker_fits = sticker_field is None || sticker_field == Some(JsonView::Null)
                || sticker_field == Some(JsonView::Str(sticker));
            let list = JsonView::Array(items.map_values(|s: Seq<char>| JsonView::Str(s)));
            let is_text = json::field(fields, "reply"@) == Some(JsonView::Str(text));
            let is_list = json::field(fields, "reply"@) == Some(list);
            mood_fits && sticker_fits && (is_text || is_list) ==> {
                &&& is_text ==> r.reply == ReplyContentView::Single(text)
                &&& is_list ==> r.reply == ReplyContentView::Multi(items)
                &&& mood_field is None ==> r.mood == Seq::<char>::empty()
                &&& mood_field is Some ==> r.mood == mood
                &&& sticker_field == Some(JsonView::Str(sticker)) ==> r.sticker == Some(sticker)
                &&& sticker_field is None || sticker_field == Some(JsonView::Null)
                    ==> r.sticker is None
            }
        }),
{
    llm::lemma_strings_among_strings(items);
}

/// An object that has not the asked-for shape is shown as the whole trimmed text: one without a
/// reply, with a reply that is neither a text nor a list of strings, or with a mood or a sticker
/// of another kind.
pub proof fn law_other_object_is_shown_as_text(fields: Seq<FieldView>, raw: Seq<char>)
    requires
        ({
            ||| json::field(fields, "reply"@) is None
            ||| !(json::field(fields, "reply"@)->0 is Str) && !(json::field(
                fields,
                "reply"@,
            )->0 is Array)
            ||| exists|items: Seq<JsonView>, i: int|
                json::field(fields, "reply"@) == Some(JsonView::Array(items)) && 0 <= i
                    < items.len() && !(#[trigger] items[i] is Str)
            ||| json::field(fields, "mood"@) matches Some(v) && !(v is Str)
            ||| json::field(fields, "sticker"@) matches Some(v) && !(v is Str) && !(v is Null)
        }),
    ensures
        llm::reply_in(raw, Some(JsonView::Object(fields))) == (LlmReplyView {
            reply: ReplyContentView::Single(text::trimmed(raw)),
            mood: "neutral"@,
            sticker: None,
        }),
{
}

/// The bubbles of a burst are its entries without the whitespace around them, each once and in
/// order, but for those of which nothing is left. A plain text is one bubble, as it is.
pub proof fn law_bubbles_are_the_entries(items: Seq<Seq<char>>, s: Seq<char>)
    ensures
        llm::bubbles(ReplyContentView::Multi(items)) == items.map_values(
            |entry: Seq<char>| text::trimmed(entry),
        ).filter(|entry: Seq<char>| entry.len() > 0),
        llm::bubbles(ReplyContentView::Single(s)) == seq![s],
    decreases items.len(),
{
    reveal(Seq::filter);
    let shown = items.map_values(|entry: Seq<char>| text::trimmed(entry));
    if items.len() > 0 {
        law_bubbles_are_the_entries(items.drop_last(), s);
        assert(shown.drop_last() =~= items.drop_last().map_values(
            |entry: Seq<char>| text::trimmed(entry),
        ));
    } else {
        assert(shown =~= Seq::<Seq<char>>::empty());
    }
}

/// A burst without blank entries has as many bubbles as entries, and each bubble is its entry
/// without the whitespace around it.
pub proof fn law_no_entry_is_lost(items: Seq<Seq<char>>)
    requires
        forall|i: int| 0 <= i < items.len() ==> text::trimmed(#[trigger] items[i]).len() > 0,
    ensures
        llm::bubbles(ReplyContentView::Multi(items)).len() == items.len(),
        forall|i: int|
            0 <= i < items.len() ==> #[trigger] llm::bubbles(ReplyContentView::Multi(items))[i]
                == text::trimmed(items[i]),
    decreases items.len(),
{
    if items.len() > 0 {
        let before = items.drop_last();
        assert forall|i: int| 0 <= i < before.len() implies text::trimmed(
            #[trigger] before[i],
        ).len() > 0 by {
            assert(before[i] == items[i]);
        }
        law_no_entry_is_lost(before);
    }
}

/// Messages are written one by one: what two lists come to stands on both sides of one comma.
pub proof fn law_written_messages_add_up(a: Seq<MessageView>, b: Seq<MessageView>)
    requires
        a.len() > 0,
        b.len() > 0,
    ensures
        llm::messages_lines(a + b) == llm::messages_lines(a) + ",\n"@ + llm::messages_lines(b),
    decreases b.len(),
{
    let all = a + b;
    assert(all.drop_last() =~= a + b.drop_last());
    if b.len() == 1 {
        assert(a + b.drop_last() =~= a);
    } else {
        law_written_messages_add_up(a, b.drop_last());
        assert(llm::messages_lines(all) =~= llm::messages_lines(a) + ",\n"@ + llm::messages_lines(
            b,
        ));
    }
}

proof fn lemma_message_among_lines(ms: Seq<MessageView>, i: int) -> (around: (Seq<char>, Seq<char>))
    requires
        0 <= i < ms.len(),
    ensures
        llm::messages_lines(ms) == around.0 + llm::message_text(ms[i]) + around.1,
    decreases ms.len(),
{
    let none = Seq::<char>::empty();
    let m = llm::message_text(ms[i]);
    let around = if ms.len() == 1 {
        (none, none)
    } else if i == ms.len() - 1 {
        (llm::messages_lines(ms.drop_last()) + ",\n"@, none)
    } else {
        let (before, after) = lemma_message_among_lines(ms.drop_last(), i);
        (before, after + ",\n"@ + llm::message_text(ms.last()))
    };
    assert(llm::messages_lines(ms) =~= around.0 + m + around.1);
    around
}

/// Where messages are written each of them stands with its whole role and content.
pub proof fn law_each_message_is_written(ms: Seq<MessageView>, i: int) -> (around: (
    Seq<char>,
    Seq<char>,
    Seq<char>,
))
    requires
        0 <= i < ms.len(),
    ensures
        llm::messages_text(ms) == around.0 + json::quoted(ms[i].role) + around.1 + json::quoted(
            ms[i].content,
        ) + around.2,
{
    let (before, after) = lemma_message_among_lines(ms, i);
    let role = json::quoted(ms[i].role);
    let content = json::quoted(ms[i].content);
    let start = "  {\n    \"role\": "@;
    let middle = ",\n    \"content\": "@;
    let end = "\n  }"@;
    assert(llm::message_text(ms[i]) == start + role + middle + content + end);
    let around = ("[\n"@ + before + start, middle, end + after + "\n]"@);
    assert(llm::messages_text(ms) == "[\n"@ + (before + (start + role + middle + content + end)
        + after) + "\n]"@);
    lemma_regroup("[\n"@, before, start, role, middle, content, end, after, "\n]"@);
    around
}

proof fn lemma_regroup(
    a: Seq<char>,
    b: Seq<char>,
    c: Seq<char>,
    d: Seq<char>,
    e: Seq<char>,
    f: Seq<char>,
    g: Seq<char>,
    h: Seq<char>,
    i: Seq<char>,
)
    ensures
        a + (b + (c + d + e + f + g) + h) + i == (a + b + c) + d + e + f + (g + h + i),
{
    assert(a + (b + (c + d + e + f + g) + h) + i =~= (a + b + c) + d + e + f + (g + h + i));
}

/// A line that does not look like a list, or is none, is wrapped whole, as one string without the
/// whitespace around it; one that is a list is wrapped as that list.
pub proof fn law_line_is_wrapped_whole(raw: Seq<char>, list: Seq<char>)
    ensures
        text::trimmed(raw).len() == 0 || text::trimmed(raw)[0] != '[' ==> llm::wrapped(
            raw,
            Some(list),
        ) == llm::envelope(json::quoted(text::trimmed(raw))),
        llm::wrapped(raw, None) == llm::envelope(json::quoted(text::trimmed(raw))),
        text::trimmed(raw).len() > 0 && text::trimmed(raw)[0] == '[' ==> llm::wrapped(
            raw,
            Some(list),
        ) == llm::envelope(list),
{
}

/// Lines without a blank one among them are one block.
pub proof fn law_lines_without_a_blank_are_one_block(lines: Seq<Seq<char>>)
    requires
        forall|i: int| 0 <= i < lines.len() ==> text::trimmed(#[trigger] lines[i]).len() > 0,
    ensures
        llm::blocks_of(lines) == seq![lines],
    decreases lines.len(),
{
    if lines.len() > 0 {
        let before = lines.drop_last();
        assert forall|i: int| 0 <= i < before.len() implies text::trimmed(
            #[trigger] before[i],
        ).len() > 0 by {
            assert(before[i] == lines[i]);
        }
        law_lines_without_a_blank_are_one_block(before);
        assert(before.push(lines.last()) =~= lines);
        assert(text::trimmed(lines[lines.len() - 1]).len() > 0);
        assert(llm::blocks_of(lines) =~= seq![lines]);
    } else {
        assert(lines =~= Seq::empty());
    }
}

/// A blank line ends a block: the lines before it make their blocks and those behind it theirs.
pub proof fn law_blank_line_ends_a_block(
    a: Seq<Seq<char>>,
    blank: Seq<char>,
    b: Seq<Seq<char>>,
)
    requires
        forall|i: int| 0 <= i < blank.len() ==> text::is_whitespace(#[trigger] blank[i]),
    ensures
        llm::blocks_of(a.push(blank) + b) == llm::blocks_of(a) + llm::blocks_of(b),
        llm::blocks_of(b).len() > 0,
    decreases b.len(),
{
    let all = a.push(blank) + b;
    text_laws::law_trim_leaves_nothing_of_blank(blank);
    llm::lemma_a_block_is_open(b);
    if b.len() == 0 {
        assert(all =~= a.push(blank));
        assert(all.drop_last() =~= a);
        assert(llm::blocks_of(all) =~= llm::blocks_of(a) + llm::blocks_of(b));
    } else {
        law_blank_line_ends_a_block(a, blank, b.drop_last());
        llm::lemma_a_block_is_open(b.drop_last());
        assert(all.drop_last() =~= a.push(blank) + b.drop_last());
        assert(all.last() == b.last());
        assert(llm::blocks_of(all) =~= llm::blocks_of(a) + llm::blocks_of(b));
    }
}

/// The examples of blocks come one after another, none of them lost; a block alone gives its own.
pub proof fn law_examples_of_blocks_add_up(a: Seq<Seq<Seq<char>>>, b: Seq<Seq<Seq<char>>>)
    ensures
        llm::blocks_messages(a + b) == llm::blocks_messages(a) + llm::blocks_messages(b),
        a.len() == 1 ==> llm::blocks_messages(a) == llm::example_of(llm::block_parts(a[0])),
    decreases b.len(),
{
    let all = a + b;
    if a.len() == 1 {
        reveal_with_fuel(llm::blocks_messages, 2);
        assert(a.drop_last() =~= Seq::empty());
        assert(llm::blocks_messages(a) =~= llm::example_of(llm::block_parts(a[0])));
    }
    if b.len() == 0 {
        assert(all =~= a);
        assert(llm::blocks_messages(all) =~= llm::blocks_messages(a) + llm::blocks_messages(b));
    } else {
        law_examples_of_blocks_add_up(a, b.drop_last());
        assert(all.drop_last() =~= a + b.drop_last());
        assert(llm::blocks_messages(all) =~= llm::blocks_messages(a) + llm::blocks_messages(b));
    }
}

/// One more line of a block says what stands behind its label, without the whitespace around it,
/// and takes the place of what an earlier line of its kind said. A line without a label says
/// nothing.
pub proof fn law_label_says_what_a_line_is(
    lines: Seq<Seq<char>>,
    line: Seq<char>,
    said: Seq<char>,
)
    ensures
        ({
            let before = llm::block_parts(lines);
            let after = llm::block_parts(lines.push(line));
            let t = text::trimmed(line);
            &&& t == "User:"@ + said ==> after == (
                Some(MessageView { role: "user"@, content: text::trimmed(said) }),
                before.1,
            )
            &&& t == "System:"@ + said ==> after == (
                Some(MessageView { role: "system"@, content: text::trimmed(said) }),
                before.1,
            )
            &&& t == "Petto:"@ + said ==> after == (before.0, Some(text::trimmed(said)))
            &&& !"User:"@.is_prefix_of(t) && !"System:"@.is_prefix_of(t)
                && !"Petto:"@.is_prefix_of(t) ==> after == before
            &&& llm::block_parts(Seq::empty()) == (None::<MessageView>, None::<Seq<char>>)
        }),
{
    let more = lines.push(line);
    let t = text::trimmed(line);
    assert(more.drop_last() =~= lines);
    reveal_strlit("User:");
    reveal_strlit("System:");
    reveal_strlit("Petto:");
    assert("User:"@.len() == 5 && "System:"@.len() == 7 && "Petto:"@.len() == 6);
    assert("User:"@[0] == 'U' && "System:"@[0] == 'S' && "Petto:"@[0] == 'P');
    if t == "User:"@ + said {
        assert(t.take(5) =~= "User:"@);
        assert(t.skip(5) =~= said);
    }
    if t == "System:"@ + said {
        assert(t.take(7) =~= "System:"@);
        assert(t.skip(7) =~= said);
        assert(t[0] == 'S');
    }
    if t == "Petto:"@ + said {
        assert(t.take(6) =~= "Petto:"@);
        assert(t.skip(6) =~= said);
        assert(t[0] == 'P');
    }
    if "User:"@.is_prefix_of(t) {
        assert(t.take(5)[0] == t[0]);
    }
    if "System:"@.is_prefix_of(t) {
        assert(t.take(7)[0] == t[0]);
    }
    if "Petto:"@.is_prefix_of(t) {
        assert(t.take(6)[0] == t[0]);
    }
}

/// A block makes an example of its lead and its answer, the answer in the envelope; it makes none
/// where one of the two is missing.
pub proof fn law_block_makes_its_example(parts: BlockParts)
    ensures
        parts.0 is None || parts.1 is None ==> llm::example_of(parts).len() == 0,
        parts.0 is Some && parts.1 is Some ==> llm::example_of(parts) == seq![
            parts.0->0,
            MessageView {
                role: "assistant"@,
                content: llm::wrapped(
                    parts.1->0,
                    json::compact_json(text::trimmed(parts.1->0)),
                ),
            },
        ],
{
}

/// The base URL of a setting is the setting itself, but for the whitespace around it and the
/// slashes at its end. A setting of which nothing is left stands for the default.
pub proof fn law_base_url_is_the_setting(proxy: Seq<char>)
    ensures
        ({
            let t = text::trimmed(proxy);
            let url = llm::base_url_of(proxy);
            let n = url.len() as int;
            &&& (forall|i: int| 0 <= i < t.len() ==> #[trigger] t[i] == '/') ==> url
                == "http://localhost:8080"@
            &&& (exists|i: int| 0 <= i < t.len() && #[trigger] t[i] != '/') ==> {
                &&& 0 < n <= t.len()
                &&& url == t.take(n)
                &&& url.last() != '/'
                &&& forall|i: int| n <= i < t.len() ==> #[trigger] t[i] == '/'
            }
        }),
{
    let t = text::trimmed(proxy);
    text_laws::law_only_end_slashes_are_dropped(t);
    let kept = text::without_end_slashes(t);
    if kept.len() > 0 {
        assert(t[kept.len() - 1] != '/');
    }
}

/// Messages are from whom they are said to be from.
pub proof fn law_messages_have_their_roles(content: Seq<char>)
    ensures
        llm::system_message(content) == (MessageView { role: "system"@, content }),
        llm::user_message(content) == (MessageView { role: "user"@, content }),
        llm::assistant_message(content) == (MessageView { role: "assistant"@, content }),
{
}

} // verus!
