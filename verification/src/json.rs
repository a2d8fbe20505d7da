//! JSON values, and the calls into `serde_json` that read and write them.

use vstd::prelude::*;

use crate::text;

verus! {

/// A JSON value. A number is kept as its text.
pub enum Json {
    Null,
    Bool(bool),
    Number(String),
    Str(String),
    Array(Vec<Json>),
    Object(Vec<(String, Json)>),
}

/// A named value of an object.
pub struct FieldView {
    pub name: Seq<char>,
    pub value: JsonView,
}

/// What a [`Json`] holds.
pub enum JsonView {
    Null,
    Bool(bool),
    Number(Seq<char>),
    Str(Seq<char>),
    Array(Seq<JsonView>),
    Object(Seq<FieldView>),
}

impl View for Json {
    type V = JsonView;

    open spec fn view(&self) -> JsonView
        decreases self,
    {
        match self {
            Json::Null => JsonView::Null,
            Json::Bool(b) => JsonView::Bool(*b),
            Json::Number(n) => JsonView::Number(n@),
            Json::Str(s) => JsonView::Str(s@),
            Json::Array(items) => JsonView::Array(
                Seq::new(
                    items@.len(),
                    |i: int|
                        if 0 <= i < items@.len() {
                            items@[i].view()
                        } else {
                            JsonView::Null
                        },
                ),
            ),
            Json::Object(fields) => JsonView::Object(
                Seq::new(
                    fields@.len(),
                    |i: int|
                        if 0 <= i < fields@.len() {
                            FieldView { name: fields@[i].0@, value: fields@[i].1.view() }
                        } else {
                            FieldView { name: Seq::empty(), value: JsonView::Null }
                        },
                ),
            ),
        }
    }
}

/// The view of an optional text.
pub open spec fn opt_text(s: Option<String>) -> Option<Seq<char>> {
    match s {
        Some(s) => Some(s@),
        None => None,
    }
}

/// The view of an optional value.
pub open spec fn opt_json(j: Option<Json>) -> Option<JsonView> {
    match j {
        Some(j) => Some(j@),
        None => None,
    }
}

/// The value of the first field named `key`.
pub open spec fn field(fields: Seq<FieldView>, key: Seq<char>) -> Option<JsonView>
    decreases fields.len(),
{
    if fields.len() == 0 {
        None
    } else if fields.first().name == key {
        Some(fields.first().value)
    } else {
        field(fields.drop_first(), key)
    }
}

/// The value of a name is that of the first field which bears it; where none is found no field
/// bears it.
pub proof fn law_first_of_its_name_counts(fields: Seq<FieldView>, key: Seq<char>)
    ensures
        match field(fields, key) {
            Some(value) => exists|i: int|
                {
                    &&& 0 <= i < fields.len()
                    &&& (#[trigger] fields[i]).name == key
                    &&& fields[i].value == value
                    &&& forall|j: int| 0 <= j < i ==> (#[trigger] fields[j]).name != key
                },
            None => forall|i: int| 0 <= i < fields.len() ==> (#[trigger] fields[i]).name != key,
        },
    decreases fields.len(),
{
    if fields.len() > 0 && fields.first().name != key {
        let rest = fields.drop_first();
        law_first_of_its_name_counts(rest, key);
        match field(rest, key) {
            Some(value) => {
                let i = choose|i: int|
                    {
                        &&& 0 <= i < rest.len()
                        &&& (#[trigger] rest[i]).name == key
                        &&& rest[i].value == value
                        &&& forall|j: int| 0 <= j < i ==> (#[trigger] rest[j]).name != key
                    };
                assert(fields[i + 1] == rest[i]);
                assert forall|j: int| 0 <= j < i + 1 implies (#[trigger] fields[j]).name != key by {
                    if j > 0 {
                        assert(fields[j] == rest[j - 1]);
                    }
                }
            },
            None => {
                assert forall|i: int| 0 <= i < fields.len() implies (#[trigger] fields[i]).name
                    != key by {
                    if i > 0 {
                        assert(fields[i] == rest[i - 1]);
                    }
                }
            },
        }
    } else if fields.len() > 0 {
        assert(fields[0].name == key);
    }
}

/// What a list of values holds.
pub open spec fn items_view(items: Seq<Json>) -> Seq<JsonView> {
    items.map_values(|j: Json| j@)
}

/// What a list of fields holds.
pub open spec fn fields_view(fields: Seq<(String, Json)>) -> Seq<FieldView> {
    fields.map_values(|f: (String, Json)| FieldView { name: f.0@, value: f.1@ })
}

/// The view of a list or an object is made of the views of its parts.
pub proof fn lemma_view(value: Json)
    ensures
        value matches Json::Array(items) ==> value@ == JsonView::Array(items_view(items@)),
        value matches Json::Object(fields) ==> value@ == JsonView::Object(fields_view(fields@)),
{
    match value {
        Json::Array(items) => {
            assert(value@->Array_0 =~= items_view(items@));
        },
        Json::Object(fields) => {
            assert(value@->Object_0 =~= fields_view(fields@));
        },
        _ => {},
    }
}

/// The value of the first field named `key`.
pub fn find_field<'a>(fields: &'a Vec<(String, Json)>, key: &str) -> (res: Option<&'a Json>)
    ensures
        match res {
            Some(value) => field(fields_view(fields@), key@) == Some(value@),
            None => field(fields_view(fields@), key@) is None,
        },
{
    let ghost all = fields_view(fields@);
    let mut i: usize = 0;
    assert(all.skip(0) =~= all);
    while i < fields.len()
        invariant
            i <= fields@.len(),
            all == fields_view(fields@),
            field(all, key@) == field(all.skip(i as int), key@),
        decreases fields@.len() - i,
    {
        assert(all.skip(i as int).first() == fields_view(fields@)[i as int]);
        if text::same(fields[i].0.as_str(), key) {
            return Some(&fields[i].1);
        }
        assert(all.skip(i as int).drop_first() =~= all.skip(i + 1));
        i += 1;
    }
    None
}

/// The lower-case hexadecimal digit of value `d`.
pub open spec fn hex_digit(d: int) -> char {
    if d < 10 {
        (48 + d) as char
    } else {
        (87 + d) as char
    }
}

/// How one character is written inside a JSON string.
pub open spec fn escaped_char(c: char) -> Seq<char> {
    if c == '"' {
        seq!['\\', '"']
    } else if c == '\\' {
        seq!['\\', '\\']
    } else if c == '\u{8}' {
        seq!['\\', 'b']
    } else if c == '\u{9}' {
        seq!['\\', 't']
    } else if c == '\u{a}' {
        seq!['\\', 'n']
    } else if c == '\u{c}' {
        seq!['\\', 'f']
    } else if c == '\u{d}' {
        seq!['\\', 'r']
    } else if 32 > c as int {
        seq!['\\', 'u', '0', '0', hex_digit(c as int / 16), hex_digit(c as int % 16)]
    } else {
        seq![c]
    }
}

/// How a text is written inside a JSON string.
pub open spec fn escaped(s: Seq<char>) -> Seq<char>
    decreases s.len(),
{
    if s.len() == 0 {
        Seq::empty()
    } else {
        escaped(s.drop_last()) + escaped_char(s.last())
    }
}

/// A text as a JSON string, with its quotes.
pub open spec fn quoted(s: Seq<char>) -> Seq<char> {
    seq!['"'] + escaped(s) + seq!['"']
}

/// A JSON value without nesting beyond a list of strings.
pub enum Flat {
    Null,
    Str(Seq<char>),
    List(Seq<Seq<char>>),
}

/// The value that a [`Flat`] stands for.
pub open spec fn flat_json(v: Flat) -> JsonView {
    match v {
        Flat::Null => JsonView::Null,
        Flat::Str(s) => JsonView::Str(s),
        Flat::List(items) => JsonView::Array(items.map_values(|s: Seq<char>| JsonView::Str(s))),
    }
}

/// The fields that flat fields stand for.
pub open spec fn flat_fields(fields: Seq<(Seq<char>, Flat)>) -> Seq<FieldView> {
    fields.map_values(|f: (Seq<char>, Flat)| FieldView { name: f.0, value: flat_json(f.1) })
}

/// JSON strings separated by commas.
pub open spec fn strings_text(items: Seq<Seq<char>>) -> Seq<char>
    decreases items.len(),
{
    if items.len() == 0 {
        Seq::empty()
    } else if items.len() == 1 {
        quoted(items[0])
    } else {
        strings_text(items.drop_last()) + seq![','] + quoted(items.last())
    }
}

/// A list of strings as compact JSON.
pub open spec fn list_text(items: Seq<Seq<char>>) -> Seq<char> {
    seq!['['] + strings_text(items) + seq![']']
}

/// Tells whether a text is whitespace that JSON allows between its parts.
pub open spec fn is_gap(gap: Seq<char>) -> bool {
    forall|i: int|
        0 <= i < gap.len() ==> gap[i] == ' ' || gap[i] == '\n' || gap[i] == '\r' || gap[i] == '\t'
}

/// JSON strings separated by commas, with `gap` behind each comma.
pub open spec fn spaced_strings(items: Seq<Seq<char>>, gap: Seq<char>) -> Seq<char>
    decreases items.len(),
{
    if items.len() == 0 {
        Seq::empty()
    } else if items.len() == 1 {
        quoted(items[0])
    } else {
        spaced_strings(items.drop_last(), gap) + seq![','] + gap + quoted(items.last())
    }
}

/// A list of strings as JSON, with `gap` behind each comma.
pub open spec fn spaced_list(items: Seq<Seq<char>>, gap: Seq<char>) -> Seq<char> {
    seq!['['] + spaced_strings(items, gap) + seq![']']
}

/// A flat value as JSON, with `gap` behind each comma.
pub open spec fn spaced_flat(v: Flat, gap: Seq<char>) -> Seq<char> {
    match v {
        Flat::Null => seq!['n', 'u', 'l', 'l'],
        Flat::Str(s) => quoted(s),
        Flat::List(items) => spaced_list(items, gap),
    }
}

/// Fields as JSON, with `gap` behind each comma and each colon.
pub open spec fn spaced_fields(fields: Seq<(Seq<char>, Flat)>, gap: Seq<char>) -> Seq<char>
    decreases fields.len(),
{
    if fields.len() == 0 {
        Seq::empty()
    } else {
        let last = quoted(fields.last().0) + seq![':'] + gap + spaced_flat(fields.last().1, gap);
        if fields.len() == 1 {
            last
        } else {
            spaced_fields(fields.drop_last(), gap) + seq![','] + gap + last
        }
    }
}

/// An object of flat fields as JSON, with `gap` behind each comma and each colon.
pub open spec fn spaced_object(fields: Seq<(Seq<char>, Flat)>, gap: Seq<char>) -> Seq<char> {
    seq!['{'] + spaced_fields(fields, gap) + seq!['}']
}

/// A flat value as compact JSON.
pub open spec fn flat_text(v: Flat) -> Seq<char> {
    match v {
        Flat::Null => seq!['n', 'u', 'l', 'l'],
        Flat::Str(s) => quoted(s),
        Flat::List(items) => list_text(items),
    }
}

/// Fields as compact JSON, separated by commas.
pub open spec fn fields_text(fields: Seq<(Seq<char>, Flat)>) -> Seq<char>
    decreases fields.len(),
{
    if fields.len() == 0 {
        Seq::empty()
    } else {
        let last = quoted(fields.last().0) + seq![':'] + flat_text(fields.last().1);
        if fields.len() == 1 {
            last
        } else {
            fields_text(fields.drop_last()) + seq![','] + last
        }
    }
}

/// An object of flat fields as compact JSON.
pub open spec fn object_text(fields: Seq<(Seq<char>, Flat)>) -> Seq<char> {
    seq!['{'] + fields_text(fields) + seq!['}']
}

proof fn lemma_strings_without_gap(items: Seq<Seq<char>>)
    ensures
        spaced_strings(items, Seq::empty()) == strings_text(items),
    decreases items.len(),
{
    if items.len() > 1 {
        lemma_strings_without_gap(items.drop_last());
        assert(strings_text(items.drop_last()) + seq![','] + Seq::<char>::empty() =~= strings_text(
            items.drop_last(),
        ) + seq![',']);
    }
}

proof fn lemma_fields_without_gap(fields: Seq<(Seq<char>, Flat)>)
    ensures
        spaced_fields(fields, Seq::empty()) == fields_text(fields),
    decreases fields.len(),
{
    if fields.len() > 0 {
        let (name, value) = fields.last();
        if let Flat::List(items) = value {
            lemma_strings_without_gap(items);
        }
        let before = fields_text(fields.drop_last());
        lemma_fields_without_gap(fields.drop_last());
        assert(quoted(name) + seq![':'] + Seq::<char>::empty() =~= quoted(name) + seq![':']);
        assert(before + seq![','] + Seq::<char>::empty() =~= before + seq![',']);
    }
}

/// Without gaps an object is compact.
pub proof fn lemma_object_without_gap(fields: Seq<(Seq<char>, Flat)>)
    ensures
        spaced_object(fields, Seq::empty()) == object_text(fields),
{
    lemma_fields_without_gap(fields);
}

/// Without gaps a list is compact.
pub proof fn lemma_list_without_gap(items: Seq<Seq<char>>)
    ensures
        spaced_list(items, Seq::empty()) == list_text(items),
{
    lemma_strings_without_gap(items);
}

/// No two fields share a name.
pub open spec fn distinct_names(fields: Seq<(Seq<char>, Flat)>) -> bool {
    forall|i: int, j: int| 0 <= i < j < fields.len() ==> fields[i].0 != fields[j].0
}

/// Tells whether `value` is an object in which each name has the value that `fields` give it.
pub open spec fn holds_fields(value: Option<JsonView>, fields: Seq<(Seq<char>, Flat)>) -> bool {
    match value {
        Some(JsonView::Object(found)) => forall|key: Seq<char>| #[trigger]
            field(found, key) == field(flat_fields(fields), key),
        _ => false,
    }
}

/// The first JSON value at the start of a text, whatever follows it: what
/// `serde_json::StreamDeserializer` yields first, `None` where it yields an error or nothing.
pub uninterp spec fn first_json(text: Seq<char>) -> Option<JsonView>;

/// A whole JSON document written again without insignificant whitespace: what
/// `serde_json::from_str` reads and the `Display` of `serde_json::Value` writes, `None` where
/// the text is not one JSON document.
pub uninterp spec fn compact_json(text: Seq<char>) -> Option<Seq<char>>;

/// Tells whether a text is the text of a JSON object or list, from its first character on.
pub open spec fn is_json_text(text: Seq<char>) -> bool {
    &&& text.len() > 0
    &&& text.first() == '{' || text.first() == '['
    &&& compact_json(text) is Some
}

/// Tells whether a value is an object or a list, as the character says with which its text
/// starts.
pub open spec fn is_opened_by(value: Option<JsonView>, c: char) -> bool {
    match value {
        Some(JsonView::Object(_)) => c == '{',
        Some(JsonView::Array(_)) => c == '[',
        _ => false,
    }
}

#[verifier::external_type_specification]
#[verifier::external_body]
pub struct ExValue(serde_json::Value);

/// Takes a `serde_json::Value` apart, variant by variant. Nothing is claimed of the result.
#[verifier::external_body]
fn json_of(value: serde_json::Value) -> Json {
    match value {
        serde_json::Value::Null => Json::Null,
        serde_json::Value::Bool(b) => Json::Bool(b),
        serde_json::Value::Number(n) => Json::Number(n.to_string()),
        serde_json::Value::String(s) => Json::Str(s),
        serde_json::Value::Array(items) => Json::Array(items.into_iter().map(json_of).collect()),
        serde_json::Value::Object(fields) => Json::Object(
            fields.into_iter().map(|(name, v)| (name, json_of(v))).collect(),
        ),
    }
}

/// Reads one JSON value from the start of `text` and ignores what follows, by
/// `serde_json::Deserializer::from_str` and the first item of its `into_iter`.
/// The result is a function of the text. Where the text starts with a list of strings, or with an
/// object of strings, lists of strings and nulls under distinct names, with any whitespace behind
/// commas and colons, that list or that object is what is read. Where it starts with the text of
/// any JSON object or list, what follows that makes no difference.
#[verifier::external_body]
pub(crate) fn first_value(text: &str) -> (res: Option<Json>)
    ensures
        opt_json(res) == first_json(text@),
        forall|fields: Seq<(Seq<char>, Flat)>, gap: Seq<char>|
            #![trigger spaced_object(fields, gap)]
            spaced_object(fields, gap).is_prefix_of(text@) && is_gap(gap) && distinct_names(fields)
                ==> holds_fields(opt_json(res), fields),
        forall|items: Seq<Seq<char>>, gap: Seq<char>|
            #![trigger spaced_list(items, gap)]
            spaced_list(items, gap).is_prefix_of(text@) && is_gap(gap) ==> opt_json(res) == Some(
                flat_json(Flat::List(items)),
            ),
        forall|part: Seq<char>| #[trigger]
            part.is_prefix_of(text@) && is_json_text(part) ==> opt_json(res) == first_json(part)
                && is_opened_by(opt_json(res), part.first()),
{
    match serde_json::Deserializer::from_str(text).into_iter::<serde_json::Value>().next() {
        Some(Ok(value)) => Some(json_of(value)),
        _ => None,
    }
}

/// Reads `text` as one JSON document by `serde_json::from_str` and writes it in compact form by
/// the `Display` of `serde_json::Value`. The result is a function of the text. A list of strings,
/// with any whitespace behind its commas, comes back in compact form.
#[verifier::external_body]
pub(crate) fn compact(text: &str) -> (res: Option<String>)
    ensures
        opt_text(res) == compact_json(text@),
        forall|items: Seq<Seq<char>>, gap: Seq<char>|
            #![trigger spaced_list(items, gap)]
            text@ == spaced_list(items, gap) && is_gap(gap) ==> opt_text(res) == Some(
                list_text(items),
            ),
{
    serde_json::from_str::<serde_json::Value>(text).ok().map(|value| value.to_string())
}

/// Writes `s` as a JSON string by `serde_json::to_string`: quotes, with quote, backslash and
/// control characters escaped and everything else as it is.
#[verifier::external_body]
pub(crate) fn quote(s: &str) -> (res: String)
    ensures
        res@ == quoted(s@),
{
    serde_json::to_string(s).unwrap()
}

/// Writes a list of strings as compact JSON.
pub fn write_list(items: &Vec<String>) -> (res: String)
    ensures
        res@ == list_text(text::texts(items@)),
{
    let ghost all = text::texts(items@);
    let mut res = String::new();
    res.push('[');
    let mut i: usize = 0;
    assert(res@ =~= seq!['['] + strings_text(all.take(0)));
    while i < items.len()
        invariant
            i <= items@.len(),
            all == text::texts(items@),
            res@ == seq!['['] + strings_text(all.take(i as int)),
        decreases items@.len() - i,
    {
        proof {
            assert(all.take(i + 1).drop_last() =~= all.take(i as int));
            assert(all.take(i + 1).last() == items@[i as int]@);
        }
        if i > 0 {
            res.push(',');
        }
        res.append(quote(items[i].as_str()).as_str());
        assert(res@ =~= seq!['['] + strings_text(all.take(i + 1)));
        i += 1;
    }
    assert(all.take(i as int) =~= all);
    res.push(']');
    assert(res@ =~= list_text(all));
    res
}

} // verus!
