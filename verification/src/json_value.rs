//! Messages in JSON notation.
use crate::text::{characters, same_text};
use json::JsonValue;
use vstd::prelude::*;

verus! {

/// A value in a message. Numbers, arrays and objects come with their notation.
#[derive(Debug)]
pub enum Json {
    /// Nothing.
    Null,
    /// A text.
    Text(String),
    /// A number, and its value as an unsigned integer of the machine's word, if
    /// it has one. A number with a sign has none, nor has one that is read as a
    /// multiple of a power of ten, such as `1e2` or `100.0`.
    Number(String, Option<usize>),
    /// A truth value.
    Boolean(bool),
    /// A row of values.
    Array(String, Vec<Json>),
    /// Values by their keys.
    Object(String, Vec<(String, Json)>),
}

/// What a value says.
pub enum JsonView {
    Null,
    Text(Seq<char>),
    Number(Seq<char>, Option<usize>),
    Boolean(bool),
    Array(Seq<char>, Seq<JsonView>),
    Object(Seq<char>, Seq<(Seq<char>, JsonView)>),
}

impl JsonView {
    /// The value as it is shown to a user: a text as it is, everything else in
    /// JSON notation.
    pub open spec fn text(self) -> Seq<char> {
        match self {
            JsonView::Null => "null"@,
            JsonView::Text(text) => text,
            JsonView::Number(text, _) => text,
            JsonView::Boolean(flag) => if flag {
                "true"@
            } else {
                "false"@
            },
            JsonView::Array(text, _) => text,
            JsonView::Object(text, _) => text,
        }
    }

    /// The member of an object with the given key. The last one counts if there
    /// are several. Everything else has no members.
    pub open spec fn member(self, key: Seq<char>) -> JsonView {
        match self {
            JsonView::Object(_, entries) => lookup(entries, key),
            _ => JsonView::Null,
        }
    }

    /// The value of a number.
    pub open spec fn number(self) -> Option<usize> {
        match self {
            JsonView::Number(_, number) => number,
            _ => None,
        }
    }
}

/// The value with the given key.
pub open spec fn lookup(entries: Seq<(Seq<char>, JsonView)>, key: Seq<char>) -> JsonView
    decreases entries.len(),
{
    if entries.len() == 0 {
        JsonView::Null
    } else if entries.last().0 == key {
        entries.last().1
    } else {
        lookup(entries.drop_last(), key)
    }
}

impl Json {
    /// What the value says.
    pub open spec fn value(self) -> JsonView
        decreases self,
    {
        match self {
            Json::Null => JsonView::Null,
            Json::Text(text) => JsonView::Text(text@),
            Json::Number(text, number) => JsonView::Number(text@, number),
            Json::Boolean(flag) => JsonView::Boolean(flag),
            Json::Array(text, items) => JsonView::Array(
                text@,
                Seq::new(
                    items@.len(),
                    |i: int|
                        if 0 <= i < items@.len() {
                            items@[i].value()
                        } else {
                            arbitrary()
                        },
                ),
            ),
            Json::Object(text, entries) => JsonView::Object(
                text@,
                Seq::new(
                    entries@.len(),
                    |i: int|
                        if 0 <= i < entries@.len() {
                            (entries@[i].0@, entries@[i].1.value())
                        } else {
                            arbitrary()
                        },
                ),
            ),
        }
    }

    /// The value as it is shown to a user.
    pub fn text(&self) -> (r: String)
        ensures
            r@ == self.value().text(),
    {
        match self {
            Json::Null => "null".to_owned(),
            Json::Text(text) => text.clone(),
            Json::Number(text, _) => text.clone(),
            Json::Boolean(flag) => {
                if *flag {
                    "true".to_owned()
                } else {
                    "false".to_owned()
                }
            },
            Json::Array(text, _) => text.clone(),
            Json::Object(text, _) => text.clone(),
        }
    }

    /// Whether there is no value.
    pub fn is_null(&self) -> (r: bool)
        ensures
            r == (self.value() == JsonView::Null),
    {
        match self {
            Json::Null => true,
            _ => false,
        }
    }

    /// The value of a number.
    pub fn as_usize(&self) -> (r: Option<usize>)
        ensures
            r == self.value().number(),
    {
        match self {
            Json::Number(_, number) => *number,
            _ => None,
        }
    }

    /// The member of an object with the given key.
    pub fn member(&self, key: &str) -> (r: &Json)
        ensures
            r.value() == self.value().member(key@),
    {
        if let Json::Object(_, entries) = self {
            let ghost all = self.value()->Object_1;
            let mut n: usize = entries.len();
            assert(all.take(n as int) =~= all);
            while n > 0
                invariant
                    n <= entries@.len(),
                    all.len() == entries@.len(),
                    forall|i: int|
                        0 <= i < all.len() ==> #[trigger] all[i] == (
                            entries@[i].0@,
                            entries@[i].1.value(),
                        ),
                    self.value().member(key@) == lookup(all.take(n as int), key@),
                decreases n,
            {
                assert(all.take(n as int).drop_last() =~= all.take(n - 1));
                n = n - 1;
                assert(all.take(n + 1).last() == all[n as int]);
                if same_text(entries[n].0.as_str(), key) {
                    return &entries[n].1;
                }
            }
        }
        &Json::Null
    }

    /// The member of an object with the given key, taken out of it.
    pub fn into_member(self, key: &str) -> (r: Json)
        ensures
            r.value() == self.value().member(key@),
    {
        let ghost whole = self.value();
        match self {
            Json::Object(_, entries) => {
                let mut entries = entries;
                let ghost all = whole->Object_1;
                let mut n: usize = entries.len();
                assert(all.take(n as int) =~= all);
                while n > 0
                    invariant
                        n <= entries@.len(),
                        all.len() == entries@.len(),
                        forall|i: int|
                            0 <= i < all.len() ==> #[trigger] all[i] == (
                                entries@[i].0@,
                                entries@[i].1.value(),
                            ),
                        whole.member(key@) == lookup(all.take(n as int), key@),
                        whole == self.value(),
                    decreases n,
                {
                    assert(all.take(n as int).drop_last() =~= all.take(n - 1));
                    n = n - 1;
                    assert(all.take(n + 1).last() == all[n as int]);
                    if same_text(entries[n].0.as_str(), key) {
                        return entries.swap_remove(n).1;
                    }
                }
                Json::Null
            },
            _ => Json::Null,
        }
    }
}

/// What a row of values says.
pub open spec fn values(items: Seq<Json>) -> Seq<JsonView> {
    Seq::new(items.len(), |i: int| items[i].value())
}

/// What an array says.
pub proof fn array_value(text: String, items: Vec<Json>)
    ensures
        Json::Array(text, items).value() == JsonView::Array(text@, values(items@)),
{
    assert(Json::Array(text, items).value()->Array_1 =~= values(items@));
}

/// A value as the `json` crate holds it.
#[verifier::external_type_specification]
#[verifier::external_body]
pub struct ExJsonValue(json::JsonValue);

/// What a value of the `json` crate says: its kind, what it holds, and how it is
/// displayed.
pub uninterp spec fn json_value(value: JsonValue) -> JsonView;

/// The value that a text in JSON notation stands for, or the message that says
/// where the notation is broken.
pub uninterp spec fn json_document(text: Seq<char>) -> Result<JsonView, Seq<char>>;

/// Where the end of a text stands: outside of strings, inside of one, or behind a
/// backslash inside of one.
pub enum Quoting {
    Outside,
    Inside,
    Escaped,
}

/// Where the end of a text in JSON notation stands.
pub open spec fn quoting(text: Seq<char>) -> Quoting
    decreases text.len(),
{
    if text.len() == 0 {
        Quoting::Outside
    } else {
        match quoting(text.drop_last()) {
            Quoting::Outside => if text.last() == '"' {
                Quoting::Inside
            } else {
                Quoting::Outside
            },
            Quoting::Inside => if text.last() == '"' {
                Quoting::Outside
            } else if text.last() == '\\' {
                Quoting::Escaped
            } else {
                Quoting::Inside
            },
            Quoting::Escaped => Quoting::Inside,
        }
    }
}

/// Whether the number at a place outside of strings is a zero and a fraction that
/// starts with 32749 zeros and has 20 more digits. That is the shortest fraction
/// that can take the exponent of a number, which has 16 bits, below its range.
pub open spec fn is_long_fraction(text: Seq<char>, at: int) -> bool {
    &&& 0 <= at && at + 32771 <= text.len()
    &&& quoting(text.take(at)) is Outside
    &&& at > 0 ==> !crate::text::is_digit(text[at - 1])
    &&& text[at] == '0'
    &&& text[at + 1] == '.'
    &&& forall|k: int| at + 2 <= k < at + 32751 ==> #[trigger] text[k] == '0'
    &&& forall|k: int| at + 32751 <= k < at + 32771 ==> crate::text::is_digit(#[trigger] text[k])
}

/// Whether a number in a text has a fraction that is too long to be read.
pub open spec fn has_long_fraction(text: Seq<char>) -> bool {
    exists|at: int| #[trigger] is_long_fraction(text, at)
}

/// Whether a character is a decimal digit.
fn is_decimal(ch: char) -> (r: bool)
    ensures
        r == crate::text::is_digit(ch),
{
    '0' <= ch && ch <= '9'
}

/// Whether a zero and a long fraction start at a place, wherever it stands.
fn starts_long_fraction(chars: &Vec<char>, at: usize) -> (r: bool)
    requires
        at < chars@.len(),
        quoting(chars@.take(at as int)) is Outside,
    ensures
        r == is_long_fraction(chars@, at as int),
{
    if chars.len() - at < 32771 || chars[at] != '0' || chars[at + 1] != '.' {
        return false;
    }
    if at > 0 && is_decimal(chars[at - 1]) {
        return false;
    }
    let end: usize = at + 32771;
    let mut k: usize = at + 2;
    while k < end
        invariant
            at + 2 <= k <= end,
            end == at + 32771,
            end <= chars@.len(),
            forall|j: int| at + 2 <= j < at + 32751 && j < k ==> #[trigger] chars@[j] == '0',
            forall|j: int|
                at + 32751 <= j < at + 32771 && j < k ==> crate::text::is_digit(
                    #[trigger] chars@[j],
                ),
        decreases end - k,
    {
        let ch = chars[k];
        if (end - k > 20 && ch != '0') || !is_decimal(ch) {
            assert(!is_long_fraction(chars@, at as int)) by {
                assert(chars@[k as int] == ch);
            }
            return false;
        }
        k = k + 1;
    }
    true
}

/// Whether all numbers in a text can be read.
pub fn has_readable_numbers(text: &str) -> (r: bool)
    ensures
        r == !has_long_fraction(text@),
{
    let chars = characters(text);
    let mut inside = false;
    let mut escaped = false;
    let mut i: usize = 0;
    while i < chars.len()
        invariant
            i <= chars@.len(),
            chars@ == text@,
            quoting(text@.take(i as int)) == if escaped {
                Quoting::Escaped
            } else if inside {
                Quoting::Inside
            } else {
                Quoting::Outside
            },
            escaped ==> inside,
            forall|at: int| at < i ==> !#[trigger] is_long_fraction(text@, at),
        decreases chars@.len() - i,
    {
        if !inside && starts_long_fraction(&chars, i) {
            return false;
        }
        assert(!is_long_fraction(text@, i as int));
        assert(text@.take(i + 1).drop_last() =~= text@.take(i as int));
        assert(text@.take(i + 1).last() == chars@[i as int]);
        let ch = chars[i];
        if escaped {
            escaped = false;
        } else if inside {
            if ch == '"' {
                inside = false;
            } else if ch == '\\' {
                escaped = true;
            }
        } else if ch == '"' {
            inside = true;
        }
        i = i + 1;
    }
    true
}

/// `json::parse`: reads a text in JSON notation. An error is given as its
/// message. The value, or the message, is a function of the text alone; what it
/// is for a given text is not stated. Texts with a number whose fraction is so
/// long that its exponent would overflow are left out.
#[verifier::external_body]
fn parse_value(text: &str) -> (r: Result<JsonValue, String>)
    requires
        !has_long_fraction(text@),
    ensures
        match r {
            Ok(value) => json_document(text@) == Ok::<JsonView, Seq<char>>(json_value(value)),
            Err(message) => json_document(text@) == Err::<JsonView, Seq<char>>(message@),
        },
{
    json::parse(text).map_err(|error| error.to_string())
}

/// The value of the library that stands for a value of the `json` crate: the same
/// kind with the same contents, a number with what `JsonValue::as_usize` makes of
/// it, and numbers, arrays and objects with the text that `JsonValue` displays.
/// The two kinds of texts of that crate are one here.
#[verifier::external_body]
fn json_of(value: &JsonValue) -> (r: Json)
    ensures
        r.value() == json_value(*value),
{
    let text = value.to_string();
    match value {
        JsonValue::Null => Json::Null,
        JsonValue::Short(_) => Json::Text(text),
        JsonValue::String(_) => Json::Text(text),
        JsonValue::Number(_) => Json::Number(text, value.as_usize()),
        JsonValue::Boolean(flag) => Json::Boolean(*flag),
        JsonValue::Array(items) => Json::Array(text, items.iter().map(json_of).collect()),
        JsonValue::Object(entries) => Json::Object(
            text,
            entries.iter().map(|(key, value)| (key.to_owned(), json_of(value))).collect(),
        ),
    }
}

/// Reads a text in JSON notation.
pub fn parse_json(text: &str) -> (r: Result<Json, String>)
    requires
        !has_long_fraction(text@),
    ensures
        match json_document(text@) {
            Ok(value) => r matches Ok(found) && found.value() == value,
            Err(message) => r matches Err(text) && text@ == message,
        },
{
    match parse_value(text) {
        Ok(value) => Ok(json_of(&value)),
        Err(message) => Err(message),
    }
}

/// Whether a text is written in JSON notation without escapes: it holds no
/// control characters, quotes or backslashes.
pub open spec fn is_plain(text: Seq<char>) -> bool {
    forall|i: int| 0 <= i < text.len() ==> #[trigger] text[i] >= ' ' && text[i] != '"' && text[i] != '\\'
}

/// An object with a text under one key, in JSON notation.
pub open spec fn pair_notation(key: Seq<char>, value: Seq<char>) -> Seq<char> {
    "{\""@ + key + "\":\""@ + value + "\"}"@
}

/// `json::object::Object::dump`, on an object with a single entry whose value is
/// a text: the entry between braces, with quotes round the key and the value and
/// a colon between them. Texts that need escapes are left out.
#[verifier::external_body]
pub(crate) fn dump_pair(key: &str, value: &str) -> (r: String)
    requires
        is_plain(key@),
        is_plain(value@),
    ensures
        r@ == pair_notation(key@, value@),
{
    let mut object = json::object::Object::new();
    object.insert(key, JsonValue::from(value));
    object.dump()
}

/// The last entry with a key is the member of an object with this key. An object
/// without such an entry, and everything that is no object, has no such member.
pub proof fn last_entry_is_the_member(
    text: Seq<char>,
    entries: Seq<(Seq<char>, JsonView)>,
    key: Seq<char>,
    at: int,
)
    requires
        -1 <= at < entries.len(),
        at >= 0 ==> entries[at].0 == key,
        forall|i: int| at < i < entries.len() ==> (#[trigger] entries[i]).0 != key,
    ensures
        JsonView::Object(text, entries).member(key) == if at >= 0 {
            entries[at].1
        } else {
            JsonView::Null
        },
        forall|other: JsonView| !(other is Object) ==> #[trigger] other.member(key) == JsonView::Null,
    decreases entries.len(),
{
    if at < entries.len() - 1 {
        let front = entries.drop_last();
        assert(entries[entries.len() - 1].0 != key);
        assert forall|i: int| at < i < front.len() implies (#[trigger] front[i]).0 != key by {
            assert(entries[i].0 != key);
        }
        last_entry_is_the_member(text, front, key, at);
    }
}

} // verus!
