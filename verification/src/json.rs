//! JSON values as the protocol logic reads and builds them.

use vstd::prelude::*;
use crate::text;

verus! {

/// A JSON value. A number is held as an unsigned integer, a negative integer, or the text of a
/// number that is neither.
#[derive(Debug, PartialEq, Eq)]
pub enum Json {
    Null,
    Bool(bool),
    Unsigned(u64),
    Negative(i64),
    Float(String),
    Str(String),
    Array(Vec<Json>),
    Object(Vec<(String, Json)>),
}

/// What a JSON value holds.
pub enum JsonView {
    Null,
    Bool(bool),
    Unsigned(u64),
    Negative(i64),
    Float(Seq<char>),
    Str(Seq<char>),
    Array(Seq<JsonView>),
    Object(Seq<(Seq<char>, JsonView)>),
}

/// What a JSON value holds.
pub open spec fn content(value: Json) -> JsonView
    decreases value,
{
    match value {
        Json::Null => JsonView::Null,
        Json::Bool(b) => JsonView::Bool(b),
        Json::Unsigned(n) => JsonView::Unsigned(n),
        Json::Negative(n) => JsonView::Negative(n),
        Json::Float(number) => JsonView::Float(number@),
        Json::Str(s) => JsonView::Str(s@),
        Json::Array(items) => JsonView::Array(
            Seq::new(
                items@.len(),
                |i: int|
                    if 0 <= i < items@.len() {
                        content(items@[i])
                    } else {
                        arbitrary()
                    },
            ),
        ),
        Json::Object(fields) => JsonView::Object(
            Seq::new(
                fields@.len(),
                |i: int|
                    if 0 <= i < fields@.len() {
                        (fields@[i].0@, content(fields@[i].1))
                    } else {
                        arbitrary()
                    },
            ),
        ),
    }
}

impl View for Json {
    type V = JsonView;

    open spec fn view(&self) -> JsonView {
        content(*self)
    }
}

/// The value under a key; where a key occurs twice, the later one counts.
pub open spec fn lookup(fields: Seq<(Seq<char>, JsonView)>, key: Seq<char>) -> Option<JsonView>
    decreases fields.len(),
{
    if fields.len() == 0 {
        None
    } else if fields.last().0 == key {
        Some(fields.last().1)
    } else {
        lookup(fields.drop_last(), key)
    }
}

/// The fields with other keys.
pub open spec fn dropped(fields: Seq<(Seq<char>, JsonView)>, key: Seq<char>) -> Seq<
    (Seq<char>, JsonView),
>
    decreases fields.len(),
{
    if fields.len() == 0 {
        Seq::empty()
    } else {
        let before = dropped(fields.drop_last(), key);
        if fields.last().0 == key {
            before
        } else {
            before.push(fields.last())
        }
    }
}

/// A field that was dropped is not found, and the others are found as before.
pub proof fn dropped_lookup(fields: Seq<(Seq<char>, JsonView)>, key: Seq<char>, other: Seq<char>)
    ensures
        lookup(dropped(fields, key), other) == (if other == key {
            None
        } else {
            lookup(fields, other)
        }),
    decreases fields.len(),
{
    if fields.len() > 0 {
        let front = fields.drop_last();
        dropped_lookup(front, key, other);
        if fields.last().0 != key {
            assert(dropped(fields, key).drop_last() =~= dropped(front, key));
        }
    }
}

/// What was put under a key is found there, and the other fields are found as before.
pub proof fn put_is_found(object: JsonView, key: Seq<char>, value: JsonView, other: Seq<char>)
    requires
        object is Object,
    ensures
        object.put(key, value).field(other) == (if other == key {
            Some(value)
        } else {
            object.field(other)
        }),
{
    let fields = object->Object_0;
    dropped_lookup(fields, key, other);
    let kept = dropped(fields, key);
    assert(kept.push((key, value)).drop_last() =~= kept);
}

/// A field that was added is found under its key, and the other fields are found as before.
pub broadcast proof fn added_is_found(
    object: JsonView,
    key: Seq<char>,
    value: JsonView,
    other: Seq<char>,
)
    requires
        object is Object,
    ensures
        (#[trigger] object.with(key, value).field(other)) == (if other == key {
            Some(value)
        } else {
            object.field(other)
        }),
{
    let fields = object->Object_0;
    assert(fields.push((key, value)).drop_last() =~= fields);
}

impl JsonView {
    /// The object without fields.
    pub open spec fn object() -> JsonView {
        JsonView::Object(Seq::empty())
    }

    /// The object with one more field.
    pub open spec fn with(self, key: Seq<char>, value: JsonView) -> JsonView {
        match self {
            JsonView::Object(fields) => JsonView::Object(fields.push((key, value))),
            other => other,
        }
    }

    /// A signed number.
    pub open spec fn signed(n: i64) -> JsonView {
        if n >= 0 {
            JsonView::Unsigned(n as u64)
        } else {
            JsonView::Negative(n)
        }
    }

    /// The object without a field.
    pub open spec fn without(self, key: Seq<char>) -> JsonView {
        match self {
            JsonView::Object(fields) => JsonView::Object(dropped(fields, key)),
            other => other,
        }
    }

    /// The object with a field put in the place of the one it had under the key.
    pub open spec fn put(self, key: Seq<char>, value: JsonView) -> JsonView {
        self.without(key).with(key, value)
    }

    /// The value of a field, of an object that has it.
    pub open spec fn field(self, key: Seq<char>) -> Option<JsonView> {
        match self {
            JsonView::Object(fields) => lookup(fields, key),
            _ => None,
        }
    }

    /// The value of a field, or null where there is none.
    pub open spec fn at(self, key: Seq<char>) -> JsonView {
        match self.field(key) {
            Some(v) => v,
            None => JsonView::Null,
        }
    }

    /// The text of a string.
    pub open spec fn as_text(self) -> Option<Seq<char>> {
        match self {
            JsonView::Str(s) => Some(s),
            _ => None,
        }
    }

    /// The value of a number that is an unsigned integer.
    pub open spec fn as_unsigned(self) -> Option<u64> {
        match self {
            JsonView::Unsigned(n) => Some(n),
            _ => None,
        }
    }

    /// The value of a number that is a signed 64-bit integer.
    pub open spec fn as_signed(self) -> Option<i64> {
        match self {
            JsonView::Unsigned(n) => if n <= i64::MAX {
                Some(n as i64)
            } else {
                None
            },
            JsonView::Negative(n) => Some(n),
            _ => None,
        }
    }

    /// The truth value of a boolean.
    pub open spec fn as_truth(self) -> Option<bool> {
        match self {
            JsonView::Bool(b) => Some(b),
            _ => None,
        }
    }

    /// The items of an array.
    pub open spec fn as_items(self) -> Option<Seq<JsonView>> {
        match self {
            JsonView::Array(items) => Some(items),
            _ => None,
        }
    }

    /// The text of a field that is a string.
    pub open spec fn text_field(self, key: Seq<char>) -> Option<Seq<char>> {
        match self.field(key) {
            Some(v) => v.as_text(),
            None => None,
        }
    }

    /// The value of a field that is an unsigned integer.
    pub open spec fn unsigned_field(self, key: Seq<char>) -> Option<u64> {
        match self.field(key) {
            Some(v) => v.as_unsigned(),
            None => None,
        }
    }

    /// The value of a field that is a boolean.
    pub open spec fn truth_field(self, key: Seq<char>) -> Option<bool> {
        match self.field(key) {
            Some(v) => v.as_truth(),
            None => None,
        }
    }
}

/// The views of the values of a list.
pub open spec fn views(items: Seq<Json>) -> Seq<JsonView> {
    Seq::new(items.len(), |i: int| items[i]@)
}

/// The array of the given texts.
pub open spec fn text_array(items: Seq<Seq<char>>) -> JsonView {
    JsonView::Array(Seq::new(items.len(), |i: int| JsonView::Str(items[i])))
}

/// The array of the given numbers.
pub open spec fn number_array(items: Seq<u64>) -> JsonView {
    JsonView::Array(Seq::new(items.len(), |i: int| JsonView::Unsigned(items[i])))
}

/// The string of a text that is there, and null otherwise.
pub open spec fn text_or_null(text: Option<Seq<char>>) -> JsonView {
    match text {
        Some(s) => JsonView::Str(s),
        None => JsonView::Null,
    }
}

impl Json {
    /// The object without fields.
    pub fn object() -> (r: Json)
        ensures
            r@ == JsonView::object(),
    {
        let r = Json::Object(Vec::new());
        assert(r@->Object_0 =~= Seq::empty());
        r
    }

    /// A signed number.
    pub fn signed(n: i64) -> (r: Json)
        ensures
            r@ == JsonView::signed(n),
    {
        if n >= 0 {
            Json::Unsigned(n as u64)
        } else {
            Json::Negative(n)
        }
    }

    /// A string.
    pub fn text(s: &str) -> (r: Json)
        ensures
            r@ == JsonView::Str(s@),
    {
        Json::Str(s.to_owned())
    }

    /// An array.
    pub fn array(items: Vec<Json>) -> (r: Json)
        ensures
            r@ == JsonView::Array(views(items@)),
    {
        let r = Json::Array(items);
        assert(r@->Array_0 =~= views(items@));
        r
    }

    /// An array of strings.
    pub fn texts(items: &[String]) -> (r: Json)
        ensures
            r@ == text_array(text::text_views(items@)),
    {
        let mut v: Vec<Json> = Vec::new();
        let mut i: usize = 0;
        while i < items.len()
            invariant
                i <= items.len(),
                v@.len() == i,
                forall|k: int| 0 <= k < i ==> (#[trigger] v@[k])@ == JsonView::Str(items@[k]@),
            decreases items.len() - i,
        {
            v.push(Json::text(items[i].as_str()));
            i += 1;
        }
        let r = Json::Array(v);
        assert(r@->Array_0 =~= text_array(text::text_views(items@))->Array_0);
        r
    }

    /// An array of numbers.
    pub fn numbers(items: &[u64]) -> (r: Json)
        ensures
            r@ == number_array(items@),
    {
        let mut v: Vec<Json> = Vec::new();
        let mut i: usize = 0;
        while i < items.len()
            invariant
                i <= items.len(),
                v@.len() == i,
                forall|k: int| 0 <= k < i ==> (#[trigger] v@[k])@ == JsonView::Unsigned(items@[k]),
            decreases items.len() - i,
        {
            v.push(Json::Unsigned(items[i]));
            i += 1;
        }
        let r = Json::Array(v);
        assert(r@->Array_0 =~= number_array(items@)->Array_0);
        r
    }

    /// The object with one more field.
    pub fn with(self, key: &str, value: Json) -> (r: Json)
        ensures
            r@ == self@.with(key@, value@),
    {
        match self {
            Json::Object(mut fields) => {
                let ghost before = Json::Object(fields)@;
                fields.push((key.to_owned(), value));
                let r = Json::Object(fields);
                assert(r@->Object_0 =~= before->Object_0.push((key@, value@)));
                r
            },
            other => other,
        }
    }

    /// The object without a field.
    pub fn without(self, key: &str) -> (r: Json)
        ensures
            r@ == self@.without(key@),
    {
        match self {
            Json::Object(fields) => {
                let ghost all = Json::Object(fields)@->Object_0;
                let mut kept: Vec<(String, Json)> = Vec::new();
                let mut i: usize = 0;
                assert(all.take(0) =~= Seq::empty());
                assert(Json::Object(kept)@->Object_0 =~= Seq::empty());
                while i < fields.len()
                    invariant
                        i <= fields.len(),
                        all == Json::Object(fields)@->Object_0,
                        all.len() == fields.len(),
                        Json::Object(kept)@->Object_0 == dropped(all.take(i as int), key@),
                    decreases fields.len() - i,
                {
                    let ghost before = Json::Object(kept)@->Object_0;
                    assert(all[i as int] == (fields@[i as int].0@, fields@[i as int].1@));
                    assert(all.take(i + 1).drop_last() =~= all.take(i as int));
                    if !text::same(fields[i].0.as_str(), key) {
                        kept.push((fields[i].0.clone(), fields[i].1.clone()));
                        assert(Json::Object(kept)@->Object_0 =~= before.push(all[i as int]));
                    }
                    i += 1;
                }
                assert(all.take(all.len() as int) =~= all);
                Json::Object(kept)
            },
            other => other,
        }
    }

    /// The object with a field put in the place of the one it had under the key.
    pub fn put(self, key: &str, value: Json) -> (r: Json)
        ensures
            r@ == self@.put(key@, value@),
    {
        self.without(key).with(key, value)
    }

    /// The value of a field, of an object that has it.
    pub fn get(&self, key: &str) -> (r: Option<&Json>)
        ensures
            r is Some == self@.field(key@) is Some,
            r matches Some(v) ==> v@ == self@.field(key@)->0,
    {
        match self {
            Json::Object(fields) => {
                let ghost all = self@->Object_0;
                let mut i: usize = fields.len();
                assert(all.take(i as int) =~= all);
                while i > 0
                    invariant
                        i <= fields.len(),
                        *self == Json::Object(*fields),
                        all == self@->Object_0,
                        all.len() == fields.len(),
                        lookup(all, key@) == lookup(all.take(i as int), key@),
                    decreases i,
                {
                    i -= 1;
                    assert(all[i as int] == (fields@[i as int].0@, fields@[i as int].1@));
                    assert(all.take(i + 1).drop_last() =~= all.take(i as int));
                    if text::same(fields[i].0.as_str(), key) {
                        return Some(&fields[i].1);
                    }
                }
                None
            },
            _ => None,
        }
    }

    /// The value of a field, or null where there is none.
    pub fn at(&self, key: &str) -> (r: Json)
        ensures
            r@ == self@.at(key@),
    {
        match self.get(key) {
            Some(v) => v.clone(),
            None => Json::Null,
        }
    }

    /// The text of a string.
    pub fn as_str(&self) -> (r: Option<&str>)
        ensures
            r is Some == self@.as_text() is Some,
            r matches Some(s) ==> s@ == self@.as_text()->0,
    {
        match self {
            Json::Str(s) => Some(s.as_str()),
            _ => None,
        }
    }

    /// The value of a number that is an unsigned integer.
    pub fn as_u64(&self) -> (r: Option<u64>)
        ensures
            r == self@.as_unsigned(),
    {
        match self {
            Json::Unsigned(n) => Some(*n),
            _ => None,
        }
    }

    /// The value of a number that is a signed 64-bit integer.
    pub fn as_i64(&self) -> (r: Option<i64>)
        ensures
            r == self@.as_signed(),
    {
        match self {
            Json::Unsigned(n) => if *n <= 0x7fff_ffff_ffff_ffffu64 {
                Some(*n as i64)
            } else {
                None
            },
            Json::Negative(n) => Some(*n),
            _ => None,
        }
    }

    /// The truth value of a boolean.
    pub fn as_bool(&self) -> (r: Option<bool>)
        ensures
            r == self@.as_truth(),
    {
        match self {
            Json::Bool(b) => Some(*b),
            _ => None,
        }
    }

    /// The items of an array.
    pub fn as_array(&self) -> (r: Option<&Vec<Json>>)
        ensures
            r is Some == self@.as_items() is Some,
            r matches Some(items) ==> views(items@) == self@.as_items()->0,
    {
        match self {
            Json::Array(items) => {
                assert(views(items@) =~= self@->Array_0);
                Some(items)
            },
            _ => None,
        }
    }

    /// The text of a field that is a string.
    pub fn get_str(&self, key: &str) -> (r: Option<&str>)
        ensures
            r is Some == self@.text_field(key@) is Some,
            r matches Some(s) ==> s@ == self@.text_field(key@)->0,
    {
        match self.get(key) {
            Some(v) => v.as_str(),
            None => None,
        }
    }

    /// The value of a field that is an unsigned integer.
    pub fn get_u64(&self, key: &str) -> (r: Option<u64>)
        ensures
            r == self@.unsigned_field(key@),
    {
        match self.get(key) {
            Some(v) => v.as_u64(),
            None => None,
        }
    }

    /// The value of a field that is a boolean.
    pub fn get_bool(&self, key: &str) -> (r: Option<bool>)
        ensures
            r == self@.truth_field(key@),
    {
        match self.get(key) {
            Some(v) => v.as_bool(),
            None => None,
        }
    }
}

impl Clone for Json {
    #[verifier::loop_isolation(false)]
    fn clone(&self) -> (r: Self)
        ensures
            r@ == self@,
        decreases self,
    {
        match self {
            Json::Null => Json::Null,
            Json::Bool(b) => Json::Bool(*b),
            Json::Unsigned(n) => Json::Unsigned(*n),
            Json::Negative(n) => Json::Negative(*n),
            Json::Float(number) => Json::Float(number.clone()),
            Json::Str(s) => Json::Str(s.clone()),
            Json::Array(items) => {
                let mut v: Vec<Json> = Vec::new();
                let mut i: usize = 0;
                while i < items.len()
                    invariant
                        i <= items.len(),
                        v@.len() == i,
                        *self == Json::Array(*items),
                        forall|k: int| 0 <= k < i ==> (#[trigger] v@[k])@ == items@[k]@,
                    decreases items.len() - i,
                {
                    assert(decreases_to!(*items => items@));
                    v.push(items[i].clone());
                    i += 1;
                }
                let r = Json::Array(v);
                assert(r@->Array_0 =~= self@->Array_0);
                r
            },
            Json::Object(fields) => {
                let mut v: Vec<(String, Json)> = Vec::new();
                let mut i: usize = 0;
                while i < fields.len()
                    invariant
                        i <= fields.len(),
                        v@.len() == i,
                        *self == Json::Object(*fields),
                        forall|k: int|
                            0 <= k < i ==> (#[trigger] v@[k]).0@ == fields@[k].0@ && v@[k].1@
                                == fields@[k].1@,
                    decreases fields.len() - i,
                {
                    assert(decreases_to!(*fields => fields@));
                    assert(decreases_to!(fields@[i as int] => fields@[i as int].1));
                    v.push((fields[i].0.clone(), fields[i].1.clone()));
                    i += 1;
                }
                let r = Json::Object(v);
                assert(r@->Object_0 =~= self@->Object_0);
                r
            },
        }
    }
}

/// How a character stands in a string that is written out.
pub open spec fn escaped_char(c: char) -> Seq<char> {
    if c == '"' || c == '\\' {
        seq!['\\', c]
    } else if c == '\u{8}' {
        seq!['\\', 'b']
    } else if c == '\t' {
        seq!['\\', 't']
    } else if c == '\n' {
        seq!['\\', 'n']
    } else if c == '\u{c}' {
        seq!['\\', 'f']
    } else if c == '\r' {
        seq!['\\', 'r']
    } else if (c as int) < 32 {
        "\\u00"@.push(text::digit_char(c as int / 16)).push(text::digit_char(c as int % 16))
    } else {
        seq![c]
    }
}

/// The characters of a string as they stand in one that is written out.
pub open spec fn escaped(s: Seq<char>) -> Seq<char>
    decreases s.len(),
{
    if s.len() == 0 {
        Seq::empty()
    } else {
        escaped(s.drop_last()) + escaped_char(s.last())
    }
}

/// A string as it is written out.
pub open spec fn quoted(s: Seq<char>) -> Seq<char> {
    (seq!['"'] + escaped(s)) + seq!['"']
}

/// A value as it is written out, without spaces.
pub open spec fn written(value: JsonView) -> Seq<char>
    decreases value,
{
    match value {
        JsonView::Null => "null"@,
        JsonView::Bool(b) => if b {
            "true"@
        } else {
            "false"@
        },
        JsonView::Unsigned(n) => text::decimal(n as int),
        JsonView::Negative(n) => text::decimal(n as int),
        JsonView::Float(number) => number,
        JsonView::Str(s) => quoted(s),
        JsonView::Array(items) => ("["@ + text::joined(written_items(items), ","@)) + "]"@,
        JsonView::Object(fields) => ("{"@ + text::joined(written_fields(fields), ","@)) + "}"@,
    }
}

/// The values of a list as they are written out.
pub open spec fn written_items(items: Seq<JsonView>) -> Seq<Seq<char>>
    decreases items,
{
    if items.len() == 0 {
        Seq::empty()
    } else {
        written_items(items.subrange(0, items.len() - 1)).push(written(items[items.len() - 1]))
    }
}

/// The fields of an object as they are written out.
pub open spec fn written_fields(fields: Seq<(Seq<char>, JsonView)>) -> Seq<Seq<char>>
    decreases fields,
{
    if fields.len() == 0 {
        Seq::empty()
    } else {
        let last = fields[fields.len() - 1];
        written_fields(fields.subrange(0, fields.len() - 1)).push(
            (quoted(last.0) + ":"@) + written(last.1),
        )
    }
}

/// `Display` of `serde_json::Value` writes a string in quotes: a quote and a backslash after a
/// backslash, the control characters below the space as `\b`, `\t`, `\n`, `\f`, `\r` or with two
/// hexadecimal digits after `\u00`, and every other character as it is.
#[verifier::external_body]
fn quote(s: &str) -> (r: String)
    ensures
        r@ == quoted(s@),
{
    serde_json::Value::from(s).to_string()
}

impl Json {
    /// The value as it is written out, without spaces.
    #[verifier::loop_isolation(false)]
    pub fn to_text(&self) -> (r: String)
        ensures
            r@ == written(self@),
        decreases self,
    {
        match self {
            Json::Null => "null".to_owned(),
            Json::Bool(b) => if *b {
                "true".to_owned()
            } else {
                "false".to_owned()
            },
            Json::Unsigned(n) => text::decimal_of(*n),
            Json::Negative(n) => text::signed_decimal_of(*n),
            Json::Float(number) => number.clone(),
            Json::Str(s) => quote(s.as_str()),
            Json::Array(items) => {
                let ghost shown = self@->Array_0;
                let mut parts: Vec<String> = Vec::new();
                let mut i: usize = 0;
                assert(text::text_views(parts@) =~= Seq::empty());
                while i < items.len()
                    invariant
                        i <= items.len(),
                        *self == Json::Array(*items),
                        shown == self@->Array_0,
                        text::text_views(parts@) == written_items(shown.take(i as int)),
                    decreases items.len() - i,
                {
                    assert(decreases_to!(*items => items@));
                    let ghost earlier = parts@;
                    parts.push(items[i].to_text());
                    i += 1;
                    assert(shown.take(i as int).subrange(0, i - 1) =~= shown.take(i - 1));
                    assert(text::text_views(parts@) =~= text::text_views(earlier).push(
                        written(shown[i - 1]),
                    ));
                }
                assert(shown.take(i as int) =~= shown);
                let list = text::join_all(parts.as_slice(), ",");
                text::join(text::join("[", list.as_str()).as_str(), "]")
            },
            Json::Object(fields) => {
                let ghost shown = self@->Object_0;
                let mut parts: Vec<String> = Vec::new();
                let mut i: usize = 0;
                assert(text::text_views(parts@) =~= Seq::empty());
                while i < fields.len()
                    invariant
                        i <= fields.len(),
                        *self == Json::Object(*fields),
                        shown == self@->Object_0,
                        text::text_views(parts@) == written_fields(shown.take(i as int)),
                    decreases fields.len() - i,
                {
                    assert(decreases_to!(*fields => fields@));
                    assert(decreases_to!(fields@[i as int] => fields@[i as int].1));
                    let ghost earlier = parts@;
                    let key = text::join(quote(fields[i].0.as_str()).as_str(), ":");
                    parts.push(text::join(key.as_str(), fields[i].1.to_text().as_str()));
                    i += 1;
                    assert(shown.take(i as int).subrange(0, i - 1) =~= shown.take(i - 1));
                    assert(text::text_views(parts@) =~= text::text_views(earlier).push(
                        (quoted(shown[i - 1].0) + ":"@) + written(shown[i - 1].1),
                    ));
                }
                assert(shown.take(i as int) =~= shown);
                let list = text::join_all(parts.as_slice(), ",");
                text::join(text::join("{", list.as_str()).as_str(), "}")
            },
        }
    }
}

/// The texts of a list of literals.
pub open spec fn literals(items: Seq<&'static str>) -> Seq<Seq<char>> {
    Seq::new(items.len(), |i: int| items[i]@)
}

/// An array of the texts of a list of literals.
pub fn literal_array(items: &[&'static str]) -> (r: Json)
    ensures
        r@ == text_array(literals(items@)),
{
    let mut v: Vec<Json> = Vec::new();
    let mut i: usize = 0;
    while i < items.len()
        invariant
            i <= items.len(),
            v@.len() == i,
            forall|k: int| 0 <= k < i ==> (#[trigger] v@[k])@ == JsonView::Str(items@[k]@),
        decreases items.len() - i,
    {
        v.push(Json::text(items[i]));
        i += 1;
    }
    let r = Json::array(v);
    assert(r@->Array_0 =~= text_array(literals(items@))->Array_0);
    r
}

/// An array of one literal.
pub fn one_text(s: &'static str) -> (r: Json)
    ensures
        r@ == text_array(seq![s@]),
{
    let mut v: Vec<&'static str> = Vec::new();
    v.push(s);
    assert(literals(v@) =~= seq![s@]);
    literal_array(v.as_slice())
}

/// An object with a text field where there is a text.
pub open spec fn with_text(object: JsonView, key: Seq<char>, value: Option<String>) -> JsonView {
    match value {
        Some(s) => object.with(key, JsonView::Str(s@)),
        None => object,
    }
}

/// Adds a text field where there is a text.
pub fn add_text(object: Json, key: &str, value: &Option<String>) -> (r: Json)
    ensures
        r@ == with_text(object@, key@, *value),
{
    match value {
        Some(s) => object.with(key, Json::text(s.as_str())),
        None => object,
    }
}

} // verus!
