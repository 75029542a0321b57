//! JSON values as the library holds them, and their compact text.

use vstd::prelude::*;

use crate::dup::Dup;
use crate::text::{dec, dec_signed, decimal, decimal_signed, digit, same};

verus! {

/// A JSON number. `Float` holds the text of a number that is not an integer of 64 bits, and that
/// number converted to an `i32`.
#[derive(Debug, PartialEq)]
pub enum Number {
    PosInt(u64),
    NegInt(i64),
    Float(String, i32),
}

/// A JSON value. The entries of an object that was read stand in ascending order of their keys.
#[derive(Debug, PartialEq)]
pub enum JsonValue {
    Null,
    Bool(bool),
    Number(Number),
    Str(String),
    Array(Vec<JsonValue>),
    Object(Vec<(String, JsonValue)>),
}

/// What a `Number` is.
#[verifier::ext_equal]
pub enum JsonNum {
    PosInt(u64),
    NegInt(i64),
    Float(Seq<char>, i32),
}

/// What a `JsonValue` is.
#[verifier::ext_equal]
pub enum Json {
    Null,
    Bool(bool),
    Num(JsonNum),
    Str(Seq<char>),
    Arr(Seq<Json>),
    Obj(Seq<(Seq<char>, Json)>),
}

impl DeepView for Number {
    type V = JsonNum;

    open spec fn deep_view(&self) -> JsonNum {
        match self {
            Number::PosInt(n) => JsonNum::PosInt(*n),
            Number::NegInt(n) => JsonNum::NegInt(*n),
            Number::Float(text, n) => JsonNum::Float(text@, *n),
        }
    }
}

impl JsonValue {
    pub open spec fn tree(self) -> Json
        decreases self,
    {
        match self {
            JsonValue::Null => Json::Null,
            JsonValue::Bool(b) => Json::Bool(b),
            JsonValue::Number(n) => Json::Num(n.deep_view()),
            JsonValue::Str(s) => Json::Str(s@),
            JsonValue::Array(items) => Json::Arr(
                Seq::new(
                    items@.len(),
                    |i: int|
                        if 0 <= i < items@.len() {
                            items@[i].tree()
                        } else {
                            Json::Null
                        },
                ),
            ),
            JsonValue::Object(entries) => Json::Obj(
                Seq::new(
                    entries@.len(),
                    |i: int|
                        if 0 <= i < entries@.len() {
                            (entries@[i].0@, entries@[i].1.tree())
                        } else {
                            (Seq::empty(), Json::Null)
                        },
                ),
            ),
        }
    }
}

impl DeepView for JsonValue {
    type V = Json;

    open spec fn deep_view(&self) -> Json {
        self.tree()
    }
}

impl Json {
    /// The value of the first entry with the key, if this is an object that has one.
    pub open spec fn get(self, key: Seq<char>) -> Option<Json> {
        match self {
            Json::Obj(entries) => entry(entries, key),
            _ => None,
        }
    }

    pub open spec fn as_str(self) -> Option<Seq<char>> {
        match self {
            Json::Str(s) => Some(s),
            _ => None,
        }
    }

    pub open spec fn as_array(self) -> Option<Seq<Json>> {
        match self {
            Json::Arr(items) => Some(items),
            _ => None,
        }
    }

    pub open spec fn as_bool(self) -> Option<bool> {
        match self {
            Json::Bool(b) => Some(b),
            _ => None,
        }
    }

    pub open spec fn as_u64(self) -> Option<u64> {
        match self {
            Json::Num(JsonNum::PosInt(n)) => Some(n),
            _ => None,
        }
    }

    /// The string under a key, if there is one.
    pub open spec fn str_field(self, key: Seq<char>) -> Option<Seq<char>> {
        match self.get(key) {
            Some(v) => v.as_str(),
            None => None,
        }
    }
}

/// The value of the first entry with the key.
pub open spec fn entry(entries: Seq<(Seq<char>, Json)>, key: Seq<char>) -> Option<Json>
    decreases entries.len(),
{
    if entries.len() == 0 {
        None
    } else if entries[0].0 == key {
        Some(entries[0].1)
    } else {
        entry(entries.skip(1), key)
    }
}

impl Dup for Number {
    fn dup(&self) -> (r: Self) {
        match self {
            Number::PosInt(n) => Number::PosInt(*n),
            Number::NegInt(n) => Number::NegInt(*n),
            Number::Float(text, n) => Number::Float(text.clone(), *n),
        }
    }
}

impl Dup for JsonValue {
    fn dup(&self) -> (r: Self)
        decreases self,
    {
        match self {
            JsonValue::Null => JsonValue::Null,
            JsonValue::Bool(b) => JsonValue::Bool(*b),
            JsonValue::Number(n) => JsonValue::Number(n.dup()),
            JsonValue::Str(s) => JsonValue::Str(s.clone()),
            JsonValue::Array(items) => {
                let mut out: Vec<JsonValue> = Vec::new();
                let mut i: usize = 0;
                while i < items.len()
                    invariant
                        i <= items@.len(),
                        *self == JsonValue::Array(*items),
                        out@.len() == i,
                        forall|j: int| 0 <= j < i ==> (#[trigger] out@[j]).tree() == items@[j].tree(),
                    decreases items@.len() - i,
                {
                    assert(decreases_to!(*self => self->Array_0));
                    assert(decreases_to!(self->Array_0 => self->Array_0@));
                    assert(decreases_to!(items@ => items@[i as int]));
                    let item = items[i].dup();
                    out.push(item);
                    i = i + 1;
                }
                let r = JsonValue::Array(out);
                assert(r.tree()->Arr_0 =~= self.tree()->Arr_0);
                r
            },
            JsonValue::Object(entries) => {
                let mut out: Vec<(String, JsonValue)> = Vec::new();
                let mut i: usize = 0;
                while i < entries.len()
                    invariant
                        i <= entries@.len(),
                        *self == JsonValue::Object(*entries),
                        out@.len() == i,
                        forall|j: int|
                            0 <= j < i ==> (#[trigger] out@[j]).0@ == entries@[j].0@
                                && out@[j].1.tree() == entries@[j].1.tree(),
                    decreases entries@.len() - i,
                {
                    let key = entries[i].0.clone();
                    assert(decreases_to!(*self => self->Object_0));
                    assert(decreases_to!(self->Object_0 => self->Object_0@));
                    assert(decreases_to!(entries@ => entries@[i as int]));
                    assert(decreases_to!(entries@[i as int] => entries@[i as int].1));
                    let value = entries[i].1.dup();
                    out.push((key, value));
                    i = i + 1;
                }
                let r = JsonValue::Object(out);
                assert(r.tree()->Obj_0 =~= self.tree()->Obj_0);
                r
            },
        }
    }
}

/// What the items of an array are.
pub open spec fn item_trees(items: Seq<JsonValue>) -> Seq<Json> {
    Seq::new(items.len(), |i: int| items[i].tree())
}

/// What the entries of an object are.
pub open spec fn entry_trees(entries: Seq<(String, JsonValue)>) -> Seq<(Seq<char>, Json)> {
    Seq::new(entries.len(), |i: int| (entries[i].0@, entries[i].1.tree()))
}

pub broadcast proof fn lemma_tree_of_array(items: Vec<JsonValue>)
    ensures
        #[trigger] JsonValue::Array(items).tree() == Json::Arr(item_trees(items@)),
{
    assert(JsonValue::Array(items).tree()->Arr_0 =~= item_trees(items@));
}

pub broadcast proof fn lemma_tree_of_object(entries: Vec<(String, JsonValue)>)
    ensures
        #[trigger] JsonValue::Object(entries).tree() == Json::Obj(entry_trees(entries@)),
{
    assert(JsonValue::Object(entries).tree()->Obj_0 =~= entry_trees(entries@));
}

impl JsonValue {
    /// A JSON string.
    pub fn string(s: &str) -> (r: Self)
        ensures
            r.tree() == Json::Str(s@),
    {
        JsonValue::Str(s.to_owned())
    }

    /// A JSON array.
    pub fn array(items: Vec<JsonValue>) -> (r: Self)
        ensures
            r.tree() == Json::Arr(item_trees(items@)),
    {
        broadcast use lemma_tree_of_array;

        JsonValue::Array(items)
    }

    /// A JSON object with the entries in their order.
    pub fn object(entries: Vec<(String, JsonValue)>) -> (r: Self)
        ensures
            r.tree() == Json::Obj(entry_trees(entries@)),
    {
        broadcast use lemma_tree_of_object;

        JsonValue::Object(entries)
    }

    /// A JSON object with one entry.
    pub fn object1(key: &str, value: JsonValue) -> (r: Self)
        ensures
            r.tree() == Json::Obj(seq![(key@, value.tree())]),
    {
        let entries = vec![(key.to_owned(), value)];
        assert(entry_trees(entries@) =~= seq![(key@, value.tree())]);
        JsonValue::object(entries)
    }

    /// A JSON object with two entries.
    pub fn object2(key1: &str, value1: JsonValue, key2: &str, value2: JsonValue) -> (r: Self)
        ensures
            r.tree() == Json::Obj(seq![(key1@, value1.tree()), (key2@, value2.tree())]),
    {
        let entries = vec![(key1.to_owned(), value1), (key2.to_owned(), value2)];
        assert(entry_trees(entries@) =~= seq![(key1@, value1.tree()), (key2@, value2.tree())]);
        JsonValue::object(entries)
    }

    /// A JSON object with three entries.
    pub fn object3(
        key1: &str,
        value1: JsonValue,
        key2: &str,
        value2: JsonValue,
        key3: &str,
        value3: JsonValue,
    ) -> (r: Self)
        ensures
            r.tree() == Json::Obj(
                seq![(key1@, value1.tree()), (key2@, value2.tree()), (key3@, value3.tree())],
            ),
    {
        let entries = vec![
            (key1.to_owned(), value1),
            (key2.to_owned(), value2),
            (key3.to_owned(), value3),
        ];
        assert(entry_trees(entries@) =~= seq![
            (key1@, value1.tree()),
            (key2@, value2.tree()),
            (key3@, value3.tree()),
        ]);
        JsonValue::object(entries)
    }

    /// The value under a key, if this is an object that has it.
    pub fn get(&self, key: &str) -> (r: Option<&JsonValue>)
        ensures
            match r {
                Some(v) => self.tree().get(key@) == Some(v.tree()),
                None => self.tree().get(key@) is None,
            },
    {
        match self {
            JsonValue::Object(entries) => {
                let ghost all = entry_trees(entries@);
                proof {
                    lemma_tree_of_object(*entries);
                    assert(all.skip(0) =~= all);
                }
                let mut i: usize = 0;
                while i < entries.len()
                    invariant
                        i <= entries@.len(),
                        all == entry_trees(entries@),
                        self.tree() == Json::Obj(all),
                        entry(all, key@) == entry(all.skip(i as int), key@),
                    decreases entries@.len() - i,
                {
                    assert(all.skip(i as int)[0] == all[i as int]);
                    if same(entries[i].0.as_str(), key) {
                        return Some(&entries[i].1);
                    }
                    assert(all.skip(i as int).skip(1) =~= all.skip(i + 1));
                    i = i + 1;
                }
                None
            },
            _ => None,
        }
    }

    pub fn as_str(&self) -> (r: Option<&str>)
        ensures
            match r {
                Some(s) => self.tree().as_str() == Some(s@),
                None => self.tree().as_str() is None,
            },
    {
        match self {
            JsonValue::Str(s) => Some(s.as_str()),
            _ => None,
        }
    }

    pub fn as_array(&self) -> (r: Option<&Vec<JsonValue>>)
        ensures
            match r {
                Some(items) => self.tree().as_array() == Some(item_trees(items@)),
                None => self.tree().as_array() is None,
            },
    {
        match self {
            JsonValue::Array(items) => {
                proof {
                    lemma_tree_of_array(*items);
                }
                Some(items)
            },
            _ => None,
        }
    }

    pub fn as_bool(&self) -> (r: Option<bool>)
        ensures
            r == self.tree().as_bool(),
    {
        match self {
            JsonValue::Bool(b) => Some(*b),
            _ => None,
        }
    }

    pub fn as_u64(&self) -> (r: Option<u64>)
        ensures
            r == self.tree().as_u64(),
    {
        match self {
            JsonValue::Number(Number::PosInt(n)) => Some(*n),
            _ => None,
        }
    }

    /// The string under a key, if there is one.
    pub fn str_field(&self, key: &str) -> (r: Option<&str>)
        ensures
            match r {
                Some(s) => self.tree().str_field(key@) == Some(s@),
                None => self.tree().str_field(key@) is None,
            },
    {
        match self.get(key) {
            Some(v) => v.as_str(),
            None => None,
        }
    }
}

/// The lower-case hexadecimal digit `d`.
pub open spec fn hex_digit(d: nat) -> char {
    if d < 10 {
        digit(d)
    } else {
        (87 + d) as char
    }
}

/// A character in a JSON string: quotes, backslashes and control characters are escaped.
pub open spec fn escaped_char(c: char) -> Seq<char> {
    let backslash = '\u{5c}';
    if c == '\u{22}' || c == backslash {
        seq![backslash, c]
    } else if c == '\u{8}' {
        seq![backslash, 'b']
    } else if c == '\u{9}' {
        seq![backslash, 't']
    } else if c == '\u{a}' {
        seq![backslash, 'n']
    } else if c == '\u{c}' {
        seq![backslash, 'f']
    } else if c == '\u{d}' {
        seq![backslash, 'r']
    } else if ' ' > c {
        let code = c as u32 as nat;
        seq![backslash, 'u', '0', '0', hex_digit(code / 16), hex_digit(code % 16)]
    } else {
        seq![c]
    }
}

/// The characters of a text, each as it stands in a JSON string.
pub open spec fn escaped(s: Seq<char>) -> Seq<char>
    decreases s.len(),
{
    if s.len() == 0 {
        Seq::empty()
    } else {
        escaped(s.drop_last()) + escaped_char(s.last())
    }
}

/// The JSON text of a string.
pub open spec fn json_quoted(s: Seq<char>) -> Seq<char> {
    seq!['\u{22}'] + escaped(s) + seq!['\u{22}']
}

/// Calls `serde_json::to_string` on a string, which cannot fail: it puts the string between quotes
/// and escapes quotes, backslashes and the characters below U+0020.
#[verifier::external_body]
pub(crate) fn quote(s: &str) -> (r: String)
    ensures
        r@ == json_quoted(s@),
{
    serde_json::to_string(s).unwrap_or_default()
}

/// The compact text of a number.
pub open spec fn number_text(n: JsonNum) -> Seq<char> {
    match n {
        JsonNum::PosInt(n) => dec(n as nat),
        JsonNum::NegInt(n) => dec_signed(n as int),
        JsonNum::Float(text, _) => text,
    }
}

/// The compact text of a value.
pub open spec fn json_text(t: Json) -> Seq<char>
    decreases t,
{
    match t {
        Json::Null => "null"@,
        Json::Bool(b) => if b {
            "true"@
        } else {
            "false"@
        },
        Json::Num(n) => number_text(n),
        Json::Str(s) => json_quoted(s),
        Json::Arr(items) => "["@ + items_text(items) + "]"@,
        Json::Obj(entries) => "{"@ + entries_text(entries) + "}"@,
    }
}

/// The texts of the items, with commas between them.
pub open spec fn items_text(items: Seq<Json>) -> Seq<char>
    decreases items,
{
    if items.len() == 0 {
        Seq::empty()
    } else if items.len() == 1 {
        json_text(items[0])
    } else {
        items_text(items.subrange(0, items.len() - 1)) + ","@ + json_text(items[items.len() - 1])
    }
}

/// The text of one entry of an object.
pub open spec fn entry_text(key: Seq<char>, value: Seq<char>) -> Seq<char> {
    json_quoted(key) + ":"@ + value
}

/// The texts of the entries, with commas between them.
pub open spec fn entries_text(entries: Seq<(Seq<char>, Json)>) -> Seq<char>
    decreases entries,
{
    if entries.len() == 0 {
        Seq::empty()
    } else if entries.len() == 1 {
        entry_text(entries[0].0, json_text(entries[0].1))
    } else {
        entries_text(entries.subrange(0, entries.len() - 1)) + ","@ + entry_text(
            entries[entries.len() - 1].0,
            json_text(entries[entries.len() - 1].1),
        )
    }
}

/// Whether a text has no line break.
pub open spec fn one_line(s: Seq<char>) -> bool {
    forall|i: int| 0 <= i < s.len() ==> #[trigger] s[i] != '\u{a}' && s[i] != '\u{d}'
}

/// Whether the numbers that are held as text are on one line, as those of every value that was
/// read are.
pub open spec fn tidy(t: Json) -> bool
    decreases t,
{
    match t {
        Json::Num(JsonNum::Float(text, _)) => one_line(text),
        Json::Arr(items) => forall|i: int| 0 <= i < items.len() ==> tidy(#[trigger] items[i]),
        Json::Obj(entries) => forall|i: int|
            0 <= i < entries.len() ==> tidy((#[trigger] entries[i]).1),
        _ => true,
    }
}

proof fn lemma_escaped_char_on_one_line(c: char)
    ensures
        one_line(escaped_char(c)),
{
    let code = c as u32 as nat;
    if code < 32 {
        assert(hex_digit(code / 16) as u32 >= 48 && hex_digit(code % 16) as u32 >= 48);
    }
}

proof fn lemma_escaped_on_one_line(s: Seq<char>)
    ensures
        one_line(escaped(s)),
    decreases s.len(),
{
    if s.len() > 0 {
        lemma_escaped_on_one_line(s.drop_last());
        lemma_escaped_char_on_one_line(s.last());
    }
}

proof fn lemma_dec_on_one_line(n: nat)
    ensures
        one_line(dec(n)),
    decreases n,
{
    if n >= 10 {
        lemma_dec_on_one_line(n / 10);
    }
}

proof fn lemma_items_on_one_line(items: Seq<Json>)
    requires
        forall|i: int| 0 <= i < items.len() ==> tidy(#[trigger] items[i]),
    ensures
        one_line(items_text(items)),
    decreases items,
{
    if items.len() > 0 {
        let n = items.len() - 1;
        let init = items.subrange(0, n);
        law_text_is_on_one_line(items[n]);
        assert forall|i: int| 0 <= i < init.len() implies tidy(#[trigger] init[i]) by {
            assert(init[i] == items[i]);
        }
        if n > 0 {
            lemma_items_on_one_line(init);
        }
        reveal_strlit(",");
    }
}

proof fn lemma_entries_on_one_line(entries: Seq<(Seq<char>, Json)>)
    requires
        forall|i: int| 0 <= i < entries.len() ==> tidy((#[trigger] entries[i]).1),
    ensures
        one_line(entries_text(entries)),
    decreases entries,
{
    if entries.len() > 0 {
        let n = entries.len() - 1;
        let init = entries.subrange(0, n);
        assert(decreases_to!(entries => entries[n]));
        assert(decreases_to!(entries[n] => entries[n].1));
        law_text_is_on_one_line(entries[n].1);
        lemma_escaped_on_one_line(entries[n].0);
        assert forall|i: int| 0 <= i < init.len() implies tidy((#[trigger] init[i]).1) by {
            assert(init[i] == entries[i]);
        }
        if n > 0 {
            lemma_entries_on_one_line(init);
        }
        reveal_strlit(",");
        reveal_strlit(":");
    }
}

/// The compact text of a value has no line break, whatever its strings hold.
pub proof fn law_text_is_on_one_line(t: Json)
    requires
        tidy(t),
    ensures
        one_line(json_text(t)),
    decreases t,
{
    reveal_strlit("null");
    reveal_strlit("true");
    reveal_strlit("false");
    reveal_strlit("[");
    reveal_strlit("]");
    reveal_strlit("{");
    reveal_strlit("}");
    match t {
        Json::Num(JsonNum::PosInt(n)) => lemma_dec_on_one_line(n as nat),
        Json::Num(JsonNum::NegInt(n)) => lemma_dec_on_one_line(
            (if n < 0 {
                -n
            } else {
                n as int
            }) as nat,
        ),
        Json::Str(s) => lemma_escaped_on_one_line(s),
        Json::Arr(items) => lemma_items_on_one_line(items),
        Json::Obj(entries) => lemma_entries_on_one_line(entries),
        _ => {},
    }
}

impl JsonValue {
    /// The compact text of the value.
    pub fn to_text(&self) -> (r: String)
        ensures
            r@ == json_text(self.tree()),
        decreases self,
    {
        match self {
            JsonValue::Null => "null".to_owned(),
            JsonValue::Bool(b) => if *b {
                "true".to_owned()
            } else {
                "false".to_owned()
            },
            JsonValue::Number(Number::PosInt(n)) => decimal(*n),
            JsonValue::Number(Number::NegInt(n)) => decimal_signed(*n),
            JsonValue::Number(Number::Float(text, _)) => text.clone(),
            JsonValue::Str(s) => quote(s.as_str()),
            JsonValue::Array(items) => {
                let ghost all = item_trees(items@);
                proof {
                    lemma_tree_of_array(*items);
                }
                let mut out = "[".to_owned();
                let mut i: usize = 0;
                assert(all.subrange(0, 0) =~= Seq::<Json>::empty());
                while i < items.len()
                    invariant
                        i <= items@.len(),
                        *self == JsonValue::Array(*items),
                        all == item_trees(items@),
                        out@ == "["@ + items_text(all.subrange(0, i as int)),
                    decreases items@.len() - i,
                {
                    assert(decreases_to!(*self => self->Array_0));
                    assert(decreases_to!(self->Array_0 => self->Array_0@));
                    assert(decreases_to!(items@ => items@[i as int]));
                    let item = items[i].to_text();
                    proof {
                        let upto = all.subrange(0, i + 1);
                        assert(upto.subrange(0, upto.len() - 1) =~= all.subrange(0, i as int));
                        assert(upto[upto.len() - 1] == items@[i as int].tree());
                        reveal_with_fuel(items_text, 2);
                    }
                    if i > 0 {
                        out.append(",");
                    }
                    out.append(item.as_str());
                    i = i + 1;
                    assert(out@ =~= "["@ + items_text(all.subrange(0, i as int)));
                }
                assert(all.subrange(0, i as int) =~= all);
                out.append("]");
                out
            },
            JsonValue::Object(entries) => {
                let ghost all = entry_trees(entries@);
                proof {
                    lemma_tree_of_object(*entries);
                }
                let mut out = "{".to_owned();
                let mut i: usize = 0;
                assert(all.subrange(0, 0) =~= Seq::<(Seq<char>, Json)>::empty());
                while i < entries.len()
                    invariant
                        i <= entries@.len(),
                        *self == JsonValue::Object(*entries),
                        all == entry_trees(entries@),
                        out@ == "{"@ + entries_text(all.subrange(0, i as int)),
                    decreases entries@.len() - i,
                {
                    assert(decreases_to!(*self => self->Object_0));
                    assert(decreases_to!(self->Object_0 => self->Object_0@));
                    assert(decreases_to!(entries@ => entries@[i as int]));
                    assert(decreases_to!(entries@[i as int] => entries@[i as int].1));
                    let value = entries[i].1.to_text();
                    let key = quote(entries[i].0.as_str());
                    proof {
                        let upto = all.subrange(0, i + 1);
                        assert(upto.subrange(0, upto.len() - 1) =~= all.subrange(0, i as int));
                        assert(upto[upto.len() - 1] == all[i as int]);
                        reveal_with_fuel(entries_text, 2);
                    }
                    if i > 0 {
                        out.append(",");
                    }
                    out.append(key.as_str());
                    out.append(":");
                    out.append(value.as_str());
                    i = i + 1;
                    assert(out@ =~= "{"@ + entries_text(all.subrange(0, i as int)));
                }
                assert(all.subrange(0, i as int) =~= all);
                out.append("}");
                out
            },
        }
    }
}

/// The parsed JSON of `serde_json`, from which a `JsonValue` is read.
#[verifier::external_type_specification]
#[verifier::external_body]
pub struct ExJsonValue(serde_json::Value);

/// What a `serde_json::Value` holds; the entries of an object in the order in which its map
/// yields them.
pub uninterp spec fn json_contents(v: serde_json::Value) -> Json;

/// What `serde_json::from_str` returns for a text; `None` stands for its error.
pub uninterp spec fn json_parsed(raw: Seq<char>) -> Option<Json>;

/// One level of a `serde_json::Value`.
pub enum Level {
    Null,
    Bool(bool),
    Number(Number),
    Str(String),
    Array(Vec<serde_json::Value>),
    Object(Vec<(String, serde_json::Value)>),
}

impl Level {
    pub open spec fn contents(self) -> Json {
        match self {
            Level::Null => Json::Null,
            Level::Bool(b) => Json::Bool(b),
            Level::Number(n) => Json::Num(n.deep_view()),
            Level::Str(s) => Json::Str(s@),
            Level::Array(items) => Json::Arr(
                Seq::new(items@.len(), |i: int| json_contents(items@[i])),
            ),
            Level::Object(entries) => Json::Obj(
                Seq::new(
                    entries@.len(),
                    |i: int| (entries@[i].0@, json_contents(entries@[i].1)),
                ),
            ),
        }
    }
}

/// Calls `serde_json::from_str`; whether the text is JSON, and what it holds, is a function of
/// the text alone.
#[verifier::external_body]
pub(crate) fn parse_outside(raw: &str) -> (r: Option<serde_json::Value>)
    ensures
        match r {
            Some(v) => json_parsed(raw@) == Some(json_contents(v)),
            None => json_parsed(raw@) is None,
        },
{
    serde_json::from_str(raw).ok()
}

/// Takes a `serde_json::Value` apart, one level deep. A number that is neither a `u64` nor an
/// `i64` is given by its text, which has no line break, and by its conversion to an `i32`.
#[verifier::external_body]
pub(crate) fn open_outside(v: serde_json::Value) -> (r: Level)
    ensures
        r.contents() == json_contents(v),
        r matches Level::Number(n) ==> tidy(Json::Num(n.deep_view())),
{
    match v {
        serde_json::Value::Null => Level::Null,
        serde_json::Value::Bool(b) => Level::Bool(b),
        serde_json::Value::Number(n) => Level::Number(match (n.as_u64(), n.as_i64()) {
            (Some(u), _) => Number::PosInt(u),
            (None, Some(i)) => Number::NegInt(i),
            (None, None) => Number::Float(n.to_string(), n.as_f64().unwrap_or_default() as i32),
        }),
        serde_json::Value::String(s) => Level::Str(s),
        serde_json::Value::Array(items) => Level::Array(items),
        serde_json::Value::Object(entries) => Level::Object(entries.into_iter().collect()),
    }
}

impl JsonValue {
    /// The value that a `serde_json::Value` holds.
    pub fn from_outside(v: serde_json::Value) -> (r: Self)
        ensures
            r.tree() == json_contents(v),
            tidy(r.tree()),
        decreases json_contents(v),
    {
        let ghost tree = json_contents(v);
        match open_outside(v) {
            Level::Null => JsonValue::Null,
            Level::Bool(b) => JsonValue::Bool(b),
            Level::Number(n) => JsonValue::Number(n),
            Level::Str(s) => JsonValue::Str(s),
            Level::Array(items) => {
                let ghost all = items@;
                let mut out: Vec<JsonValue> = Vec::new();
                for item in it: items
                    invariant
                        it.seq() == all,
                        tree == json_contents(v),
                        tree == Level::Array(items).contents(),
                        all == items@,
                        out@.len() == it.index(),
                        forall|j: int|
                            0 <= j < it.index() ==> (#[trigger] out@[j]).tree() == json_contents(
                                all[j],
                            ) && tidy(out@[j].tree()),
                {
                    proof {
                        let k = it.index() as int;
                        assert(decreases_to!(tree => tree->Arr_0));
                        assert(decreases_to!(tree->Arr_0 => tree->Arr_0[k]));
                    }
                    out.push(JsonValue::from_outside(item));
                }
                assert(item_trees(out@) =~= tree->Arr_0);
                JsonValue::array(out)
            },
            Level::Object(entries) => {
                let ghost all = entries@;
                let mut out: Vec<(String, JsonValue)> = Vec::new();
                for entry in it: entries
                    invariant
                        it.seq() == all,
                        tree == json_contents(v),
                        tree == Level::Object(entries).contents(),
                        all == entries@,
                        out@.len() == it.index(),
                        forall|j: int|
                            0 <= j < it.index() ==> (#[trigger] out@[j]).0@ == all[j].0@
                                && out@[j].1.tree() == json_contents(all[j].1) && tidy(
                                out@[j].1.tree(),
                            ),
                {
                    proof {
                        let k = it.index() as int;
                        assert(decreases_to!(tree => tree->Obj_0));
                        assert(decreases_to!(tree->Obj_0 => tree->Obj_0[k]));
                        assert(decreases_to!(tree->Obj_0[k] => tree->Obj_0[k].1));
                    }
                    let (key, value) = entry;
                    out.push((key, JsonValue::from_outside(value)));
                }
                assert(entry_trees(out@) =~= tree->Obj_0);
                JsonValue::object(out)
            },
        }
    }

    /// The value that a JSON text writes, if the text is JSON.
    pub fn parse(raw: &str) -> (r: Option<Self>)
        ensures
            match r {
                Some(v) => json_parsed(raw@) == Some(v.tree()) && tidy(v.tree()),
                None => json_parsed(raw@) is None,
            },
    {
        match parse_outside(raw) {
            Some(v) => Some(JsonValue::from_outside(v)),
            None => None,
        }
    }
}

} // verus!
