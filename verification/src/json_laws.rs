//! What holds of the compact text of a JSON value, and of looking things up in one.

use vstd::prelude::*;

use crate::json::{
    entries_text, entry, entry_text, escaped, escaped_char, hex_digit, items_text, json_quoted,
    json_text, Json, JsonNum,
};
use crate::text::{dec, dec_signed};

verus! {

/// The value of a hexadecimal digit in lower case.
pub open spec fn hex_value(c: char) -> nat {
    if c <= '9' {
        (c as u32 - '0' as u32) as nat
    } else {
        (c as u32 - 'a' as u32 + 10) as nat
    }
}

/// The character that an escape with one letter stands for.
pub open spec fn meant(letter: char) -> char {
    if letter == 'b' {
        '\u{8}'
    } else if letter == 't' {
        '\u{9}'
    } else if letter == 'n' {
        '\u{a}'
    } else if letter == 'f' {
        '\u{c}'
    } else if letter == 'r' {
        '\u{d}'
    } else {
        letter
    }
}

/// The text that a reader gets from what stands between the quotes of a JSON string.
pub open spec fn unescaped(s: Seq<char>) -> Seq<char>
    decreases s.len(),
{
    if s.len() == 0 {
        Seq::empty()
    } else if s[0] != '\u{5c}' || s.len() == 1 {
        seq![s[0]] + unescaped(s.skip(1))
    } else if s[1] == 'u' && s.len() >= 6 {
        let code = hex_value(s[4]) * 16 + hex_value(s[5]);
        seq![code as char] + unescaped(s.skip(6))
    } else {
        seq![meant(s[1])] + unescaped(s.skip(2))
    }
}

proof fn lemma_hex(d: nat)
    requires
        d < 16,
    ensures
        hex_value(hex_digit(d)) == d,
{
    assert(d < 10 ==> (48 + d) as char as u32 == 48 + d);
    assert(d >= 10 ==> (87 + d) as char as u32 == 87 + d);
}

proof fn lemma_escaped_char_reads_back(c: char, rest: Seq<char>)
    ensures
        unescaped(escaped_char(c) + rest) == seq![c] + unescaped(rest),
{
    let e = escaped_char(c);
    let s = e + rest;
    if e.len() == 1 {
        assert(s[0] == c);
        assert(s.skip(1) =~= rest);
    } else if e.len() == 2 {
        assert(s[0] == '\u{5c}');
        assert(s[1] == e[1]);
        assert(s.skip(2) =~= rest);
        assert(s[1] != 'u');
    } else {
        let code = c as u32 as nat;
        assert(code < 32);
        assert(s[0] == '\u{5c}' && s[1] == 'u');
        assert(s[4] == hex_digit(code / 16) && s[5] == hex_digit(code % 16));
        lemma_hex(code / 16);
        lemma_hex(code % 16);
        assert(code == code / 16 * 16 + code % 16);
        assert(code as char == c);
        assert(s.skip(6) =~= rest);
    }
}

proof fn lemma_escaped_front(c: char, rest: Seq<char>)
    ensures
        escaped(seq![c] + rest) == escaped_char(c) + escaped(rest),
    decreases rest.len(),
{
    let s = seq![c] + rest;
    if rest.len() == 0 {
        assert(s.drop_last() =~= Seq::<char>::empty());
        reveal_with_fuel(escaped, 2);
        assert(escaped(s) =~= escaped_char(c) + escaped(rest));
    } else {
        assert(s.drop_last() =~= seq![c] + rest.drop_last());
        lemma_escaped_front(c, rest.drop_last());
        assert(escaped_char(c) + escaped(rest.drop_last()) + escaped_char(rest.last())
            =~= escaped_char(c) + (escaped(rest.drop_last()) + escaped_char(rest.last())));
    }
}

proof fn lemma_reads_back(s: Seq<char>)
    ensures
        unescaped(escaped(s)) == s,
    decreases s.len(),
{
    if s.len() > 0 {
        let rest = s.skip(1);
        assert(seq![s[0]] + rest =~= s);
        lemma_escaped_front(s[0], rest);
        lemma_escaped_char_reads_back(s[0], escaped(rest));
        lemma_reads_back(rest);
    }
}

/// A string is read back as it is, whatever it holds; so different strings have different texts.
pub proof fn law_string_reads_back(s: Seq<char>, other: Seq<char>)
    ensures
        ({
            let text = json_text(Json::Str(s));
            &&& text.len() >= 2
            &&& text[0] == '\u{22}'
            &&& text.last() == '\u{22}'
            &&& unescaped(text.subrange(1, text.len() - 1)) == s
        }),
        json_text(Json::Str(s)) == json_text(Json::Str(other)) ==> s == other,
{
    let text = json_quoted(s);
    assert(text.subrange(1, text.len() - 1) =~= escaped(s));
    lemma_reads_back(s);
    let more = json_quoted(other);
    assert(more.subrange(1, more.len() - 1) =~= escaped(other));
    lemma_reads_back(other);
}

/// Numbers are written in decimal, truth values and nothing by their names.
pub proof fn law_plain_values_are_written(p: u64, n: i64, b: bool)
    ensures
        json_text(Json::Num(JsonNum::PosInt(p))) == dec(p as nat),
        json_text(Json::Num(JsonNum::NegInt(n))) == dec_signed(n as int),
        json_text(Json::Bool(true)) != json_text(Json::Bool(false)),
        json_text(Json::Null) != json_text(Json::Bool(b)),
{
    reveal_strlit("true");
    reveal_strlit("false");
    reveal_strlit("null");
    assert("true"@.len() == 4 && "true"@[0] == 't');
    assert("false"@.len() == 5);
    assert("null"@.len() == 4 && "null"@[0] == 'n');
}

/// The items of an array are written one after the other, all of them, in order, with a comma between
/// them.
pub proof fn law_items_are_written(a: Seq<Json>, b: Seq<Json>)
    ensures
        a.len() > 0 && b.len() > 0 ==> items_text(a + b) == items_text(a) + ","@ + items_text(b),
        a.len() == 1 ==> items_text(a) == json_text(a[0]),
        a.len() == 0 ==> items_text(a).len() == 0,
        json_text(Json::Arr(a)) == "["@ + items_text(a) + "]"@,
    decreases b.len(),
{
    if a.len() > 0 && b.len() == 1 {
        assert((a + b).subrange(0, (a + b).len() - 1) =~= a);
    } else if a.len() > 0 && b.len() > 1 {
        let before = b.subrange(0, b.len() - 1);
        law_items_are_written(a, before);
        assert((a + b).subrange(0, (a + b).len() - 1) =~= a + before);
        assert(items_text(a) + ","@ + items_text(before) + ","@ + json_text(b[b.len() - 1])
            =~= items_text(a) + ","@ + (items_text(before) + ","@ + json_text(b[b.len() - 1])));
    }
}

/// The entries of an object are written one after the other, all of them, in order, with a comma
/// between them; each as its key, a colon and its value.
pub proof fn law_entries_are_written(a: Seq<(Seq<char>, Json)>, b: Seq<(Seq<char>, Json)>)
    ensures
        a.len() > 0 && b.len() > 0 ==> entries_text(a + b) == entries_text(a) + ","@ + entries_text(
            b,
        ),
        a.len() == 1 ==> entries_text(a) == json_text(Json::Str(a[0].0)) + ":"@ + json_text(a[0].1),
        a.len() == 0 ==> entries_text(a).len() == 0,
        json_text(Json::Obj(a)) == "{"@ + entries_text(a) + "}"@,
    decreases b.len(),
{
    if a.len() > 0 && b.len() == 1 {
        assert((a + b).subrange(0, (a + b).len() - 1) =~= a);
    } else if a.len() > 0 && b.len() > 1 {
        let before = b.subrange(0, b.len() - 1);
        law_entries_are_written(a, before);
        assert((a + b).subrange(0, (a + b).len() - 1) =~= a + before);
        let last = entry_text(b[b.len() - 1].0, json_text(b[b.len() - 1].1));
        assert(entries_text(a) + ","@ + entries_text(before) + ","@ + last =~= entries_text(a) + ","@
            + (entries_text(before) + ","@ + last));
    }
}

/// Whether the entry at `i` is the first with a key.
pub open spec fn is_first(entries: Seq<(Seq<char>, Json)>, key: Seq<char>, i: int) -> bool {
    &&& 0 <= i < entries.len()
    &&& entries[i].0 == key
    &&& forall|k: int| 0 <= k < i ==> (#[trigger] entries[k]).0 != key
}

/// What is found under a key is the value of the first entry with that key; nothing is found exactly
/// where there is no such entry.
pub proof fn law_entry_is_found(entries: Seq<(Seq<char>, Json)>, key: Seq<char>)
    ensures
        match entry(entries, key) {
            Some(value) => exists|i: int| #[trigger]
                is_first(entries, key, i) && entries[i].1 == value,
            None => forall|i: int| 0 <= i < entries.len() ==> (#[trigger] entries[i]).0 != key,
        },
        Json::Obj(entries).get(key) == entry(entries, key),
    decreases entries.len(),
{
    if entries.len() > 0 {
        if entries[0].0 == key {
            assert(is_first(entries, key, 0));
        } else {
            let rest = entries.skip(1);
            law_entry_is_found(rest, key);
            if entry(rest, key) is Some {
                let i = choose|i: int| #[trigger]
                    is_first(rest, key, i) && rest[i].1 == entry(rest, key)->0;
                assert forall|k: int| 0 <= k < i + 1 implies (#[trigger] entries[k]).0 != key by {
                    if k > 0 {
                        assert(entries[k] == rest[k - 1]);
                    }
                }
                assert(is_first(entries, key, i + 1));
            } else {
                assert forall|k: int| 0 <= k < entries.len() implies (#[trigger] entries[k]).0
                    != key by {
                    if k > 0 {
                        assert(entries[k] == rest[k - 1]);
                    }
                }
            }
        }
    }
}

/// A value is taken for what it is, and for nothing else.
pub proof fn law_values_are_what_they_are(
    t: Json,
    key: Seq<char>,
    s: Seq<char>,
    items: Seq<Json>,
    b: bool,
    n: u64,
)
    ensures
        t.as_str() == Some(s) <==> t == Json::Str(s),
        t.as_array() == Some(items) <==> t == Json::Arr(items),
        t.as_bool() == Some(b) <==> t == Json::Bool(b),
        t.as_u64() == Some(n) <==> t == Json::Num(JsonNum::PosInt(n)),
        t.str_field(key) == Some(s) <==> t.get(key) == Some(Json::Str(s)),
        !(t is Obj) ==> t.get(key) is None,
{
}

} // verus!
