//! A small structured-data value, its textual form, and a recursive-descent
//! reader for that form.
//!
//! Numbers are kept as the decimal text they were written in, so a value never
//! loses digits between reading and writing.

use crate::text::{
    char_is_digit, char_is_whitespace, has_at, is_digit, is_whitespace, matches_at, push_char,
};
use vstd::prelude::*;

verus! {

/// The mathematical content of a [`JsonValue`].
pub enum JsonModel {
    Null,
    Bool(bool),
    Number(Seq<char>),
    Text(Seq<char>),
    Array(Seq<JsonModel>),
    Object(Seq<(Seq<char>, JsonModel)>),
}

/// A structured value: null, a boolean, a number, a string, an ordered array,
/// or an object whose fields are kept in the order they were added.
#[derive(Debug)]
pub enum JsonValue {
    Null,
    Bool(bool),
    Number(String),
    String(String),
    Array(Vec<JsonValue>),
    Object(Vec<(String, JsonValue)>),
}

impl View for JsonValue {
    type V = JsonModel;

    open spec fn view(&self) -> JsonModel {
        model_of(*self)
    }
}

/// The content of a value.
pub open spec fn model_of(v: JsonValue) -> JsonModel
    decreases v,
{
    match v {
        JsonValue::Null => JsonModel::Null,
        JsonValue::Bool(b) => JsonModel::Bool(b),
        JsonValue::Number(t) => JsonModel::Number(t@),
        JsonValue::String(t) => JsonModel::Text(t@),
        JsonValue::Array(items) => JsonModel::Array(items_model(items@)),
        JsonValue::Object(fields) => JsonModel::Object(fields_model(fields@)),
    }
}

/// The contents of a run of values, item by item.
pub open spec fn items_model(items: Seq<JsonValue>) -> Seq<JsonModel>
    decreases items,
{
    if items.len() == 0 {
        Seq::empty()
    } else {
        items_model(items.drop_last()).push(model_of(items.last()))
    }
}

/// The contents of a run of fields: each key with the content of its value.
pub open spec fn fields_model(fields: Seq<(String, JsonValue)>) -> Seq<(Seq<char>, JsonModel)>
    decreases fields,
{
    if fields.len() == 0 {
        Seq::empty()
    } else {
        fields_model(fields.drop_last()).push((fields.last().0@, model_of(fields.last().1)))
    }
}

/// `items_model` keeps the length and works item by item.
pub proof fn lemma_items_model(items: Seq<JsonValue>)
    ensures
        items_model(items).len() == items.len(),
        forall|k: int| 0 <= k < items.len() ==> (#[trigger] items_model(items)[k]) == items[k]@,
    decreases items.len(),
{
    if items.len() > 0 {
        lemma_items_model(items.drop_last());
    }
}

/// `fields_model` keeps the length and works field by field.
pub proof fn lemma_fields_model(fields: Seq<(String, JsonValue)>)
    ensures
        fields_model(fields).len() == fields.len(),
        forall|k: int|
            0 <= k < fields.len() ==> (#[trigger] fields_model(fields)[k]) == (
                fields[k].0@,
                fields[k].1@,
            ),
    decreases fields.len(),
{
    if fields.len() > 0 {
        lemma_fields_model(fields.drop_last());
    }
}

/// Adding a value to a run adds its content to the run's contents.
pub proof fn lemma_items_model_push(items: Seq<JsonValue>, v: JsonValue)
    ensures
        items_model(items.push(v)) == items_model(items).push(v@),
{
    assert(items.push(v).drop_last() == items);
}

/// Adding a field to a run adds its key and its value's content to the run's
/// contents.
pub proof fn lemma_fields_model_push(fields: Seq<(String, JsonValue)>, key: String, v: JsonValue)
    ensures
        fields_model(fields.push((key, v))) == fields_model(fields).push((key@, v@)),
{
    assert(fields.push((key, v)).drop_last() == fields);
}

/// The text of one character inside a quoted string: a backslash and a
/// double quote are written behind a backslash, every other character as it is.
pub open spec fn escape_char(c: char) -> Seq<char> {
    if c == '\\' || c == '"' {
        seq!['\\', c]
    } else {
        seq![c]
    }
}

/// The text of a string's characters inside its quotes.
pub open spec fn escape(t: Seq<char>) -> Seq<char>
    decreases t.len(),
{
    if t.len() == 0 {
        Seq::empty()
    } else {
        escape(t.drop_last()) + escape_char(t.last())
    }
}

/// A string in its quoted textual form.
pub open spec fn quoted(t: Seq<char>) -> Seq<char> {
    seq!['"'] + escape(t) + seq!['"']
}

/// The textual form of a value: no white space, array items and object fields
/// separated by commas, fields written in their stored order.
pub open spec fn render(v: JsonModel) -> Seq<char>
    decreases v,
{
    match v {
        JsonModel::Null => seq!['n', 'u', 'l', 'l'],
        JsonModel::Bool(b) => if b {
            seq!['t', 'r', 'u', 'e']
        } else {
            seq!['f', 'a', 'l', 's', 'e']
        },
        JsonModel::Number(t) => t,
        JsonModel::Text(t) => quoted(t),
        JsonModel::Array(items) => seq!['['] + render_items(items) + seq![']'],
        JsonModel::Object(fields) => seq!['{'] + render_fields(fields) + seq!['}'],
    }
}

/// The textual forms of array items, joined by commas.
pub open spec fn render_items(items: Seq<JsonModel>) -> Seq<char>
    decreases items,
{
    if items.len() == 0 {
        Seq::empty()
    } else if items.len() == 1 {
        render(items[0])
    } else {
        render_items(items.drop_last()) + seq![','] + render(items.last())
    }
}

/// One object field: the quoted key, a colon, the value's text.
pub open spec fn render_field(key: Seq<char>, value_text: Seq<char>) -> Seq<char> {
    quoted(key) + seq![':'] + value_text
}

/// The textual forms of object fields, joined by commas.
pub open spec fn render_fields(fields: Seq<(Seq<char>, JsonModel)>) -> Seq<char>
    decreases fields,
{
    if fields.len() == 0 {
        Seq::empty()
    } else if fields.len() == 1 {
        render_field(fields[0].0, render(fields[0].1))
    } else {
        render_fields(fields.drop_last()) + seq![','] + render_field(
            fields.last().0,
            render(fields.last().1),
        )
    }
}

/// Whether `c` may stand in a number: a digit, a dot, a sign or an exponent
/// mark.
pub open spec fn is_number_char(c: char) -> bool {
    is_digit(c) || c == '.' || c == '-' || c == '+' || c == 'e' || c == 'E'
}

/// The first position at or after `i` that holds no digit.
pub open spec fn digits_end(s: Seq<char>, i: int) -> int
    decreases s.len() - i,
{
    if 0 <= i < s.len() && is_digit(s[i]) {
        digits_end(s, i + 1)
    } else {
        i
    }
}

/// Whether `t` is a number: an optional minus sign; then digits with at most
/// one dot among them and at least one digit in all; then optionally `e` or
/// `E`, an optional sign and at least one digit. The first character is a
/// digit or the minus sign.
pub open spec fn is_number_text(t: Seq<char>) -> bool {
    let a: int = if t.len() > 0 && t[0] == '-' {
        1
    } else {
        0
    };
    let b = digits_end(t, a);
    let has_dot = b < t.len() && t[b] == '.';
    let c = if has_dot {
        digits_end(t, b + 1)
    } else {
        b
    };
    let mantissa_digits = (b - a) + (if has_dot {
        c - (b + 1)
    } else {
        0
    });
    let d = if c + 1 < t.len() && (t[c + 1] == '+' || t[c + 1] == '-') {
        c + 2
    } else {
        c + 1
    };
    &&& t.len() > 0
    &&& (t[0] == '-' || is_digit(t[0]))
    &&& mantissa_digits >= 1
    &&& (c == t.len() || ((t[c] == 'e' || t[c] == 'E') && d < t.len() && digits_end(t, d)
        == t.len()))
}

/// Whether an object's fields hold `key`.
pub open spec fn has_key(fields: Seq<(Seq<char>, JsonModel)>, key: Seq<char>) -> bool {
    exists|k: int| 0 <= k < fields.len() && (#[trigger] fields[k]).0 == key
}

/// Whether no key occurs twice among an object's fields.
pub open spec fn distinct_keys(fields: Seq<(Seq<char>, JsonModel)>) -> bool {
    forall|j: int, k: int|
        0 <= j < k < fields.len() ==> (#[trigger] fields[j]).0 != (#[trigger] fields[k]).0
}

/// Whether a value is one that the reader can produce: every number in it is
/// a number text, and no object in it holds a key twice.
pub open spec fn well_formed(v: JsonModel) -> bool
    decreases v,
{
    match v {
        JsonModel::Number(t) => is_number_text(t),
        JsonModel::Array(items) => forall|k: int|
            0 <= k < items.len() ==> well_formed(#[trigger] items[k]),
        JsonModel::Object(fields) => distinct_keys(fields) && forall|k: int|
            0 <= k < fields.len() ==> well_formed((#[trigger] fields[k]).1),
        _ => true,
    }
}

/// The first position at or after `i` that holds no white space.
pub open spec fn whitespace_end(s: Seq<char>, i: int) -> int
    decreases s.len() - i,
{
    if 0 <= i < s.len() && is_whitespace(s[i]) {
        whitespace_end(s, i + 1)
    } else {
        i
    }
}

/// The first position at or after `i` that holds no number character.
pub open spec fn number_end(s: Seq<char>, i: int) -> int
    decreases s.len() - i,
{
    if 0 <= i < s.len() && is_number_char(s[i]) {
        number_end(s, i + 1)
    } else {
        i
    }
}

/// The character that stands for `c` behind a backslash: `n`, `r` and `t`
/// give a line feed, a carriage return and a tab; any other character gives
/// itself.
pub open spec fn unescape_char(c: char) -> char {
    if c == 'n' {
        '\n'
    } else if c == 'r' {
        '\r'
    } else if c == 't' {
        '\t'
    } else {
        c
    }
}

/// Reads the rest of a quoted string whose characters so far are `acc`:
/// the string and the position behind its closing quote, or `None` where the
/// text ends before the quote.
pub open spec fn scan_string(s: Seq<char>, i: int, acc: Seq<char>) -> Option<(Seq<char>, int)>
    decreases s.len() - i,
{
    if i < 0 || i >= s.len() {
        None
    } else if s[i] == '"' {
        Some((acc, i + 1))
    } else if s[i] == '\\' {
        if i + 1 >= s.len() {
            None
        } else {
            scan_string(s, i + 2, acc.push(unescape_char(s[i + 1])))
        }
    } else {
        scan_string(s, i + 1, acc.push(s[i]))
    }
}

/// White space never moves a position backwards, and stops inside the text.
pub proof fn lemma_whitespace_end(s: Seq<char>, i: int)
    ensures
        i <= whitespace_end(s, i),
        0 <= i <= s.len() ==> whitespace_end(s, i) <= s.len(),
        0 <= whitespace_end(s, i) < s.len() ==> !is_whitespace(s[whitespace_end(s, i)]),
    decreases s.len() - i,
{
    if 0 <= i < s.len() && is_whitespace(s[i]) {
        lemma_whitespace_end(s, i + 1);
    }
}

/// A string that was read ends behind its start and inside the text.
pub proof fn lemma_scan_string(s: Seq<char>, i: int, acc: Seq<char>)
    ensures
        scan_string(s, i, acc) matches Some((t, j)) ==> i < j <= s.len(),
    decreases s.len() - i,
{
    if 0 <= i < s.len() && s[i] != '"' {
        if s[i] == '\\' {
            if i + 1 < s.len() {
                lemma_scan_string(s, i + 2, acc.push(unescape_char(s[i + 1])));
            }
        } else {
            lemma_scan_string(s, i + 1, acc.push(s[i]));
        }
    }
}

/// Reads one value, after any white space, at position `i`: the value and the
/// position behind it, or `None` where no value stands there.
pub open spec fn parse_value_at(s: Seq<char>, i: int) -> Option<(JsonModel, int)>
    decreases s.len() - i, 1int,
{
    let k = whitespace_end(s, i);
    if i < 0 || k >= s.len() {
        None
    } else {
        let c = s[k];
        let m = whitespace_end(s, k + 1);
        proof {
            lemma_whitespace_end(s, i);
            lemma_whitespace_end(s, k + 1);
        }
        if c == '"' {
            match scan_string(s, k + 1, Seq::empty()) {
                Some((t, j)) => Some((JsonModel::Text(t), j)),
                None => None,
            }
        } else if c == '{' {
            if m < s.len() && s[m] == '}' {
                Some((JsonModel::Object(Seq::empty()), m + 1))
            } else {
                parse_members(s, m, Seq::empty())
            }
        } else if c == '[' {
            if m < s.len() && s[m] == ']' {
                Some((JsonModel::Array(Seq::empty()), m + 1))
            } else {
                parse_elements(s, m, Seq::empty())
            }
        } else if c == 't' {
            if matches_at(s, k, seq!['t', 'r', 'u', 'e']) {
                Some((JsonModel::Bool(true), k + 4))
            } else {
                None
            }
        } else if c == 'f' {
            if matches_at(s, k, seq!['f', 'a', 'l', 's', 'e']) {
                Some((JsonModel::Bool(false), k + 5))
            } else {
                None
            }
        } else if c == 'n' {
            if matches_at(s, k, seq!['n', 'u', 'l', 'l']) {
                Some((JsonModel::Null, k + 4))
            } else {
                None
            }
        } else if is_digit(c) || c == '-' {
            let text = s.subrange(k, number_end(s, k));
            if is_number_text(text) {
                Some((JsonModel::Number(text), number_end(s, k)))
            } else {
                None
            }
        } else {
            None
        }
    }
}

/// Reads the items of an array from position `i`, after the items `acc`: a
/// value, then a comma and the remaining items, or the closing bracket. A comma
/// must be followed by an item.
///
/// The test that a value ends behind its start is there for the recursion to
/// be well-founded; it never fails.
pub open spec fn parse_elements(s: Seq<char>, i: int, acc: Seq<JsonModel>) -> Option<
    (JsonModel, int),
>
    decreases s.len() - i, 2int,
{
    match parse_value_at(s, i) {
        None => None,
        Some((v, j)) => {
            let k = whitespace_end(s, j);
            proof {
                lemma_whitespace_end(s, j);
            }
            if j <= i || k >= s.len() {
                None
            } else if s[k] == ',' {
                parse_elements(s, k + 1, acc.push(v))
            } else if s[k] == ']' {
                Some((JsonModel::Array(acc.push(v)), k + 1))
            } else {
                None
            }
        },
    }
}

/// Reads the fields of an object from position `i`, after the fields `acc`:
/// a quoted key, a colon and a value, then a comma and the remaining fields, or
/// the closing brace. A key that already occurs is refused, and a comma must be
/// followed by a field.
///
/// The test that a value ends behind its start is there for the recursion to
/// be well-founded; it never fails.
pub open spec fn parse_members(s: Seq<char>, i: int, acc: Seq<(Seq<char>, JsonModel)>) -> Option<
    (JsonModel, int),
>
    decreases s.len() - i, 2int,
{
    let k = whitespace_end(s, i);
    if i < 0 || k >= s.len() || s[k] != '"' {
        None
    } else {
        match scan_string(s, k + 1, Seq::empty()) {
            None => None,
            Some((key, j)) => {
                let c = whitespace_end(s, j);
                if c >= s.len() || s[c] != ':' {
                    None
                } else {
                    proof {
                        lemma_whitespace_end(s, i);
                        lemma_scan_string(s, k + 1, Seq::empty());
                        lemma_whitespace_end(s, j);
                    }
                    match parse_value_at(s, c + 1) {
                        None => None,
                        Some((v, j2)) => {
                            let d = whitespace_end(s, j2);
                            proof {
                                lemma_whitespace_end(s, j2);
                            }
                            if j2 <= c || d >= s.len() || has_key(acc, key) {
                                None
                            } else if s[d] == ',' {
                                parse_members(s, d + 1, acc.push((key, v)))
                            } else if s[d] == '}' {
                                Some((JsonModel::Object(acc.push((key, v))), d + 1))
                            } else {
                                None
                            }
                        },
                    }
                }
            },
        }
    }
}

/// The value that a text holds: the first value in it, after any white space.
/// What follows that value is not read.
pub open spec fn parse_text(s: Seq<char>) -> Option<JsonModel> {
    match parse_value_at(s, 0) {
        Some((v, _)) => Some(v),
        None => None,
    }
}

/// The value of the first field with the given key.
pub open spec fn lookup(fields: Seq<(Seq<char>, JsonModel)>, key: Seq<char>) -> Option<JsonModel>
    decreases fields.len(),
{
    if fields.len() == 0 {
        None
    } else if fields[0].0 == key {
        Some(fields[0].1)
    } else {
        lookup(fields.drop_first(), key)
    }
}

/// The field of an object with the given key; `None` for a value that is no
/// object or has no such field.
pub open spec fn member(v: JsonModel, key: Seq<char>) -> Option<JsonModel> {
    match v {
        JsonModel::Object(fields) => lookup(fields, key),
        _ => None,
    }
}

/// Appends the quoted form of `t` to `out`.
fn write_quoted(t: &str, out: &mut String)
    ensures
        final(out)@ == old(out)@ + quoted(t@),
{
    let chars = crate::text::chars_of(t);
    push_char(out, '"');
    let mut i: usize = 0;
    while i < chars.len()
        invariant
            i <= chars.len(),
            chars@ == t@,
            out@ == old(out)@ + seq!['"'] + escape(t@.take(i as int)),
        decreases chars.len() - i,
    {
        let c = chars[i];
        assert(t@.take(i + 1).drop_last() == t@.take(i as int));
        if c == '\\' || c == '"' {
            push_char(out, '\\');
        }
        push_char(out, c);
        i += 1;
    }
    assert(t@.take(i as int) == t@);
    push_char(out, '"');
}

impl JsonValue {
    /// The characters of a string value; `None` for any other value.
    pub fn as_str(&self) -> (r: Option<&str>)
        ensures
            match r {
                Some(t) => self@ == JsonModel::Text(t@),
                None => !(self@ is Text),
            },
    {
        match self {
            JsonValue::String(t) => Some(t.as_str()),
            _ => None,
        }
    }

    /// The field of an object with the given key; `None` for a value that is
    /// no object or has no such field.
    pub fn get(&self, key: &str) -> (r: Option<&JsonValue>)
        ensures
            match r {
                Some(v) => member(self@, key@) == Some(v@),
                None => member(self@, key@) is None,
            },
    {
        match self {
            JsonValue::Object(fields) => {
                proof {
                    lemma_fields_model(fields@);
                }
                let ghost model = fields_model(fields@);
                let wanted = key.to_owned();
                let mut i: usize = 0;
                assert(model.skip(0) == model);
                assert(self@ == JsonModel::Object(model));
                while i < fields.len()
                    invariant
                        i <= fields.len(),
                        self@ == JsonModel::Object(model),
                        wanted@ == key@,
                        model == fields_model(fields@),
                        model.len() == fields@.len(),
                        forall|k: int|
                            0 <= k < fields@.len() ==> (#[trigger] model[k]) == (
                                fields@[k].0@,
                                fields@[k].1@,
                            ),
                        lookup(model, key@) == lookup(model.skip(i as int), key@),
                    decreases fields.len() - i,
                {
                    assert(model.skip(i as int)[0] == model[i as int]);
                    if fields[i].0 == wanted {
                        assert(lookup(model.skip(i as int), key@) == Some(model[i as int].1));
                        return Some(&fields[i].1);
                    }
                    assert(model.skip(i as int).drop_first() == model.skip(i + 1));
                    i += 1;
                }
                None
            },
            _ => None,
        }
    }

    /// The value's textual form.
    pub fn to_string(&self) -> (out: String)
        ensures
            out@ == render(self@),
    {
        let mut out = String::new();
        self.write_to(&mut out);
        out
    }

    /// Appends the value's textual form to `out`.
    pub fn write_to(&self, out: &mut String)
        ensures
            final(out)@ == old(out)@ + render(self@),
        decreases self,
    {
        match self {
            JsonValue::Null => {
                push_char(out, 'n');
                push_char(out, 'u');
                push_char(out, 'l');
                push_char(out, 'l');
            },
            JsonValue::Bool(b) => {
                if *b {
                    push_char(out, 't');
                    push_char(out, 'r');
                    push_char(out, 'u');
                    push_char(out, 'e');
                } else {
                    push_char(out, 'f');
                    push_char(out, 'a');
                    push_char(out, 'l');
                    push_char(out, 's');
                    push_char(out, 'e');
                }
            },
            JsonValue::Number(t) => {
                out.append(t.as_str());
            },
            JsonValue::String(t) => {
                write_quoted(t.as_str(), out);
            },
            JsonValue::Array(items) => {
                push_char(out, '[');
                let ghost model = self@->Array_0;
                proof {
                    lemma_items_model(items@);
                }
                let mut i: usize = 0;
                while i < items.len()
                    invariant
                        i <= items.len(),
                        self@ == JsonModel::Array(model),
                        model.len() == items@.len(),
                        forall|k: int| 0 <= k < items@.len() ==> model[k] == items@[k]@,
                        *self == JsonValue::Array(*items),
                        out@ == old(out)@ + seq!['['] + render_items(model.take(i as int)),
                    decreases items.len() - i,
                {
                    if i > 0 {
                        push_char(out, ',');
                    }
                    assert(model.take(i + 1).drop_last() == model.take(i as int));
                    assert(model.take(i + 1).last() == items@[i as int]@);
                    items[i].write_to(out);
                    i += 1;
                }
                assert(model.take(i as int) == model);
                push_char(out, ']');
            },
            JsonValue::Object(fields) => {
                push_char(out, '{');
                let ghost model = self@->Object_0;
                proof {
                    lemma_fields_model(fields@);
                }
                let mut i: usize = 0;
                while i < fields.len()
                    invariant
                        i <= fields.len(),
                        self@ == JsonModel::Object(model),
                        model.len() == fields@.len(),
                        forall|k: int|
                            0 <= k < fields@.len() ==> model[k] == (
                                fields@[k].0@,
                                fields@[k].1@,
                            ),
                        *self == JsonValue::Object(*fields),
                        out@ == old(out)@ + seq!['{'] + render_fields(model.take(i as int)),
                    decreases fields.len() - i,
                {
                    if i > 0 {
                        push_char(out, ',');
                    }
                    assert(model.take(i + 1).drop_last() == model.take(i as int));
                    assert(model.take(i + 1).last() == (fields@[i as int].0@, fields@[i as int].1@));
                    write_quoted(fields[i].0.as_str(), out);
                    push_char(out, ':');
                    fields[i].1.write_to(out);
                    i += 1;
                }
                assert(model.take(i as int) == model);
                push_char(out, '}');
            },
        }
    }
}

/// Whether an exec result and a result of the grammar are the same.
pub open spec fn same_result(r: Option<(JsonValue, usize)>, m: Option<(JsonModel, int)>) -> bool {
    match r {
        Some((v, j)) => m == Some((v@, j as int)),
        None => m is None,
    }
}

/// Moves past white space.
fn skip_whitespace(s: &Vec<char>, i: usize) -> (j: usize)
    requires
        i <= s.len(),
    ensures
        j == whitespace_end(s@, i as int),
        i <= j <= s.len(),
{
    let mut j = i;
    while j < s.len() && char_is_whitespace(s[j])
        invariant
            i <= j <= s.len(),
            whitespace_end(s@, i as int) == whitespace_end(s@, j as int),
        decreases s.len() - j,
    {
        j += 1;
    }
    j
}

/// Moves past digits.
fn skip_digits(s: &Vec<char>, i: usize) -> (j: usize)
    requires
        i <= s.len(),
    ensures
        j == digits_end(s@, i as int),
        i <= j <= s.len(),
{
    let mut j = i;
    while j < s.len() && char_is_digit(s[j])
        invariant
            i <= j <= s.len(),
            digits_end(s@, i as int) == digits_end(s@, j as int),
        decreases s.len() - j,
    {
        j += 1;
    }
    j
}

/// Tests a character for one that may stand in a number.
fn char_is_number_char(c: char) -> (b: bool)
    ensures
        b == is_number_char(c),
{
    char_is_digit(c) || c == '.' || c == '-' || c == '+' || c == 'e' || c == 'E'
}

/// Tests whether `t` is a number text.
pub fn is_number(t: &Vec<char>) -> (b: bool)
    ensures
        b == is_number_text(t@),
{
    if t.len() == 0 {
        return false;
    }
    let first = t[0];
    if !(first == '-' || char_is_digit(first)) {
        return false;
    }
    let a: usize = if first == '-' {
        1
    } else {
        0
    };
    let b = skip_digits(t, a);
    let has_dot = b < t.len() && t[b] == '.';
    let c = if has_dot {
        skip_digits(t, b + 1)
    } else {
        b
    };
    let mantissa_digits: usize = (b - a) + (if has_dot {
        c - (b + 1)
    } else {
        0
    });
    if mantissa_digits < 1 {
        return false;
    }
    if c == t.len() {
        return true;
    }
    if !(t[c] == 'e' || t[c] == 'E') {
        return false;
    }
    let d: usize = if c + 1 < t.len() && (t[c + 1] == '+' || t[c + 1] == '-') {
        c + 2
    } else {
        c + 1
    };
    d < t.len() && skip_digits(t, d) == t.len()
}

/// Reads a quoted string from the position behind its opening quote.
fn parse_string(s: &Vec<char>, i: usize) -> (r: Option<(String, usize)>)
    requires
        i <= s.len(),
    ensures
        match r {
            Some((t, j)) => scan_string(s@, i as int, Seq::empty()) == Some((t@, j as int)) && i
                < j <= s.len(),
            None => scan_string(s@, i as int, Seq::empty()) is None,
        },
{
    let mut out = String::new();
    let mut j = i;
    loop
        invariant
            i <= j <= s.len(),
            scan_string(s@, i as int, Seq::empty()) == scan_string(s@, j as int, out@),
        decreases s.len() - j,
    {
        if j >= s.len() {
            return None;
        }
        let c = s[j];
        if c == '"' {
            return Some((out, j + 1));
        }
        if c == '\\' {
            if j + 1 >= s.len() {
                return None;
            }
            let e = s[j + 1];
            let u = if e == 'n' {
                '\n'
            } else if e == 'r' {
                '\r'
            } else if e == 't' {
                '\t'
            } else {
                e
            };
            push_char(&mut out, u);
            j += 2;
        } else {
            push_char(&mut out, c);
            j += 1;
        }
    }
}

/// Reads a number that starts at position `k`.
fn parse_number(s: &Vec<char>, k: usize) -> (r: Option<(JsonValue, usize)>)
    requires
        k < s.len(),
    ensures
        ({
            let e = number_end(s@, k as int);
            let text = s@.subrange(k as int, e);
            match r {
                Some((v, j)) => is_number_text(text) && v@ == JsonModel::Number(text) && j == e,
                None => !is_number_text(text),
            }
        }),
        r matches Some((v, j)) ==> k < j <= s.len(),
{
    let mut text: Vec<char> = Vec::new();
    let mut j = k;
    while j < s.len() && char_is_number_char(s[j])
        invariant
            k <= j <= s.len(),
            number_end(s@, k as int) == number_end(s@, j as int),
            text@ == s@.subrange(k as int, j as int),
        decreases s.len() - j,
    {
        text.push(s[j]);
        assert(s@.subrange(k as int, j + 1) == s@.subrange(k as int, j as int).push(s@[j as int]));
        j += 1;
    }
    if is_number(&text) {
        let t = crate::text::string_of(&text);
        Some((JsonValue::Number(t), j))
    } else {
        None
    }
}

/// Reads `true` or `false` at position `k`.
fn parse_bool(s: &Vec<char>, k: usize) -> (r: Option<(JsonValue, usize)>)
    requires
        k < s.len(),
    ensures
        match r {
            Some((v, j)) => {
                ||| (matches_at(s@, k as int, seq!['t', 'r', 'u', 'e']) && v@ == JsonModel::Bool(
                    true,
                ) && j == k + 4)
                ||| (matches_at(s@, k as int, seq!['f', 'a', 'l', 's', 'e']) && v@
                    == JsonModel::Bool(false) && j == k + 5)
            },
            None => !matches_at(s@, k as int, seq!['t', 'r', 'u', 'e']) && !matches_at(
                s@,
                k as int,
                seq!['f', 'a', 'l', 's', 'e'],
            ),
        },
{
    let yes: Vec<char> = vec!['t', 'r', 'u', 'e'];
    let no: Vec<char> = vec!['f', 'a', 'l', 's', 'e'];
    assert(yes@ == seq!['t', 'r', 'u', 'e']);
    assert(no@ == seq!['f', 'a', 'l', 's', 'e']);
    if has_at(s, k, &yes) {
        Some((JsonValue::Bool(true), k + 4))
    } else if has_at(s, k, &no) {
        Some((JsonValue::Bool(false), k + 5))
    } else {
        None
    }
}

/// Reads `null` at position `k`.
fn parse_null(s: &Vec<char>, k: usize) -> (r: Option<(JsonValue, usize)>)
    requires
        k < s.len(),
    ensures
        match r {
            Some((v, j)) => matches_at(s@, k as int, seq!['n', 'u', 'l', 'l']) && v@
                == JsonModel::Null && j == k + 4,
            None => !matches_at(s@, k as int, seq!['n', 'u', 'l', 'l']),
        },
{
    let lit: Vec<char> = vec!['n', 'u', 'l', 'l'];
    assert(lit@ == seq!['n', 'u', 'l', 'l']);
    if has_at(s, k, &lit) {
        Some((JsonValue::Null, k + 4))
    } else {
        None
    }
}

/// Tests whether the fields hold `key`.
fn fields_have_key(fields: &Vec<(String, JsonValue)>, key: &String) -> (b: bool)
    ensures
        b == has_key(fields_model(fields@), key@),
{
    proof {
        lemma_fields_model(fields@);
    }
    let mut n: usize = 0;
    while n < fields.len()
        invariant
            n <= fields.len(),
            fields_model(fields@).len() == fields@.len(),
            forall|k: int|
                0 <= k < fields@.len() ==> (#[trigger] fields_model(fields@)[k]) == (
                    fields@[k].0@,
                    fields@[k].1@,
                ),
            forall|k: int| 0 <= k < n ==> (#[trigger] fields_model(fields@)[k]).0 != key@,
        decreases fields.len() - n,
    {
        if fields[n].0 == *key {
            assert(fields_model(fields@)[n as int].0 == key@);
            return true;
        }
        n += 1;
    }
    false
}

/// Reads one value, after any white space, at position `i`.
fn parse_value(s: &Vec<char>, i: usize) -> (r: Option<(JsonValue, usize)>)
    requires
        i <= s.len(),
    ensures
        same_result(r, parse_value_at(s@, i as int)),
        r matches Some((v, j)) ==> i < j <= s.len() && well_formed(v@),
    decreases s.len() - i, 1int,
{
    let k = skip_whitespace(s, i);
    if k >= s.len() {
        return None;
    }
    let c = s[k];
    if c == '"' {
        match parse_string(s, k + 1) {
            Some((t, j)) => Some((JsonValue::String(t), j)),
            None => None,
        }
    } else if c == '{' {
        let m = skip_whitespace(s, k + 1);
        if m < s.len() && s[m] == '}' {
            let fields: Vec<(String, JsonValue)> = Vec::new();
            assert(fields_model(fields@) == Seq::<(Seq<char>, JsonModel)>::empty());
            Some((JsonValue::Object(fields), m + 1))
        } else {
            parse_object(s, m)
        }
    } else if c == '[' {
        let m = skip_whitespace(s, k + 1);
        if m < s.len() && s[m] == ']' {
            let items: Vec<JsonValue> = Vec::new();
            assert(items_model(items@) == Seq::<JsonModel>::empty());
            Some((JsonValue::Array(items), m + 1))
        } else {
            parse_array(s, m)
        }
    } else if c == 't' || c == 'f' {
        let r = parse_bool(s, k);
        proof {
            if matches_at(s@, k as int, seq!['t', 'r', 'u', 'e']) {
                assert(s@.subrange(k as int, k + 4)[0] == 't');
            }
            if matches_at(s@, k as int, seq!['f', 'a', 'l', 's', 'e']) {
                assert(s@.subrange(k as int, k + 5)[0] == 'f');
            }
        }
        r
    } else if c == 'n' {
        parse_null(s, k)
    } else if char_is_digit(c) || c == '-' {
        parse_number(s, k)
    } else {
        None
    }
}

/// Reads the items of an array and its closing bracket, from the position of
/// the first item.
fn parse_array(s: &Vec<char>, m: usize) -> (r: Option<(JsonValue, usize)>)
    requires
        m <= s.len(),
    ensures
        same_result(r, parse_elements(s@, m as int, Seq::empty())),
        r matches Some((v, j)) ==> m < j <= s.len() && well_formed(v@),
    decreases s.len() - m, 2int,
{
    let mut acc: Vec<JsonValue> = Vec::new();
    let mut i = m;
    assert(items_model(acc@) == Seq::<JsonModel>::empty());
    loop
        invariant
            m <= i <= s.len(),
            parse_elements(s@, m as int, Seq::empty()) == parse_elements(
                s@,
                i as int,
                items_model(acc@),
            ),
            items_model(acc@).len() == acc@.len(),
            forall|n: int| 0 <= n < acc@.len() ==> well_formed(#[trigger] items_model(acc@)[n]),
        decreases s.len() - i,
    {
        match parse_value(s, i) {
            None => {
                return None;
            },
            Some((v, j)) => {
                let k = skip_whitespace(s, j);
                if k >= s.len() {
                    return None;
                }
                proof {
                    lemma_items_model_push(acc@, v);
                }
                if s[k] == ',' {
                    acc.push(v);
                    i = k + 1;
                } else if s[k] == ']' {
                    acc.push(v);
                    return Some((JsonValue::Array(acc), k + 1));
                } else {
                    return None;
                }
            },
        }
    }
}

/// Reads the fields of an object and its closing brace, from the position of
/// the first key.
fn parse_object(s: &Vec<char>, m: usize) -> (r: Option<(JsonValue, usize)>)
    requires
        m <= s.len(),
    ensures
        same_result(r, parse_members(s@, m as int, Seq::empty())),
        r matches Some((v, j)) ==> m < j <= s.len() && well_formed(v@),
    decreases s.len() - m, 2int,
{
    let mut acc: Vec<(String, JsonValue)> = Vec::new();
    let mut i = m;
    assert(fields_model(acc@) == Seq::<(Seq<char>, JsonModel)>::empty());
    loop
        invariant
            m <= i <= s.len(),
            parse_members(s@, m as int, Seq::empty()) == parse_members(
                s@,
                i as int,
                fields_model(acc@),
            ),
            fields_model(acc@).len() == acc@.len(),
            distinct_keys(fields_model(acc@)),
            forall|n: int|
                0 <= n < acc@.len() ==> well_formed((#[trigger] fields_model(acc@)[n]).1),
        decreases s.len() - i,
    {
        let k = skip_whitespace(s, i);
        if k >= s.len() || s[k] != '"' {
            return None;
        }
        match parse_string(s, k + 1) {
            None => {
                return None;
            },
            Some((key, j)) => {
                let c = skip_whitespace(s, j);
                if c >= s.len() || s[c] != ':' {
                    return None;
                }
                match parse_value(s, c + 1) {
                    None => {
                        return None;
                    },
                    Some((v, j2)) => {
                        let d = skip_whitespace(s, j2);
                        if d >= s.len() || fields_have_key(&acc, &key) {
                            return None;
                        }
                        proof {
                            lemma_fields_model_push(acc@, key, v);
                        }
                        if s[d] == ',' {
                            acc.push((key, v));
                            i = d + 1;
                        } else if s[d] == '}' {
                            acc.push((key, v));
                            return Some((JsonValue::Object(acc), d + 1));
                        } else {
                            return None;
                        }
                    },
                }
            },
        }
    }
}

/// Reads the value that a text holds: the first value in it, after any white
/// space. What follows that value is not read. `Err` where no value stands
/// there.
pub fn serde_json_minimal_parse(json: &str) -> (r: Result<JsonValue, ()>)
    ensures
        match r {
            Ok(v) => parse_text(json@) == Some(v@) && well_formed(v@),
            Err(_) => parse_text(json@) is None,
        },
{
    let chars = crate::text::chars_of(json);
    match parse_value(&chars, 0) {
        Some((v, _)) => Ok(v),
        None => Err(()),
    }
}

} // verus!
