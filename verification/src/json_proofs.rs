//! Reading back what was written: the reader returns every well-formed value
//! from its own textual form.

use crate::json::{
    digits_end, escape, escape_char, has_key, is_number_char, is_number_text, number_end,
    parse_elements, parse_members, parse_text, parse_value_at, quoted, render, render_field,
    render_fields, render_items, scan_string, well_formed, distinct_keys, whitespace_end, JsonModel,
    lemma_scan_string, lemma_whitespace_end,
};
use crate::text::{is_digit, is_whitespace};
use vstd::prelude::*;

verus! {

/// Whether `text` stands in `s` at position `p`.
pub open spec fn occurs_at(s: Seq<char>, p: int, text: Seq<char>) -> bool {
    &&& 0 <= p
    &&& p + text.len() <= s.len()
    &&& forall|k: int| 0 <= k < text.len() ==> s[p + k] == #[trigger] text[k]
}

/// A text made of two parts stands at `p` exactly when the first part stands
/// at `p` and the second right behind it.
pub proof fn lemma_occurs_concat(s: Seq<char>, p: int, a: Seq<char>, b: Seq<char>)
    ensures
        occurs_at(s, p, a + b) <==> (occurs_at(s, p, a) && occurs_at(s, p + a.len(), b)),
{
    if occurs_at(s, p, a + b) {
        assert forall|k: int| 0 <= k < a.len() implies s[p + k] == #[trigger] a[k] by {
            assert((a + b)[k] == a[k]);
        }
        assert forall|k: int| 0 <= k < b.len() implies s[p + a.len() + k] == #[trigger] b[k] by {
            assert((a + b)[a.len() + k] == b[k]);
        }
    }
    if occurs_at(s, p, a) && occurs_at(s, p + a.len(), b) {
        assert forall|k: int| 0 <= k < (a + b).len() implies s[p + k] == #[trigger] (a + b)[k] by {
            if k < a.len() {
                assert(a[k] == (a + b)[k]);
            } else {
                assert(b[k - a.len()] == (a + b)[k]);
                assert(s[p + a.len() + (k - a.len())] == b[k - a.len()]);
            }
        }
    }
}

/// A text that stands at `p` is the part of `s` from `p` on, of its length.
pub proof fn lemma_occurs_subrange(s: Seq<char>, p: int, text: Seq<char>)
    requires
        occurs_at(s, p, text),
    ensures
        s.subrange(p, p + text.len()) == text,
{
    assert forall|k: int| 0 <= k < text.len() implies s.subrange(p, p + text.len())[k]
        == text[k] by {
        assert(s[p + k] == text[k]);
    }
    assert(s.subrange(p, p + text.len()) =~= text);
}

/// Digits run on to `digits_end`, which stays inside the text.
pub proof fn lemma_digits_end(s: Seq<char>, i: int)
    requires
        0 <= i <= s.len(),
    ensures
        i <= digits_end(s, i) <= s.len(),
        forall|k: int| i <= k < digits_end(s, i) ==> is_digit(#[trigger] s[k]),
    decreases s.len() - i,
{
    if i < s.len() && is_digit(s[i]) {
        lemma_digits_end(s, i + 1);
    }
}

/// Every character of a number text is a number character.
pub proof fn lemma_number_chars(t: Seq<char>)
    requires
        is_number_text(t),
    ensures
        forall|k: int| 0 <= k < t.len() ==> is_number_char(#[trigger] t[k]),
{
    let a: int = if t.len() > 0 && t[0] == '-' {
        1
    } else {
        0
    };
    let b = digits_end(t, a);
    lemma_digits_end(t, a);
    let has_dot = b < t.len() && t[b] == '.';
    let c = if has_dot {
        digits_end(t, b + 1)
    } else {
        b
    };
    if has_dot {
        lemma_digits_end(t, b + 1);
    }
    let d = if c + 1 < t.len() && (t[c + 1] == '+' || t[c + 1] == '-') {
        c + 2
    } else {
        c + 1
    };
    if c < t.len() {
        lemma_digits_end(t, d);
    }
    assert forall|k: int| 0 <= k < t.len() implies is_number_char(#[trigger] t[k]) by {
        if k < a {
        } else if k < b {
        } else if has_dot && k == b {
        } else if k < c {
        } else if k == c {
        } else if k < d {
        } else {
        }
    }
}

/// Number characters run on to the first character that is none.
pub proof fn lemma_number_end(s: Seq<char>, i: int, e: int)
    requires
        0 <= i <= e <= s.len(),
        forall|k: int| i <= k < e ==> is_number_char(#[trigger] s[k]),
        e < s.len() ==> !is_number_char(s[e]),
    ensures
        number_end(s, i) == e,
    decreases e - i,
{
    if i < e {
        lemma_number_end(s, i + 1, e);
    }
}

/// The text of a string's characters is the text of a first part followed by
/// the text of the rest.
pub proof fn lemma_escape_concat(a: Seq<char>, b: Seq<char>)
    ensures
        escape(a + b) == escape(a) + escape(b),
    decreases b.len(),
{
    if b.len() == 0 {
        assert(a + b =~= a);
        assert(escape(a) + escape(b) =~= escape(a));
    } else {
        assert((a + b).drop_last() =~= a + b.drop_last());
        assert((a + b).last() == b.last());
        lemma_escape_concat(a, b.drop_last());
        assert(escape(a + b) =~= escape(a) + escape(b));
    }
}

/// Reading the text of a string's characters and the closing quote gives the
/// characters back.
pub proof fn lemma_scan_escaped(s: Seq<char>, p: int, t: Seq<char>, acc: Seq<char>)
    requires
        occurs_at(s, p, escape(t) + seq!['"']),
    ensures
        scan_string(s, p, acc) == Some((acc + t, p + escape(t).len() + 1)),
    decreases t.len(),
{
    let quote = seq!['"'];
    if t.len() == 0 {
        assert(escape(t) + quote =~= quote);
        assert(s[p + 0] == quote[0]);
        assert(acc + t =~= acc);
    } else {
        let c = t[0];
        let rest = t.drop_first();
        assert(t =~= seq![c] + rest);
        lemma_escape_concat(seq![c], rest);
        assert(seq![c].drop_last() =~= Seq::<char>::empty());
        assert(escape(Seq::<char>::empty()) =~= Seq::<char>::empty());
        assert(seq![c].last() == c);
        assert(escape(seq![c]) =~= escape_char(c));
        assert(escape(t) + quote =~= escape_char(c) + (escape(rest) + quote));
        lemma_occurs_concat(s, p, escape_char(c), escape(rest) + quote);
        if c == '\\' || c == '"' {
            assert(s[p + 0] == escape_char(c)[0]);
            assert(s[p + 1] == escape_char(c)[1]);
            lemma_scan_escaped(s, p + 2, rest, acc.push(c));
            assert(acc.push(c) + rest =~= acc + t);
        } else {
            assert(s[p + 0] == escape_char(c)[0]);
            lemma_scan_escaped(s, p + 1, rest, acc.push(c));
            assert(acc.push(c) + rest =~= acc + t);
        }
    }
}

/// Whether a value's text can start with `c`.
pub open spec fn starts_value(c: char) -> bool {
    c == 'n' || c == 't' || c == 'f' || c == '"' || c == '[' || c == '{' || c == '-' || is_digit(c)
}

/// A value's text is not empty and starts with a character that only a value
/// starts with.
pub proof fn lemma_render_first(v: JsonModel)
    requires
        well_formed(v),
    ensures
        render(v).len() > 0,
        starts_value(render(v)[0]),
        !is_whitespace(render(v)[0]),
{
}

/// The text of a run of items is the text of a first part, a comma, and the
/// text of the rest.
pub proof fn lemma_render_items_concat(a: Seq<JsonModel>, b: Seq<JsonModel>)
    requires
        a.len() > 0,
        b.len() > 0,
    ensures
        render_items(a + b) == render_items(a) + seq![','] + render_items(b),
    decreases b.len(),
{
    assert((a + b).last() == b.last());
    if b.len() == 1 {
        assert((a + b).drop_last() =~= a);
    } else {
        assert((a + b).drop_last() =~= a + b.drop_last());
        lemma_render_items_concat(a, b.drop_last());
        assert(render_items(a + b) =~= render_items(a) + seq![','] + render_items(b));
    }
}

/// The text of a run of fields is the text of a first part, a comma, and the
/// text of the rest.
pub proof fn lemma_render_fields_concat(
    a: Seq<(Seq<char>, JsonModel)>,
    b: Seq<(Seq<char>, JsonModel)>,
)
    requires
        a.len() > 0,
        b.len() > 0,
    ensures
        render_fields(a + b) == render_fields(a) + seq![','] + render_fields(b),
    decreases b.len(),
{
    assert((a + b).last() == b.last());
    if b.len() == 1 {
        assert((a + b).drop_last() =~= a);
    } else {
        assert((a + b).drop_last() =~= a + b.drop_last());
        lemma_render_fields_concat(a, b.drop_last());
        assert(render_fields(a + b) =~= render_fields(a) + seq![','] + render_fields(b));
    }
}

/// The text of a run of items starts as the text of its first item does.
pub proof fn lemma_render_items_first(items: Seq<JsonModel>)
    requires
        items.len() > 0,
        well_formed(items[0]),
    ensures
        render_items(items).len() > 0,
        render_items(items)[0] == render(items[0])[0],
{
    lemma_render_first(items[0]);
    if items.len() > 1 {
        let x = items[0];
        let rest = items.drop_first();
        assert(items =~= seq![x] + rest);
        lemma_render_items_concat(seq![x], rest);
    }
}

/// The text of a run of fields starts with the quote of its first key.
pub proof fn lemma_render_fields_first(fields: Seq<(Seq<char>, JsonModel)>)
    requires
        fields.len() > 0,
    ensures
        render_fields(fields).len() > 0,
        render_fields(fields)[0] == '"',
{
    if fields.len() > 1 {
        let x = fields[0];
        let rest = fields.drop_first();
        assert(fields =~= seq![x] + rest);
        lemma_render_fields_concat(seq![x], rest);
    }
}

/// Where a well-formed value's text stands at `p`, and no number character
/// follows it, the reader returns that value and the position behind the
/// text.
pub proof fn lemma_parse_rendered(s: Seq<char>, p: int, v: JsonModel)
    requires
        well_formed(v),
        occurs_at(s, p, render(v)),
        p + render(v).len() < s.len() ==> !is_number_char(s[p + render(v).len()]),
    ensures
        parse_value_at(s, p) == Some((v, p + render(v).len())),
    decreases v,
{
    lemma_render_first(v);
    assert(s[p + 0] == render(v)[0]);
    assert(whitespace_end(s, p) == p);
    lemma_occurs_subrange(s, p, render(v));
    match v {
        JsonModel::Null => {},
        JsonModel::Bool(b) => {},
        JsonModel::Number(t) => {
            lemma_number_chars(t);
            assert forall|k: int| p <= k < p + t.len() implies is_number_char(#[trigger] s[k]) by {
                assert(s[p + (k - p)] == t[k - p]);
            }
            lemma_number_end(s, p, p + t.len());
        },
        JsonModel::Text(t) => {
            let quote = seq!['"'];
            assert(render(v) =~= quote + (escape(t) + quote));
            lemma_occurs_concat(s, p, quote, escape(t) + quote);
            lemma_scan_escaped(s, p + 1, t, Seq::empty());
            assert(Seq::<char>::empty() + t =~= t);
        },
        JsonModel::Array(items) => {
            let open = seq!['['];
            let close = seq![']'];
            assert(render(v) =~= open + (render_items(items) + close));
            lemma_occurs_concat(s, p, open, render_items(items) + close);
            if items.len() == 0 {
                assert(s[p + 1 + 0] == (render_items(items) + close)[0]);
                assert(whitespace_end(s, p + 1) == p + 1);
                assert(items =~= Seq::<JsonModel>::empty());
            } else {
                lemma_render_items_first(items);
                lemma_render_first(items[0]);
                assert(s[p + 1 + 0] == (render_items(items) + close)[0]);
                assert(whitespace_end(s, p + 1) == p + 1);
                lemma_parse_rendered_items(s, p + 1, items, Seq::empty());
                assert(Seq::<JsonModel>::empty() + items =~= items);
            }
        },
        JsonModel::Object(fields) => {
            let open = seq!['{'];
            let close = seq!['}'];
            assert(render(v) =~= open + (render_fields(fields) + close));
            lemma_occurs_concat(s, p, open, render_fields(fields) + close);
            if fields.len() == 0 {
                assert(s[p + 1 + 0] == (render_fields(fields) + close)[0]);
                assert(whitespace_end(s, p + 1) == p + 1);
                assert(fields =~= Seq::<(Seq<char>, JsonModel)>::empty());
            } else {
                lemma_render_fields_first(fields);
                assert(s[p + 1 + 0] == (render_fields(fields) + close)[0]);
                assert(whitespace_end(s, p + 1) == p + 1);
                assert(Seq::<(Seq<char>, JsonModel)>::empty() + fields =~= fields);
                lemma_parse_rendered_fields(s, p + 1, fields, Seq::empty());
            }
        },
    }
}

/// Where the text of well-formed items and the closing bracket stand at `p`,
/// the reader returns the array of the items before and these.
pub proof fn lemma_parse_rendered_items(
    s: Seq<char>,
    p: int,
    items: Seq<JsonModel>,
    acc: Seq<JsonModel>,
)
    requires
        items.len() > 0,
        forall|k: int| 0 <= k < items.len() ==> well_formed(#[trigger] items[k]),
        occurs_at(s, p, render_items(items) + seq![']']),
    ensures
        parse_elements(s, p, acc) == Some(
            (JsonModel::Array(acc + items), p + render_items(items).len() + 1),
        ),
    decreases items,
{
    let x = items[0];
    let rest = items.drop_first();
    let close = seq![']'];
    let comma = seq![','];
    let j = p + render(x).len();
    lemma_render_first(x);
    if rest.len() == 0 {
        lemma_occurs_concat(s, p, render(x), close);
        assert(s[j + 0] == close[0]);
        lemma_parse_rendered(s, p, x);
        assert(whitespace_end(s, j) == j);
        assert(acc.push(x) =~= acc + items);
    } else {
        assert(items =~= seq![x] + rest);
        lemma_render_items_concat(seq![x], rest);
        let tail = comma + (render_items(rest) + close);
        assert(render_items(items) + close =~= render(x) + tail);
        lemma_occurs_concat(s, p, render(x), tail);
        lemma_occurs_concat(s, j, comma, render_items(rest) + close);
        assert(s[j + 0] == comma[0]);
        lemma_parse_rendered(s, p, x);
        assert(whitespace_end(s, j) == j);
        assert forall|k: int| 0 <= k < rest.len() implies well_formed(#[trigger] rest[k]) by {
            assert(rest[k] == items[k + 1]);
        }
        lemma_parse_rendered_items(s, j + 1, rest, acc.push(x));
        assert(acc.push(x) + rest =~= acc + items);
    }
}

/// Where the text of well-formed fields and the closing brace stand at `p`,
/// and no key occurs twice among the fields before and these, the reader
/// returns the object of the fields before and these.
pub proof fn lemma_parse_rendered_fields(
    s: Seq<char>,
    p: int,
    fields: Seq<(Seq<char>, JsonModel)>,
    acc: Seq<(Seq<char>, JsonModel)>,
)
    requires
        fields.len() > 0,
        forall|k: int| 0 <= k < fields.len() ==> well_formed((#[trigger] fields[k]).1),
        distinct_keys(acc + fields),
        occurs_at(s, p, render_fields(fields) + seq!['}']),
    ensures
        parse_members(s, p, acc) == Some(
            (JsonModel::Object(acc + fields), p + render_fields(fields).len() + 1),
        ),
    decreases fields,
{
    let key = fields[0].0;
    let value = fields[0].1;
    let rest = fields.drop_first();
    let close = seq!['}'];
    let comma = seq![','];
    let quote = seq!['"'];
    let colon = seq![':'];
    let field_text = render_field(key, render(value));
    let after_key = p + quoted(key).len();
    let j = p + field_text.len();
    lemma_render_first(value);
    assert(well_formed(fields[0].1));
    assert(field_text =~= quote + ((escape(key) + quote) + (colon + render(value))));
    assert(!has_key(acc, key)) by {
        assert forall|k: int| 0 <= k < acc.len() implies (#[trigger] acc[k]).0 != key by {
            assert((acc + fields)[k] == acc[k]);
            assert((acc + fields)[acc.len() as int] == fields[0]);
        }
    }
    let tail = if rest.len() == 0 {
        close
    } else {
        comma + (render_fields(rest) + close)
    };
    if rest.len() == 0 {
        assert(render_fields(fields) + close =~= field_text + tail);
    } else {
        assert(fields =~= seq![fields[0]] + rest);
        lemma_render_fields_concat(seq![fields[0]], rest);
        assert(render_fields(fields) + close =~= field_text + tail);
    }
    lemma_occurs_concat(s, p, field_text, tail);
    lemma_occurs_concat(s, p, quote, (escape(key) + quote) + (colon + render(value)));
    lemma_occurs_concat(s, p + 1, escape(key) + quote, colon + render(value));
    lemma_occurs_concat(s, after_key, colon, render(value));
    assert(s[p + 0] == quote[0]);
    assert(whitespace_end(s, p) == p);
    lemma_scan_escaped(s, p + 1, key, Seq::empty());
    assert(Seq::<char>::empty() + key =~= key);
    assert(s[after_key + 0] == colon[0]);
    assert(whitespace_end(s, after_key) == after_key);
    assert(s[j + 0] == tail[0]);
    lemma_parse_rendered(s, after_key + 1, value);
    assert(whitespace_end(s, j) == j);
    if rest.len() == 0 {
        assert(acc.push((key, value)) =~= acc + fields);
    } else {
        lemma_occurs_concat(s, j, comma, render_fields(rest) + close);
        assert forall|k: int| 0 <= k < rest.len() implies well_formed((#[trigger] rest[k]).1) by {
            assert(rest[k] == fields[k + 1]);
        }
        assert(acc.push((key, value)) + rest =~= acc + fields);
        lemma_parse_rendered_fields(s, j + 1, rest, acc.push((key, value)));
    }
}

/// Number characters never end before they start, and end inside the text.
pub proof fn lemma_number_end_bounds(s: Seq<char>, i: int)
    requires
        0 <= i <= s.len(),
    ensures
        i <= number_end(s, i) <= s.len(),
        i < s.len() && is_number_char(s[i]) ==> i < number_end(s, i),
    decreases s.len() - i,
{
    if i < s.len() && is_number_char(s[i]) {
        lemma_number_end_bounds(s, i + 1);
    }
}

/// Every value that the reader returns is well-formed, and ends behind the
/// position it was read from and inside the text.
pub proof fn lemma_parse_value_sound(s: Seq<char>, i: int)
    ensures
        parse_value_at(s, i) matches Some((v, j)) ==> i < j <= s.len() && well_formed(v),
    decreases s.len() - i, 1int,
{
    let k = whitespace_end(s, i);
    lemma_whitespace_end(s, i);
    if i >= 0 && k < s.len() {
        let c = s[k];
        let m = whitespace_end(s, k + 1);
        lemma_whitespace_end(s, k + 1);
        if c == '"' {
            lemma_scan_string(s, k + 1, Seq::empty());
        } else if c == '{' {
            if !(m < s.len() && s[m] == '}') {
                lemma_parse_members_sound(s, m, Seq::empty());
            }
        } else if c == '[' {
            if !(m < s.len() && s[m] == ']') {
                lemma_parse_elements_sound(s, m, Seq::empty());
            }
        } else if is_digit(c) || c == '-' {
            lemma_number_end_bounds(s, k);
        }
    }
}

/// The same for the items of an array, after well-formed items.
pub proof fn lemma_parse_elements_sound(s: Seq<char>, i: int, acc: Seq<JsonModel>)
    requires
        forall|n: int| 0 <= n < acc.len() ==> well_formed(#[trigger] acc[n]),
    ensures
        parse_elements(s, i, acc) matches Some((v, j)) ==> i < j <= s.len() && well_formed(v),
    decreases s.len() - i, 2int,
{
    lemma_parse_value_sound(s, i);
    match parse_value_at(s, i) {
        Some((v, j)) => {
            let k = whitespace_end(s, j);
            lemma_whitespace_end(s, j);
            if j > i && k < s.len() {
                assert forall|n: int| 0 <= n < acc.push(v).len() implies well_formed(
                    #[trigger] acc.push(v)[n],
                ) by {
                    if n < acc.len() {
                        assert(acc.push(v)[n] == acc[n]);
                    }
                }
                if s[k] == ',' {
                    lemma_parse_elements_sound(s, k + 1, acc.push(v));
                }
            }
        },
        None => {},
    }
}

/// The same for the fields of an object, after well-formed fields with
/// distinct keys.
pub proof fn lemma_parse_members_sound(
    s: Seq<char>,
    i: int,
    acc: Seq<(Seq<char>, JsonModel)>,
)
    requires
        distinct_keys(acc),
        forall|n: int| 0 <= n < acc.len() ==> well_formed((#[trigger] acc[n]).1),
    ensures
        parse_members(s, i, acc) matches Some((v, j)) ==> i < j <= s.len() && well_formed(v),
    decreases s.len() - i, 2int,
{
    let k = whitespace_end(s, i);
    lemma_whitespace_end(s, i);
    if i >= 0 && k < s.len() && s[k] == '"' {
        lemma_scan_string(s, k + 1, Seq::empty());
        match scan_string(s, k + 1, Seq::empty()) {
            Some((key, j)) => {
                let c = whitespace_end(s, j);
                lemma_whitespace_end(s, j);
                if c < s.len() && s[c] == ':' {
                    lemma_parse_value_sound(s, c + 1);
                    match parse_value_at(s, c + 1) {
                        Some((v, j2)) => {
                            let d = whitespace_end(s, j2);
                            lemma_whitespace_end(s, j2);
                            if j2 > c && d < s.len() && !has_key(acc, key) {
                                let next = acc.push((key, v));
                                assert forall|n: int| 0 <= n < next.len() implies well_formed(
                                    (#[trigger] next[n]).1,
                                ) by {
                                    if n < acc.len() {
                                        assert(next[n] == acc[n]);
                                    }
                                }
                                assert(distinct_keys(next)) by {
                                    assert forall|a: int, b: int|
                                        0 <= a < b < next.len() implies (#[trigger] next[a]).0 != (
                                    #[trigger] next[b]).0 by {
                                        assert(next[a] == acc[a]);
                                        if b < acc.len() {
                                            assert(next[b] == acc[b]);
                                        }
                                    }
                                }
                                if s[d] == ',' {
                                    lemma_parse_members_sound(s, d + 1, next);
                                }
                            }
                        },
                        None => {},
                    }
                }
            },
            None => {},
        }
    }
}

/// Every value that a text holds is well-formed.
pub proof fn lemma_parse_text_sound(s: Seq<char>)
    ensures
        parse_text(s) matches Some(v) ==> well_formed(v),
{
    lemma_parse_value_sound(s, 0);
}

/// Reading a well-formed value's textual form gives the value back.
pub proof fn lemma_round_trip(v: JsonModel)
    requires
        well_formed(v),
    ensures
        parse_text(render(v)) == Some(v),
{
    let s = render(v);
    assert(occurs_at(s, 0, s));
    lemma_parse_rendered(s, 0, v);
}

} // verus!
