//! Reading a script: its format, its title, the roles that speak in it and
//! what they say.

use crate::json::{member, JsonModel};
use crate::json_tree::{document_of, parse_document, tree_as_array, tree_as_str, tree_content, tree_get};
use crate::podcast::errors::PodcastError;
use crate::podcast::script::{
    CharacterRole, DialogueSegment, PodcastScript, RoleModel, ScriptFormat, SegmentModel,
};
use crate::text::{
    byte_len, byte_len_up_to, char_is_alphabetic, chars_of, contains_text, decimal, decimal_text,
    ends_with, has_prefix, has_suffix, has_text, is_alphabetic, lines, lines_of, remove_pairs,
    slice_of, starts_with, string_of, trim, trimmed, without_pairs,
};
use vstd::prelude::*;

verus! {

/// Whether `c` is a colon, narrow or full width.
pub open spec fn is_colon(c: char) -> bool {
    c == ':' || c == '\u{ff1a}'
}

/// Whether `c` is a Chinese character of the basic block or of extension A.
pub open spec fn is_cjk(c: char) -> bool {
    let n = c as u32;
    (0x4E00 <= n <= 0x9FFF) || (0x3400 <= n <= 0x4DBF)
}

/// The position of the first colon, or the length of `s`.
pub open spec fn colon_position(s: Seq<char>) -> int
    decreases s.len(),
{
    if s.len() == 0 {
        0
    } else if is_colon(s[0]) {
        0
    } else {
        1 + colon_position(s.drop_first())
    }
}

/// Whether a letter or a Chinese character stands in `s`.
pub open spec fn has_letter(s: Seq<char>) -> bool {
    exists|k: int| 0 <= k < s.len() && (is_alphabetic(#[trigger] s[k]) || is_cjk(s[k]))
}

/// The role that a line names: what stands before the first colon, without
/// pairs of asterisks and white space around it.
///
/// A line names no role where it is a heading (`#` first), has no colon, has
/// nothing or 50 bytes or more before the colon, or where the name is empty,
/// starts with `#`, is longer than 50 bytes or holds neither a letter nor a
/// Chinese character.
pub open spec fn line_role(line: Seq<char>) -> Option<Seq<char>> {
    let t = trim(line);
    let p = colon_position(t);
    let name = trim(remove_pairs(trim(t.take(p)), '*'));
    if t.len() > 0 && t[0] == '#' {
        None
    } else if p >= t.len() {
        None
    } else if p == 0 || byte_len(t.take(p)) >= 50 {
        None
    } else if name.len() == 0 || name[0] == '#' || byte_len(name) > 50 {
        None
    } else if has_letter(name) {
        Some(name)
    } else {
        None
    }
}

/// The roles that lines name, line by line.
pub open spec fn names_of(all: Seq<Seq<char>>) -> Seq<Seq<char>>
    decreases all.len(),
{
    if all.len() == 0 {
        Seq::empty()
    } else {
        match line_role(all.last()) {
            Some(name) => names_of(all.drop_last()).push(name),
            None => names_of(all.drop_last()),
        }
    }
}

/// The first position of `name` in a tally.
pub open spec fn tally_position(tally: Seq<(Seq<char>, nat)>, name: Seq<char>) -> Option<int>
    decreases tally.len(),
{
    if tally.len() == 0 {
        None
    } else if tally[0].0 == name {
        Some(0)
    } else {
        match tally_position(tally.drop_first(), name) {
            Some(i) => Some(i + 1),
            None => None,
        }
    }
}

/// A count after one more, which stops at the largest count that the
/// machine holds.
pub open spec fn one_more(n: nat) -> nat {
    if n < usize::MAX {
        n + 1
    } else {
        n
    }
}

/// A tally after `name` was counted once more: a name counted before keeps
/// its place, a new name takes the last place.
pub open spec fn count_name(tally: Seq<(Seq<char>, nat)>, name: Seq<char>) -> Seq<
    (Seq<char>, nat),
> {
    match tally_position(tally, name) {
        Some(i) => tally.update(i, (name, one_more(tally[i].1))),
        None => tally.push((name, 1)),
    }
}

/// How often each name occurs, names in the order of their first occurrence.
pub open spec fn tally_names(names: Seq<Seq<char>>) -> Seq<(Seq<char>, nat)>
    decreases names.len(),
{
    if names.len() == 0 {
        Seq::empty()
    } else {
        count_name(tally_names(names.drop_last()), names.last())
    }
}

/// The roles of a tally: the role at position `i` has the identifier `role_i`.
pub open spec fn roles_of(tally: Seq<(Seq<char>, nat)>) -> Seq<RoleModel> {
    Seq::new(
        tally.len(),
        |i: int|
            RoleModel {
                id: seq!['r', 'o', 'l', 'e', '_'] + decimal(i as nat),
                name: tally[i].0,
                segment_count: tally[i].1,
            },
    )
}

/// The roles of a script in Markdown or plain text.
pub open spec fn markdown_roles(content: Seq<char>) -> Seq<RoleModel> {
    roles_of(tally_names(names_of(lines(content))))
}

/// The content of each role.
pub open spec fn role_models(roles: Seq<CharacterRole>) -> Seq<RoleModel> {
    Seq::new(roles.len(), |i: int| roles[i]@)
}

/// The content of each segment.
pub open spec fn segment_models(segments: Seq<DialogueSegment>) -> Seq<SegmentModel> {
    Seq::new(segments.len(), |i: int| segments[i]@)
}

/// The content of a tally.
pub open spec fn tally_model(tally: Seq<(String, usize)>) -> Seq<(Seq<char>, nat)> {
    Seq::new(tally.len(), |i: int| (tally[i].0@, tally[i].1 as nat))
}

/// `tally_position` gives the first position that holds the name, and `None`
/// where no position holds it.
pub proof fn lemma_tally_position(tally: Seq<(Seq<char>, nat)>, name: Seq<char>)
    ensures
        match tally_position(tally, name) {
            Some(i) => 0 <= i < tally.len() && tally[i].0 == name && forall|k: int|
                0 <= k < i ==> (#[trigger] tally[k]).0 != name,
            None => forall|k: int| 0 <= k < tally.len() ==> (#[trigger] tally[k]).0 != name,
        },
    decreases tally.len(),
{
    if tally.len() > 0 && tally[0].0 != name {
        let rest = tally.drop_first();
        lemma_tally_position(rest, name);
        match tally_position(rest, name) {
            Some(i) => {
                assert forall|k: int| 0 <= k < i + 1 implies (#[trigger] tally[k]).0 != name by {
                    if k > 0 {
                        assert(rest[k - 1] == tally[k]);
                    }
                }
            },
            None => {
                assert forall|k: int| 0 <= k < tally.len() implies (#[trigger] tally[k]).0
                    != name by {
                    if k > 0 {
                        assert(rest[k - 1] == tally[k]);
                    }
                }
            },
        }
    }
}

/// Counts `name` once more.
fn count_in(tally: &mut Vec<(String, usize)>, name: String)
    ensures
        tally_model(final(tally)@) == count_name(tally_model(old(tally)@), name@),
{
    let ghost model = tally_model(tally@);
    let mut i: usize = 0;
    while i < tally.len()
        invariant
            i <= tally@.len(),
            tally@ == old(tally)@,
            model == tally_model(tally@),
            forall|k: int| 0 <= k < i ==> (#[trigger] model[k]).0 != name@,
        decreases tally.len() - i,
    {
        if tally[i].0 == name {
            proof {
                lemma_tally_position(model, name@);
                assert(model[i as int].0 == name@);
            }
            let count = tally[i].1;
            let next = if count < usize::MAX {
                count + 1
            } else {
                count
            };
            tally.set(i, (name, next));
            assert(tally_model(tally@) =~= model.update(i as int, (name@, next as nat)));
            return ;
        }
        i += 1;
    }
    proof {
        lemma_tally_position(model, name@);
    }
    tally.push((name, 1));
    assert(tally_model(tally@) =~= model.push((name@, 1nat)));
}

/// Turns a tally into roles.
fn roles_from(tally: Vec<(String, usize)>) -> (roles: Vec<CharacterRole>)
    ensures
        role_models(roles@) == roles_of(tally_model(tally@)),
{
    let mut roles: Vec<CharacterRole> = Vec::new();
    let mut i: usize = 0;
    while i < tally.len()
        invariant
            i <= tally@.len(),
            roles@.len() == i,
            forall|k: int|
                0 <= k < i ==> (#[trigger] roles@[k])@ == roles_of(tally_model(tally@))[k],
        decreases tally.len() - i,
    {
        let mut id = String::new();
        crate::text::push_char(&mut id, 'r');
        crate::text::push_char(&mut id, 'o');
        crate::text::push_char(&mut id, 'l');
        crate::text::push_char(&mut id, 'e');
        crate::text::push_char(&mut id, '_');
        id.append(decimal_text(i as u64).as_str());
        assert(id@ =~= seq!['r', 'o', 'l', 'e', '_'] + decimal(i as nat));
        roles.push(CharacterRole { id, name: tally[i].0.clone(), segment_count: tally[i].1 });
        i += 1;
    }
    assert(role_models(roles@) =~= roles_of(tally_model(tally@)));
    roles
}

/// The position of the first colon, or the length of `s`.
fn find_colon(s: &Vec<char>) -> (p: usize)
    ensures
        p == colon_position(s@),
        p <= s.len(),
{
    let mut p: usize = 0;
    assert(s@.skip(0) == s@);
    while p < s.len() && !(s[p] == ':' || s[p] == '\u{ff1a}')
        invariant
            p <= s.len(),
            colon_position(s@) == p + colon_position(s@.skip(p as int)),
        decreases s.len() - p,
    {
        assert(s@.skip(p as int).drop_first() == s@.skip(p + 1));
        assert(s@.skip(p as int)[0] == s@[p as int]);
        p += 1;
    }
    proof {
        if p < s.len() {
            assert(s@.skip(p as int)[0] == s@[p as int]);
        }
    }
    p
}

/// Tests whether a letter or a Chinese character stands in `s`.
fn contains_letter(s: &Vec<char>) -> (b: bool)
    ensures
        b == has_letter(s@),
{
    let mut i: usize = 0;
    while i < s.len()
        invariant
            i <= s.len(),
            forall|k: int| 0 <= k < i ==> !(is_alphabetic(#[trigger] s@[k]) || is_cjk(s@[k])),
        decreases s.len() - i,
    {
        let n = s[i] as u32;
        if char_is_alphabetic(s[i]) || (0x4E00 <= n && n <= 0x9FFF) || (0x3400 <= n && n
            <= 0x4DBF) {
            return true;
        }
        i += 1;
    }
    false
}

/// The role that a line names.
pub fn role_of_line(line: &Vec<char>) -> (r: Option<Vec<char>>)
    ensures
        match r {
            Some(name) => line_role(line@) == Some(name@),
            None => line_role(line@) is None,
        },
{
    let t = trimmed(line);
    if t.len() > 0 && t[0] == '#' {
        return None;
    }
    let p = find_colon(&t);
    if p >= t.len() {
        return None;
    }
    assert(t@.take(p as int) == t@.subrange(0, p as int));
    if p == 0 || byte_len_up_to(&t, 0, p, 49) >= 50 {
        return None;
    }
    let before = slice_of(&t, 0, p);
    let name = trimmed(&without_pairs(&trimmed(&before), '*'));
    assert(name@.subrange(0, name@.len() as int) == name@);
    if name.len() == 0 || name[0] == '#' || byte_len_up_to(&name, 0, name.len(), 50) > 50 {
        return None;
    }
    if contains_letter(&name) {
        Some(name)
    } else {
        None
    }
}

/// Detects the roles of a script in Markdown: each role that a line names,
/// in the order of first mention, with the number of lines that name it.
pub fn detect_markdown_roles(content: &str) -> (roles: Vec<CharacterRole>)
    ensures
        role_models(roles@) == markdown_roles(content@),
{
    let chars = chars_of(content);
    let all = lines_of(&chars);
    let ghost line_models = lines(content@);
    let mut tally: Vec<(String, usize)> = Vec::new();
    let mut i: usize = 0;
    assert(line_models.take(0) =~= Seq::<Seq<char>>::empty());
    assert(tally_model(tally@) =~= Seq::<(Seq<char>, nat)>::empty());
    while i < all.len()
        invariant
            i <= all@.len(),
            all@.len() == line_models.len(),
            forall|k: int| 0 <= k < all@.len() ==> (#[trigger] all@[k])@ == line_models[k],
            tally_model(tally@) == tally_names(names_of(line_models.take(i as int))),
        decreases all.len() - i,
    {
        assert(line_models.take(i + 1).drop_last() == line_models.take(i as int));
        assert(line_models.take(i + 1).last() == all@[i as int]@);
        match role_of_line(&all[i]) {
            Some(name) => {
                proof {
                    assert(names_of(line_models.take(i + 1)).drop_last() == names_of(
                        line_models.take(i as int),
                    ));
                }
                count_in(&mut tally, string_of(&name));
            },
            None => {},
        }
        i += 1;
    }
    assert(line_models.take(i as int) == line_models);
    roles_from(tally)
}

/// Detects the roles of a script in plain text, as in Markdown.
pub fn detect_text_roles(content: &str) -> (roles: Vec<CharacterRole>)
    ensures
        role_models(roles@) == markdown_roles(content@),
{
    detect_markdown_roles(content)
}

/// The string in the field `key` of `v`; `None` where there is no such field
/// or it holds no string.
pub open spec fn text_member(v: JsonModel, key: Seq<char>) -> Option<Seq<char>> {
    match member(v, key) {
        Some(JsonModel::Text(t)) => Some(t),
        _ => None,
    }
}

/// The items of the array in the field `key` of `v`.
pub open spec fn array_member(v: JsonModel, key: Seq<char>) -> Option<Seq<JsonModel>> {
    match member(v, key) {
        Some(JsonModel::Array(items)) => Some(items),
        _ => None,
    }
}

/// The dialogue of a script in JSON: the array `segments`, else the array
/// `dialogue`.
pub open spec fn dialogue_of(tree: JsonModel) -> Option<Seq<JsonModel>> {
    match array_member(tree, "segments"@) {
        Some(items) => Some(items),
        None => array_member(tree, "dialogue"@),
    }
}

/// The names in a dialogue: of each item its `speaker`, then its `role`,
/// where they are strings.
pub open spec fn speaker_names(items: Seq<JsonModel>) -> Seq<Seq<char>>
    decreases items.len(),
{
    if items.len() == 0 {
        Seq::empty()
    } else {
        let before = speaker_names(items.drop_last());
        let with_speaker = match text_member(items.last(), "speaker"@) {
            Some(name) => before.push(name),
            None => before,
        };
        match text_member(items.last(), "role"@) {
            Some(name) => with_speaker.push(name),
            None => with_speaker,
        }
    }
}

/// The roles of a JSON value: those of its dialogue, none without one.
pub open spec fn tree_roles(tree: JsonModel) -> Seq<RoleModel> {
    match dialogue_of(tree) {
        Some(items) => roles_of(tally_names(speaker_names(items))),
        None => Seq::empty(),
    }
}

/// The roles of a script in JSON: those of the value that the text holds,
/// none where the text is no JSON.
pub open spec fn json_roles(content: Seq<char>) -> Seq<RoleModel> {
    match document_of(content) {
        Some(tree) => tree_roles(tree),
        None => Seq::empty(),
    }
}

/// The role of a dialogue item: its `speaker`, else its `role`, where that
/// is a string; else `Unknown`.
pub open spec fn segment_role(item: JsonModel) -> Seq<char> {
    let field = match member(item, "speaker"@) {
        Some(v) => Some(v),
        None => member(item, "role"@),
    };
    match field {
        Some(JsonModel::Text(t)) => t,
        _ => "Unknown"@,
    }
}

/// The text of a dialogue item: its `text`, else its `content`, where that
/// is a string; else the empty text.
pub open spec fn segment_text(item: JsonModel) -> Seq<char> {
    let field = match member(item, "text"@) {
        Some(v) => Some(v),
        None => member(item, "content"@),
    };
    match field {
        Some(JsonModel::Text(t)) => t,
        _ => Seq::empty(),
    }
}

/// The segments of a dialogue: one for each item with a text, under the
/// item's position.
pub open spec fn dialogue_segments(items: Seq<JsonModel>) -> Seq<SegmentModel>
    decreases items.len(),
{
    if items.len() == 0 {
        Seq::empty()
    } else {
        let before = dialogue_segments(items.drop_last());
        let text = segment_text(items.last());
        if text.len() > 0 {
            before.push(
                SegmentModel {
                    index: (items.len() - 1) as nat,
                    role: segment_role(items.last()),
                    text,
                },
            )
        } else {
            before
        }
    }
}

/// The segments of a JSON value: those of its dialogue, none without one.
pub open spec fn tree_segments(tree: JsonModel) -> Seq<SegmentModel> {
    match dialogue_of(tree) {
        Some(items) => dialogue_segments(items),
        None => Seq::empty(),
    }
}

/// The segments of a script in JSON.
pub open spec fn json_segments(content: Seq<char>) -> Seq<SegmentModel> {
    match document_of(content) {
        Some(tree) => tree_segments(tree),
        None => Seq::empty(),
    }
}

/// The string in the field `key` of a value.
fn text_field<'a>(item: &'a serde_json::Value, key: &str) -> (r: Option<&'a str>)
    ensures
        match r {
            Some(t) => text_member(tree_content(*item), key@) == Some(t@),
            None => text_member(tree_content(*item), key@) is None,
        },
{
    match tree_get(item, key) {
        Some(v) => tree_as_str(v),
        None => None,
    }
}

/// The array in the field `key` of a value.
fn array_field<'a>(tree: &'a serde_json::Value, key: &str) -> (r: Option<
    &'a Vec<serde_json::Value>,
>)
    ensures
        match r {
            Some(items) => array_member(tree_content(*tree), key@) == Some(item_models(items@)),
            None => array_member(tree_content(*tree), key@) is None,
        },
{
    match tree_get(tree, key) {
        Some(v) => match tree_as_array(v) {
            Some(items) => {
                assert(tree_content(*v)->Array_0 =~= item_models(items@));
                Some(items)
            },
            None => None,
        },
        None => None,
    }
}

/// What each value of a vector holds.
pub open spec fn item_models(items: Seq<serde_json::Value>) -> Seq<JsonModel> {
    Seq::new(items.len(), |i: int| tree_content(items[i]))
}

/// The dialogue of a value.
fn dialogue_items<'a>(tree: &'a serde_json::Value) -> (r: Option<&'a Vec<serde_json::Value>>)
    ensures
        match r {
            Some(items) => dialogue_of(tree_content(*tree)) == Some(item_models(items@)),
            None => dialogue_of(tree_content(*tree)) is None,
        },
{
    match array_field(tree, "segments") {
        Some(items) => Some(items),
        None => array_field(tree, "dialogue"),
    }
}

/// Detects the roles of a JSON value: the names of its dialogue, in the
/// order of first mention, each with the number of its mentions.
pub fn detect_tree_roles(tree: &serde_json::Value) -> (roles: Vec<CharacterRole>)
    ensures
        role_models(roles@) == tree_roles(tree_content(*tree)),
{
    match dialogue_items(tree) {
        None => {
            let roles: Vec<CharacterRole> = Vec::new();
            assert(role_models(roles@) =~= Seq::<RoleModel>::empty());
            roles
        },
        Some(items) => {
            let ghost models = item_models(items@);
            let mut tally: Vec<(String, usize)> = Vec::new();
            let mut i: usize = 0;
            assert(models.take(0) =~= Seq::<JsonModel>::empty());
            assert(tally_model(tally@) =~= Seq::<(Seq<char>, nat)>::empty());
            while i < items.len()
                invariant
                    i <= items@.len(),
                    models == item_models(items@),
                    tally_model(tally@) == tally_names(speaker_names(models.take(i as int))),
                decreases items.len() - i,
            {
                assert(models.take(i + 1).drop_last() == models.take(i as int));
                assert(models.take(i + 1).last() == tree_content(items@[i as int]));
                let ghost mut counted = speaker_names(models.take(i as int));
                match text_field(&items[i], "speaker") {
                    Some(name) => {
                        proof {
                            assert(counted.push(name@).drop_last() == counted);
                        }
                        count_in(&mut tally, name.to_owned());
                        proof {
                            counted = counted.push(name@);
                        }
                    },
                    None => {},
                }
                assert(tally_model(tally@) == tally_names(counted));
                match text_field(&items[i], "role") {
                    Some(name) => {
                        proof {
                            assert(counted.push(name@).drop_last() == counted);
                        }
                        count_in(&mut tally, name.to_owned());
                        proof {
                            counted = counted.push(name@);
                        }
                    },
                    None => {},
                }
                assert(counted == speaker_names(models.take(i + 1)));
                i += 1;
            }
            assert(models.take(i as int) == models);
            roles_from(tally)
        },
    }
}

/// Detects the roles of a script in JSON.
pub fn detect_json_roles(content: &str) -> (roles: Vec<CharacterRole>)
    ensures
        role_models(roles@) == json_roles(content@),
{
    match parse_document(content) {
        Ok(tree) => detect_tree_roles(&tree),
        Err(_) => {
            let roles: Vec<CharacterRole> = Vec::new();
            assert(role_models(roles@) =~= Seq::<RoleModel>::empty());
            roles
        },
    }
}

/// The roles of a script of the given format.
pub open spec fn detected_roles(content: Seq<char>, format: ScriptFormat) -> Seq<RoleModel> {
    match format {
        ScriptFormat::Json => json_roles(content),
        _ => markdown_roles(content),
    }
}

/// Detects the roles of a script.
pub fn detect_roles(content: &str, format: &ScriptFormat) -> (roles: Vec<CharacterRole>)
    ensures
        role_models(roles@) == detected_roles(content@, *format),
{
    match format {
        ScriptFormat::Markdown => detect_markdown_roles(content),
        ScriptFormat::Json => detect_json_roles(content),
        ScriptFormat::PlainText => detect_text_roles(content),
    }
}

/// Reads the segments of a JSON value.
pub fn parse_tree_segments(tree: &serde_json::Value) -> (segments: Vec<DialogueSegment>)
    ensures
        segment_models(segments@) == tree_segments(tree_content(*tree)),
{
    let mut segments: Vec<DialogueSegment> = Vec::new();
    assert(segment_models(segments@) =~= Seq::<SegmentModel>::empty());
    match dialogue_items(tree) {
        None => segments,
        Some(items) => {
            let ghost models = item_models(items@);
            let mut i: usize = 0;
            assert(models.take(0) =~= Seq::<JsonModel>::empty());
            while i < items.len()
                invariant
                    i <= items@.len(),
                    models == item_models(items@),
                    segment_models(segments@) == dialogue_segments(models.take(i as int)),
                decreases items.len() - i,
            {
                assert(models.take(i + 1).drop_last() == models.take(i as int));
                assert(models.take(i + 1).last() == tree_content(items@[i as int]));
                let item = &items[i];
                let role_field = match tree_get(item, "speaker") {
                    Some(v) => Some(v),
                    None => tree_get(item, "role"),
                };
                let role = match role_field {
                    Some(v) => match tree_as_str(v) {
                        Some(t) => t.to_owned(),
                        None => "Unknown".to_owned(),
                    },
                    None => "Unknown".to_owned(),
                };
                let text_field = match tree_get(item, "text") {
                    Some(v) => Some(v),
                    None => tree_get(item, "content"),
                };
                let text = match text_field {
                    Some(v) => match tree_as_str(v) {
                        Some(t) => t.to_owned(),
                        None => String::new(),
                    },
                    None => String::new(),
                };
                assert(role@ == segment_role(tree_content(*item)));
                assert(text@ == segment_text(tree_content(*item)));
                if !text.as_str().is_empty() {
                    let ghost before = segment_models(segments@);
                    let segment = DialogueSegment { index: i, role, text };
                    segments.push(segment);
                    assert(segment_models(segments@) =~= before.push(segment@));
                }
                i += 1;
            }
            assert(models.take(i as int) == models);
            segments
        },
    }
}

/// Reads the segments of a script in JSON.
pub fn parse_json_segments(content: &str) -> (segments: Vec<DialogueSegment>)
    ensures
        segment_models(segments@) == json_segments(content@),
{
    match parse_document(content) {
        Ok(tree) => parse_tree_segments(&tree),
        Err(_) => {
            let segments: Vec<DialogueSegment> = Vec::new();
            assert(segment_models(segments@) =~= Seq::<SegmentModel>::empty());
            segments
        },
    }
}

/// The pattern of a dialogue line: at the start of a line an optional pair
/// of asterisks, the role (no asterisk, colon or line feed in it, as short as
/// can be), an optional pair of asterisks, a colon of either width, white
/// space, and the text up to the end of its line.
pub const DIALOGUE_PATTERN: &'static str =
    "(?m)^(?:\\*\\*)?([^\\*:\\n]+?)(?:\\*\\*)?[:\u{ff1a}]\\s*([^\\n]+)";

/// What the first two groups of `pattern` hold at each of its matches in
/// `text`, matches in order and without overlap; `None` where `pattern` is no
/// pattern that `regex` takes.
pub uninterp spec fn regex_captures(pattern: Seq<char>, text: Seq<char>) -> Option<
    Seq<(Option<Seq<char>>, Option<Seq<char>>)>,
>;

/// The characters of a pair of optional strings.
pub open spec fn pair_model(pair: (Option<String>, Option<String>)) -> (
    Option<Seq<char>>,
    Option<Seq<char>>,
) {
    (
        match pair.0 {
            Some(t) => Some(t@),
            None => None,
        },
        match pair.1 {
            Some(t) => Some(t@),
            None => None,
        },
    )
}

/// The characters of each pair.
pub open spec fn pair_models(pairs: Seq<(Option<String>, Option<String>)>) -> Seq<
    (Option<Seq<char>>, Option<Seq<char>>),
> {
    Seq::new(pairs.len(), |i: int| pair_model(pairs[i]))
}

/// The characters of each pair, where there are pairs.
pub open spec fn captured(r: Option<Vec<(Option<String>, Option<String>)>>) -> Option<
    Seq<(Option<Seq<char>>, Option<Seq<char>>)>,
> {
    match r {
        Some(pairs) => Some(pair_models(pairs@)),
        None => None,
    }
}

/// `regex::Regex::new` and `Regex::captures_iter`: compiles `pattern` and
/// walks its successive matches in `text`, taking of each match the text of
/// the groups 1 and 2 (`Captures::get`, `Match::as_str`). The outcome depends
/// on the two texts alone.
#[verifier::external_body]
pub(crate) fn capture_pairs(pattern: &str, text: &str) -> (r: Option<
    Vec<(Option<String>, Option<String>)>,
>)
    ensures
        captured(r) == regex_captures(pattern@, text@),
{
    let re = regex::Regex::new(pattern).ok()?;
    Some(
        re.captures_iter(text).map(
            |c|
                (
                    c.get(1).map(|m| m.as_str().to_string()),
                    c.get(2).map(|m| m.as_str().to_string()),
                ),
        ).collect(),
    )
}

/// The segments of matched dialogue lines: one for each match with a role
/// and a text, under the match's position. The role is taken without white
/// space around it and without pairs of asterisks, the text without white
/// space around it. A match whose role is empty or starts with `#`, or whose
/// text is empty, gives no segment.
pub open spec fn pair_segments(pairs: Seq<(Option<Seq<char>>, Option<Seq<char>>)>) -> Seq<
    SegmentModel,
>
    decreases pairs.len(),
{
    if pairs.len() == 0 {
        Seq::empty()
    } else {
        let before = pair_segments(pairs.drop_last());
        match pairs.last() {
            (Some(r), Some(t)) => {
                let role = remove_pairs(trim(r), '*');
                let text = trim(t);
                if role.len() == 0 || role[0] == '#' || text.len() == 0 {
                    before
                } else {
                    before.push(SegmentModel { index: (pairs.len() - 1) as nat, role, text })
                }
            },
            _ => before,
        }
    }
}

/// The segments of a script in Markdown or plain text.
pub open spec fn markdown_segments(content: Seq<char>) -> Seq<SegmentModel> {
    match regex_captures(DIALOGUE_PATTERN@, content) {
        Some(pairs) => pair_segments(pairs),
        None => Seq::empty(),
    }
}

/// Turns matched dialogue lines into segments.
pub fn segments_from_pairs(pairs: &Vec<(Option<String>, Option<String>)>) -> (segments: Vec<
    DialogueSegment,
>)
    ensures
        segment_models(segments@) == pair_segments(pair_models(pairs@)),
{
    let ghost models = pair_models(pairs@);
    let mut segments: Vec<DialogueSegment> = Vec::new();
    let mut i: usize = 0;
    assert(segment_models(segments@) =~= Seq::<SegmentModel>::empty());
    assert(models.take(0) =~= Seq::<(Option<Seq<char>>, Option<Seq<char>>)>::empty());
    while i < pairs.len()
        invariant
            i <= pairs@.len(),
            models == pair_models(pairs@),
            segment_models(segments@) == pair_segments(models.take(i as int)),
        decreases pairs.len() - i,
    {
        assert(models.take(i + 1).drop_last() == models.take(i as int));
        assert(models.take(i + 1).last() == pair_model(pairs@[i as int]));
        match (&pairs[i].0, &pairs[i].1) {
            (Some(r), Some(t)) => {
                let role = without_pairs(&trimmed(&chars_of(r.as_str())), '*');
                let text = trimmed(&chars_of(t.as_str()));
                if !(role.len() == 0 || role[0] == '#' || text.len() == 0) {
                    let ghost before = segment_models(segments@);
                    let segment = DialogueSegment {
                        index: i,
                        role: string_of(&role),
                        text: string_of(&text),
                    };
                    segments.push(segment);
                    assert(segment_models(segments@) =~= before.push(segment@));
                }
            },
            _ => {},
        }
        i += 1;
    }
    assert(models.take(i as int) == models);
    segments
}

/// Reads the segments of a script in Markdown or plain text.
pub fn parse_markdown_segments(content: &str) -> (segments: Vec<DialogueSegment>)
    ensures
        segment_models(segments@) == markdown_segments(content@),
{
    match capture_pairs(DIALOGUE_PATTERN, content) {
        Some(pairs) => segments_from_pairs(&pairs),
        None => {
            let segments: Vec<DialogueSegment> = Vec::new();
            assert(segment_models(segments@) =~= Seq::<SegmentModel>::empty());
            segments
        },
    }
}

/// The segments of a script of the given format.
pub open spec fn script_segments(content: Seq<char>, format: ScriptFormat) -> Seq<SegmentModel> {
    match format {
        ScriptFormat::Json => json_segments(content),
        _ => markdown_segments(content),
    }
}

/// Reads the dialogue segments of a script.
pub fn parse_segments(script: &PodcastScript) -> (segments: Vec<DialogueSegment>)
    ensures
        segment_models(segments@) == script_segments(script.content@, script.format),
{
    match script.format {
        ScriptFormat::Markdown => parse_markdown_segments(script.content.as_str()),
        ScriptFormat::PlainText => parse_markdown_segments(script.content.as_str()),
        ScriptFormat::Json => parse_json_segments(script.content.as_str()),
    }
}

/// The format that a file's name tells.
pub open spec fn path_format(path: Seq<char>) -> ScriptFormat {
    if ends_with(path, seq!['.', 'm', 'd']) {
        ScriptFormat::Markdown
    } else if ends_with(path, seq!['.', 'j', 's', 'o', 'n']) {
        ScriptFormat::Json
    } else {
        ScriptFormat::PlainText
    }
}

/// The format that a script's content tells: JSON where a brace comes first,
/// after any white space; else Markdown where a pair of asterisks stands in it
/// or `#` comes first; else plain text.
pub open spec fn content_format(content: Seq<char>) -> ScriptFormat {
    if starts_with(trim(content), seq!['{']) {
        ScriptFormat::Json
    } else if contains_text(content, seq!['*', '*']) || starts_with(content, seq!['#']) {
        ScriptFormat::Markdown
    } else {
        ScriptFormat::PlainText
    }
}

/// A line without each `# ` at its start.
pub open spec fn strip_heading(line: Seq<char>) -> Seq<char>
    decreases line.len(),
{
    if line.len() >= 2 && line[0] == '#' && line[1] == ' ' {
        strip_heading(line.skip(2))
    } else {
        line
    }
}

/// The title of a script: where the content starts with `# `, its first line
/// without each `# ` at the start; else the stem of the file's name, or
/// `Untitled Script` where the name has none.
pub open spec fn title_of(content: Seq<char>, stem: Option<Seq<char>>) -> Seq<char> {
    if starts_with(content, seq!['#', ' ']) {
        strip_heading(lines(content)[0])
    } else {
        match stem {
            Some(name) => name,
            None => "Untitled Script"@,
        }
    }
}

/// `std::path::Path::file_stem`: the last component of a path without its
/// extension, where the path has a last component and that is Unicode.
#[verifier::external_body]
pub(crate) fn file_stem(path: &str) -> (stem: Option<String>) {
    std::path::Path::new(path).file_stem().and_then(|s| s.to_str()).map(|s| s.to_string())
}

/// The title of a script, from its content and the stem of its file's name.
pub fn title_from(content: &str, stem: Option<String>) -> (title: String)
    ensures
        title@ == title_of(
            content@,
            match stem {
                Some(name) => Some(name@),
                None => None,
            },
        ),
{
    let chars = chars_of(content);
    let heading: Vec<char> = vec!['#', ' '];
    assert(heading@ == seq!['#', ' ']);
    if has_prefix(&chars, &heading) {
        let all = lines_of(&chars);
        proof {
            assert(chars@.take(2)[0] == chars@[0]);
            assert(chars@.len() > 0);
            crate::text::lemma_lines_nonempty(chars@);
        }
        let line = &all[0];
        let mut i: usize = 0;
        assert(line@.skip(0) == line@);
        while i < line.len() && line.len() - i >= 2 && line[i] == '#' && line[i + 1] == ' '
            invariant
                i <= line@.len(),
                strip_heading(line@) == strip_heading(line@.skip(i as int)),
            decreases line.len() - i,
        {
            assert(line@.skip(i as int)[0] == line@[i as int]);
            assert(line@.skip(i as int)[1] == line@[i + 1]);
            assert(line@.skip(i as int).skip(2) == line@.skip(i + 2));
            i += 2;
        }
        proof {
            let rest = line@.skip(i as int);
            if rest.len() >= 2 {
                assert(rest[0] == line@[i as int]);
                assert(rest[1] == line@[i + 1]);
            }
            assert(rest == line@.subrange(i as int, line@.len() as int));
        }
        string_of(&slice_of(line, i, line.len()))
    } else {
        match stem {
            Some(name) => name,
            None => "Untitled Script".to_owned(),
        }
    }
}

/// The title of a script: that of its content and the stem of its file's
/// name.
pub fn extract_title(file_path: &str, content: &str) -> (title: String)
    ensures
        exists|stem: Option<Seq<char>>| title@ == title_of(content@, stem),
        starts_with(content@, seq!['#', ' ']) ==> title@ == strip_heading(lines(content@)[0]),
{
    let stem = file_stem(file_path);
    title_from(content, stem)
}

/// Tells the format of a script from its file's name.
pub fn format_of_path(file_path: &str) -> (format: ScriptFormat)
    ensures
        format == path_format(file_path@),
{
    let path = chars_of(file_path);
    let md: Vec<char> = vec!['.', 'm', 'd'];
    let json: Vec<char> = vec!['.', 'j', 's', 'o', 'n'];
    assert(md@ == seq!['.', 'm', 'd']);
    assert(json@ == seq!['.', 'j', 's', 'o', 'n']);
    if has_suffix(&path, &md) {
        ScriptFormat::Markdown
    } else if has_suffix(&path, &json) {
        ScriptFormat::Json
    } else {
        ScriptFormat::PlainText
    }
}

/// Tells the format of a script from its content.
pub fn format_of_content(content: &str) -> (format: ScriptFormat)
    ensures
        format == content_format(content@),
{
    let chars = chars_of(content);
    let brace: Vec<char> = vec!['{'];
    let stars: Vec<char> = vec!['*', '*'];
    let hash: Vec<char> = vec!['#'];
    assert(brace@ == seq!['{']);
    assert(stars@ == seq!['*', '*']);
    assert(hash@ == seq!['#']);
    if has_prefix(&trimmed(&chars), &brace) {
        ScriptFormat::Json
    } else if has_text(&chars, &stars) || has_prefix(&chars, &hash) {
        ScriptFormat::Markdown
    } else {
        ScriptFormat::PlainText
    }
}

/// Reads a script from a file's name and content: the format is told by the
/// name, the title by the content or the name. Always succeeds.
pub fn parse_script(file_path: &str, content: &str) -> (r: Result<PodcastScript, PodcastError>)
    ensures
        r matches Ok(script) && {
            &&& script.id@.len() == 36
            &&& exists|stem: Option<Seq<char>>| script.title@ == title_of(content@, stem)
            &&& starts_with(content@, seq!['#', ' ']) ==> script.title@ == strip_heading(
                lines(content@)[0],
            )
            &&& script.content@ == content@
            &&& script.format == path_format(file_path@)
            &&& role_models(script.roles@) == detected_roles(content@, path_format(file_path@))
            &&& script.file_path matches Some(path) && path@ == file_path@
        },
{
    let format = format_of_path(file_path);
    let title = extract_title(file_path, content);
    let mut script = PodcastScript::new(title, content.to_owned(), format);
    script.roles = detect_roles(content, &format);
    script.file_path = Some(file_path.to_owned());
    Ok(script)
}

/// Reads a script from its content alone: the format is told by the content,
/// the title is `Untitled Script`. Always succeeds.
pub fn parse_content(content: &str) -> (r: Result<PodcastScript, PodcastError>)
    ensures
        r matches Ok(script) && {
            &&& script.id@.len() == 36
            &&& script.title@ == "Untitled Script"@
            &&& script.content@ == content@
            &&& script.format == content_format(content@)
            &&& role_models(script.roles@) == detected_roles(content@, content_format(content@))
            &&& script.file_path is None
        },
{
    let format = format_of_content(content);
    let mut script = PodcastScript::new("Untitled Script".to_owned(), content.to_owned(), format);
    script.roles = detect_roles(content, &format);
    Ok(script)
}

} // verus!
