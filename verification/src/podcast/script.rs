//! A podcast script and what is found in it.

use vstd::prelude::*;

verus! {

/// The format of a script.
#[derive(Debug, Clone, Copy, PartialEq, Eq, Structural)]
pub enum ScriptFormat {
    Markdown,
    Json,
    PlainText,
}

/// A role that speaks in a script.
#[derive(Debug, Clone)]
pub struct CharacterRole {
    pub id: String,
    pub name: String,
    pub segment_count: usize,
}

/// The mathematical content of a [`CharacterRole`].
pub struct RoleModel {
    pub id: Seq<char>,
    pub name: Seq<char>,
    pub segment_count: nat,
}

impl View for CharacterRole {
    type V = RoleModel;

    open spec fn view(&self) -> RoleModel {
        RoleModel { id: self.id@, name: self.name@, segment_count: self.segment_count as nat }
    }
}

/// What one role says at one point of a script.
#[derive(Debug, Clone)]
pub struct DialogueSegment {
    pub index: usize,
    pub role: String,
    pub text: String,
}

/// The mathematical content of a [`DialogueSegment`].
pub struct SegmentModel {
    pub index: nat,
    pub role: Seq<char>,
    pub text: Seq<char>,
}

impl View for DialogueSegment {
    type V = SegmentModel;

    open spec fn view(&self) -> SegmentModel {
        SegmentModel { index: self.index as nat, role: self.role@, text: self.text@ }
    }
}

/// A script with its content and what is known of it.
#[derive(Debug, Clone)]
pub struct PodcastScript {
    pub id: String,
    pub title: String,
    pub content: String,
    pub format: ScriptFormat,
    pub roles: Vec<CharacterRole>,
    pub file_path: Option<String>,
}

/// A fresh identifier: `uuid::Uuid::new_v4`, a random UUID, written as
/// `Display` writes it, in the hyphenated form of 36 characters.
#[verifier::external_body]
fn fresh_id() -> (id: String)
    ensures
        id@.len() == 36,
{
    uuid::Uuid::new_v4().to_string()
}

impl PodcastScript {
    /// A script with a fresh identifier, without roles and file path.
    pub fn new(title: String, content: String, format: ScriptFormat) -> (script: Self)
        ensures
            script.id@.len() == 36,
            script.title == title,
            script.content == content,
            script.format == format,
            script.roles@.len() == 0,
            script.file_path is None,
    {
        PodcastScript {
            id: fresh_id(),
            title,
            content,
            format,
            roles: Vec::new(),
            file_path: None,
        }
    }
}

} // verus!
