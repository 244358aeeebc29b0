//! The manifest of a content provider and how it is read from a document.

use crate::json::{member, JsonModel};
use crate::json_tree::{
    describe_error, document_of, parse_document, tree_as_bool, tree_as_str, tree_content,
    tree_get, tree_is_null, tree_is_object,
};
use crate::text::text_option;
use vstd::prelude::*;

verus! {

/// How a provider shows its content.
#[derive(Debug, Clone, Copy, PartialEq, Eq, Structural)]
pub enum PluginType {
    /// Served by a process and shown in an embedded view.
    WebView,
    /// Built into the host.
    Native,
}

impl Default for PluginType {
    fn default() -> (t: Self)
        ensures
            t == PluginType::WebView,
    {
        PluginType::WebView
    }
}

/// The manifest of one provider.
#[derive(Debug)]
pub struct PluginManifest {
    /// Unique identifier.
    pub id: String,
    /// Display name.
    pub name: String,
    /// Version string.
    pub version: String,
    /// Description.
    pub description: String,
    /// Author name.
    pub author: String,
    /// How the provider shows its content; the document's field `type`.
    pub kind: PluginType,
    /// Icon file, relative to the provider's directory.
    pub icon: Option<String>,
    /// Entry script, relative to the provider's directory.
    pub python_entry: Option<String>,
    /// Directory of static files, relative to the provider's directory.
    pub static_dir: Option<String>,
    /// Whether to show the provider in the sidebar.
    pub show_in_sidebar: bool,
    /// The oldest host version that the provider works with.
    pub min_version: Option<String>,
    /// Homepage URL.
    pub homepage: Option<String>,
    /// Repository URL.
    pub repository: Option<String>,
}

/// The mathematical content of a [`PluginManifest`].
pub struct ManifestModel {
    pub id: Seq<char>,
    pub name: Seq<char>,
    pub version: Seq<char>,
    pub description: Seq<char>,
    pub author: Seq<char>,
    pub kind: PluginType,
    pub icon: Option<Seq<char>>,
    pub python_entry: Option<Seq<char>>,
    pub static_dir: Option<Seq<char>>,
    pub show_in_sidebar: bool,
    pub min_version: Option<Seq<char>>,
    pub homepage: Option<Seq<char>>,
    pub repository: Option<Seq<char>>,
}

impl View for PluginManifest {
    type V = ManifestModel;

    open spec fn view(&self) -> ManifestModel {
        ManifestModel {
            id: self.id@,
            name: self.name@,
            version: self.version@,
            description: self.description@,
            author: self.author@,
            kind: self.kind,
            icon: text_option(self.icon),
            python_entry: text_option(self.python_entry),
            static_dir: text_option(self.static_dir),
            show_in_sidebar: self.show_in_sidebar,
            min_version: text_option(self.min_version),
            homepage: text_option(self.homepage),
            repository: text_option(self.repository),
        }
    }
}

/// Why a manifest could not be had.
#[derive(Debug)]
pub enum ManifestError {
    /// The manifest file could not be read; the text is the host's
    /// description.
    Unreadable(String),
    /// The document is no JSON text; the text is the reader's description.
    Syntax(String),
    /// The document is no object.
    NotAnObject,
    /// A required field is missing.
    MissingField(String),
    /// A field holds a value of the wrong type, or a value that the field does
    /// not take.
    InvalidField(String),
}

/// The mathematical content of a [`ManifestError`], but for the reader's
/// description of a syntax error.
pub enum ManifestFault {
    Unreadable(Seq<char>),
    Syntax,
    NotAnObject,
    MissingField(Seq<char>),
    InvalidField(Seq<char>),
}

impl View for ManifestError {
    type V = ManifestFault;

    open spec fn view(&self) -> ManifestFault {
        match self {
            ManifestError::Unreadable(reason) => ManifestFault::Unreadable(reason@),
            ManifestError::Syntax(_) => ManifestFault::Syntax,
            ManifestError::NotAnObject => ManifestFault::NotAnObject,
            ManifestError::MissingField(name) => ManifestFault::MissingField(name@),
            ManifestError::InvalidField(name) => ManifestFault::InvalidField(name@),
        }
    }
}

impl ManifestError {
    /// The error's description.
    pub fn to_string(&self) -> (text: String)
        ensures
            match self {
                ManifestError::Unreadable(reason) => text@ == "Failed to read manifest: "@
                    + reason@,
                ManifestError::Syntax(detail) => text@ == "Failed to parse manifest: "@ + detail@,
                ManifestError::NotAnObject => text@ == "Failed to parse manifest: expected an object"@,
                ManifestError::MissingField(name) => text@ == "Failed to parse manifest: missing field `"@
                    + name@ + "`"@,
                ManifestError::InvalidField(name) => text@
                    == "Failed to parse manifest: invalid value for field `"@ + name@ + "`"@,
            },
    {
        match self {
            ManifestError::Unreadable(reason) => {
                let mut text = "Failed to read manifest: ".to_owned();
                text.append(reason.as_str());
                text
            },
            ManifestError::Syntax(detail) => {
                let mut text = "Failed to parse manifest: ".to_owned();
                text.append(detail.as_str());
                text
            },
            ManifestError::NotAnObject => "Failed to parse manifest: expected an object".to_owned(),
            ManifestError::MissingField(name) => {
                let mut text = "Failed to parse manifest: missing field `".to_owned();
                text.append(name.as_str());
                text.append("`");
                text
            },
            ManifestError::InvalidField(name) => {
                let mut text = "Failed to parse manifest: invalid value for field `".to_owned();
                text.append(name.as_str());
                text.append("`");
                text
            },
        }
    }
}

/// A field that must be there and hold a string.
pub open spec fn required_text(tree: JsonModel, key: Seq<char>) -> Result<Seq<char>, ManifestFault> {
    match member(tree, key) {
        None => Err(ManifestFault::MissingField(key)),
        Some(JsonModel::Text(t)) => Ok(t),
        Some(_) => Err(ManifestFault::InvalidField(key)),
    }
}

/// A field that holds a string, or is left out and stands for the empty
/// string.
pub open spec fn text_or_empty(tree: JsonModel, key: Seq<char>) -> Result<Seq<char>, ManifestFault> {
    match member(tree, key) {
        None => Ok(Seq::empty()),
        Some(JsonModel::Text(t)) => Ok(t),
        Some(_) => Err(ManifestFault::InvalidField(key)),
    }
}

/// A field that holds a string, or is null or left out.
pub open spec fn optional_text(tree: JsonModel, key: Seq<char>) -> Result<
    Option<Seq<char>>,
    ManifestFault,
> {
    match member(tree, key) {
        None => Ok(None),
        Some(JsonModel::Null) => Ok(None),
        Some(JsonModel::Text(t)) => Ok(Some(t)),
        Some(_) => Err(ManifestFault::InvalidField(key)),
    }
}

/// A field that holds a boolean, or is left out and stands for `default`.
pub open spec fn flag_or(tree: JsonModel, key: Seq<char>, default: bool) -> Result<
    bool,
    ManifestFault,
> {
    match member(tree, key) {
        None => Ok(default),
        Some(JsonModel::Bool(b)) => Ok(b),
        Some(_) => Err(ManifestFault::InvalidField(key)),
    }
}

/// The field `type`: `webview` or `native`, or left out and standing for
/// `webview`.
pub open spec fn kind_of(tree: JsonModel) -> Result<PluginType, ManifestFault> {
    match member(tree, "type"@) {
        None => Ok(PluginType::WebView),
        Some(JsonModel::Text(t)) => if t == "webview"@ {
            Ok(PluginType::WebView)
        } else if t == "native"@ {
            Ok(PluginType::Native)
        } else {
            Err(ManifestFault::InvalidField("type"@))
        },
        Some(_) => Err(ManifestFault::InvalidField("type"@)),
    }
}

/// The manifest that a JSON value holds.
///
/// The value must be an object. `id`, `name` and `version` are required
/// strings; `description` and `author` are strings that default to the empty
/// string; `type` defaults to `webview`; `show_in_sidebar` is a boolean that
/// defaults to true; the other fields are strings that may be null or left
/// out. Fields that the manifest does not know are passed over. Where several
/// fields are at fault, the first in the order of [`PluginManifest`] is named.
pub open spec fn manifest_of(tree: JsonModel) -> Result<ManifestModel, ManifestFault> {
    let id = required_text(tree, "id"@);
    let name = required_text(tree, "name"@);
    let version = required_text(tree, "version"@);
    let description = text_or_empty(tree, "description"@);
    let author = text_or_empty(tree, "author"@);
    let kind = kind_of(tree);
    let icon = optional_text(tree, "icon"@);
    let python_entry = optional_text(tree, "python_entry"@);
    let static_dir = optional_text(tree, "static_dir"@);
    let show_in_sidebar = flag_or(tree, "show_in_sidebar"@, true);
    let min_version = optional_text(tree, "min_version"@);
    let homepage = optional_text(tree, "homepage"@);
    let repository = optional_text(tree, "repository"@);
    if !(tree is Object) {
        Err(ManifestFault::NotAnObject)
    } else if id is Err {
        Err(id->Err_0)
    } else if name is Err {
        Err(name->Err_0)
    } else if version is Err {
        Err(version->Err_0)
    } else if description is Err {
        Err(description->Err_0)
    } else if author is Err {
        Err(author->Err_0)
    } else if kind is Err {
        Err(kind->Err_0)
    } else if icon is Err {
        Err(icon->Err_0)
    } else if python_entry is Err {
        Err(python_entry->Err_0)
    } else if static_dir is Err {
        Err(static_dir->Err_0)
    } else if show_in_sidebar is Err {
        Err(show_in_sidebar->Err_0)
    } else if min_version is Err {
        Err(min_version->Err_0)
    } else if homepage is Err {
        Err(homepage->Err_0)
    } else if repository is Err {
        Err(repository->Err_0)
    } else {
        Ok(
            ManifestModel {
                id: id->Ok_0,
                name: name->Ok_0,
                version: version->Ok_0,
                description: description->Ok_0,
                author: author->Ok_0,
                kind: kind->Ok_0,
                icon: icon->Ok_0,
                python_entry: python_entry->Ok_0,
                static_dir: static_dir->Ok_0,
                show_in_sidebar: show_in_sidebar->Ok_0,
                min_version: min_version->Ok_0,
                homepage: homepage->Ok_0,
                repository: repository->Ok_0,
            },
        )
    }
}

/// The manifest that a document holds: the document must be a JSON text, and
/// its value a manifest.
pub open spec fn manifest_of_text(text: Seq<char>) -> Result<ManifestModel, ManifestFault> {
    match document_of(text) {
        None => Err(ManifestFault::Syntax),
        Some(tree) => manifest_of(tree),
    }
}

/// The manifest of a file: that of its content, where the file could be
/// read.
pub open spec fn manifest_of_file(read: Result<Seq<char>, Seq<char>>) -> Result<
    ManifestModel,
    ManifestFault,
> {
    match read {
        Ok(content) => manifest_of_text(content),
        Err(reason) => Err(ManifestFault::Unreadable(reason)),
    }
}

/// The characters of a file's content, or of the reason it could not be
/// read.
pub open spec fn read_model(read: Result<String, String>) -> Result<Seq<char>, Seq<char>> {
    match read {
        Ok(content) => Ok(content@),
        Err(reason) => Err(reason@),
    }
}

/// The content of a manifest or of an error, whichever a result holds.
pub open spec fn manifest_result(r: Result<PluginManifest, ManifestError>) -> Result<
    ManifestModel,
    ManifestFault,
> {
    match r {
        Ok(m) => Ok(m@),
        Err(e) => Err(e@),
    }
}

fn read_required_text(tree: &serde_json::Value, key: &str) -> (r: Result<String, ManifestError>)
    ensures
        match r {
            Ok(t) => required_text(tree_content(*tree), key@) == Ok::<Seq<char>, ManifestFault>(
                t@,
            ),
            Err(e) => required_text(tree_content(*tree), key@) == Err::<Seq<char>, ManifestFault>(
                e@,
            ),
        },
{
    match tree_get(tree, key) {
        None => Err(ManifestError::MissingField(key.to_owned())),
        Some(v) => match tree_as_str(v) {
            Some(t) => Ok(t.to_owned()),
            None => Err(ManifestError::InvalidField(key.to_owned())),
        },
    }
}

fn read_text_or_empty(tree: &serde_json::Value, key: &str) -> (r: Result<String, ManifestError>)
    ensures
        match r {
            Ok(t) => text_or_empty(tree_content(*tree), key@) == Ok::<Seq<char>, ManifestFault>(
                t@,
            ),
            Err(e) => text_or_empty(tree_content(*tree), key@) == Err::<Seq<char>, ManifestFault>(
                e@,
            ),
        },
{
    match tree_get(tree, key) {
        None => Ok(String::new()),
        Some(v) => match tree_as_str(v) {
            Some(t) => Ok(t.to_owned()),
            None => Err(ManifestError::InvalidField(key.to_owned())),
        },
    }
}

fn read_optional_text(tree: &serde_json::Value, key: &str) -> (r: Result<
    Option<String>,
    ManifestError,
>)
    ensures
        match r {
            Ok(t) => optional_text(tree_content(*tree), key@) == Ok::<
                Option<Seq<char>>,
                ManifestFault,
            >(text_option(t)),
            Err(e) => optional_text(tree_content(*tree), key@) == Err::<
                Option<Seq<char>>,
                ManifestFault,
            >(e@),
        },
{
    match tree_get(tree, key) {
        None => Ok(None),
        Some(v) => {
            if tree_is_null(v) {
                Ok(None)
            } else {
                match tree_as_str(v) {
                    Some(t) => Ok(Some(t.to_owned())),
                    None => Err(ManifestError::InvalidField(key.to_owned())),
                }
            }
        },
    }
}

fn read_flag_or(tree: &serde_json::Value, key: &str, default: bool) -> (r: Result<
    bool,
    ManifestError,
>)
    ensures
        match r {
            Ok(b) => flag_or(tree_content(*tree), key@, default) == Ok::<bool, ManifestFault>(b),
            Err(e) => flag_or(tree_content(*tree), key@, default) == Err::<bool, ManifestFault>(
                e@,
            ),
        },
{
    match tree_get(tree, key) {
        None => Ok(default),
        Some(v) => match tree_as_bool(v) {
            Some(b) => Ok(b),
            None => Err(ManifestError::InvalidField(key.to_owned())),
        },
    }
}

fn read_kind(tree: &serde_json::Value) -> (r: Result<PluginType, ManifestError>)
    ensures
        match r {
            Ok(k) => kind_of(tree_content(*tree)) == Ok::<PluginType, ManifestFault>(k),
            Err(e) => kind_of(tree_content(*tree)) == Err::<PluginType, ManifestFault>(e@),
        },
{
    match tree_get(tree, "type") {
        None => Ok(PluginType::WebView),
        Some(v) => match tree_as_str(v) {
            Some(t) => {
                let name = t.to_owned();
                if name == "webview".to_owned() {
                    Ok(PluginType::WebView)
                } else if name == "native".to_owned() {
                    Ok(PluginType::Native)
                } else {
                    Err(ManifestError::InvalidField("type".to_owned()))
                }
            },
            None => Err(ManifestError::InvalidField("type".to_owned())),
        },
    }
}

impl PluginManifest {
    /// The manifest of a file, from what reading the file gave: its content,
    /// or the reason it could not be read.
    pub fn from_file(read: &Result<String, String>) -> (r: Result<PluginManifest, ManifestError>)
        ensures
            manifest_result(r) == manifest_of_file(read_model(*read)),
    {
        match read {
            Ok(content) => PluginManifest::from_json(content.as_str()),
            Err(reason) => Err(ManifestError::Unreadable(reason.clone())),
        }
    }

    /// Reads the manifest that a document holds.
    pub fn from_json(content: &str) -> (r: Result<PluginManifest, ManifestError>)
        ensures
            manifest_result(r) == manifest_of_text(content@),
    {
        match parse_document(content) {
            Ok(tree) => PluginManifest::from_value(&tree),
            Err(e) => Err(ManifestError::Syntax(describe_error(&e))),
        }
    }

    /// The entry script, relative to the provider's directory:
    /// `python/app.py` where the manifest names none.
    pub fn get_python_entry(&self) -> (entry: &str)
        ensures
            entry@ == (match self@.python_entry {
                Some(e) => e,
                None => "python/app.py"@,
            }),
    {
        match &self.python_entry {
            Some(e) => e.as_str(),
            None => "python/app.py",
        }
    }

    /// The directory of static files, relative to the provider's directory:
    /// `static` where the manifest names none.
    pub fn get_static_dir(&self) -> (dir: &str)
        ensures
            dir@ == (match self@.static_dir {
                Some(d) => d,
                None => "static"@,
            }),
    {
        match &self.static_dir {
            Some(d) => d.as_str(),
            None => "static",
        }
    }

    /// Reads the manifest that a JSON value holds.
    pub fn from_value(tree: &serde_json::Value) -> (r: Result<PluginManifest, ManifestError>)
        ensures
            manifest_result(r) == manifest_of(tree_content(*tree)),
    {
        if !tree_is_object(tree) {
            return Err(ManifestError::NotAnObject);
        }
        let id = match read_required_text(tree, "id") {
            Ok(v) => v,
            Err(e) => {
                return Err(e);
            },
        };
        let name = match read_required_text(tree, "name") {
            Ok(v) => v,
            Err(e) => {
                return Err(e);
            },
        };
        let version = match read_required_text(tree, "version") {
            Ok(v) => v,
            Err(e) => {
                return Err(e);
            },
        };
        let description = match read_text_or_empty(tree, "description") {
            Ok(v) => v,
            Err(e) => {
                return Err(e);
            },
        };
        let author = match read_text_or_empty(tree, "author") {
            Ok(v) => v,
            Err(e) => {
                return Err(e);
            },
        };
        let kind = match read_kind(tree) {
            Ok(v) => v,
            Err(e) => {
                return Err(e);
            },
        };
        let icon = match read_optional_text(tree, "icon") {
            Ok(v) => v,
            Err(e) => {
                return Err(e);
            },
        };
        let python_entry = match read_optional_text(tree, "python_entry") {
            Ok(v) => v,
            Err(e) => {
                return Err(e);
            },
        };
        let static_dir = match read_optional_text(tree, "static_dir") {
            Ok(v) => v,
            Err(e) => {
                return Err(e);
            },
        };
        let show_in_sidebar = match read_flag_or(tree, "show_in_sidebar", true) {
            Ok(v) => v,
            Err(e) => {
                return Err(e);
            },
        };
        let min_version = match read_optional_text(tree, "min_version") {
            Ok(v) => v,
            Err(e) => {
                return Err(e);
            },
        };
        let homepage = match read_optional_text(tree, "homepage") {
            Ok(v) => v,
            Err(e) => {
                return Err(e);
            },
        };
        let repository = match read_optional_text(tree, "repository") {
            Ok(v) => v,
            Err(e) => {
                return Err(e);
            },
        };
        Ok(
            PluginManifest {
                id,
                name,
                version,
                description,
                author,
                kind,
                icon,
                python_entry,
                static_dir,
                show_in_sidebar,
                min_version,
                homepage,
                repository,
            },
        )
    }
}

} // verus!
