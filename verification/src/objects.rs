//! The values exchanged with the remote store and read from configuration.

use vstd::prelude::*;
use vstd::string::StringExecFns;

verus! {

/// One configured pair of directories and the direction to mirror them in.
#[derive(Clone, Debug, PartialEq, Eq)]
pub struct Dirsync {
    pub remote_path: String,
    pub local_path: String,
    pub sync_mode: String,
}

/// The mathematical content of a [`Dirsync`].
pub struct DirsyncView {
    pub remote_path: Seq<char>,
    pub local_path: Seq<char>,
    pub sync_mode: Seq<char>,
}

impl View for Dirsync {
    type V = DirsyncView;

    open spec fn view(&self) -> DirsyncView {
        DirsyncView {
            remote_path: self.remote_path@,
            local_path: self.local_path@,
            sync_mode: self.sync_mode@,
        }
    }
}

/// The direction to mirror a pair of directories in.
#[derive(Clone, Copy, Debug, PartialEq, Eq, Structural)]
pub enum SyncMode {
    /// Remote to local only.
    Get,
    /// Local to remote only.
    Send,
    /// Remote to local, then local to remote.
    Bidirectional,
}

/// The mode that a configured text names: `get`, `send` or
/// `bidirectional`, letter for letter. Any other text names none.
pub open spec fn mode_of(text: Seq<char>) -> Option<SyncMode> {
    if text == "get"@ {
        Some(SyncMode::Get)
    } else if text == "send"@ {
        Some(SyncMode::Send)
    } else if text == "bidirectional"@ {
        Some(SyncMode::Bidirectional)
    } else {
        None
    }
}

/// The mode that `text` names, if any.
pub fn parse_mode(text: &String) -> (mode: Option<SyncMode>)
    ensures
        mode == mode_of(text@),
{
    let get = String::from_str("get");
    let send = String::from_str("send");
    let bidirectional = String::from_str("bidirectional");
    if *text == get {
        Some(SyncMode::Get)
    } else if *text == send {
        Some(SyncMode::Send)
    } else if *text == bidirectional {
        Some(SyncMode::Bidirectional)
    } else {
        None
    }
}

/// The whole configuration document.
#[derive(Clone, Debug, PartialEq, Eq)]
pub struct Configfile {
    pub base_url: String,
    pub api_key: String,
    pub dirs: Vec<Dirsync>,
}

/// The mathematical content of a [`Configfile`].
pub struct ConfigfileView {
    pub base_url: Seq<char>,
    pub api_key: Seq<char>,
    pub dirs: Seq<DirsyncView>,
}

impl View for Configfile {
    type V = ConfigfileView;

    open spec fn view(&self) -> ConfigfileView {
        ConfigfileView {
            base_url: self.base_url@,
            api_key: self.api_key@,
            dirs: Seq::new(self.dirs@.len(), |i: int| self.dirs@[i]@),
        }
    }
}

/// The session that authentication returns.
#[derive(Clone, Debug, PartialEq, Eq)]
#[allow(non_snake_case)]
pub struct User {
    pub sessionId: String,
    pub userId: String,
    pub username: String,
}

/// The permission scopes granted to the API key.
#[derive(Clone, Debug, PartialEq, Eq)]
pub struct ScopesResp {
    pub scopes: Vec<String>,
}

/// One entry of a remote directory: its name and whether it is a
/// `"file"` or a `"folder"`.
#[derive(Clone, Debug, PartialEq, Eq)]
pub struct File {
    pub name: String,
    pub kind: String,
}

/// The mathematical content of a [`File`].
pub struct Entry {
    pub name: Seq<char>,
    pub kind: Seq<char>,
}

impl View for File {
    type V = Entry;

    open spec fn view(&self) -> Entry {
        Entry { name: self.name@, kind: self.kind@ }
    }
}

/// The entries of one remote directory, in the order the server gave them.
#[derive(Clone, Debug, PartialEq, Eq)]
pub struct FileList {
    pub list: Vec<File>,
}

impl View for FileList {
    type V = Seq<Entry>;

    open spec fn view(&self) -> Seq<Entry> {
        Seq::new(self.list@.len(), |i: int| self.list@[i]@)
    }
}

/// What the remote store reports of a single path.
#[derive(Clone, Debug, PartialEq, Eq)]
pub struct FileProperties {
    pub kind: String,
}

/// What the remote store answers when asked whether a path exists.
#[derive(Clone, Copy, Debug, PartialEq, Eq, Structural)]
pub struct ExistsResp {
    pub exists: bool,
}

/// The kind string of a directory.
pub open spec fn folder_kind() -> Seq<char> {
    "folder"@
}

/// The kind string of a plain file.
pub open spec fn file_kind() -> Seq<char> {
    "file"@
}

/// True when `kind` is the kind string of a directory.
pub fn is_folder_kind(kind: &String) -> (b: bool)
    ensures
        b == (kind@ == folder_kind()),
{
    let folder = String::from_str("folder");
    *kind == folder
}

/// True when `kind` is the kind string of a plain file.
pub fn is_file_kind(kind: &String) -> (b: bool)
    ensures
        b == (kind@ == file_kind()),
{
    let file = String::from_str("file");
    *kind == file
}

} // verus!
