//! Path rules and small predicates over the data model.

use vstd::prelude::*;
use vstd::string::StrSliceExecFns;
use vstd::string::StringExecFns;
use crate::objects::{Entry, FileList, ScopesResp};

verus! {

/// The separator between the segments of a path.
pub open spec fn separator() -> Seq<char> {
    "/"@
}

/// `dir_name` adjoined to `virtual_path`: a `dir_name` that starts at the
/// root replaces `virtual_path`; otherwise the two are written one after the
/// other, with a separator between them unless `virtual_path` is empty or
/// already ends in one.
pub open spec fn joined(virtual_path: Seq<char>, dir_name: Seq<char>) -> Seq<char> {
    if dir_name.len() > 0 && dir_name[0] == '/' {
        dir_name
    } else if virtual_path.len() > 0 && virtual_path.last() != '/' {
        virtual_path + separator() + dir_name
    } else {
        virtual_path + dir_name
    }
}

/// The directory `virtual_path` below `root`: `root` itself for the empty
/// virtual path, else `root`, a separator and `virtual_path`.
pub open spec fn under(root: Seq<char>, virtual_path: Seq<char>) -> Seq<char> {
    if virtual_path.len() == 0 {
        root
    } else {
        root + separator() + virtual_path
    }
}

/// The entry `name` of the directory `dir`: always `dir`, a separator and
/// `name`.
pub open spec fn child(dir: Seq<char>, name: Seq<char>) -> Seq<char> {
    dir + separator() + name
}

/// Adjoins `dir_name` to `virtual_path`.
pub fn create_path(virtual_path: &str, dir_name: &str) -> (path: String)
    ensures
        path@ == joined(virtual_path@, dir_name@),
{
    let name_len: usize = dir_name.unicode_len();
    if name_len > 0 && dir_name.get_char(0) == '/' {
        return String::from_str(dir_name);
    }
    let base_len: usize = virtual_path.unicode_len();
    let mut path = String::from_str(virtual_path);
    if base_len > 0 && virtual_path.get_char(base_len - 1) != '/' {
        path.append("/");
    }
    path.append(dir_name);
    path
}

/// The directory `virtual_path` below `root`.
pub fn path_under(root: &str, virtual_path: &str) -> (path: String)
    ensures
        path@ == under(root@, virtual_path@),
{
    let mut path = String::from_str(root);
    if !virtual_path.is_empty() {
        path.append("/");
        path.append(virtual_path);
    }
    path
}

/// The entry `name` of the directory `dir`.
pub fn child_path(dir: &str, name: &str) -> (path: String)
    ensures
        path@ == child(dir@, name@),
{
    let mut path = String::from_str(dir);
    path.append("/");
    path.append(name);
    path
}

/// The scope that allows reading files.
pub open spec fn read_scope() -> Seq<char> {
    "files:read"@
}

/// The scope that allows creating files.
pub open spec fn create_scope() -> Seq<char> {
    "files:create"@
}

/// How many of the two required scopes occur among `scopes`. A scope that
/// is listed more than once counts once.
pub open spec fn required_found(scopes: Seq<Seq<char>>) -> nat {
    let read: nat = if scopes.contains(read_scope()) { 1 } else { 0 };
    let create: nat = if scopes.contains(create_scope()) { 1 } else { 0 };
    read + create
}

/// The texts of a sequence of strings.
pub open spec fn texts(strings: Seq<String>) -> Seq<Seq<char>> {
    Seq::new(strings.len(), |i: int| strings[i]@)
}

/// The scope strings of a scope response.
pub open spec fn scope_names(scopes: &ScopesResp) -> Seq<Seq<char>> {
    texts(scopes.scopes@)
}

/// True when the key holds at least two of the required scopes, that is
/// both the read and the create scope.
pub fn is_authorized(scopes: &ScopesResp) -> (authorized: bool)
    ensures
        authorized == (required_found(scope_names(scopes)) >= 2),
{
    let read = String::from_str("files:read");
    let create = String::from_str("files:create");
    let mut has_read = false;
    let mut has_create = false;
    let mut i: usize = 0;
    while i < scopes.scopes.len()
        invariant
            i <= scopes.scopes.len(),
            read@ == read_scope(),
            create@ == create_scope(),
            has_read == scope_names(scopes).take(i as int).contains(read_scope()),
            has_create == scope_names(scopes).take(i as int).contains(create_scope()),
        decreases scopes.scopes.len() - i,
    {
        proof {
            let before = scope_names(scopes).take(i as int);
            let scope = scopes.scopes@[i as int]@;
            assert(scope_names(scopes).take(i + 1) =~= before.push(scope));
            vstd::seq_lib::lemma_seq_contains_after_push(before, scope, read_scope());
            vstd::seq_lib::lemma_seq_contains_after_push(before, scope, create_scope());
        }
        if scopes.scopes[i] == read {
            has_read = true;
        }
        if scopes.scopes[i] == create {
            has_create = true;
        }
        i += 1;
    }
    assert(scope_names(scopes).take(i as int) =~= scope_names(scopes));
    has_read && has_create
}

/// True when some entry of `entries` is called `name`.
pub open spec fn has_entry(entries: Seq<Entry>, name: Seq<char>) -> bool {
    exists|i: int| 0 <= i < entries.len() && (#[trigger] entries[i]).name == name
}

/// True when the listing holds an entry called `file_name`.
pub fn exists_file_remote(files_list: &FileList, file_name: &String) -> (found: bool)
    ensures
        found == has_entry(files_list@, file_name@),
{
    let mut i: usize = 0;
    while i < files_list.list.len()
        invariant
            i <= files_list.list.len(),
            forall|j: int| 0 <= j < i ==> (#[trigger] files_list@[j]).name != file_name@,
        decreases files_list.list.len() - i,
    {
        if files_list.list[i].name == *file_name {
            assert(files_list@[i as int].name == file_name@);
            return true;
        }
        i += 1;
    }
    false
}

} // verus!
