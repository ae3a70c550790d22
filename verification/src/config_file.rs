//! The rules a configuration must meet before anything is synchronised.

use vstd::prelude::*;
use vstd::string::StringExecFns;
use crate::objects::{mode_of, parse_mode, Configfile, ConfigfileView, Dirsync, DirsyncView};

verus! {

/// True of the characters that Unicode counts as white space.
pub open spec fn is_white_space(c: char) -> bool {
    let code = c as u32;
    ||| 0x09 <= code <= 0x0D
    ||| code == 0x20
    ||| code == 0x85
    ||| code == 0xA0
    ||| code == 0x1680
    ||| 0x2000 <= code <= 0x200A
    ||| code == 0x2028
    ||| code == 0x2029
    ||| code == 0x202F
    ||| code == 0x205F
    ||| code == 0x3000
}

/// True of a text that holds nothing but white space.
pub open spec fn blank(text: Seq<char>) -> bool {
    forall|i: int| 0 <= i < text.len() ==> is_white_space(#[trigger] text[i])
}

/// True when `c` is white space.
pub fn white_space(c: char) -> (space: bool)
    ensures
        space == is_white_space(c),
{
    let code: u32 = c as u32;
    (0x09 <= code && code <= 0x0D) || code == 0x20 || code == 0x85 || code == 0xA0 || code
        == 0x1680 || (0x2000 <= code && code <= 0x200A) || code == 0x2028 || code == 0x2029 || code
        == 0x202F || code == 0x205F || code == 0x3000
}

/// True when `text` holds nothing but white space.
pub fn is_blank(text: &str) -> (empty: bool)
    ensures
        empty == blank(text@),
{
    broadcast use vstd::string::group_string_axioms;

    for c in it: text.chars()
        invariant
            it.seq() == text@,
            forall|i: int| 0 <= i < it.index() ==> is_white_space(#[trigger] text@[i]),
    {
        if !white_space(c) {
            return false;
        }
    }
    true
}

/// What a directive must meet: both paths hold more than white space,
/// and the mode is one of the three that exist.
pub open spec fn valid_dir(dir: DirsyncView) -> bool {
    &&& !blank(dir.remote_path)
    &&& !blank(dir.local_path)
    &&& mode_of(dir.sync_mode) is Some
}

/// What a configuration must meet: the URL and the key hold more than
/// white space, there is at least one directive, and every directive is
/// valid.
pub open spec fn valid_config(config: ConfigfileView) -> bool {
    &&& !blank(config.base_url)
    &&& !blank(config.api_key)
    &&& config.dirs.len() > 0
    &&& forall|i: int| 0 <= i < config.dirs.len() ==> valid_dir(#[trigger] config.dirs[i])
}

/// Why a configuration was turned down.
#[derive(Clone, Copy, Debug, PartialEq, Eq, Structural)]
pub enum ConfigError {
    /// A field is empty, or a mode is none of the three.
    Invalid,
}

impl ConfigError {
    /// The error in words.
    pub fn message(&self) -> (text: String)
        ensures
            text@ == "Invalid config file"@,
    {
        String::from_str("Invalid config file")
    }
}

/// True when the directive is valid.
pub fn check_dir(dir: &Dirsync) -> (valid: bool)
    ensures
        valid == valid_dir(dir@),
{
    !is_blank(dir.remote_path.as_str()) && !is_blank(dir.local_path.as_str()) && parse_mode(
        &dir.sync_mode,
    ).is_some()
}

/// True when the configuration is valid.
pub fn check_config(config: &Configfile) -> (valid: bool)
    ensures
        valid == valid_config(config@),
{
    if is_blank(config.base_url.as_str()) || is_blank(config.api_key.as_str())
        || config.dirs.len() == 0 {
        return false;
    }
    let mut i: usize = 0;
    while i < config.dirs.len()
        invariant
            i <= config.dirs.len(),
            forall|j: int| 0 <= j < i ==> valid_dir(#[trigger] config@.dirs[j]),
        decreases config.dirs.len() - i,
    {
        if !check_dir(&config.dirs[i]) {
            assert(!valid_dir(config@.dirs[i as int]));
            return false;
        }
        i += 1;
    }
    true
}

/// Accepts a configuration as it was read, or turns it down: it is handed
/// back unchanged where it is valid, and is an error where it is not.
pub fn load_config(info: Configfile) -> (loaded: Result<Configfile, ConfigError>)
    ensures
        valid_config(info@) ==> loaded == Ok::<Configfile, ConfigError>(info),
        !valid_config(info@) ==> loaded == Err::<Configfile, ConfigError>(ConfigError::Invalid),
{
    if check_config(&info) {
        Ok(info)
    } else {
        Err(ConfigError::Invalid)
    }
}

} // verus!
