//! Where the application keeps its files.
//!
//! The configuration directory of the platform is found by the caller (it
//! depends on the machine); these functions build the paths below it.

use vstd::prelude::*;

use crate::text::{push_str, spec_trim, str_chars, string_of, trim_chars};

verus! {

/// `name` below the directory `base`, with one `/` between them (as
/// `Path::join` with a relative name on Unix).
pub open spec fn spec_join(base: Seq<char>, name: Seq<char>) -> Seq<char> {
    if base.len() == 0 {
        name
    } else if base.last() == '/' {
        base + name
    } else {
        base + seq!['/'] + name
    }
}

/// `name` below the directory `base`.
pub fn join_path(base: &str, name: &str) -> (r: String)
    ensures
        r@ == spec_join(base@, name@),
{
    let b = str_chars(base);
    let mut buf: Vec<char> = Vec::new();
    push_str(&mut buf, base);
    if b.len() > 0 && b[b.len() - 1] != '/' {
        buf.push('/');
    }
    push_str(&mut buf, name);
    proof {
        assert(buf@ =~= spec_join(base@, name@));
    }
    string_of(&buf)
}

/// The message when the platform has no configuration directory.
pub open spec fn no_config_dir_message() -> Seq<char> {
    "Could not find config directory"@
}

/// The application's directory below the platform's configuration directory
/// (`None` when the platform has none).
pub fn get_config_dir(config_dir: Option<String>) -> (r: Result<String, String>)
    ensures
        match config_dir {
            Some(d) => r matches Ok(p) && p@ == spec_join(d@, "pr-manager"@),
            None => r matches Err(m) && m@ == no_config_dir_message(),
        },
{
    match config_dir {
        Some(d) => Ok(join_path(d.as_str(), "pr-manager")),
        None => Err("Could not find config directory".to_owned()),
    }
}

/// The file holding the GitHub token.
pub fn get_token_path(config_dir: Option<String>) -> (r: Result<String, String>)
    ensures
        match config_dir {
            Some(d) => r matches Ok(p) && p@ == spec_join(spec_join(d@, "pr-manager"@), "token"@),
            None => r matches Err(m) && m@ == no_config_dir_message(),
        },
{
    match get_config_dir(config_dir) {
        Ok(dir) => Ok(join_path(dir.as_str(), "token")),
        Err(e) => Err(e),
    }
}

/// The token read from the token file's text: the text trimmed.
pub fn token_from_file_text(text: &str) -> (r: String)
    ensures
        r@ == spec_trim(text@),
{
    let chars = str_chars(text);
    string_of(&trim_chars(&chars))
}

} // verus!
