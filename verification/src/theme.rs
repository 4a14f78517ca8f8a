//! Where the bar's theme files live, and how the stylesheet is put together.
//!
//! Paths are strings here; joining follows `PathBuf::push` for a relative
//! component: a `/` goes between unless the base is empty or already ends in
//! one.
use vstd::prelude::*;

use crate::text::{owned, push_str};

verus! {

#[derive(Clone, Debug, PartialEq, Eq)]
pub struct ThemePaths {
    pub style: String,
    pub colors: String,
}

/// Neither a configuration home nor a home directory is known.
#[derive(Clone, Copy, Debug, PartialEq, Eq, Structural)]
pub enum ThemeError {
    Unresolved,
}

impl ThemeError {
    pub fn message(&self) -> (r: &'static str)
        ensures
            r@ == "failed to resolve cockpit-bar theme directory"@,
    {
        "failed to resolve cockpit-bar theme directory"
    }
}

/// `base` joined with the relative component `name`.
pub open spec fn path_join(base: Seq<char>, name: Seq<char>) -> Seq<char> {
    if base.len() > 0 && base.last() != '/' {
        base + "/"@ + name
    } else {
        base + name
    }
}

pub open spec fn theme_root_spec(xdg_config_home: Option<Seq<char>>, home: Option<Seq<char>>) -> Option<Seq<char>> {
    match xdg_config_home {
        Some(root) => Some(path_join(root, "cockpit-bar"@)),
        None => match home {
            Some(h) => Some(path_join(path_join(h, ".config"@), "cockpit-bar"@)),
            None => None,
        },
    }
}

/// The file to read: the one beside the configuration when it exists, else
/// the one in the default theme root, else the one beside the configuration,
/// else the bare file name.
pub open spec fn theme_file_spec(
    local_root: Option<Seq<char>>,
    default_root: Option<Seq<char>>,
    file_name: Seq<char>,
    local_exists: bool,
) -> Seq<char> {
    match local_root {
        Some(l) if local_exists => path_join(l, file_name),
        _ => match default_root {
            Some(d) => path_join(d, file_name),
            None => match local_root {
                Some(l) => path_join(l, file_name),
                None => file_name,
            },
        },
    }
}

pub open spec fn opt_str(o: Option<&str>) -> Option<Seq<char>> {
    match o {
        Some(s) => Some(s@),
        None => None,
    }
}

/// `base` joined with the relative component `name`.
pub fn join_path(base: &str, name: &str) -> (r: String)
    ensures
        r@ == path_join(base@, name@),
{
    let mut r = owned(base);
    let n = base.unicode_len();
    if n > 0 && base.get_char(n - 1) != '/' {
        push_str(&mut r, "/");
    }
    push_str(&mut r, name);
    proof {
        if base@.len() > 0 && base@.last() != '/' {
            assert(r@ =~= base@ + "/"@ + name@);
        } else {
            assert(r@ =~= base@ + name@);
        }
    }
    r
}

/// The theme directory: under `$XDG_CONFIG_HOME` when it is set, else under
/// `~/.config`.
pub fn resolve_theme_root(xdg_config_home: Option<&str>, home: Option<&str>) -> (r: Result<String, ThemeError>)
    ensures
        match r {
            Ok(p) => theme_root_spec(opt_str(xdg_config_home), opt_str(home)) == Some(p@),
            Err(e) => theme_root_spec(opt_str(xdg_config_home), opt_str(home)) is None
                && e == ThemeError::Unresolved,
        },
{
    if let Some(root) = xdg_config_home {
        return Ok(join_path(root, "cockpit-bar"));
    }
    if let Some(h) = home {
        let config = join_path(h, ".config");
        return Ok(join_path(config.as_str(), "cockpit-bar"));
    }
    Err(ThemeError::Unresolved)
}

/// The path of one theme file; `local_exists` says whether the file beside
/// the configuration exists.
pub fn select_theme_file(
    local_root: Option<&str>,
    default_root: Option<&str>,
    file_name: &str,
    local_exists: bool,
) -> (r: String)
    ensures
        r@ == theme_file_spec(opt_str(local_root), opt_str(default_root), file_name@, local_exists),
{
    if let Some(l) = local_root {
        if local_exists {
            return join_path(l, file_name);
        }
    }
    if let Some(d) = default_root {
        return join_path(d, file_name);
    }
    if let Some(l) = local_root {
        return join_path(l, file_name);
    }
    owned(file_name)
}

/// The stylesheet: the stable style, a newline, then the generated colours.
pub fn compose_css_text(style: &str, colors: &str) -> (r: String)
    ensures
        r@ == style@ + "\n"@ + colors@,
{
    let mut r = owned(style);
    push_str(&mut r, "\n");
    push_str(&mut r, colors);
    r
}

} // verus!
