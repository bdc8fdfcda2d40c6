//! The configuration (config.toml) and home-relative paths.
use vstd::prelude::*;
use crate::text::{chars_of, lit, string_of};

verus! {

/// Remote server defined by the user in config.toml.
#[derive(Clone, Debug)]
pub struct Server {
    pub alias: String,
    pub host: String,
    pub user: Option<String>,
    pub port: Option<u16>,
    pub desc: Option<String>,
}

#[derive(Clone, Debug)]
pub struct Config {
    pub theme: String,
    pub workspaces: Vec<String>,
    pub servers: Vec<Server>,
}

impl Default for Config {
    /// Theme `dark` (nord), no workspaces, no servers.
    fn default() -> (c: Self)
        ensures
            c.theme@ == "dark"@,
            c.workspaces@.len() == 0,
            c.servers@.len() == 0,
    {
        Config { theme: lit("dark"), workspaces: Vec::new(), servers: Vec::new() }
    }
}

/// A path separator: `/`, and also `\` on Windows.
pub open spec fn is_sep(c: char, win: bool) -> bool {
    c == '/' || (win && c == '\\')
}

/// The separator a join inserts.
pub open spec fn main_sep(win: bool) -> char {
    if win {
        '\\'
    } else {
        '/'
    }
}

/// Whether `s` starts with a drive prefix (`C:`), on Windows.
pub open spec fn has_drive(s: Seq<char>) -> bool {
    s.len() >= 2 && s[1] == ':' && (('a' <= s[0] && s[0] <= 'z') || ('A' <= s[0] && s[0] <= 'Z'))
}

/// `Path::join`: `rest` after `base`, with a separator between them unless
/// `base` is empty, already ends with one, or (Windows) is a bare drive such
/// as `C:`. An absolute `rest` replaces `base`: on Unix one with a leading
/// `/`; on Windows one with a drive prefix, while one with a leading
/// separator keeps only the drive of `base`. (Windows UNC and verbatim
/// prefixes are not treated apart.)
pub open spec fn join_path(base: Seq<char>, rest: Seq<char>, win: bool) -> Seq<char> {
    if !win && rest.len() > 0 && rest[0] == '/' {
        rest
    } else if win && has_drive(rest) {
        rest
    } else if win && rest.len() > 0 && is_sep(rest[0], win) {
        (if has_drive(base) {
            base.take(2)
        } else {
            Seq::empty()
        }) + rest
    } else if base.len() == 0 || is_sep(base.last(), win) || (win && has_drive(base) && base.len()
        == 2) {
        base + rest
    } else {
        base + seq![main_sep(win)] + rest
    }
}

fn is_letter(c: char) -> (b: bool)
    ensures
        b == (('a' <= c && c <= 'z') || ('A' <= c && c <= 'Z')),
{
    ('a' <= c && c <= 'z') || ('A' <= c && c <= 'Z')
}

fn drive_at_start(s: &Vec<char>) -> (b: bool)
    ensures
        b == has_drive(s@),
{
    s.len() >= 2 && s[1] == ':' && is_letter(s[0])
}

pub fn join(base: &str, rest: &str, win: bool) -> (r: String)
    ensures
        r@ == join_path(base@, rest@, win),
{
    let b = chars_of(base);
    let t = chars_of(rest);
    if !win && t.len() > 0 && t[0] == '/' {
        return string_of(&t);
    }
    if win && drive_at_start(&t) {
        return string_of(&t);
    }
    if win && t.len() > 0 && (t[0] == '/' || t[0] == '\\') {
        let mut out = if drive_at_start(&b) {
            crate::text::slice_of(&b, 0, 2)
        } else {
            Vec::new()
        };
        crate::text::append(&mut out, &t);
        assert(out@ =~= join_path(base@, rest@, win));
        return string_of(&out);
    }
    let mut out = crate::text::copy(&b);
    if b.len() > 0 {
        let last = b[b.len() - 1];
        let sep_at_end = last == '/' || (win && last == '\\');
        let bare_drive = win && b.len() == 2 && drive_at_start(&b);
        if !sep_at_end && !bare_drive {
            out.push(if win {
                '\\'
            } else {
                '/'
            });
        }
    }
    crate::text::append(&mut out, &t);
    assert(out@ =~= join_path(base@, rest@, win));
    string_of(&out)
}

/// `s` without its leading `/` and `\` characters.
pub open spec fn strip_leading_seps(s: Seq<char>) -> Seq<char>
    decreases s.len(),
{
    if s.len() > 0 && (s[0] == '/' || s[0] == '\\') {
        strip_leading_seps(s.drop_first())
    } else {
        s
    }
}

/// The user's home directory: `$HOME`, else `%USERPROFILE%` (their values
/// when set).
pub fn home(home_var: Option<String>, userprofile_var: Option<String>) -> (r: Option<String>)
    ensures
        crate::modules::opt_view(r) == match home_var {
            Some(h) => Some(h@),
            None => crate::modules::opt_view(userprofile_var),
        },
{
    match home_var {
        Some(h) => Some(h),
        None => userprofile_var,
    }
}

/// Where config.toml lives: `%APPDATA%\devterminal\config.toml` on Windows,
/// `$XDG_CONFIG_HOME/devterminal/config.toml` or `~/.config/devterminal/config.toml`
/// elsewhere; nothing when the base directory is unknown.
pub open spec fn config_path_spec(
    appdata: Option<Seq<char>>,
    xdg: Option<Seq<char>>,
    home: Option<Seq<char>>,
    win: bool,
) -> Option<Seq<char>> {
    let base = if win {
        appdata
    } else {
        match xdg {
            Some(x) => Some(x),
            None => match home {
                Some(h) => Some(join_path(h, ".config"@, win)),
                None => None,
            },
        }
    };
    match base {
        Some(b) => Some(join_path(join_path(b, "devterminal"@, win), "config.toml"@, win)),
        None => None,
    }
}

pub fn config_path(
    appdata: Option<String>,
    xdg: Option<String>,
    home: Option<String>,
    win: bool,
) -> (r: Option<String>)
    ensures
        crate::modules::opt_view(r) == config_path_spec(
            crate::modules::opt_view(appdata),
            crate::modules::opt_view(xdg),
            crate::modules::opt_view(home),
            win,
        ),
{
    let base = if win {
        appdata
    } else {
        match xdg {
            Some(x) => Some(x),
            None => match home {
                Some(h) => Some(join(h.as_str(), ".config", win)),
                None => None,
            },
        }
    };
    match base {
        Some(b) => {
            let d = join(b.as_str(), "devterminal", win);
            Some(join(d.as_str(), "config.toml", win))
        },
        None => None,
    }
}

/// `~` at the start of `path` expanded to the home directory, when there is one.
pub open spec fn expand_home_spec(path: Seq<char>, home: Option<Seq<char>>, win: bool) -> Seq<char> {
    if path.len() > 0 && path[0] == '~' && home is Some {
        join_path(home.unwrap(), strip_leading_seps(path.drop_first()), win)
    } else {
        path
    }
}

/// Expands the `~` prefix of `path` to `home` (the user's home directory,
/// when known).
pub fn expand_home(path: &str, home: Option<&str>, win: bool) -> (r: String)
    ensures
        r@ == expand_home_spec(path@, match home {
            Some(h) => Some(h@),
            None => None,
        }, win),
{
    let p = chars_of(path);
    if p.len() > 0 && p[0] == '~' {
        if let Some(h) = home {
            let mut i: usize = 1;
            assert(p@.skip(1) =~= p@.drop_first());
            while i < p.len() && (p[i] == '/' || p[i] == '\\')
                invariant
                    1 <= i <= p@.len(),
                    strip_leading_seps(p@.drop_first()) == strip_leading_seps(p@.skip(i as int)),
                decreases p@.len() - i,
            {
                assert(p@.skip(i as int).drop_first() =~= p@.skip(i + 1));
                i = i + 1;
            }
            let rest = crate::text::slice_of(&p, i, p.len());
            assert(rest@ =~= p@.skip(i as int));
            let rs = string_of(&rest);
            return join(h, rs.as_str(), win);
        }
    }
    string_of(&p)
}

} // verus!
