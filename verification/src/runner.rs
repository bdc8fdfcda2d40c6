//! Running external commands: what their outcome means, where a binary is
//! found (remembered per name), and which helper copies to the clipboard or
//! raises a desktop notification. Spawning and file checks are the program's.
use vstd::prelude::*;
use crate::config::{join, join_path};
use crate::modules::opt_view;
use crate::platform::{double_quotes, ps, ps_cmd};
use crate::text::{
    chars_of, concat, lit, pieces, split_char, string_of, trim_end, trim_end_chars, views_of,
};

verus! {

/// What a finished process left: whether it exited with success, and the
/// bytes it wrote to stdout and stderr.
pub struct ProcOutput {
    pub success: bool,
    pub stdout: Vec<u8>,
    pub stderr: Vec<u8>,
}

/// `String::from_utf8_lossy`: the bytes decoded as UTF-8, each invalid
/// sequence replaced by U+FFFD.
pub uninterp spec fn lossy_utf8(b: Seq<u8>) -> Seq<char>;

/// `String::from_utf8_lossy(b).into_owned()`: the text is named by
/// `lossy_utf8` of the bytes; the decoding itself is left to that name.
#[verifier::external_body]
fn from_utf8_lossy(b: &Vec<u8>) -> (s: String)
    ensures
        s@ == lossy_utf8(b@),
{
    String::from_utf8_lossy(b).into_owned()
}

/// Program and arguments of a command, or the error of an empty one.
pub open spec fn split_command_spec(cmd: Seq<Seq<char>>) -> Result<(Seq<char>, Seq<Seq<char>>), Seq<char>> {
    if cmd.len() == 0 {
        Err("empty command"@)
    } else {
        Ok((cmd[0], cmd.drop_first()))
    }
}

pub fn split_command(cmd: &Vec<String>) -> (r: Result<(String, Vec<String>), String>)
    ensures
        match r {
            Ok((p, args)) => split_command_spec(views_of(cmd@)) == Ok::<_, Seq<char>>(
                (p@, views_of(args@)),
            ),
            Err(e) => split_command_spec(views_of(cmd@)) == Err::<(Seq<char>, Seq<Seq<char>>), _>(
                e@,
            ),
        },
{
    if cmd.len() == 0 {
        return Err(lit("empty command"));
    }
    let mut args: Vec<String> = Vec::new();
    let mut i: usize = 1;
    while i < cmd.len()
        invariant
            1 <= i <= cmd@.len(),
            views_of(args@) == views_of(cmd@).subrange(1, i as int),
        decreases cmd@.len() - i,
    {
        let ghost before = args@;
        args.push(cmd[i].clone());
        i = i + 1;
        assert(views_of(args@) =~= views_of(before).push(cmd@[i - 1]@));
        assert(views_of(cmd@).subrange(1, i as int) =~= views_of(cmd@).subrange(1, i - 1).push(
            cmd@[i - 1]@,
        ));
    }
    assert(views_of(cmd@).subrange(1, i as int) =~= views_of(cmd@).drop_first());
    Ok((cmd[0].clone(), args))
}

/// The outcome of a captured run: stdout when the exit code is 0, else an
/// error holding stdout and stderr, each without trailing whitespace, on two
/// lines. A process that could not be started keeps its own error.
pub open spec fn run_cmd_spec(out: Result<(bool, Seq<u8>, Seq<u8>), Seq<char>>) -> Result<Seq<char>, Seq<char>> {
    match out {
        Ok((success, o, e)) => if success {
            Ok(lossy_utf8(o))
        } else {
            Err(trim_end(lossy_utf8(o)) + "\n"@ + trim_end(lossy_utf8(e)))
        },
        Err(msg) => Err(msg),
    }
}

pub open spec fn output_view(out: Result<ProcOutput, String>) -> Result<(bool, Seq<u8>, Seq<u8>), Seq<char>> {
    match out {
        Ok(o) => Ok((o.success, o.stdout@, o.stderr@)),
        Err(e) => Err(e@),
    }
}

pub open spec fn result_view(r: Result<String, String>) -> Result<Seq<char>, Seq<char>> {
    match r {
        Ok(o) => Ok(o@),
        Err(e) => Err(e@),
    }
}

/// What a captured run gave: its output, or an error if the exit code isn't 0.
pub fn run_cmd(out: Result<ProcOutput, String>) -> (r: Result<String, String>)
    ensures
        result_view(r) == run_cmd_spec(output_view(out)),
{
    match out {
        Ok(o) => {
            let stdout = from_utf8_lossy(&o.stdout);
            if o.success {
                Ok(stdout)
            } else {
                let a = trim_end_chars(&chars_of(stdout.as_str()));
                let stderr = from_utf8_lossy(&o.stderr);
                let b = trim_end_chars(&chars_of(stderr.as_str()));
                let sa = string_of(&a);
                let sb = string_of(&b);
                let head = concat(sa.as_str(), "\n");
                Err(concat(head.as_str(), sb.as_str()))
            }
        },
        Err(e) => Err(e),
    }
}

/// Like `run_cmd`, but the output counts even when the exit code isn't 0
/// (`pacman -Qu` exits 1 with no updates, `dnf check-update` 100 with some).
pub open spec fn run_out_spec(out: Result<(bool, Seq<u8>, Seq<u8>), Seq<char>>) -> Result<Seq<char>, Seq<char>> {
    match out {
        Ok((_, o, _)) => Ok(lossy_utf8(o)),
        Err(msg) => Err(msg),
    }
}

pub fn run_out(out: Result<ProcOutput, String>) -> (r: Result<String, String>)
    ensures
        result_view(r) == run_out_spec(output_view(out)),
{
    match out {
        Ok(o) => Ok(from_utf8_lossy(&o.stdout)),
        Err(e) => Err(e),
    }
}

// ---------------------------------------------------------------------------
// Finding binaries
// ---------------------------------------------------------------------------

/// The file names a binary may have in PATH on Windows (`PATHEXT`, lower
/// case, the usual four when unset); none on Unix, where only the bare name
/// counts.
pub open spec fn path_exts_spec(pathext: Option<Seq<char>>, win: bool) -> Seq<Seq<char>> {
    if win {
        non_empty_lower(
            pieces(
                match pathext {
                    Some(p) => p,
                    None => ".COM;.EXE;.BAT;.CMD"@,
                },
                ';',
            ),
        )
    } else {
        Seq::empty()
    }
}

/// The non-empty pieces, lower-cased.
pub open spec fn non_empty_lower(ps: Seq<Seq<char>>) -> Seq<Seq<char>>
    decreases ps.len(),
{
    if ps.len() == 0 {
        Seq::empty()
    } else if ps.last().len() == 0 {
        non_empty_lower(ps.drop_last())
    } else {
        non_empty_lower(ps.drop_last()).push(crate::ui::lowercase(ps.last()))
    }
}

pub fn path_exts(pathext: Option<String>, win: bool) -> (r: Vec<String>)
    ensures
        views_of(r@) == path_exts_spec(opt_view(pathext), win),
{
    if !win {
        let v: Vec<String> = Vec::new();
        assert(views_of(v@) =~= Seq::<Seq<char>>::empty());
        return v;
    }
    let value = match pathext {
        Some(p) => p,
        None => lit(".COM;.EXE;.BAT;.CMD"),
    };
    let vc = chars_of(value.as_str());
    let ps = split_char(&vc, ';');
    let mut out: Vec<String> = Vec::new();
    let mut i: usize = 0;
    while i < ps.len()
        invariant
            i <= ps@.len(),
            views_of(out@) == non_empty_lower(ps.deep_view().take(i as int)),
        decreases ps@.len() - i,
    {
        proof {
            crate::text::lemma_deep_chars(ps@[i as int]);
            assert(ps.deep_view().take(i + 1).drop_last() =~= ps.deep_view().take(i as int));
        }
        let ghost before = out@;
        if ps[i].len() > 0 {
            let s = string_of(&ps[i]);
            let l = crate::ui::to_lowercase(s.as_str());
            out.push(l);
            assert(views_of(out@) =~= views_of(before).push(l@));
        }
        i = i + 1;
    }
    assert(ps.deep_view().take(ps@.len() as int) =~= ps.deep_view());
    out
}

/// The paths to try, in order, for binary `name` over the PATH directories
/// `dirs`: in each directory the bare name (not on Windows, where an
/// extensionless file cannot be launched), then the name with each extension.
pub open spec fn candidates_spec(name: Seq<char>, dirs: Seq<Seq<char>>, exts: Seq<Seq<char>>, win: bool) -> Seq<
    Seq<char>,
>
    decreases dirs.len(),
{
    if dirs.len() == 0 {
        Seq::empty()
    } else {
        candidates_spec(name, dirs.drop_last(), exts, win) + in_dir(name, dirs.last(), exts, win)
    }
}

/// The paths to try in one directory.
pub open spec fn in_dir(name: Seq<char>, dir: Seq<char>, exts: Seq<Seq<char>>, win: bool) -> Seq<Seq<char>> {
    (if win {
        Seq::empty()
    } else {
        seq![join_path(dir, name, win)]
    }) + exts.map_values(|e: Seq<char>| join_path(dir, name + e, win))
}

pub fn candidates(name: &str, dirs: &Vec<String>, exts: &Vec<String>, win: bool) -> (r: Vec<String>)
    ensures
        views_of(r@) == candidates_spec(name@, views_of(dirs@), views_of(exts@), win),
{
    let mut out: Vec<String> = Vec::new();
    let mut i: usize = 0;
    while i < dirs.len()
        invariant
            i <= dirs@.len(),
            views_of(out@) == candidates_spec(name@, views_of(dirs@).take(i as int), views_of(exts@), win),
        decreases dirs@.len() - i,
    {
        let dir = dirs[i].as_str();
        let ghost before = views_of(out@);
        if !win {
            let p = join(dir, name, win);
            out.push(p);
        }
        let ghost mid = views_of(out@);
        let mut k: usize = 0;
        while k < exts.len()
            invariant
                k <= exts@.len(),
                dir@ == dirs@[i as int]@,
                i < dirs@.len(),
                views_of(out@) == mid + views_of(exts@).take(k as int).map_values(
                    |e: Seq<char>| join_path(dir@, name@ + e, win),
                ),
            decreases exts@.len() - k,
        {
            let file = concat(name, exts[k].as_str());
            let p = join(dir, file.as_str(), win);
            let ghost b = views_of(out@);
            out.push(p);
            k = k + 1;
            assert(views_of(out@) =~= b.push(p@));
            assert(views_of(exts@).take(k as int).map_values(
                |e: Seq<char>| join_path(dir@, name@ + e, win),
            ) =~= views_of(exts@).take(k - 1).map_values(
                |e: Seq<char>| join_path(dir@, name@ + e, win),
            ).push(join_path(dir@, name@ + exts@[k - 1]@, win)));
        }
        assert(views_of(exts@).take(exts@.len() as int) =~= views_of(exts@));
        i = i + 1;
        assert(views_of(dirs@).take(i as int).drop_last() =~= views_of(dirs@).take(i - 1));
        assert(views_of(out@) =~= before + in_dir(name@, dirs@[i - 1]@, views_of(exts@), win));
    }
    assert(views_of(dirs@).take(dirs@.len() as int) =~= views_of(dirs@));
    out
}

/// Where each binary asked about was found (or not), remembered for the
/// whole run: the modules ask on every refresh.
pub struct BinCache {
    entries: Vec<(String, Option<String>)>,
}

pub open spec fn entry_view(e: (String, Option<String>)) -> (Seq<char>, Option<Seq<char>>) {
    (e.0@, opt_view(e.1))
}

/// The remembered answers as a map from name to path.
pub open spec fn cache_map(es: Seq<(Seq<char>, Option<Seq<char>>)>) -> Map<Seq<char>, Option<Seq<char>>>
    decreases es.len(),
{
    if es.len() == 0 {
        Map::empty()
    } else {
        cache_map(es.drop_last()).insert(es.last().0, es.last().1)
    }
}

/// One question to the cache: the remembered answer for `name`, else the
/// fresh lookup `found`, which is then remembered.
pub open spec fn cache_step(m: Map<Seq<char>, Option<Seq<char>>>, name: Seq<char>, found: Option<Seq<char>>) -> (
    Map<Seq<char>, Option<Seq<char>>>,
    Option<Seq<char>>,
) {
    if m.contains_key(name) {
        (m, m[name])
    } else {
        (m.insert(name, found), found)
    }
}

impl BinCache {
    pub closed spec fn entries_view(&self) -> Seq<(Seq<char>, Option<Seq<char>>)> {
        self.entries@.map_values(|e: (String, Option<String>)| entry_view(e))
    }

    pub open spec fn map(&self) -> Map<Seq<char>, Option<Seq<char>>> {
        cache_map(self.entries_view())
    }

    pub fn new() -> (c: Self)
        ensures
            c.map() == Map::<Seq<char>, Option<Seq<char>>>::empty(),
    {
        let c = BinCache { entries: Vec::new() };
        assert(c.entries_view() =~= Seq::<(Seq<char>, Option<Seq<char>>)>::empty());
        c
    }

    /// The remembered answer for `name`, if it was asked about before.
    pub fn cached(&self, name: &str) -> (r: Option<Option<String>>)
        ensures
            match r {
                Some(a) => self.map().contains_key(name@) && self.map()[name@] == opt_view(a),
                None => !self.map().contains_key(name@),
            },
    {
        let n = chars_of(name);
        let mut i: usize = self.entries.len();
        let ghost es = self.entries_view();
        while i > 0
            invariant
                i <= self.entries@.len(),
                es == self.entries_view(),
                n@ == name@,
                forall|k: int| i <= k < es.len() ==> es[k].0 != name@,
            decreases i,
        {
            i = i - 1;
            let key = chars_of(self.entries[i].0.as_str());
            if crate::text::seq_eq(&key, &n) {
                proof {
                    lemma_cache_map_last(es, i as int, name@);
                }
                return Some(self.entries[i].1.clone());
            }
        }
        proof {
            lemma_cache_map_absent(es, name@);
        }
        None
    }

    /// Where binary `name` is: the remembered answer, or `found` (the result
    /// of searching PATH for it now), which is remembered from then on.
    pub fn find_bin(&mut self, name: &str, found: Option<String>) -> (r: Option<String>)
        ensures
            (final(self).map(), opt_view(r)) == cache_step(old(self).map(), name@, opt_view(found)),
    {
        match self.cached(name) {
            Some(hit) => hit,
            None => {
                let ghost before = self.entries_view();
                let copy = match &found {
                    Some(p) => Some(p.clone()),
                    None => None,
                };
                self.entries.push((lit(name), copy));
                assert(self.entries_view() =~= before.push((name@, opt_view(found))));
                assert(self.entries_view().drop_last() =~= before);
                assert(self.map() == cache_map(before).insert(name@, opt_view(found)));
                found
            },
        }
    }

    /// Whether binary `name` is in PATH (answered as `find_bin` does).
    pub fn has_bin(&mut self, name: &str, found: Option<String>) -> (r: bool)
        ensures
            final(self).map() == cache_step(old(self).map(), name@, opt_view(found)).0,
            r == cache_step(old(self).map(), name@, opt_view(found)).1 is Some,
    {
        self.find_bin(name, found).is_some()
    }

    /// The path to launch for `name`: where it was found, else the bare name
    /// (so that the spawn fails with the system's own error).
    pub fn program(&mut self, name: &str, found: Option<String>) -> (r: String)
        ensures
            final(self).map() == cache_step(old(self).map(), name@, opt_view(found)).0,
            r@ == match cache_step(old(self).map(), name@, opt_view(found)).1 {
                Some(p) => p,
                None => name@,
            },
    {
        match self.find_bin(name, found) {
            Some(p) => p,
            None => lit(name),
        }
    }
}

proof fn lemma_cache_map_last(es: Seq<(Seq<char>, Option<Seq<char>>)>, i: int, name: Seq<char>)
    requires
        0 <= i < es.len(),
        es[i].0 == name,
        forall|k: int| i < k < es.len() ==> es[k].0 != name,
    ensures
        cache_map(es).contains_key(name),
        cache_map(es)[name] == es[i].1,
    decreases es.len(),
{
    if i < es.len() - 1 {
        lemma_cache_map_last(es.drop_last(), i, name);
    }
}

proof fn lemma_cache_map_absent(es: Seq<(Seq<char>, Option<Seq<char>>)>, name: Seq<char>)
    requires
        forall|k: int| 0 <= k < es.len() ==> es[k].0 != name,
    ensures
        !cache_map(es).contains_key(name),
    decreases es.len(),
{
    if es.len() > 0 {
        lemma_cache_map_absent(es.drop_last(), name);
    }
}

/// Once a binary has been asked about, the answer stays the same for the
/// rest of the run, whatever a later search of PATH would find.
pub proof fn law_binary_answer_is_remembered(
    m: Map<Seq<char>, Option<Seq<char>>>,
    name: Seq<char>,
    first: Option<Seq<char>>,
    later: Option<Seq<char>>,
)
    ensures
        ({
            let (m1, a1) = cache_step(m, name, first);
            let (m2, a2) = cache_step(m1, name, later);
            a2 == a1 && m2 == m1
        }),
{
}

/// Asking about one binary leaves the answers about the others as they were.
pub proof fn law_other_binaries_untouched(
    m: Map<Seq<char>, Option<Seq<char>>>,
    name: Seq<char>,
    other: Seq<char>,
    found: Option<Seq<char>>,
)
    requires
        other != name,
    ensures
        cache_step(m, name, found).0.contains_key(other) == m.contains_key(other),
        m.contains_key(other) ==> cache_step(m, name, found).0[other] == m[other],
{
}

// ---------------------------------------------------------------------------
// Clipboard and notifications
// ---------------------------------------------------------------------------

/// The clipboard tool: clip.exe on Windows; on Linux the first of wl-copy,
/// xclip and xsel that is installed, or an error when none is.
pub open spec fn clip_tool_spec(win: bool, wl_copy: bool, xclip: bool, xsel: bool) -> Result<Seq<Seq<char>>, Seq<char>> {
    if win {
        Ok(seq!["clip"@])
    } else if wl_copy {
        Ok(seq!["wl-copy"@])
    } else if xclip {
        Ok(seq!["xclip"@, "-selection"@, "clipboard"@])
    } else if xsel {
        Ok(seq!["xsel"@, "-ib"@])
    } else {
        Err("no clipboard tool (install wl-clipboard or xclip)"@)
    }
}

pub fn clip_tool(win: bool, wl_copy: bool, xclip: bool, xsel: bool) -> (r: Result<Vec<String>, String>)
    ensures
        match r {
            Ok(c) => clip_tool_spec(win, wl_copy, xclip, xsel) == Ok::<_, Seq<char>>(views_of(c@)),
            Err(e) => clip_tool_spec(win, wl_copy, xclip, xsel) == Err::<Seq<Seq<char>>, _>(e@),
        },
{
    if win {
        let v = crate::platform::s(&["clip"]);
        assert(views_of(v@) =~= seq!["clip"@]);
        Ok(v)
    } else if wl_copy {
        let v = crate::platform::s(&["wl-copy"]);
        assert(views_of(v@) =~= seq!["wl-copy"@]);
        Ok(v)
    } else if xclip {
        let v = crate::platform::s(&["xclip", "-selection", "clipboard"]);
        assert(views_of(v@) =~= seq!["xclip"@, "-selection"@, "clipboard"@]);
        Ok(v)
    } else if xsel {
        let v = crate::platform::s(&["xsel", "-ib"]);
        assert(views_of(v@) =~= seq!["xsel"@, "-ib"@]);
        Ok(v)
    } else {
        Err(lit("no clipboard tool (install wl-clipboard or xclip)"))
    }
}

/// The PowerShell script of a Windows notification (a tray balloon: it needs
/// nothing installed); `msg` comes with its quotes doubled.
pub open spec fn balloon_script(msg: Seq<char>) -> Seq<char> {
    "Add-Type -AssemblyName System.Windows.Forms; Add-Type -AssemblyName System.Drawing; $n = New-Object System.Windows.Forms.NotifyIcon; $n.Icon = [System.Drawing.SystemIcons]::Information; $n.Visible = $true; $n.ShowBalloonTip(5000, 'DevTerminal', '"@
        + msg + "', 'Info'); Start-Sleep -Seconds 6; $n.Dispose()"@
}

/// The command of a desktop notification, or none when there is nothing to
/// show it with.
pub open spec fn notify_cmd_spec(summary: Seq<char>, body: Seq<char>, win: bool, notify_send: bool) -> Option<
    Seq<Seq<char>>,
> {
    if win {
        Some(ps_cmd(balloon_script(double_quotes(summary + ": "@ + body))))
    } else if notify_send {
        Some(seq!["notify-send"@, "-a"@, "DevTerminal"@, summary, body])
    } else {
        None
    }
}

pub fn notify_cmd(summary: &str, body: &str, win: bool, notify_send: bool) -> (r: Option<Vec<String>>)
    ensures
        match r {
            Some(c) => notify_cmd_spec(summary@, body@, win, notify_send) == Some(views_of(c@)),
            None => notify_cmd_spec(summary@, body@, win, notify_send) is None,
        },
{
    if win {
        let a = concat(summary, ": ");
        let m = concat(a.as_str(), body);
        let msg = crate::platform::escape_single_quotes(m.as_str());
        let b = concat(
            "Add-Type -AssemblyName System.Windows.Forms; Add-Type -AssemblyName System.Drawing; $n = New-Object System.Windows.Forms.NotifyIcon; $n.Icon = [System.Drawing.SystemIcons]::Information; $n.Visible = $true; $n.ShowBalloonTip(5000, 'DevTerminal', '",
            msg.as_str(),
        );
        let script = concat(b.as_str(), "', 'Info'); Start-Sleep -Seconds 6; $n.Dispose()");
        Some(ps(script.as_str()))
    } else if notify_send {
        let v = crate::platform::s(&["notify-send", "-a", "DevTerminal", summary, body]);
        assert(views_of(v@) =~= seq!["notify-send"@, "-a"@, "DevTerminal"@, summary@, body@]);
        Some(v)
    } else {
        None
    }
}

} // verus!
