//! Everything that differs between Windows and Linux, in one place. The
//! platform is an argument (`win`): both branches always stand in the code.
use chrono::Datelike;
use vstd::prelude::*;
use crate::text::{concat, lit, owned, views_of, views_of_strs};

verus! {

/// The strings of `v`, owned.
pub fn s(v: &[&str]) -> (r: Vec<String>)
    ensures
        views_of(r@) == views_of_strs(v@),
{
    owned(v)
}

/// `v` with `x` appended.
pub fn push_owned(v: &mut Vec<String>, x: &str)
    ensures
        views_of(final(v)@) == views_of(old(v)@).push(x@),
{
    let ghost before = v@;
    v.push(lit(x));
    assert(views_of(v@) =~= views_of(before).push(x@));
}

/// Command that opens a URL in the system browser.
pub open spec fn open_url_cmd(url: Seq<char>, win: bool) -> Seq<Seq<char>> {
    if win {
        // The "" after `start` is the window title: without it `start` takes
        // the quoted URL as the title and opens nothing.
        seq!["cmd"@, "/c"@, "start"@, ""@, url]
    } else {
        seq!["xdg-open"@, url]
    }
}

pub fn open_url(url: &str, win: bool) -> (r: Vec<String>)
    ensures
        views_of(r@) == open_url_cmd(url@, win),
{
    let v = if win {
        s(&["cmd", "/c", "start", "", url])
    } else {
        s(&["xdg-open", url])
    };
    assert(views_of(v@) =~= open_url_cmd(url@, win));
    v
}

/// Command that terminates a process; `force` is SIGKILL / `taskkill /F`.
pub open spec fn kill_cmd(pid: Seq<char>, force: bool, win: bool) -> Seq<Seq<char>> {
    if win {
        if force {
            seq!["taskkill"@, "/F"@, "/T"@, "/PID"@, pid]
        } else {
            seq!["taskkill"@, "/PID"@, pid]
        }
    } else {
        if force {
            seq!["kill"@, "-9"@, pid]
        } else {
            seq!["kill"@, pid]
        }
    }
}

pub fn kill(pid: &str, force: bool, win: bool) -> (r: Vec<String>)
    ensures
        views_of(r@) == kill_cmd(pid@, force, win),
{
    let v = if win {
        if force {
            s(&["taskkill", "/F", "/T", "/PID", pid])
        } else {
            s(&["taskkill", "/PID", pid])
        }
    } else {
        if force {
            s(&["kill", "-9", pid])
        } else {
            s(&["kill", pid])
        }
    };
    assert(views_of(v@) =~= kill_cmd(pid@, force, win));
    v
}

/// Prompt label and command template (with `{}` for the answer) that change
/// a process priority: `renice` on Unix, `PriorityClass` on Windows.
pub open spec fn renice_spec(pid: Seq<char>, win: bool) -> (Seq<char>, Seq<Seq<char>>) {
    if win {
        (
            "Priority for "@ + pid + " (Idle · BelowNormal · Normal · AboveNormal · High)"@,
            seq![
                "powershell"@,
                "-NoProfile"@,
                "-Command"@,
                "(Get-Process -Id "@ + pid + ").PriorityClass='{}'"@,
            ],
        )
    } else {
        ("Priority (nice) for "@ + pid, seq!["renice"@, "{}"@, "-p"@, pid])
    }
}

pub fn renice(pid: &str, win: bool) -> (r: (String, Vec<String>))
    ensures
        (r.0@, views_of(r.1@)) == renice_spec(pid@, win),
{
    if win {
        let a = concat("Priority for ", pid);
        let label = concat(a.as_str(), " (Idle · BelowNormal · Normal · AboveNormal · High)");
        let b = concat("(Get-Process -Id ", pid);
        let script = concat(b.as_str(), ").PriorityClass='{}'");
        let v = s(&["powershell", "-NoProfile", "-Command", script.as_str()]);
        assert(views_of(v@) =~= renice_spec(pid@, win).1);
        (label, v)
    } else {
        let label = concat("Priority (nice) for ", pid);
        let v = s(&["renice", "{}", "-p", pid]);
        assert(views_of(v@) =~= renice_spec(pid@, win).1);
        (label, v)
    }
}

/// `s` with every `'` doubled (quoting inside a PowerShell single-quoted string).
pub open spec fn double_quotes(s: Seq<char>) -> Seq<char>
    decreases s.len(),
{
    if s.len() == 0 {
        Seq::empty()
    } else {
        double_quotes(s.drop_last()) + if s.last() == '\'' {
            seq!['\'', '\'']
        } else {
            seq![s.last()]
        }
    }
}

pub fn escape_single_quotes(s: &str) -> (r: String)
    ensures
        r@ == double_quotes(s@),
{
    let c = crate::text::chars_of(s);
    let mut out: Vec<char> = Vec::new();
    let mut i: usize = 0;
    while i < c.len()
        invariant
            i <= c@.len(),
            c@ == s@,
            out@ == double_quotes(c@.take(i as int)),
        decreases c@.len() - i,
    {
        if c[i] == '\'' {
            out.push('\'');
            out.push('\'');
        } else {
            out.push(c[i]);
        }
        assert(c@.take(i + 1).drop_last() =~= c@.take(i as int));
        i = i + 1;
        assert(out@ =~= double_quotes(c@.take(i as int)));
    }
    assert(c@.take(c@.len() as int) =~= c@);
    crate::text::string_of(&out)
}

/// `[&str]::join(sep)`.
pub open spec fn join_with(v: Seq<Seq<char>>, sep: Seq<char>) -> Seq<char>
    decreases v.len(),
{
    if v.len() == 0 {
        Seq::empty()
    } else if v.len() == 1 {
        v[0]
    } else {
        join_with(v.drop_last(), sep) + sep + v.last()
    }
}

pub fn join(v: &[&str], sep: &str) -> (r: String)
    ensures
        r@ == join_with(views_of_strs(v@), sep@),
{
    let mut acc = String::new();
    let mut i: usize = 0;
    while i < v.len()
        invariant
            i <= v@.len(),
            acc@ == join_with(views_of_strs(v@.take(i as int)), sep@),
        decreases v@.len() - i,
    {
        let ghost prev = views_of_strs(v@.take(i as int));
        let next = if i == 0 {
            lit(v[i])
        } else {
            let with_sep = concat(acc.as_str(), sep);
            concat(with_sep.as_str(), v[i])
        };
        i = i + 1;
        assert(views_of_strs(v@.take(i as int)).drop_last() =~= prev);
        assert(views_of_strs(v@.take(i as int)).last() == v@[i - 1]@);
        if i == 1 {
            assert(views_of_strs(v@.take(i as int)) =~= seq![v@[0]@]);
        }
        acc = next;
    }
    assert(v@.take(v@.len() as int) =~= v@);
    acc
}

/// `[String]::join(sep)`.
pub fn join_owned(v: &Vec<String>, sep: &str) -> (r: String)
    ensures
        r@ == join_with(views_of(v@), sep@),
{
    let mut acc = String::new();
    let mut i: usize = 0;
    while i < v.len()
        invariant
            i <= v@.len(),
            acc@ == join_with(views_of(v@.take(i as int)), sep@),
        decreases v@.len() - i,
    {
        let ghost prev = views_of(v@.take(i as int));
        let next = if i == 0 {
            v[i].clone()
        } else {
            let with_sep = concat(acc.as_str(), sep);
            concat(with_sep.as_str(), v[i].as_str())
        };
        i = i + 1;
        assert(views_of(v@.take(i as int)).drop_last() =~= prev);
        assert(views_of(v@.take(i as int)).last() == v@[i - 1]@);
        if i == 1 {
            assert(views_of(v@.take(i as int)) =~= seq![v@[0]@]);
        }
        acc = next;
    }
    assert(v@.take(v@.len() as int) =~= v@);
    acc
}

/// Command that runs `cmd` with elevated privileges: `sudo` on Unix, a UAC
/// prompt on Windows.
pub open spec fn elevate_cmd(cmd: Seq<Seq<char>>, win: bool) -> Seq<Seq<char>> {
    if win {
        seq![
            "powershell"@,
            "-NoProfile"@,
            "-Command"@,
            "Start-Process powershell -Verb RunAs -ArgumentList '-NoProfile','-Command','"@
                + double_quotes(join_with(cmd, " "@)) + "'"@,
        ]
    } else {
        seq!["sudo"@] + cmd
    }
}

pub fn elevate(cmd: &[&str], win: bool) -> (r: Vec<String>)
    ensures
        views_of(r@) == elevate_cmd(views_of_strs(cmd@), win),
{
    if win {
        let joined = join(cmd, " ");
        let inner = escape_single_quotes(joined.as_str());
        let a = concat(
            "Start-Process powershell -Verb RunAs -ArgumentList '-NoProfile','-Command','",
            inner.as_str(),
        );
        let b = concat(a.as_str(), "'");
        let v = s(&["powershell", "-NoProfile", "-Command", b.as_str()]);
        assert(views_of(v@) =~= elevate_cmd(views_of_strs(cmd@), win));
        v
    } else {
        let mut v = s(&["sudo"]);
        let rest = s(cmd);
        let ghost head = v@;
        let mut i: usize = 0;
        while i < rest.len()
            invariant
                i <= rest@.len(),
                views_of(head) == seq!["sudo"@],
                views_of(rest@) == views_of_strs(cmd@),
                views_of(v@) == views_of(head) + views_of(rest@).take(i as int),
            decreases rest@.len() - i,
        {
            let ghost before = v@;
            v.push(rest[i].clone());
            i = i + 1;
            assert(views_of(v@) =~= views_of(before).push(rest@[i - 1]@));
            assert(views_of(rest@).take(i as int) =~= views_of(rest@).take(i - 1).push(
                rest@[i - 1]@,
            ));
        }
        assert(views_of(rest@).take(rest@.len() as int) =~= views_of(rest@));
        v
    }
}

/// A one-shot PowerShell command, standing in for what `ss`, `ip` or
/// `journalctl` do on Linux; the output encoding is pinned to UTF-8.
pub open spec fn ps_cmd(script: Seq<char>) -> Seq<Seq<char>> {
    seq![
        "powershell"@,
        "-NoProfile"@,
        "-NonInteractive"@,
        "-Command"@,
        "[Console]::OutputEncoding=[System.Text.Encoding]::UTF8; "@ + script,
    ]
}

pub fn ps(script: &str) -> (r: Vec<String>)
    ensures
        views_of(r@) == ps_cmd(script@),
{
    let full = concat("[Console]::OutputEncoding=[System.Text.Encoding]::UTF8; ", script);
    let v = s(&["powershell", "-NoProfile", "-NonInteractive", "-Command", full.as_str()]);
    assert(views_of(v@) =~= ps_cmd(script@));
    v
}

/// The user's text editor: `$EDITOR`, else `$VISUAL`, else notepad / nano.
pub open spec fn editor_spec(editor: Option<Seq<char>>, visual: Option<Seq<char>>, win: bool) -> Seq<char> {
    match editor {
        Some(e) => e,
        None => match visual {
            Some(v) => v,
            None => if win {
                "notepad"@
            } else {
                "nano"@
            },
        },
    }
}

pub open spec fn opt_view(o: Option<String>) -> Option<Seq<char>> {
    match o {
        Some(x) => Some(x@),
        None => None,
    }
}

/// The editor, from the values of `EDITOR` and `VISUAL` (when set).
pub fn editor(editor_var: Option<String>, visual_var: Option<String>, win: bool) -> (r: String)
    ensures
        r@ == editor_spec(opt_view(editor_var), opt_view(visual_var), win),
{
    match editor_var {
        Some(e) => e,
        None => match visual_var {
            Some(v) => v,
            None => if win {
                lit("notepad")
            } else {
                lit("nano")
            },
        },
    }
}

/// Full-screen `git diff` of one file through delta.
pub open spec fn diff_delta_cmd(repo: Seq<char>, path: Seq<char>, win: bool) -> Seq<Seq<char>> {
    if win {
        seq![
            "cmd"@,
            "/c"@,
            "git -C \""@ + repo + "\" diff HEAD -- \""@ + path + "\" | delta --paging=always"@,
        ]
    } else {
        // Positional arguments: paths with spaces or quotes break nothing.
        seq![
            "sh"@,
            "-c"@,
            "git -C \"$1\" diff HEAD -- \"$2\" | delta --paging=always"@,
            "sh"@,
            repo,
            path,
        ]
    }
}

pub fn diff_delta(repo: &str, path: &str, win: bool) -> (r: Vec<String>)
    ensures
        views_of(r@) == diff_delta_cmd(repo@, path@, win),
{
    if win {
        let a = concat("git -C \"", repo);
        let b = concat(a.as_str(), "\" diff HEAD -- \"");
        let c = concat(b.as_str(), path);
        let d = concat(c.as_str(), "\" | delta --paging=always");
        let v = s(&["cmd", "/c", d.as_str()]);
        assert(views_of(v@) =~= diff_delta_cmd(repo@, path@, win));
        v
    } else {
        let mut v = s(
            &["sh", "-c", "git -C \"$1\" diff HEAD -- \"$2\" | delta --paging=always", "sh"],
        );
        push_owned(&mut v, repo);
        push_owned(&mut v, path);
        assert(views_of(v@) =~= diff_delta_cmd(repo@, path@, win));
        v
    }
}

/// Day names, from Monday.
pub open spec fn day_name(i: int) -> Seq<char> {
    if i == 0 {
        "Monday"@
    } else if i == 1 {
        "Tuesday"@
    } else if i == 2 {
        "Wednesday"@
    } else if i == 3 {
        "Thursday"@
    } else if i == 4 {
        "Friday"@
    } else if i == 5 {
        "Saturday"@
    } else {
        "Sunday"@
    }
}

/// The dashboard's date line: day name, a space, then the formatted date.
pub fn date_line(days_from_monday: u32, stamp: &str) -> (r: String)
    requires
        days_from_monday < 7,
    ensures
        r@ == day_name(days_from_monday as int) + " "@ + stamp@,
{
    let day = if days_from_monday == 0 {
        "Monday"
    } else if days_from_monday == 1 {
        "Tuesday"
    } else if days_from_monday == 2 {
        "Wednesday"
    } else if days_from_monday == 3 {
        "Thursday"
    } else if days_from_monday == 4 {
        "Friday"
    } else if days_from_monday == 5 {
        "Saturday"
    } else {
        "Sunday"
    };
    let a = concat(day, " ");
    concat(a.as_str(), stamp)
}

/// Value of a decimal digit character.
pub open spec fn digit_val(c: char) -> int {
    (c as int) - ('0' as int)
}

/// Two decimal digits whose value lies in `lo..=hi`.
pub open spec fn two_digits(s: Seq<char>, lo: int, hi: int) -> bool {
    &&& s.len() == 2
    &&& crate::text::is_digit(s[0])
    &&& crate::text::is_digit(s[1])
    &&& lo <= 10 * digit_val(s[0]) + digit_val(s[1]) <= hi
}

/// A year as chrono's `%Y` writes it: four digits for the years 0 to 9999,
/// otherwise a sign and at least four digits.
pub open spec fn year_text(y: Seq<char>) -> bool {
    ||| y.len() == 4 && forall|k: int| 0 <= k < 4 ==> crate::text::is_digit(#[trigger] y[k])
    ||| y.len() >= 5 && (y[0] == '+' || y[0] == '-') && forall|k: int|
        1 <= k < y.len() ==> crate::text::is_digit(#[trigger] y[k])
}

/// The text of `%d/%m/%Y  %H:%M`: day, month, year, two spaces, hour and minute.
pub open spec fn stamp_shape(s: Seq<char>) -> bool {
    exists|d: Seq<char>, m: Seq<char>, y: Seq<char>, h: Seq<char>, mi: Seq<char>|
        #![trigger two_digits(d, 1, 31), two_digits(m, 1, 12), year_text(y), two_digits(h, 0, 23), two_digits(mi, 0, 59)]
        s == d + "/"@ + m + "/"@ + y + "  "@ + h + ":"@ + mi && two_digits(d, 1, 31) && two_digits(
            m,
            1,
            12,
        ) && year_text(y) && two_digits(h, 0, 23) && two_digits(mi, 0, 59)
}

/// `chrono::Local::now()`, read once, then `weekday().num_days_from_monday()`
/// and `format(fmt)` of that same instant, turned into a `String`. Only the
/// day-month-year, hour-minute format is admitted: its specifiers (`%d`, `%m`,
/// `%Y`, `%H`, `%M`) are all valid, so the formatted value displays without
/// error (an invalid specifier would make `to_string` panic). The weekday
/// number is below 7 (chrono's `days_since` takes it modulo 7). chrono writes
/// day, month, hour and minute as two zero-padded digits within their ranges
/// and the year as four digits (with a sign outside 0 to 9999); which date and
/// time it is depends on the clock and is left unsaid.
#[verifier::external_body]
fn local_clock(fmt: &str) -> (r: (u32, String))
    requires
        fmt@ == "%d/%m/%Y  %H:%M"@,
    ensures
        r.0 < 7,
        stamp_shape(r.1@),
{
    let t = chrono::Local::now();
    (t.weekday().num_days_from_monday(), t.format(fmt).to_string())
}

/// Local date, e.g. `Monday 03/02/2025  14:05`.
pub fn now() -> (r: String)
    ensures
        exists|d: int, stamp: Seq<char>|
            0 <= d < 7 && stamp_shape(stamp) && r@ == day_name(d) + " "@ + stamp,
{
    let (d, stamp) = local_clock("%d/%m/%Y  %H:%M");
    let r = date_line(d, stamp.as_str());
    assert(0 <= d < 7 && stamp_shape(stamp@) && r@ == day_name(d as int) + " "@ + stamp@);
    r
}

} // verus!
