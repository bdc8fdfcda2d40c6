//! The system log (Logs view) and the services (Services view): journalctl
//! and systemd on Linux, the event logs and the service manager on Windows.
use vstd::prelude::*;
use crate::modules::{act, opt_view, Action, ActionView, Step, StepView};
use crate::modules::docker::{result_view, rows_view, sel_id, shown_rows};
use crate::platform::{double_quotes, elevate, elevate_cmd, join_owned, join_with, ps, ps_cmd, s};
use crate::text::{
    chars_of, concat, lines, lit, split_lines, split_ws, string_of, tokens, trim, trim_chars,
    views_of, views_of_strs,
};
use crate::theme::{Color, Palette};
use crate::ui::{key_step, selected_row, Key, ListModel, ListView};

verus! {

/// Names of the views, in the order `v` cycles through them.
pub const VIEWS: [&'static str; 2] = ["Logs", "Services"];

/// Colour of a unit or service from its state: the ACTIVE and SUB columns of
/// `systemctl list-units`, or the `Status` of `Get-Service` (given twice).
pub open spec fn unit_color_spec(active: Seq<char>, sub: Seq<char>, p: Palette) -> Color {
    if active == "failed"@ || sub == "failed"@ {
        p.red
    } else if (active == "active"@ && sub == "running"@) || active == "Running"@ {
        p.green
    } else {
        Color::DarkGray
    }
}

pub fn unit_color(active: &str, sub: &str, p: &Palette) -> (c: Color)
    ensures
        c == unit_color_spec(active@, sub@, *p),
{
    let a = chars_of(active);
    let b = chars_of(sub);
    if crate::text::eq_str(&a, "failed") || crate::text::eq_str(&b, "failed") {
        p.red
    } else if (crate::text::eq_str(&a, "active") && crate::text::eq_str(&b, "running"))
        || crate::text::eq_str(&a, "Running") {
        p.green
    } else {
        Color::DarkGray
    }
}

/// The event-log filter of the Windows log view.
pub open spec fn event_filter(errors_only: bool) -> Seq<char> {
    if errors_only {
        "@{LogName='System','Application'; Level=1,2}"@
    } else {
        "@{LogName='System','Application'}"@
    }
}

/// The PowerShell script that prints the System and Application event logs,
/// oldest first, the way journalctl prints the journal.
pub open spec fn events_script(errors_only: bool) -> Seq<char> {
    "Get-WinEvent -FilterHashtable "@ + event_filter(errors_only)
        + " -MaxEvents 400 -ErrorAction SilentlyContinue | Sort-Object TimeCreated | ForEach-Object { '{0:dd/MM HH:mm:ss} {1,-11} {2,-26} {3}' -f $_.TimeCreated, $_.LevelDisplayName, $_.ProviderName, ($_.Message -replace '\\s+',' ') }"@
}

/// The command of the log view.
pub open spec fn logs_cmd_spec(errors_only: bool, win: bool) -> Seq<Seq<char>> {
    if win {
        ps_cmd(events_script(errors_only))
    } else {
        seq!["journalctl"@, "-n"@, "400"@, "--no-pager"@] + if errors_only {
            seq!["-p"@, "err"@]
        } else {
            Seq::empty()
        }
    }
}

pub fn logs_cmd(errors_only: bool, win: bool) -> (r: Vec<String>)
    ensures
        views_of(r@) == logs_cmd_spec(errors_only, win),
{
    if win {
        let filter = if errors_only {
            "@{LogName='System','Application'; Level=1,2}"
        } else {
            "@{LogName='System','Application'}"
        };
        let a = concat("Get-WinEvent -FilterHashtable ", filter);
        let script = concat(
            a.as_str(),
            " -MaxEvents 400 -ErrorAction SilentlyContinue | Sort-Object TimeCreated | ForEach-Object { '{0:dd/MM HH:mm:ss} {1,-11} {2,-26} {3}' -f $_.TimeCreated, $_.LevelDisplayName, $_.ProviderName, ($_.Message -replace '\\s+',' ') }",
        );
        ps(script.as_str())
    } else {
        let v = if errors_only {
            s(&["journalctl", "-n", "400", "--no-pager", "-p", "err"])
        } else {
            s(&["journalctl", "-n", "400", "--no-pager"])
        };
        assert(views_of(v@) =~= logs_cmd_spec(errors_only, win));
        v
    }
}

/// The script that lists the Windows services, one per line.
pub open spec fn services_script() -> Seq<char> {
    "Get-Service | Sort-Object Name | ForEach-Object { '{0,-38} {1,-10} {2}' -f $_.Name, $_.Status, $_.DisplayName }"@
}

/// The command of the services view.
pub open spec fn services_cmd_spec(win: bool) -> Seq<Seq<char>> {
    if win {
        ps_cmd(services_script())
    } else {
        seq![
            "systemctl"@,
            "list-units"@,
            "--type=service"@,
            "--no-legend"@,
            "--no-pager"@,
            "--plain"@,
        ]
    }
}

pub fn services_cmd(win: bool) -> (r: Vec<String>)
    ensures
        views_of(r@) == services_cmd_spec(win),
{
    if win {
        ps(
            "Get-Service | Sort-Object Name | ForEach-Object { '{0,-38} {1,-10} {2}' -f $_.Name, $_.Status, $_.DisplayName }",
        )
    } else {
        let v = s(
            &["systemctl", "list-units", "--type=service", "--no-legend", "--no-pager", "--plain"],
        );
        assert(views_of(v@) =~= services_cmd_spec(win));
        v
    }
}

/// Column `i` of `cols`, or nothing.
pub open spec fn col(cols: Seq<Seq<char>>, i: int) -> Seq<char> {
    if 0 <= i < cols.len() {
        cols[i]
    } else {
        Seq::empty()
    }
}

/// Rows of the services view: one per non-blank line, shown as it is, id =
/// the unit (first column), coloured by its state (columns ACTIVE and SUB of
/// systemctl; `Status` of Get-Service).
pub open spec fn service_rows(ls: Seq<Seq<char>>, win: bool, p: Palette) -> Seq<
    (Seq<char>, Seq<char>, Option<Color>),
>
    decreases ls.len(),
{
    if ls.len() == 0 {
        Seq::empty()
    } else {
        let prev = service_rows(ls.drop_last(), win, p);
        let l = ls.last();
        if trim(l).len() == 0 {
            prev
        } else {
            let cols = tokens(l);
            let (a, b) = if win {
                (1int, 1int)
            } else {
                (2int, 3int)
            };
            prev.push((l, col(cols, 0), Some(unit_color_spec(col(cols, a), col(cols, b), p))))
        }
    }
}

/// What the services view shows for the output of its command (or its error).
pub open spec fn services_view_rows(out: Result<Seq<char>, Seq<char>>, win: bool, p: Palette) -> Seq<
    (Seq<char>, Seq<char>, Option<Color>),
> {
    match out {
        Ok(o) => service_rows(lines(o), win, p),
        Err(e) => seq![("Error: "@ + e, Seq::empty(), None)],
    }
}

/// The log view starts at the bottom, where the recent entries are: the
/// line count (as a `u16`, wrapping) less one screen of 20, floored at 0.
pub open spec fn bottom_scroll(text: Seq<char>) -> u16 {
    let n = lines(text).len() as u16;
    if n >= 20 {
        (n - 20) as u16
    } else {
        0
    }
}

/// The Windows script that prints a service and what the service manager
/// recorded about it; `q` is the name with its quotes doubled.
pub open spec fn unit_log_script(q: Seq<char>) -> Seq<char> {
    "Get-Service -Name '"@ + q
        + "' | Format-List Name,DisplayName,Status,StartType; Get-WinEvent -FilterHashtable @{LogName='System'; ProviderName='Service Control Manager'} -MaxEvents 400 -ErrorAction SilentlyContinue | Where-Object { $_.Message -like '*"@
        + q
        + "*' } | Sort-Object TimeCreated | ForEach-Object { '{0:dd/MM HH:mm:ss}  {1}' -f $_.TimeCreated, ($_.Message -replace '\\s+',' ') }"@
}

/// The command that prints the log of one unit.
pub open spec fn unit_log_cmd(unit: Seq<char>, win: bool) -> Seq<Seq<char>> {
    if win {
        ps_cmd(unit_log_script(double_quotes(unit)))
    } else {
        seq!["journalctl"@, "-u"@, unit, "-n"@, "200"@, "--no-pager"@]
    }
}

/// The log of one unit, shown in a pane: `journalctl -u` on Linux; on
/// Windows, the service entry and the service manager's records of it.
pub open spec fn unit_logs_spec(unit: Seq<char>, win: bool) -> StepView {
    StepView::Capture {
        title: if win {
            "Service "@ + unit
        } else {
            join_with(unit_log_cmd(unit, win), " "@)
        },
        cmd: unit_log_cmd(unit, win),
    }
}

fn unit_logs(unit: &str, win: bool) -> (r: Step)
    ensures
        r@ == unit_logs_spec(unit@, win),
{
    let cmd = if win {
        let q = crate::platform::escape_single_quotes(unit);
        let a = concat("Get-Service -Name '", q.as_str());
        let b = concat(
            a.as_str(),
            "' | Format-List Name,DisplayName,Status,StartType; Get-WinEvent -FilterHashtable @{LogName='System'; ProviderName='Service Control Manager'} -MaxEvents 400 -ErrorAction SilentlyContinue | Where-Object { $_.Message -like '*",
        );
        let c = concat(b.as_str(), q.as_str());
        let script = concat(
            c.as_str(),
            "*' } | Sort-Object TimeCreated | ForEach-Object { '{0:dd/MM HH:mm:ss}  {1}' -f $_.TimeCreated, ($_.Message -replace '\\s+',' ') }",
        );
        ps(script.as_str())
    } else {
        let v = s(&["journalctl", "-u", unit, "-n", "200", "--no-pager"]);
        assert(views_of(v@) =~= unit_log_cmd(unit@, win));
        v
    };
    let title = if win {
        concat("Service ", unit)
    } else {
        join_owned(&cmd, " ")
    };
    Step::Capture { title, cmd }
}

/// The PowerShell cmdlet for a service verb.
pub open spec fn cmdlet_of(verb: Seq<char>) -> Seq<char> {
    if verb == "start"@ {
        "Start-Service"@
    } else if verb == "stop"@ {
        "Stop-Service"@
    } else {
        "Restart-Service"@
    }
}

/// start / stop / restart of a service with elevated rights (sudo, or a UAC
/// prompt), run full-screen.
pub open spec fn service_cmd_spec(verb: Seq<char>, unit: Seq<char>, win: bool) -> StepView {
    StepView::Act(
        ActionView::Interactive(
            if win {
                elevate_cmd(
                    seq![cmdlet_of(verb), "-Name"@, "'"@ + double_quotes(unit) + "'"@],
                    true,
                )
            } else {
                elevate_cmd(seq!["systemctl"@, verb, unit], false)
            },
        ),
    )
}

fn service_cmd(verb: &str, unit: &str, win: bool) -> (r: Step)
    ensures
        r@ == service_cmd_spec(verb@, unit@, win),
{
    let cmd = if win {
        let v = chars_of(verb);
        let cmdlet = if crate::text::eq_str(&v, "start") {
            "Start-Service"
        } else if crate::text::eq_str(&v, "stop") {
            "Stop-Service"
        } else {
            "Restart-Service"
        };
        let q = crate::platform::escape_single_quotes(unit);
        let a = concat("'", q.as_str());
        let quoted = concat(a.as_str(), "'");
        let parts = [cmdlet, "-Name", quoted.as_str()];
        let r = elevate(&parts, true);
        assert(views_of_strs(parts@) =~= seq![cmdlet_of(verb@), "-Name"@, quoted@]);
        r
    } else {
        let parts = ["systemctl", verb, unit];
        let r = elevate(&parts, false);
        assert(views_of_strs(parts@) =~= seq!["systemctl"@, verb@, unit@]);
        r
    };
    act(Action::Interactive(cmd))
}

/// What a key does in the services view on the unit `unit`.
pub open spec fn services_key(key: Key, unit: Seq<char>, win: bool) -> StepView {
    if key == Key::Enter {
        unit_logs_spec(unit, win)
    } else if key == Key::Char('u') {
        service_cmd_spec("start"@, unit, win)
    } else if key == Key::Char('x') {
        service_cmd_spec("stop"@, unit, win)
    } else if key == Key::Char('t') {
        service_cmd_spec("restart"@, unit, win)
    } else {
        StepView::Act(ActionView::Ignored)
    }
}

/// How a key moves the log view: (new scroll, new errors-only flag, step).
pub open spec fn log_key(scroll: u16, errors_only: bool, key: Key) -> (u16, bool, StepView) {
    if key == Key::Char('w') || key == Key::Up {
        (if scroll >= 1 { (scroll - 1) as u16 } else { 0 }, errors_only, StepView::Act(ActionView::Handled))
    } else if key == Key::Char('s') || key == Key::Down {
        (if scroll + 1 <= u16::MAX { (scroll + 1) as u16 } else { u16::MAX }, errors_only, StepView::Act(ActionView::Handled))
    } else if key == Key::PageUp {
        (if scroll >= 20 { (scroll - 20) as u16 } else { 0 }, errors_only, StepView::Act(ActionView::Handled))
    } else if key == Key::PageDown {
        (if scroll + 20 <= u16::MAX { (scroll + 20) as u16 } else { u16::MAX }, errors_only, StepView::Act(ActionView::Handled))
    } else if key == Key::Char('e') {
        (scroll, !errors_only, StepView::Act(ActionView::Refresh))
    } else {
        (scroll, errors_only, StepView::Act(ActionView::Ignored))
    }
}

/// The system log and the services.
pub struct Logs {
    view: usize,
    text: String,
    scroll: u16,
    errors_only: bool,
    list: ListView,
}

impl Logs {
    pub closed spec fn view_index(&self) -> usize {
        self.view
    }

    pub closed spec fn text_view(&self) -> Seq<char> {
        self.text@
    }

    pub closed spec fn scroll_pos(&self) -> u16 {
        self.scroll
    }

    pub closed spec fn errors_only_flag(&self) -> bool {
        self.errors_only
    }

    pub closed spec fn list_model(&self) -> ListModel {
        self.list@
    }

    pub closed spec fn wf(&self) -> bool {
        self.view < 2 && self.list.wf()
    }

    pub fn new() -> (r: Self)
        ensures
            r.wf(),
            r.view_index() == 0,
            r.text_view().len() == 0,
            r.scroll_pos() == 0,
            !r.errors_only_flag(),
            crate::ui::fresh(r.list_model()),
    {
        Logs { view: 0, text: String::new(), scroll: 0, errors_only: false, list: ListView::new() }
    }

    pub fn current_view(&self) -> (r: usize)
        ensures
            r == self.view_index(),
    {
        self.view
    }

    pub fn text(&self) -> (r: &String)
        ensures
            r@ == self.text_view(),
    {
        &self.text
    }

    pub fn scroll(&self) -> (r: u16)
        ensures
            r == self.scroll_pos(),
    {
        self.scroll
    }

    pub fn errors_only(&self) -> (r: bool)
        ensures
            r == self.errors_only_flag(),
    {
        self.errors_only
    }

    pub fn list(&self) -> (r: &ListView)
        ensures
            r@ == self.list_model(),
    {
        &self.list
    }

    /// journalctl is missing (Linux): the log text says so.
    pub fn set_unavailable(&mut self)
        requires
            old(self).wf(),
        ensures
            final(self).wf(),
            final(self).text_view() == "journalctl not available"@,
            final(self).view_index() == old(self).view_index(),
            final(self).scroll_pos() == old(self).scroll_pos(),
            final(self).errors_only_flag() == old(self).errors_only_flag(),
            final(self).list_model() == old(self).list_model(),
    {
        self.text = lit("journalctl not available");
    }

    /// The command whose output the current view shows.
    pub fn refresh_cmd(&self, win: bool) -> (r: Vec<String>)
        ensures
            views_of(r@) == if self.view_index() == 0 {
                logs_cmd_spec(self.errors_only_flag(), win)
            } else {
                services_cmd_spec(win)
            },
    {
        if self.view == 0 {
            logs_cmd(self.errors_only, win)
        } else {
            services_cmd(win)
        }
    }

    /// Takes in the output of `refresh_cmd` (or its error text): the log text,
    /// scrolled to the bottom, or the services list.
    pub fn apply_output(&mut self, out: Result<String, String>, win: bool, p: &Palette)
        requires
            old(self).wf(),
        ensures
            final(self).wf(),
            final(self).view_index() == old(self).view_index(),
            final(self).errors_only_flag() == old(self).errors_only_flag(),
            old(self).view_index() == 0 ==> {
                let t = match out {
                    Ok(o) => o@,
                    Err(e) => e@,
                };
                &&& final(self).text_view() == t
                &&& final(self).scroll_pos() == bottom_scroll(t)
                &&& final(self).list_model() == old(self).list_model()
            },
            old(self).view_index() != 0 ==> {
                &&& final(self).text_view() == old(self).text_view()
                &&& final(self).scroll_pos() == old(self).scroll_pos()
                &&& shown_rows(final(self).list_model().rows) == services_view_rows(
                    result_view(out),
                    win,
                    *p,
                )
            },
    {
        if self.view == 0 {
            let t = match out {
                Ok(o) => o,
                Err(e) => e,
            };
            let tc = chars_of(t.as_str());
            let ls = split_lines(&tc);
            let n = ls.len() as u16;
            assert(n == lines(t@).len() as u16);
            self.scroll = n.saturating_sub(20);
            self.text = t;
        } else {
            match out {
                Ok(o) => {
                    let oc = chars_of(o.as_str());
                    let ls = split_lines(&oc);
                    let rows = service_rows_of(&ls, win, p);
                    let ghost expect = service_rows(lines(o@), win, *p);
                    self.list.set_items_styled(rows);
                    assert(shown_rows(self.list@.rows) =~= expect);
                },
                Err(e) => {
                    let t = concat("Error: ", e.as_str());
                    let ghost tv = t@;
                    self.list.set_items(vec![(t, String::new())]);
                    assert(shown_rows(self.list@.rows) =~= seq![
                        (tv, Seq::<char>::empty(), None::<Color>),
                    ]);
                },
            }
        }
    }

    /// Handles a key: `v` switches view; in the services view the list's keys,
    /// then the unit's log and start / stop / restart; in the log view,
    /// scrolling and the errors-only switch.
    pub fn on_key(&mut self, key: Key, win: bool) -> (r: Step)
        requires
            old(self).wf(),
        ensures
            final(self).wf(),
            key == Key::Char('v') ==> {
                &&& r@ == StepView::Act(ActionView::Refresh)
                &&& final(self).view_index() == (old(self).view_index() + 1) % 2
                &&& final(self).list_model() == old(self).list_model()
                &&& final(self).scroll_pos() == old(self).scroll_pos()
                &&& final(self).errors_only_flag() == old(self).errors_only_flag()
            },
            key != Key::Char('v') && old(self).view_index() == 1 ==> {
                let (m, used) = key_step(old(self).list_model(), key);
                &&& final(self).view_index() == 1
                &&& final(self).list_model() == m
                &&& final(self).scroll_pos() == old(self).scroll_pos()
                &&& final(self).errors_only_flag() == old(self).errors_only_flag()
                &&& r@ == if used {
                    StepView::Act(ActionView::Handled)
                } else {
                    match sel_id(old(self).list_model()) {
                        Some(unit) => services_key(key, unit, win),
                        None => StepView::Act(ActionView::Ignored),
                    }
                }
            },
            key != Key::Char('v') && old(self).view_index() == 0 ==> {
                let (sc, eo, step) = log_key(old(self).scroll_pos(), old(self).errors_only_flag(), key);
                &&& final(self).view_index() == 0
                &&& final(self).list_model() == old(self).list_model()
                &&& final(self).scroll_pos() == sc
                &&& final(self).errors_only_flag() == eo
                &&& r@ == step
            },
            final(self).text_view() == old(self).text_view(),
    {
        if key == Key::Char('v') {
            self.view = (self.view + 1) % 2;
            return act(Action::Refresh);
        }
        if self.view == 1 {
            if self.list.key(key) {
                return act(Action::Handled);
            }
            let unit = match self.list.selected_id() {
                Some(u) => {
                    if u.as_str().is_empty() {
                        return act(Action::Ignored);
                    }
                    u
                },
                None => {
                    return act(Action::Ignored);
                },
            };
            return if key == Key::Enter {
                unit_logs(unit.as_str(), win)
            } else if key == Key::Char('u') {
                service_cmd("start", unit.as_str(), win)
            } else if key == Key::Char('x') {
                service_cmd("stop", unit.as_str(), win)
            } else if key == Key::Char('t') {
                service_cmd("restart", unit.as_str(), win)
            } else {
                act(Action::Ignored)
            };
        }
        if key == Key::Char('w') || key == Key::Up {
            self.scroll = self.scroll.saturating_sub(1);
            act(Action::Handled)
        } else if key == Key::Char('s') || key == Key::Down {
            self.scroll = self.scroll.saturating_add(1);
            act(Action::Handled)
        } else if key == Key::PageUp {
            self.scroll = self.scroll.saturating_sub(20);
            act(Action::Handled)
        } else if key == Key::PageDown {
            self.scroll = self.scroll.saturating_add(20);
            act(Action::Handled)
        } else if key == Key::Char('e') {
            self.errors_only = !self.errors_only;
            act(Action::Refresh)
        } else {
            act(Action::Ignored)
        }
    }

    /// The module's own shortcuts for the bottom bar.
    pub fn footer(&self) -> (r: String)
        ensures
            r@ == (if self.view_index() == 0 {
                "v services · w/s scroll · PgUp/PgDn page · e errors only"@
            } else {
                "v logs · Enter service log · u start · x stop · t restart"@
            }),
    {
        if self.view == 0 {
            lit("v services · w/s scroll · PgUp/PgDn page · e errors only")
        } else {
            lit("v logs · Enter service log · u start · x stop · t restart")
        }
    }

    /// Text copied by the global `y` key: the selected unit's, in the services view.
    pub fn clip(&self) -> (r: Option<String>)
        ensures
            opt_view(r) == if self.view_index() == 1 {
                match selected_row(self.list_model()) {
                    Some(row) => crate::ui::clip_of(row),
                    None => None,
                }
            } else {
                None
            },
    {
        if self.view == 1 {
            self.list.clip()
        } else {
            None
        }
    }
}

fn service_rows_of(ls: &Vec<Vec<char>>, win: bool, p: &Palette) -> (r: Vec<
    (String, String, Option<Color>),
>)
    ensures
        rows_view(r@) == service_rows(ls.deep_view(), win, *p),
{
    let mut acc: Vec<(String, String, Option<Color>)> = Vec::new();
    let mut i: usize = 0;
    let (a, b): (usize, usize) = if win {
        (1, 1)
    } else {
        (2, 3)
    };
    while i < ls.len()
        invariant
            i <= ls@.len(),
            a == (if win { 1usize } else { 2usize }),
            b == (if win { 1usize } else { 3usize }),
            rows_view(acc@) == service_rows(ls.deep_view().take(i as int), win, *p),
        decreases ls@.len() - i,
    {
        proof {
            crate::text::lemma_deep_chars(ls@[i as int]);
            assert(ls.deep_view().take(i + 1).drop_last() =~= ls.deep_view().take(i as int));
        }
        let ghost before = acc@;
        let l = &ls[i];
        if trim_chars(l).len() > 0 {
            let cols = split_ws(l);
            let unit = column(&cols, 0);
            let ca = column(&cols, a);
            let cb = column(&cols, b);
            let color = unit_color(ca.as_str(), cb.as_str(), p);
            acc.push((string_of(l), unit, Some(color)));
            assert(rows_view(acc@) =~= rows_view(before).push(
                (l@, col(tokens(l@), 0), Some(color)),
            ));
        }
        i = i + 1;
    }
    assert(ls.deep_view().take(ls@.len() as int) =~= ls.deep_view());
    acc
}

fn column(cols: &Vec<Vec<char>>, i: usize) -> (r: String)
    ensures
        r@ == col(cols.deep_view(), i as int),
{
    if i < cols.len() {
        proof {
            crate::text::lemma_deep_chars(cols@[i as int]);
        }
        string_of(&cols[i])
    } else {
        String::new()
    }
}

} // verus!
