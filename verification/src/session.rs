//! The main loop's state: which module is active, the overlay (confirmation,
//! prompt or output pane) and what a key press leads to. The loop itself, the
//! drawing and the commands stay with the program; it hands each key and each
//! command's outcome to this state and carries out the effect it returns.
use vstd::prelude::*;
use crate::modules::{opt_view, Action, ActionView};
use crate::platform::{join_owned, join_with};
use crate::text::{
    chars_of, concat, decimal, decimal_string, lines, lit, replace_all, replace_str, split_lines,
    trim, trim_chars, views_of,
};
use crate::ui::Key;

verus! {

/// A dialog over the active module.
pub enum Overlay {
    /// Asks before running `cmd`.
    Confirm { msg: String, cmd: Vec<String>, show: bool },
    /// Reads a line of text; "{}" in `template` is replaced with it.
    Prompt { label: String, template: Vec<String>, interactive: bool, show: bool, input: String },
    /// Scrollable text.
    Pane { title: String, text: String, scroll: u16 },
}

pub enum OverlayView {
    Confirm { msg: Seq<char>, cmd: Seq<Seq<char>>, show: bool },
    Prompt {
        label: Seq<char>,
        template: Seq<Seq<char>>,
        interactive: bool,
        show: bool,
        input: Seq<char>,
    },
    Pane { title: Seq<char>, text: Seq<char>, scroll: u16 },
}

impl View for Overlay {
    type V = OverlayView;

    open spec fn view(&self) -> OverlayView {
        match self {
            Overlay::Confirm { msg, cmd, show } => OverlayView::Confirm {
                msg: msg@,
                cmd: views_of(cmd@),
                show: *show,
            },
            Overlay::Prompt { label, template, interactive, show, input } => OverlayView::Prompt {
                label: label@,
                template: views_of(template@),
                interactive: *interactive,
                show: *show,
                input: input@,
            },
            Overlay::Pane { title, text, scroll } => OverlayView::Pane {
                title: title@,
                text: text@,
                scroll: *scroll,
            },
        }
    }
}

pub open spec fn overlay_opt(o: Option<Overlay>) -> Option<OverlayView> {
    match o {
        Some(v) => Some(v@),
        None => None,
    }
}

/// What the main loop does after a key press.
pub enum Effect {
    /// Nothing more.
    Nothing,
    /// Leave the program.
    Quit,
    /// Copy the active module's `clip()` text, then report it with `copied`.
    Copy,
    /// Run `cmd` capturing its output, then report it with `exec_done`.
    Exec { cmd: Vec<String>, show: bool },
    /// Hand the terminal to `cmd`; report a failure to start with `interactive_failed`.
    Interactive(Vec<String>),
}

pub enum EffectView {
    Nothing,
    Quit,
    Copy,
    Exec { cmd: Seq<Seq<char>>, show: bool },
    Interactive(Seq<Seq<char>>),
}

impl View for Effect {
    type V = EffectView;

    open spec fn view(&self) -> EffectView {
        match self {
            Effect::Nothing => EffectView::Nothing,
            Effect::Quit => EffectView::Quit,
            Effect::Copy => EffectView::Copy,
            Effect::Exec { cmd, show } => EffectView::Exec { cmd: views_of(cmd@), show: *show },
            Effect::Interactive(cmd) => EffectView::Interactive(views_of(cmd@)),
        }
    }
}

// ---------------------------------------------------------------------------
// Global keys
// ---------------------------------------------------------------------------

/// The module a global key makes active among `n`: Tab / d / D the next one,
/// BackTab / a / A the previous one (both wrapping), 1-9 that module when it
/// exists; any other key keeps `active`.
pub open spec fn next_active(active: usize, n: usize, key: Key) -> usize {
    if key == Key::Tab || key == Key::Char('d') || key == Key::Char('D') {
        ((active + 1) % (n as int)) as usize
    } else if key == Key::BackTab || key == Key::Char('a') || key == Key::Char('A') {
        ((active + n - 1) % (n as int)) as usize
    } else {
        match key {
            Key::Char(c) => if '1' <= c && c <= '9' && (c as int) - ('1' as int) < n {
                ((c as int) - ('1' as int)) as usize
            } else {
                active
            },
            _ => active,
        }
    }
}

pub open spec fn is_quit(key: Key) -> bool {
    key == Key::Char('q') || key == Key::Char('Q')
}

pub open spec fn is_refresh(key: Key) -> bool {
    key == Key::Char('r') || key == Key::Char('R')
}

pub open spec fn is_copy(key: Key) -> bool {
    key == Key::Char('y') || key == Key::Char('Y')
}

// ---------------------------------------------------------------------------
// Overlays
// ---------------------------------------------------------------------------

/// Whether an open overlay can take `key`: a pane's scroll must not overflow.
pub open spec fn overlay_key_ok(ov: Option<OverlayView>, key: Key) -> bool {
    match ov {
        Some(OverlayView::Pane { scroll, .. }) => pane_key_ok(scroll, key),
        _ => true,
    }
}

/// Lines of a pane's text, as the `u16` the scroll is kept in (wrapping).
pub open spec fn pane_max(text: Seq<char>) -> u16 {
    lines(text).len() as u16
}

/// Whether a pane scrolled to `scroll` can take `key` without the scroll
/// overflowing a `u16`.
pub open spec fn pane_key_ok(scroll: u16, key: Key) -> bool {
    &&& (key == Key::Char('s') || key == Key::Down) ==> scroll < u16::MAX
    &&& key == Key::PageDown ==> scroll + 20 <= u16::MAX
}

pub open spec fn min_u16(a: int, b: u16) -> u16 {
    if a < b {
        a as u16
    } else {
        b
    }
}

/// A pane's scroll after `key`, or nothing when the key closes it
/// (Esc, q, a, Enter). Scrolling down stops at the last line.
pub open spec fn pane_scroll(scroll: u16, max: u16, key: Key) -> Option<u16> {
    if key == Key::Esc || key == Key::Char('q') || key == Key::Char('a') || key == Key::Enter {
        None
    } else if key == Key::Char('w') || key == Key::Up {
        Some(if scroll >= 1 { (scroll - 1) as u16 } else { 0 })
    } else if key == Key::Char('s') || key == Key::Down {
        Some(min_u16(scroll + 1, max))
    } else if key == Key::PageUp {
        Some(if scroll >= 20 { (scroll - 20) as u16 } else { 0 })
    } else if key == Key::PageDown {
        Some(min_u16(scroll + 20, max))
    } else {
        Some(scroll)
    }
}

/// Each argument of `template` with every "{}" replaced by `input`.
pub open spec fn fill_template(template: Seq<Seq<char>>, input: Seq<char>) -> Seq<Seq<char>> {
    template.map_values(|a: Seq<char>| replace_all(a, "{}"@, input))
}

/// What a key does to an open overlay: the overlay left open (if any) and the
/// effect for the loop.
pub open spec fn overlay_step(ov: OverlayView, key: Key) -> (Option<OverlayView>, EffectView) {
    match ov {
        OverlayView::Pane { title, text, scroll } => match pane_scroll(
            scroll,
            pane_max(text),
            key,
        ) {
            Some(s) => (Some(OverlayView::Pane { title, text, scroll: s }), EffectView::Nothing),
            None => (None, EffectView::Nothing),
        },
        OverlayView::Confirm { msg, cmd, show } => if key == Key::Enter || key == Key::Char('y')
            || key == Key::Char('Y') {
            (None, EffectView::Exec { cmd, show })
        } else if key == Key::Esc || key == Key::Char('n') || key == Key::Char('N') {
            (None, EffectView::Nothing)
        } else {
            (Some(ov), EffectView::Nothing)
        },
        OverlayView::Prompt { label, template, interactive, show, input } => if key == Key::Esc {
            (None, EffectView::Nothing)
        } else if key == Key::Enter {
            if input.len() == 0 {
                (None, EffectView::Nothing)
            } else if interactive {
                (None, EffectView::Interactive(fill_template(template, input)))
            } else {
                (None, EffectView::Exec { cmd: fill_template(template, input), show })
            }
        } else if key == Key::Backspace {
            (
                Some(
                    OverlayView::Prompt {
                        label,
                        template,
                        interactive,
                        show,
                        input: if input.len() > 0 {
                            input.drop_last()
                        } else {
                            input
                        },
                    },
                ),
                EffectView::Nothing,
            )
        } else {
            match key {
                Key::Char(c) => (
                    Some(
                        OverlayView::Prompt {
                            label,
                            template,
                            interactive,
                            show,
                            input: input.push(c),
                        },
                    ),
                    EffectView::Nothing,
                ),
                _ => (Some(ov), EffectView::Nothing),
            }
        },
    }
}

/// The pane that reports a finished command, if any: its output when asked
/// to show it ("OK ✓" when blank), its error text whenever it failed.
pub open spec fn exec_pane(cmd: Seq<Seq<char>>, show: bool, out: Result<Seq<char>, Seq<char>>) -> Option<
    OverlayView,
> {
    match out {
        Ok(o) => if show {
            Some(
                OverlayView::Pane {
                    title: join_with(cmd, " "@),
                    text: if trim(o).len() == 0 {
                        "OK ✓"@
                    } else {
                        o
                    },
                    scroll: 0,
                },
            )
        } else {
            None
        },
        Err(e) => Some(
            OverlayView::Pane { title: "Error · "@ + join_with(cmd, " "@), text: e, scroll: 0 },
        ),
    }
}

/// Each argument of `template` with "{}" replaced by `input`.
pub fn fill(template: &Vec<String>, input: &str) -> (r: Vec<String>)
    ensures
        views_of(r@) == fill_template(views_of(template@), input@),
{
    let mut out: Vec<String> = Vec::new();
    let mut i: usize = 0;
    proof {
        reveal_strlit("{}");
    }
    while i < template.len()
        invariant
            i <= template@.len(),
            "{}"@.len() == 2,
            views_of(out@) == fill_template(views_of(template@), input@).take(i as int),
        decreases template@.len() - i,
    {
        let a = replace_str(template[i].as_str(), "{}", input);
        let ghost before = out@;
        out.push(a);
        i = i + 1;
        assert(views_of(out@) =~= views_of(before).push(a@));
        assert(fill_template(views_of(template@), input@).take(i as int) =~= fill_template(
            views_of(template@),
            input@,
        ).take(i - 1).push(a@));
    }
    assert(fill_template(views_of(template@), input@).take(i as int) =~= fill_template(
        views_of(template@),
        input@,
    ));
    out
}

/// The text of a module's `Capture` step: the command's output, or its error text.
pub fn captured(title: String, out: Result<String, String>) -> (a: Action)
    ensures
        a@ == (ActionView::Show {
            title: title@,
            text: match out {
                Ok(o) => o@,
                Err(e) => e@,
            },
        }),
{
    let text = match out {
        Ok(o) => o,
        Err(e) => e,
    };
    Action::Show { title, text }
}

// ---------------------------------------------------------------------------
// Texts of the frame
// ---------------------------------------------------------------------------

/// The shortcuts every module shares, at the end of the bottom bar.
pub open spec fn global_hints() -> Seq<char> {
    "y copiar · Tab/A/D módulo · 1-9 saltar · R refrescar · Q salir"@
}

/// The bottom bar: the notice when there is one, else the module's own
/// shortcuts and the global ones.
pub open spec fn footer_spec(notice: Option<Seq<char>>, hints: Seq<char>) -> Seq<char> {
    match notice {
        Some(n) => " "@ + n,
        None => " "@ + hints + (if hints.len() == 0 {
            Seq::empty()
        } else {
            " · "@
        }) + global_hints(),
    }
}

pub fn footer_text(notice: &Option<String>, hints: &str) -> (r: String)
    ensures
        r@ == footer_spec(opt_view(*notice), hints@),
{
    match notice {
        Some(n) => {
            concat(" ", n.as_str())
        },
        None => {
            let a = concat(" ", hints);
            let b = if hints.is_empty() {
                a
            } else {
                concat(a.as_str(), " · ")
            };
            concat(b.as_str(), "y copiar · Tab/A/D módulo · 1-9 saltar · R refrescar · Q salir")
        },
    }
}

/// The label of tab `i`: its key (1-9, then 0) and the module's title.
pub fn tab_label(i: usize, title: &str) -> (r: String)
    requires
        i < usize::MAX,
    ensures
        r@ == decimal(((i + 1) % 10) as nat) + " "@ + title@,
{
    let k = ((i + 1) % 10) as u64;
    let d = decimal_string(k);
    let a = concat(d.as_str(), " ");
    concat(a.as_str(), title)
}

/// The program's name in the header, marked while a refresh is pending.
pub fn brand(pending_refresh: bool) -> (r: &'static str)
    ensures
        r@ == (if pending_refresh {
            "DevTerminal ⟳"@
        } else {
            "DevTerminal"@
        }),
{
    if pending_refresh {
        "DevTerminal ⟳"
    } else {
        "DevTerminal"
    }
}

/// The title of an output pane.
pub fn pane_title(title: &str) -> (r: String)
    ensures
        r@ == title@ + " — w/s scroll · Esc cierra"@,
{
    concat(title, " — w/s scroll · Esc cierra")
}

/// The body of a confirmation dialog.
pub fn confirm_text(msg: &str) -> (r: String)
    ensures
        r@ == msg@ + "\n\nEnter/y confirmar · Esc/n cancelar"@,
{
    concat(msg, "\n\nEnter/y confirmar · Esc/n cancelar")
}

/// The body of a prompt, with the text typed so far.
pub fn prompt_text(label: &str, input: &str) -> (r: String)
    ensures
        r@ == label@ + "\n\n> "@ + input@ + "▏\n\nEnter aceptar · Esc cancelar"@,
{
    let a = concat(label, "\n\n> ");
    let b = concat(a.as_str(), input);
    concat(b.as_str(), "▏\n\nEnter aceptar · Esc cancelar")
}

// ---------------------------------------------------------------------------
// The state
// ---------------------------------------------------------------------------

/// How often the active module refreshes itself, in milliseconds.
pub const AUTO_REFRESH_MS: u64 = 3000;

/// A command run by `Effect::Exec` that took longer than this, in
/// nanoseconds (10 s), ends with a desktop notification.
pub const NOTIFY_AFTER_NS: u64 = 10_000_000_000;

/// Whether a command that ran for `elapsed_ns` nanoseconds warrants a
/// desktop notification (the user may have switched windows).
pub fn notify_due(elapsed_ns: u64) -> (r: bool)
    ensures
        r == (elapsed_ns > NOTIFY_AFTER_NS),
{
    elapsed_ns > NOTIFY_AFTER_NS
}

/// The main loop's state over `n` modules.
pub struct Session {
    active: usize,
    n: usize,
    overlay: Option<Overlay>,
    pending_refresh: bool,
    notice: Option<String>,
}

impl Session {
    pub closed spec fn active_index(&self) -> usize {
        self.active
    }

    pub closed spec fn module_count(&self) -> usize {
        self.n
    }

    pub closed spec fn overlay_view(&self) -> Option<OverlayView> {
        overlay_opt(self.overlay)
    }

    pub closed spec fn refresh_pending(&self) -> bool {
        self.pending_refresh
    }

    pub closed spec fn notice_view(&self) -> Option<Seq<char>> {
        opt_view(self.notice)
    }

    pub closed spec fn wf(&self) -> bool {
        self.n > 0 && self.active < self.n
    }

    /// The first module active, no overlay, and a refresh due at once.
    pub fn new(n: usize) -> (s: Self)
        requires
            n > 0,
        ensures
            s.wf(),
            s.module_count() == n,
            s.active_index() == 0,
            s.overlay_view() is None,
            s.refresh_pending(),
            s.notice_view() is None,
    {
        Session { active: 0, n, overlay: None, pending_refresh: true, notice: None }
    }

    pub fn active(&self) -> (r: usize)
        ensures
            r == self.active_index(),
    {
        self.active
    }

    pub fn overlay(&self) -> (r: &Option<Overlay>)
        ensures
            overlay_opt(*r) == self.overlay_view(),
    {
        &self.overlay
    }

    pub fn pending_refresh(&self) -> (r: bool)
        ensures
            r == self.refresh_pending(),
    {
        self.pending_refresh
    }

    pub fn notice(&self) -> (r: &Option<String>)
        ensures
            opt_view(*r) == self.notice_view(),
    {
        &self.notice
    }

    /// Whether the active module refreshes on its own, `elapsed_ms` after its
    /// last refresh: every 3 s, and never under an overlay.
    pub fn auto_refresh_due(&self, elapsed_ms: u64) -> (r: bool)
        ensures
            r == (self.overlay_view() is None && elapsed_ms >= AUTO_REFRESH_MS),
    {
        self.overlay.is_none() && elapsed_ms >= AUTO_REFRESH_MS
    }

    /// Whether a key goes to the open overlay rather than to the active
    /// module: while an overlay is open, every key is the overlay's.
    pub fn routes_to_overlay(&self) -> (r: bool)
        ensures
            r == self.overlay_view() is Some,
    {
        self.overlay.is_some()
    }

    /// The deferred refresh: whether one is due; it is no longer due after.
    pub fn take_pending_refresh(&mut self) -> (r: bool)
        requires
            old(self).wf(),
        ensures
            final(self).wf(),
            r == old(self).refresh_pending(),
            !final(self).refresh_pending(),
            final(self).active_index() == old(self).active_index(),
            final(self).module_count() == old(self).module_count(),
            final(self).overlay_view() == old(self).overlay_view(),
            final(self).notice_view() == old(self).notice_view(),
    {
        let r = self.pending_refresh;
        self.pending_refresh = false;
        r
    }

    /// A key press clears the notice.
    pub fn clear_notice(&mut self)
        requires
            old(self).wf(),
        ensures
            final(self).wf(),
            final(self).notice_view() is None,
            final(self).active_index() == old(self).active_index(),
            final(self).module_count() == old(self).module_count(),
            final(self).overlay_view() == old(self).overlay_view(),
            final(self).refresh_pending() == old(self).refresh_pending(),
    {
        self.notice = None;
    }

    /// A key the active module did not take: quit, switch module, refresh or copy.
    pub fn global_key(&mut self, key: Key) -> (e: Effect)
        requires
            old(self).wf(),
        ensures
            final(self).wf(),
            final(self).module_count() == old(self).module_count(),
            final(self).overlay_view() == old(self).overlay_view(),
            final(self).notice_view() == old(self).notice_view(),
            is_quit(key) ==> e@ == EffectView::Quit && final(self).active_index() == old(
                self,
            ).active_index() && final(self).refresh_pending() == old(self).refresh_pending(),
            !is_quit(key) ==> {
                let a = next_active(old(self).active_index(), old(self).module_count(), key);
                &&& final(self).active_index() == a
                &&& final(self).refresh_pending() == (old(self).refresh_pending() || is_refresh(
                    key,
                ) || a != old(self).active_index())
                &&& e@ == if is_copy(key) {
                    EffectView::Copy
                } else {
                    EffectView::Nothing
                }
            },
    {
        if key == Key::Char('q') || key == Key::Char('Q') {
            return Effect::Quit;
        }
        let n = self.n;
        let prev = self.active;
        let mut effect = Effect::Nothing;
        if key == Key::Tab || key == Key::Char('d') || key == Key::Char('D') {
            self.active = (self.active + 1) % n;
        } else if key == Key::BackTab || key == Key::Char('a') || key == Key::Char('A') {
            self.active = ((self.active as u128 + n as u128 - 1) % (n as u128)) as usize;
        } else if key == Key::Char('r') || key == Key::Char('R') {
            self.pending_refresh = true;
        } else if key == Key::Char('y') || key == Key::Char('Y') {
            effect = Effect::Copy;
        } else {
            match key {
                Key::Char(c) => {
                    if '1' <= c && c <= '9' {
                        let i = (c as u32 - '1' as u32) as usize;
                        if i < n {
                            self.active = i;
                        }
                    }
                },
                _ => {},
            }
        }
        if self.active != prev {
            self.pending_refresh = true;
        }
        effect
    }

    /// What the loop does with a module's answer to `key`.
    pub fn on_action(&mut self, action: Action, key: Key) -> (e: Effect)
        requires
            old(self).wf(),
            old(self).overlay_view() is None,
        ensures
            final(self).wf(),
            final(self).module_count() == old(self).module_count(),
            final(self).notice_view() == old(self).notice_view(),
            match action@ {
                ActionView::Ignored => {
                    &&& final(self).overlay_view() is None
                    &&& if is_quit(key) {
                        &&& e@ == EffectView::Quit
                        &&& final(self).active_index() == old(self).active_index()
                        &&& final(self).refresh_pending() == old(self).refresh_pending()
                    } else {
                        let a = next_active(old(self).active_index(), old(self).module_count(), key);
                        &&& final(self).active_index() == a
                        &&& final(self).refresh_pending() == (old(self).refresh_pending()
                            || is_refresh(key) || a != old(self).active_index())
                        &&& e@ == if is_copy(key) {
                            EffectView::Copy
                        } else {
                            EffectView::Nothing
                        }
                    }
                },
                ActionView::Handled => unchanged_but(*old(self), *final(self)) && e@
                    == EffectView::Nothing && final(self).overlay_view() is None,
                ActionView::Refresh => {
                    &&& final(self).active_index() == old(self).active_index()
                    &&& final(self).refresh_pending()
                    &&& final(self).overlay_view() is None
                    &&& e@ == EffectView::Nothing
                },
                ActionView::Run { cmd, confirm, show } => unchanged_but(*old(self), *final(self))
                    && match confirm {
                    Some(msg) => final(self).overlay_view() == Some(
                        OverlayView::Confirm { msg, cmd, show },
                    ) && e@ == EffectView::Nothing,
                    None => final(self).overlay_view() is None && e@ == (EffectView::Exec {
                        cmd,
                        show,
                    }),
                },
                ActionView::Interactive(cmd) => unchanged_but(*old(self), *final(self))
                    && final(self).overlay_view() is None && e@ == EffectView::Interactive(cmd),
                ActionView::Prompt { label, template, interactive, show } => unchanged_but(
                    *old(self),
                    *final(self),
                ) && e@ == EffectView::Nothing && final(self).overlay_view() == Some(
                    OverlayView::Prompt { label, template, interactive, show, input: Seq::empty() },
                ),
                ActionView::Show { title, text } => unchanged_but(*old(self), *final(self)) && e@
                    == EffectView::Nothing && final(self).overlay_view() == Some(
                    OverlayView::Pane { title, text, scroll: 0 },
                ),
            },
    {
        match action {
            Action::Ignored => self.global_key(key),
            Action::Handled => Effect::Nothing,
            Action::Refresh => {
                self.pending_refresh = true;
                Effect::Nothing
            },
            Action::Run { cmd, confirm, show } => match confirm {
                Some(msg) => {
                    self.overlay = Some(Overlay::Confirm { msg, cmd, show });
                    Effect::Nothing
                },
                None => Effect::Exec { cmd, show },
            },
            Action::Interactive(cmd) => Effect::Interactive(cmd),
            Action::Prompt { label, template, interactive, show } => {
                self.overlay = Some(
                    Overlay::Prompt { label, template, interactive, show, input: String::new() },
                );
                Effect::Nothing
            },
            Action::Show { title, text } => {
                self.overlay = Some(Overlay::Pane { title, text, scroll: 0 });
                Effect::Nothing
            },
        }
    }

    /// A key while an overlay is open: scroll or close the pane, confirm or
    /// cancel, edit or submit the prompt.
    pub fn overlay_key(&mut self, key: Key) -> (e: Effect)
        requires
            old(self).wf(),
            overlay_key_ok(old(self).overlay_view(), key),
        ensures
            final(self).wf(),
            unchanged_but(*old(self), *final(self)),
            match old(self).overlay_view() {
                Some(ov) => (final(self).overlay_view(), e@) == overlay_step(ov, key),
                None => final(self).overlay_view() is None && e@ == EffectView::Nothing,
            },
    {
        let ov = match self.overlay.take() {
            Some(ov) => ov,
            None => {
                return Effect::Nothing;
            },
        };
        match ov {
            Overlay::Pane { title, text, scroll } => {
                let tc = chars_of(text.as_str());
                let ls = split_lines(&tc);
                let max = ls.len() as u16;
                assert(max == pane_max(text@));
                let s: u16 = if key == Key::Esc || key == Key::Char('q') || key == Key::Char('a')
                    || key == Key::Enter {
                    return Effect::Nothing;
                } else if key == Key::Char('w') || key == Key::Up {
                    scroll.saturating_sub(1)
                } else if key == Key::Char('s') || key == Key::Down {
                    if scroll + 1 < max {
                        scroll + 1
                    } else {
                        max
                    }
                } else if key == Key::PageUp {
                    scroll.saturating_sub(20)
                } else if key == Key::PageDown {
                    if scroll + 20 < max {
                        scroll + 20
                    } else {
                        max
                    }
                } else {
                    scroll
                };
                self.overlay = Some(Overlay::Pane { title, text, scroll: s });
                Effect::Nothing
            },
            Overlay::Confirm { msg, cmd, show } => {
                if key == Key::Enter || key == Key::Char('y') || key == Key::Char('Y') {
                    Effect::Exec { cmd, show }
                } else if key == Key::Esc || key == Key::Char('n') || key == Key::Char('N') {
                    Effect::Nothing
                } else {
                    self.overlay = Some(Overlay::Confirm { msg, cmd, show });
                    Effect::Nothing
                }
            },
            Overlay::Prompt { label, template, interactive, show, input } => {
                if key == Key::Esc {
                    Effect::Nothing
                } else if key == Key::Enter {
                    if input.as_str().is_empty() {
                        return Effect::Nothing;
                    }
                    let cmd = fill(&template, input.as_str());
                    if interactive {
                        Effect::Interactive(cmd)
                    } else {
                        Effect::Exec { cmd, show }
                    }
                } else if key == Key::Backspace {
                    let mut input = input;
                    let _ = crate::ui::pop_char(&mut input);
                    self.overlay = Some(Overlay::Prompt { label, template, interactive, show, input });
                    Effect::Nothing
                } else {
                    match key {
                        Key::Char(c) => {
                            let mut input = input;
                            crate::ui::push_char(&mut input, c);
                            self.overlay = Some(
                                Overlay::Prompt { label, template, interactive, show, input },
                            );
                        },
                        _ => {
                            self.overlay = Some(
                                Overlay::Prompt { label, template, interactive, show, input },
                            );
                        },
                    }
                    Effect::Nothing
                }
            },
        }
    }

    /// A command run by `Effect::Exec` has finished: its pane, if any, opens.
    pub fn exec_done(&mut self, cmd: &Vec<String>, show: bool, out: Result<String, String>)
        requires
            old(self).wf(),
        ensures
            final(self).wf(),
            unchanged_but(*old(self), *final(self)),
            final(self).overlay_view() == match exec_pane(
                views_of(cmd@),
                show,
                crate::modules::docker::result_view(out),
            ) {
                Some(p) => Some(p),
                None => old(self).overlay_view(),
            },
    {
        match out {
            Ok(o) => {
                if show {
                    let oc = chars_of(o.as_str());
                    let text = if trim_chars(&oc).len() == 0 {
                        lit("OK ✓")
                    } else {
                        o
                    };
                    self.overlay = Some(Overlay::Pane { title: join_owned(cmd, " "), text, scroll: 0 });
                }
            },
            Err(e) => {
                let j = join_owned(cmd, " ");
                self.overlay = Some(
                    Overlay::Pane { title: concat("Error · ", j.as_str()), text: e, scroll: 0 },
                );
            },
        }
    }

    /// A full-screen command could not be started.
    pub fn interactive_failed(&mut self, program: &str, err: &str)
        requires
            old(self).wf(),
        ensures
            final(self).wf(),
            unchanged_but(*old(self), *final(self)),
            final(self).overlay_view() == Some(
                OverlayView::Pane { title: "Error"@, text: program@ + ": "@ + err@, scroll: 0 },
            ),
    {
        let a = concat(program, ": ");
        self.overlay = Some(
            Overlay::Pane { title: lit("Error"), text: concat(a.as_str(), err), scroll: 0 },
        );
    }

    /// The outcome of copying `text` to the clipboard, as the notice.
    pub fn copied(&mut self, text: &str, result: Result<(), String>)
        requires
            old(self).wf(),
        ensures
            final(self).wf(),
            final(self).active_index() == old(self).active_index(),
            final(self).module_count() == old(self).module_count(),
            final(self).overlay_view() == old(self).overlay_view(),
            final(self).refresh_pending() == old(self).refresh_pending(),
            final(self).notice_view() == Some(
                match result {
                    Ok(()) => "Copiado: "@ + text@,
                    Err(e) => "Portapapeles: "@ + e@,
                },
            ),
    {
        self.notice = Some(
            match result {
                Ok(()) => concat("Copiado: ", text),
                Err(e) => concat("Portapapeles: ", e.as_str()),
            },
        );
    }
}

/// Everything but the overlay is the same in `a` and `b`.
pub open spec fn unchanged_but(a: Session, b: Session) -> bool {
    &&& b.active_index() == a.active_index()
    &&& b.module_count() == a.module_count()
    &&& b.refresh_pending() == a.refresh_pending()
    &&& b.notice_view() == a.notice_view()
}

// ---------------------------------------------------------------------------
// Laws
// ---------------------------------------------------------------------------

/// Moving to the next module and back to the previous one (Tab, then
/// BackTab) returns to the module one started from, and so does the reverse.
pub proof fn law_next_then_previous(active: usize, n: usize)
    requires
        0 < n,
        active < n,
    ensures
        next_active(next_active(active, n, Key::Tab), n, Key::BackTab) == active,
        next_active(next_active(active, n, Key::BackTab), n, Key::Tab) == active,
{
    let a = next_active(active, n, Key::Tab);
    let b = next_active(active, n, Key::BackTab);
    if active + 1 < n {
        vstd::arithmetic::div_mod::lemma_small_mod((active + 1) as nat, n as nat);
        assert(a == active + 1);
    } else {
        vstd::arithmetic::div_mod::lemma_mod_self_0(n as int);
        assert(a == 0);
    }
    if active == 0 {
        vstd::arithmetic::div_mod::lemma_small_mod((n - 1) as nat, n as nat);
        assert(b == n - 1);
    } else {
        assert(b == active - 1) by {
            assert((active + n - 1) % (n as int) == active - 1) by {
                vstd::arithmetic::div_mod::lemma_mod_add_multiples_vanish(active - 1, n as int);
                vstd::arithmetic::div_mod::lemma_small_mod((active - 1) as nat, n as nat);
            }
        }
    }
    assert(next_active(a, n, Key::BackTab) == active) by {
        if a == 0 {
            vstd::arithmetic::div_mod::lemma_small_mod((n - 1) as nat, n as nat);
        } else {
            vstd::arithmetic::div_mod::lemma_mod_add_multiples_vanish(a - 1, n as int);
            vstd::arithmetic::div_mod::lemma_small_mod((a - 1) as nat, n as nat);
        }
    }
    assert(next_active(b, n, Key::Tab) == active) by {
        if b + 1 < n {
            vstd::arithmetic::div_mod::lemma_small_mod((b + 1) as nat, n as nat);
        } else {
            vstd::arithmetic::div_mod::lemma_mod_self_0(n as int);
        }
    }
}

/// Keys 1 to 9 make that module active whenever it exists, from any module.
pub proof fn law_digit_selects_module(active: usize, n: usize, i: usize)
    requires
        active < n,
        i < n,
        i < 9,
    ensures
        next_active(active, n, Key::Char((('1' as int) + i) as char)) == i,
{
}

/// A pane never scrolls past its last line: from a scroll within the text,
/// every key leaves it within the text (or closes the pane).
pub proof fn law_pane_stays_within_text(scroll: u16, max: u16, key: Key)
    requires
        scroll <= max,
    ensures
        match pane_scroll(scroll, max, key) {
            Some(s) => s <= max,
            None => true,
        },
{
}

/// Cancelling a confirmation (Esc or n) closes it and runs nothing.
pub proof fn law_cancel_runs_nothing(msg: Seq<char>, cmd: Seq<Seq<char>>, show: bool, key: Key)
    requires
        key == Key::Esc || key == Key::Char('n') || key == Key::Char('N'),
    ensures
        overlay_step(OverlayView::Confirm { msg, cmd, show }, key) == (
            None::<OverlayView>,
            EffectView::Nothing,
        ),
{
}

/// In a prompt, typing a character and erasing it gives back the text typed before.
pub proof fn law_type_then_erase(
    label: Seq<char>,
    template: Seq<Seq<char>>,
    interactive: bool,
    show: bool,
    input: Seq<char>,
    c: char,
)
    requires
        Key::Char(c) != Key::Esc,
    ensures
        ({
            let p = OverlayView::Prompt { label, template, interactive, show, input };
            let typed = overlay_step(p, Key::Char(c)).0;
            typed is Some && overlay_step(typed.unwrap(), Key::Backspace).0 == Some(p)
        }),
{
    let p = OverlayView::Prompt { label, template, interactive, show, input };
    let q = OverlayView::Prompt { label, template, interactive, show, input: input.push(c) };
    assert(overlay_step(p, Key::Char(c)).0 == Some(q));
    assert(input.push(c).drop_last() =~= input);
}

/// Submitting a prompt whose template has no "{}" runs the template as it is.
pub proof fn law_fill_without_placeholder(template: Seq<Seq<char>>, input: Seq<char>)
    requires
        forall|a: int, k: int|
            0 <= a < template.len() ==> !#[trigger] crate::text::occurs_at(template[a], "{}"@, k),
    ensures
        fill_template(template, input) == template,
{
    assert forall|a: int| 0 <= a < template.len() implies #[trigger] fill_template(
        template,
        input,
    )[a] == template[a] by {
        crate::text::lemma_replace_absent(template[a], "{}"@, input, 0);
        assert(template[a].subrange(0, template[a].len() as int) =~= template[a]);
    }
    assert(fill_template(template, input) =~= template);
}


/// Esc closes whatever overlay is open, and runs nothing.
pub proof fn law_escape_closes_overlay(ov: OverlayView)
    ensures
        overlay_step(ov, Key::Esc) == (None::<OverlayView>, EffectView::Nothing),
{
}

/// A command that fails always opens a pane with its error, whether or not
/// its output was to be shown.
pub proof fn law_failure_always_shown(cmd: Seq<Seq<char>>, show: bool, e: Seq<char>)
    ensures
        exec_pane(cmd, show, Err(e)) matches Some(OverlayView::Pane { text, scroll, .. }) && text
            == e && scroll == 0,
{
}


/// The active module is always one of the modules: every state the session
/// goes through (it starts well formed and each method keeps it so) has its
/// active index below the number of modules.
pub proof fn law_active_within_modules(s: Session)
    requires
        s.wf(),
    ensures
        s.active_index() < s.module_count(),
{
}


/// A confirmation runs its command on Enter, y or Y, and on no other key:
/// until then it stays open (or is cancelled) and nothing runs.
pub proof fn law_confirmation_runs_only_on_yes(
    msg: Seq<char>,
    cmd: Seq<Seq<char>>,
    show: bool,
    key: Key,
)
    ensures
        overlay_step(OverlayView::Confirm { msg, cmd, show }, key).1 == (if key == Key::Enter || key
            == Key::Char('y') || key == Key::Char('Y') {
            EffectView::Exec { cmd, show }
        } else {
            EffectView::Nothing
        }),
{
}

} // verus!
