//! Processes: the busiest ones, with kill and priority.
use vstd::prelude::*;
use crate::modules::{act, confirm_v, opt_view, run_confirm, Action, ActionView, Step, StepView};
use crate::modules::docker::sel_id;
use crate::platform::{kill, kill_cmd, renice, renice_spec};
use crate::text::{concat, lit};
use crate::ui::{key_step, plain_rows, selected_row, Key, ListModel, ListView};

verus! {

/// At most this many processes are listed.
pub const MAX_ROWS: usize = 400;

/// What a key does on the process of id `pid`.
pub open spec fn procs_key(key: Key, pid: Seq<char>, win: bool) -> StepView {
    if key == Key::Char('k') {
        confirm_v(kill_cmd(pid, false, win), "Kill process "@ + pid + "?"@, false)
    } else if key == Key::Char('K') {
        confirm_v(kill_cmd(pid, true, win), "Force-kill process "@ + pid + "?"@, false)
    } else if key == Key::Char('n') {
        StepView::Act(
            ActionView::Prompt {
                label: renice_spec(pid, win).0,
                template: renice_spec(pid, win).1,
                interactive: false,
                show: true,
            },
        )
    } else {
        StepView::Act(ActionView::Ignored)
    }
}

/// The processes, busiest first (the program sorts and formats them).
pub struct Procs {
    list: ListView,
}

impl Procs {
    pub closed spec fn list_model(&self) -> ListModel {
        self.list@
    }

    pub closed spec fn wf(&self) -> bool {
        self.list.wf()
    }

    pub fn new() -> (r: Self)
        ensures
            r.wf(),
            crate::ui::fresh(r.list_model()),
    {
        Procs { list: ListView::new() }
    }

    pub fn list(&self) -> (r: &ListView)
        ensures
            r@ == self.list_model(),
    {
        &self.list
    }

    /// Shows the processes (text, pid) in the order given, the first 400 of them.
    pub fn set_rows(&mut self, rows: Vec<(String, String)>)
        requires
            old(self).wf(),
        ensures
            final(self).wf(),
            final(self).list_model().rows == plain_rows(
                rows@.take(if rows@.len() < MAX_ROWS { rows@.len() as int } else { MAX_ROWS as int }),
            ),
    {
        let mut kept: Vec<(String, String)> = Vec::new();
        let mut i: usize = 0;
        while i < rows.len() && i < MAX_ROWS
            invariant
                i <= rows@.len(),
                i <= MAX_ROWS,
                kept@.len() == i,
                forall|k: int| 0 <= k < i ==> #[trigger] kept@[k] == rows@[k],
            decreases rows@.len() - i,
        {
            let (t, id) = (rows[i].0.clone(), rows[i].1.clone());
            kept.push((t, id));
            i = i + 1;
        }
        let ghost n: int = if rows@.len() < MAX_ROWS { rows@.len() as int } else { MAX_ROWS as int };
        assert(kept@ =~= rows@.take(n));
        self.list.set_items(kept);
    }

    /// Handles a key: the list's own keys first, then kill (k), force-kill (K)
    /// and priority (n) of the selected process.
    pub fn on_key(&mut self, key: Key, win: bool) -> (r: Step)
        requires
            old(self).wf(),
        ensures
            final(self).wf(),
            final(self).list_model() == key_step(old(self).list_model(), key).0,
            r@ == if key_step(old(self).list_model(), key).1 {
                StepView::Act(ActionView::Handled)
            } else {
                match sel_id(old(self).list_model()) {
                    Some(pid) => procs_key(key, pid, win),
                    None => StepView::Act(ActionView::Ignored),
                }
            },
    {
        if self.list.key(key) {
            return act(Action::Handled);
        }
        let pid = match self.list.selected_id() {
            Some(p) => {
                if p.as_str().is_empty() {
                    return act(Action::Ignored);
                }
                p
            },
            None => {
                return act(Action::Ignored);
            },
        };
        if key == Key::Char('k') {
            let m = concat("Kill process ", pid.as_str());
            run_confirm(kill(pid.as_str(), false, win), concat(m.as_str(), "?"), false)
        } else if key == Key::Char('K') {
            let m = concat("Force-kill process ", pid.as_str());
            run_confirm(kill(pid.as_str(), true, win), concat(m.as_str(), "?"), false)
        } else if key == Key::Char('n') {
            let (label, template) = renice(pid.as_str(), win);
            act(Action::Prompt { label, template, interactive: false, show: true })
        } else {
            act(Action::Ignored)
        }
    }

    /// The module's own shortcuts for the bottom bar.
    pub fn footer(&self, win: bool) -> (r: String)
        ensures
            r@ == (if win {
                "k kill · K force · n priority"@
            } else {
                "k kill · K SIGKILL · n renice"@
            }),
    {
        if win {
            lit("k kill · K force · n priority")
        } else {
            lit("k kill · K SIGKILL · n renice")
        }
    }

    /// Text copied by the global `y` key.
    pub fn clip(&self) -> (r: Option<String>)
        ensures
            opt_view(r) == match selected_row(self.list_model()) {
                Some(row) => crate::ui::clip_of(row),
                None => None,
            },
    {
        self.list.clip()
    }
}


/// Killing a process, gently or by force, always asks first.
pub proof fn law_kill_confirms(key: Key, pid: Seq<char>, win: bool)
    requires
        key == Key::Char('k') || key == Key::Char('K'),
    ensures
        procs_key(key, pid, win) matches StepView::Act(ActionView::Run { confirm: Some(_), .. }),
{
}

} // verus!
