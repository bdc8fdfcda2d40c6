//! The modules and what each asks the main loop to do after a key press.
pub mod dashboard;
pub mod docker;
pub mod git;
pub mod github;
pub mod k8s;
pub mod logs;
pub mod packages;
pub mod procs;
pub mod servers;

use vstd::prelude::*;
use crate::text::views_of;

verus! {

/// What a module asks the main loop to do after a key press.
pub enum Action {
    /// The key is not the module's: try the global shortcuts.
    Ignored,
    /// Consumed, nothing to do.
    Handled,
    /// Consumed; refresh the module *after* drawing the frame.
    Refresh,
    /// Run a command capturing output. `confirm` opens a dialog first
    /// (destructive actions); `show` displays the output in a pane when done.
    Run { cmd: Vec<String>, confirm: Option<String>, show: bool },
    /// Suspend the interface and run full-screen (ssh, shells...).
    Interactive(Vec<String>),
    /// Ask the user for text; "{}" in the template is replaced with the input.
    Prompt { label: String, template: Vec<String>, interactive: bool, show: bool },
    /// Display text in a scrollable pane.
    Show { title: String, text: String },
}

/// An action, with its strings as character sequences.
pub enum ActionView {
    Ignored,
    Handled,
    Refresh,
    Run { cmd: Seq<Seq<char>>, confirm: Option<Seq<char>>, show: bool },
    Interactive(Seq<Seq<char>>),
    Prompt { label: Seq<char>, template: Seq<Seq<char>>, interactive: bool, show: bool },
    Show { title: Seq<char>, text: Seq<char> },
}

pub open spec fn opt_view(o: Option<String>) -> Option<Seq<char>> {
    match o {
        Some(x) => Some(x@),
        None => None,
    }
}

impl View for Action {
    type V = ActionView;

    open spec fn view(&self) -> ActionView {
        match self {
            Action::Ignored => ActionView::Ignored,
            Action::Handled => ActionView::Handled,
            Action::Refresh => ActionView::Refresh,
            Action::Run { cmd, confirm, show } => ActionView::Run {
                cmd: views_of(cmd@),
                confirm: opt_view(*confirm),
                show: *show,
            },
            Action::Interactive(cmd) => ActionView::Interactive(views_of(cmd@)),
            Action::Prompt { label, template, interactive, show } => ActionView::Prompt {
                label: label@,
                template: views_of(template@),
                interactive: *interactive,
                show: *show,
            },
            Action::Show { title, text } => ActionView::Show { title: title@, text: text@ },
        }
    }
}

/// What a module's key handler decides: an action, or a command whose output
/// (or error text) is to be shown in a pane titled `title`.
pub enum Step {
    Act(Action),
    Capture { title: String, cmd: Vec<String> },
}

pub enum StepView {
    Act(ActionView),
    Capture { title: Seq<char>, cmd: Seq<Seq<char>> },
}

impl View for Step {
    type V = StepView;

    open spec fn view(&self) -> StepView {
        match self {
            Step::Act(a) => StepView::Act(a@),
            Step::Capture { title, cmd } => StepView::Capture { title: title@, cmd: views_of(cmd@) },
        }
    }
}

/// A run without confirmation.
pub open spec fn run_v(cmd: Seq<Seq<char>>, show: bool) -> StepView {
    StepView::Act(ActionView::Run { cmd, confirm: None, show })
}

/// A run behind a confirmation dialog.
pub open spec fn confirm_v(cmd: Seq<Seq<char>>, msg: Seq<char>, show: bool) -> StepView {
    StepView::Act(ActionView::Run { cmd, confirm: Some(msg), show })
}

pub fn run(cmd: Vec<String>, show: bool) -> (s: Step)
    ensures
        s@ == run_v(views_of(cmd@), show),
{
    Step::Act(Action::Run { cmd, confirm: None, show })
}

pub fn run_confirm(cmd: Vec<String>, msg: String, show: bool) -> (s: Step)
    ensures
        s@ == confirm_v(views_of(cmd@), msg@, show),
{
    Step::Act(Action::Run { cmd, confirm: Some(msg), show })
}

pub fn act(a: Action) -> (s: Step)
    ensures
        s@ == StepView::Act(a@),
{
    Step::Act(a)
}

/// `head` followed by `args`, owned.
pub open spec fn with_head(head: Seq<char>, args: Seq<Seq<char>>) -> Seq<Seq<char>> {
    seq![head] + args
}

pub fn cmd_with_head(head: &str, args: &[&str]) -> (r: Vec<String>)
    ensures
        views_of(r@) == with_head(head@, crate::text::views_of_strs(args@)),
{
    let mut v: Vec<String> = Vec::new();
    v.push(crate::text::lit(head));
    let rest = crate::text::owned(args);
    let mut i: usize = 0;
    while i < rest.len()
        invariant
            i <= rest@.len(),
            views_of(rest@) == crate::text::views_of_strs(args@),
            views_of(v@) == seq![head@] + views_of(rest@).take(i as int),
        decreases rest@.len() - i,
    {
        let ghost before = v@;
        v.push(rest[i].clone());
        i = i + 1;
        assert(views_of(v@) =~= views_of(before).push(rest@[i - 1]@));
        assert(views_of(rest@).take(i as int) =~= views_of(rest@).take(i - 1).push(
            rest@[i - 1]@,
        ));
    }
    assert(views_of(rest@).take(rest@.len() as int) =~= views_of(rest@));
    v
}

pub fn cmd1(head: &str, a: &str) -> (r: Vec<String>)
    ensures
        views_of(r@) == with_head(head@, seq![a@]),
{
    let r = cmd_with_head(head, &[a]);
    assert(crate::text::views_of_strs(seq![a]) =~= seq![a@]);
    r
}

pub fn cmd2(head: &str, a: &str, b: &str) -> (r: Vec<String>)
    ensures
        views_of(r@) == with_head(head@, seq![a@, b@]),
{
    let r = cmd_with_head(head, &[a, b]);
    assert(crate::text::views_of_strs(seq![a, b]) =~= seq![a@, b@]);
    r
}

pub fn cmd3(head: &str, a: &str, b: &str, c: &str) -> (r: Vec<String>)
    ensures
        views_of(r@) == with_head(head@, seq![a@, b@, c@]),
{
    let r = cmd_with_head(head, &[a, b, c]);
    assert(crate::text::views_of_strs(seq![a, b, c]) =~= seq![a@, b@, c@]);
    r
}

pub fn cmd4(head: &str, a: &str, b: &str, c: &str, d: &str) -> (r: Vec<String>)
    ensures
        views_of(r@) == with_head(head@, seq![a@, b@, c@, d@]),
{
    let r = cmd_with_head(head, &[a, b, c, d]);
    assert(crate::text::views_of_strs(seq![a, b, c, d]) =~= seq![a@, b@, c@, d@]);
    r
}

pub fn cmd5(head: &str, a: &str, b: &str, c: &str, d: &str, e: &str) -> (r: Vec<String>)
    ensures
        views_of(r@) == with_head(head@, seq![a@, b@, c@, d@, e@]),
{
    let r = cmd_with_head(head, &[a, b, c, d, e]);
    assert(crate::text::views_of_strs(seq![a, b, c, d, e]) =~= seq![a@, b@, c@, d@, e@]);
    r
}

pub fn cmd6(head: &str, a: &str, b: &str, c: &str, d: &str, e: &str, f: &str) -> (r: Vec<String>)
    ensures
        views_of(r@) == with_head(head@, seq![a@, b@, c@, d@, e@, f@]),
{
    let r = cmd_with_head(head, &[a, b, c, d, e, f]);
    assert(crate::text::views_of_strs(seq![a, b, c, d, e, f]) =~= seq![a@, b@, c@, d@, e@, f@]);
    r
}

/// Owned copies of the given strings.
pub fn strs1(a: &str) -> (r: Vec<String>)
    ensures
        views_of(r@) == seq![a@],
{
    let r = crate::text::owned(&[a]);
    assert(crate::text::views_of_strs(seq![a]) =~= seq![a@]);
    r
}

pub fn strs2(a: &str, b: &str) -> (r: Vec<String>)
    ensures
        views_of(r@) == seq![a@, b@],
{
    let r = crate::text::owned(&[a, b]);
    assert(crate::text::views_of_strs(seq![a, b]) =~= seq![a@, b@]);
    r
}

pub fn strs3(a: &str, b: &str, c: &str) -> (r: Vec<String>)
    ensures
        views_of(r@) == seq![a@, b@, c@],
{
    let r = crate::text::owned(&[a, b, c]);
    assert(crate::text::views_of_strs(seq![a, b, c]) =~= seq![a@, b@, c@]);
    r
}

pub fn strs4(a: &str, b: &str, c: &str, d: &str) -> (r: Vec<String>)
    ensures
        views_of(r@) == seq![a@, b@, c@, d@],
{
    let r = crate::text::owned(&[a, b, c, d]);
    assert(crate::text::views_of_strs(seq![a, b, c, d]) =~= seq![a@, b@, c@, d@]);
    r
}

/// `w` appended to `v`.
pub fn extend(v: &mut Vec<String>, w: Vec<String>)
    ensures
        views_of(final(v)@) == views_of(old(v)@) + views_of(w@),
{
    let ghost start = views_of(v@);
    let mut i: usize = 0;
    while i < w.len()
        invariant
            i <= w@.len(),
            views_of(v@) == start + views_of(w@).take(i as int),
        decreases w@.len() - i,
    {
        let ghost before = v@;
        v.push(w[i].clone());
        i = i + 1;
        assert(views_of(v@) =~= views_of(before).push(w@[i - 1]@));
        assert(views_of(w@).take(i as int) =~= views_of(w@).take(i - 1).push(w@[i - 1]@));
    }
    assert(views_of(w@).take(w@.len() as int) =~= views_of(w@));
}

} // verus!
