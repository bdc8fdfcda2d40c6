//! Git: status with stage/unstage, log, branches, and a repository picker
//! when the current directory is not inside a repository.
use vstd::prelude::*;
use crate::modules::{
    act, extend, run, strs1, strs2, strs3, strs4, Action, ActionView, Step, StepView, opt_view,
    run_v,
};
use crate::modules::docker::{result_view, shown_rows, rows_view, sel_id};
use crate::text::{
    append_str, chars_of, concat, find_seq, find_seq_from, lines, lit, slice_of, split_lines,
    strip_all_prefix, strip_all_prefixes, string_of, trim, trim_chars, utf8_len,
    utf8_len_at_least_4, utf8_len_of_prefix, views_of,
};
use crate::theme::{Color, Palette};
use crate::ui::{key_step, selected_row, Key, ListModel, ListView};

verus! {

/// Names of the views, in the order `v` cycles through them.
pub const VIEWS: [&'static str; 3] = ["Status", "Log", "Branches"];

/// Colour of a `git status --porcelain` line from its two status columns:
/// untracked grey, deleted red, staged green, modified (unstaged) yellow.
pub open spec fn status_color_spec(line: Seq<char>, p: Palette) -> Color {
    let x = if line.len() > 0 {
        line[0]
    } else {
        ' '
    };
    let y = if line.len() > 1 {
        line[1]
    } else {
        ' '
    };
    if x == '?' && y == '?' {
        Color::DarkGray
    } else if x == 'D' || y == 'D' {
        p.red
    } else if x != ' ' {
        p.green
    } else {
        p.yellow
    }
}

pub fn status_color(line: &str, p: &Palette) -> (c: Color)
    ensures
        c == status_color_spec(line@, *p),
{
    let l = chars_of(line);
    let x = if l.len() > 0 {
        l[0]
    } else {
        ' '
    };
    let y = if l.len() > 1 {
        l[1]
    } else {
        ' '
    };
    if x == '?' && y == '?' {
        Color::DarkGray
    } else if x == 'D' || y == 'D' {
        p.red
    } else if x != ' ' {
        p.green
    } else {
        p.yellow
    }
}

/// Number of characters that make up the first three bytes of `l`, or -1
/// when byte 3 falls inside a character.
pub open spec fn porcelain_cut(l: Seq<char>) -> int {
    if l.len() >= 1 && utf8_len(l.take(1)) == 3 {
        1
    } else if l.len() >= 2 && utf8_len(l.take(2)) == 3 {
        2
    } else if l.len() >= 3 && utf8_len(l.take(3)) == 3 {
        3
    } else {
        -1
    }
}

/// Lines that the porcelain parser accepts without panicking: shorter than
/// four bytes, or with a character boundary at byte 3.
pub open spec fn porcelain_ok(l: Seq<char>) -> bool {
    utf8_len(l) < 4 || porcelain_cut(l) > 0
}

/// The new name of a rename (`old -> new`), or `p` itself.
pub open spec fn rename_target(p: Seq<char>) -> Seq<char> {
    let k = find_seq_from(p, " -> "@, 0);
    if k < p.len() {
        p.skip(k + " -> "@.len())
    } else {
        p
    }
}

/// A `git status --porcelain` line → (staged, path): nothing when shorter
/// than four bytes; staged when the index column is neither blank nor `?`.
pub open spec fn porcelain(l: Seq<char>) -> Option<(bool, Seq<char>)> {
    if utf8_len(l) < 4 {
        None
    } else {
        Some((l[0] != ' ' && l[0] != '?', rename_target(l.skip(porcelain_cut(l)))))
    }
}

/// The picker's label for repository `name` found inside workspace `ws`.
pub fn picker_label(ws: &str, name: &str) -> (r: String)
    ensures
        r@ == ws@ + "/"@ + name@,
{
    let a = concat(ws, "/");
    concat(a.as_str(), name)
}

/// Whether the porcelain parser takes `l` without panicking.
fn porcelain_line_ok(l: &Vec<char>) -> (b: bool)
    ensures
        b == porcelain_ok(l@),
{
    if !utf8_len_at_least_4(l) {
        return true;
    }
    (l.len() >= 1 && utf8_len_of_prefix(l, 1) == 3) || (l.len() >= 2 && utf8_len_of_prefix(l, 2)
        == 3) || (l.len() >= 3 && utf8_len_of_prefix(l, 3) == 3)
}

/// Whether every line of a `git status --porcelain` output can be parsed
/// (a line of four bytes or more needs a character boundary at byte 3).
pub fn porcelain_output_ok(out: &str) -> (b: bool)
    ensures
        b == all_porcelain_ok(out@),
{
    let oc = chars_of(out);
    let ls = split_lines(&oc);
    let mut i: usize = 0;
    while i < ls.len()
        invariant
            i <= ls@.len(),
            ls.deep_view() == lines(out@),
            forall|k: int| 0 <= k < i ==> porcelain_ok(#[trigger] lines(out@)[k]),
        decreases ls@.len() - i,
    {
        proof {
            crate::text::lemma_deep_chars(ls@[i as int]);
        }
        if !porcelain_line_ok(&ls[i]) {
            assert(ls.deep_view()[i as int] == ls@[i as int]@);
            assert(!porcelain_ok(lines(out@)[i as int]));
            return false;
        }
        i = i + 1;
    }
    true
}

/// Whether the first line of `out`, if any, can be parsed.
pub fn first_porcelain_ok(out: &str) -> (b: bool)
    ensures
        b == (lines(out@).len() > 0 ==> porcelain_ok(lines(out@)[0])),
{
    let oc = chars_of(out);
    let ls = split_lines(&oc);
    if ls.len() == 0 {
        return true;
    }
    proof {
        crate::text::lemma_deep_chars(ls@[0]);
    }
    porcelain_line_ok(&ls[0])
}

fn porcelain_fields(l: &Vec<char>) -> (r: Option<(bool, Vec<char>)>)
    requires
        porcelain_ok(l@),
    ensures
        match r {
            Some((st, path)) => porcelain(l@) == Some((st, path@)),
            None => porcelain(l@) is None,
        },
{
    if !utf8_len_at_least_4(l) {
        return None;
    }
    proof {
        crate::text::lemma_utf8_len_at_least_len(l@);
        if l@.len() == 0 {
            assert(l@ =~= Seq::<char>::empty());
        }
    }
    assert(l@.len() > 0) by {
        if l@.len() == 0 {
            assert(l@ =~= Seq::<char>::empty());
        }
    }
    let cut: usize = if l.len() >= 1 && utf8_len_of_prefix(l, 1) == 3 {
        1
    } else if l.len() >= 2 && utf8_len_of_prefix(l, 2) == 3 {
        2
    } else {
        3
    };
    assert(cut == porcelain_cut(l@));
    let x = l[0];
    let path = slice_of(l, cut, l.len());
    let arrow = chars_of(" -> ");
    let k = find_seq(&path, &arrow, 0);
    let target = if k < path.len() {
        proof {
            crate::text::lemma_find_seq_from(path@, arrow@, 0);
        }
        slice_of(&path, k + arrow.len(), path.len())
    } else {
        path
    };
    assert(target@ =~= rename_target(l@.skip(cut as int)));
    Some((x != ' ' && x != '?', target))
}

pub open spec fn pair_view(r: Option<(bool, String)>) -> Option<(bool, Seq<char>)> {
    match r {
        Some((b, s)) => Some((b, s@)),
        None => None,
    }
}

/// `git status --porcelain` line → (staged, path).
pub fn parse_porcelain(line: &str) -> (r: Option<(bool, String)>)
    requires
        porcelain_ok(line@),
    ensures
        pair_view(r) == porcelain(line@),
{
    let l = chars_of(line);
    match porcelain_fields(&l) {
        Some((st, path)) => Some((st, string_of(&path))),
        None => None,
    }
}

/// A git command on repository `repo` (empty when none).
pub open spec fn git_cmd(repo: Option<Seq<char>>, args: Seq<Seq<char>>) -> Seq<Seq<char>> {
    seq![
        "git"@,
        "-C"@,
        match repo {
            Some(r) => r,
            None => Seq::empty(),
        },
    ] + args
}

/// Rows of the Status view: one per porcelain line that parses, marked `●`
/// when staged, id = path, coloured by state.
pub open spec fn status_rows(ls: Seq<Seq<char>>, p: Palette) -> Seq<(Seq<char>, Seq<char>, Option<Color>)>
    decreases ls.len(),
{
    if ls.len() == 0 {
        Seq::empty()
    } else {
        let prev = status_rows(ls.drop_last(), p);
        let l = ls.last();
        match porcelain(l) {
            Some((staged, path)) => prev.push(
                (
                    (if staged {
                        "●"@
                    } else {
                        " "@
                    }) + " "@ + l,
                    path,
                    Some(status_color_spec(l, p)),
                ),
            ),
            None => prev,
        }
    }
}

/// Rows of the Log view: each line, without id.
pub open spec fn log_rows(ls: Seq<Seq<char>>) -> Seq<(Seq<char>, Seq<char>, Option<Color>)> {
    ls.map_values(|l: Seq<char>| (l, Seq::<char>::empty(), None::<Color>))
}

/// Rows of the Branches view: each line, id = branch name (without the `* `
/// of the current one).
pub open spec fn branch_rows(ls: Seq<Seq<char>>) -> Seq<(Seq<char>, Seq<char>, Option<Color>)> {
    ls.map_values(|l: Seq<char>| (l, trim(strip_all_prefix(l, "* "@)), None::<Color>))
}

/// Rows a view shows for the output of its command (or its error).
pub open spec fn git_rows(view: usize, out: Result<Seq<char>, Seq<char>>, p: Palette) -> Seq<
    (Seq<char>, Seq<char>, Option<Color>),
> {
    match out {
        Ok(o) => if view == 0 {
            let r = status_rows(lines(o), p);
            if r.len() == 0 {
                seq![("Working tree clean ✓"@, Seq::empty(), None)]
            } else {
                r
            }
        } else if view == 1 {
            log_rows(lines(o))
        } else {
            branch_rows(lines(o))
        },
        Err(e) => seq![("Error: "@ + e, Seq::empty(), None)],
    }
}

/// Every line of `o` is one the porcelain parser accepts.
pub open spec fn all_porcelain_ok(o: Seq<char>) -> bool {
    forall|k: int| 0 <= k < lines(o).len() ==> porcelain_ok(#[trigger] lines(o)[k])
}

/// What the Git module asks of the main loop after a key.
pub enum GitStep {
    Step(Step),
    /// The repository was just chosen: refresh now.
    RefreshNow,
    /// Show the repository picker.
    Picker,
    /// Stage or unstage `path`, depending on its state (the main loop asks
    /// git and hands the answer to `stage_cmd`).
    Probe { path: String },
    /// Open `file` in the user's editor.
    Edit { file: String },
}

pub enum GitStepView {
    Step(StepView),
    RefreshNow,
    Picker,
    Probe { path: Seq<char> },
    Edit { file: Seq<char> },
}

impl View for GitStep {
    type V = GitStepView;

    open spec fn view(&self) -> GitStepView {
        match self {
            GitStep::Step(s) => GitStepView::Step(s@),
            GitStep::RefreshNow => GitStepView::RefreshNow,
            GitStep::Picker => GitStepView::Picker,
            GitStep::Probe { path } => GitStepView::Probe { path: path@ },
            GitStep::Edit { file } => GitStepView::Edit { file: file@ },
        }
    }
}

/// What a key does with repository `repo` open in view `view`, once the list
/// has not taken it (`v` and `o` change the module's state, see `on_key`).
pub open spec fn git_key(
    repo: Seq<char>,
    view: usize,
    key: Key,
    id: Option<Seq<char>>,
    has_delta: bool,
    win: bool,
) -> GitStepView {
    let g = |args: Seq<Seq<char>>| git_cmd(Some(repo), args);
    if key == Key::Char('e') {
        GitStepView::Step(run_v(g(seq!["fetch"@, "--all"@]), true))
    } else if key == Key::Char('p') {
        GitStepView::Step(run_v(g(seq!["pull"@]), true))
    } else if key == Key::Char('P') {
        GitStepView::Step(run_v(g(seq!["push"@]), true))
    } else if key == Key::Char('c') {
        GitStepView::Step(
            StepView::Act(
                ActionView::Prompt {
                    label: "Commit message"@,
                    template: g(seq!["commit"@, "-m"@, "{}"@]),
                    interactive: false,
                    show: true,
                },
            ),
        )
    } else if key == Key::Char(' ') && view == 0 {
        match id {
            Some(path) => GitStepView::Probe { path },
            None => GitStepView::Step(StepView::Act(ActionView::Handled)),
        }
    } else if key == Key::Char('E') && view == 0 {
        match id {
            Some(path) => GitStepView::Edit { file: crate::config::join_path(repo, path, win) },
            None => GitStepView::Step(StepView::Act(ActionView::Handled)),
        }
    } else if key == Key::Enter {
        if view == 0 {
            match id {
                Some(path) => if has_delta {
                    GitStepView::Step(
                        StepView::Act(
                            ActionView::Interactive(
                                crate::platform::diff_delta_cmd(repo, path, win),
                            ),
                        ),
                    )
                } else {
                    GitStepView::Step(
                        StepView::Capture {
                            title: "diff "@ + path,
                            cmd: g(seq!["diff"@, "HEAD"@, "--"@, path]),
                        },
                    )
                },
                None => GitStepView::Step(StepView::Act(ActionView::Handled)),
            }
        } else if view == 2 {
            match id {
                Some(name) => GitStepView::Step(
                    run_v(g(seq!["checkout"@, strip_all_prefix(name, "remotes/origin/"@)]), true),
                ),
                None => GitStepView::Step(StepView::Act(ActionView::Handled)),
            }
        } else {
            GitStepView::Step(StepView::Act(ActionView::Handled))
        }
    } else {
        GitStepView::Step(StepView::Act(ActionView::Ignored))
    }
}

pub struct GitMod {
    repo: Option<String>,
    view: usize,
    list: ListView,
    workspaces: Vec<String>,
    branch: String,
}

impl GitMod {
    pub closed spec fn repo_view(&self) -> Option<Seq<char>> {
        opt_view(self.repo)
    }

    pub closed spec fn view_index(&self) -> usize {
        self.view
    }

    pub closed spec fn list_model(&self) -> ListModel {
        self.list@
    }

    pub closed spec fn branch_view(&self) -> Seq<char> {
        self.branch@
    }

    pub closed spec fn workspaces_view(&self) -> Seq<Seq<char>> {
        views_of(self.workspaces@)
    }

    pub closed spec fn wf(&self) -> bool {
        self.view < 3 && self.list.wf()
    }

    pub fn new(workspaces: Vec<String>) -> (r: Self)
        ensures
            r.wf(),
            r.repo_view() is None,
            r.view_index() == 0,
            r.workspaces_view() == views_of(workspaces@),
            r.branch_view().len() == 0,
            crate::ui::fresh(r.list_model()),
    {
        GitMod { repo: None, view: 0, list: ListView::new(), workspaces, branch: String::new() }
    }

    pub fn repo(&self) -> (r: &Option<String>)
        ensures
            opt_view(*r) == self.repo_view(),
    {
        &self.repo
    }

    pub fn workspaces(&self) -> (r: &Vec<String>)
        ensures
            views_of(r@) == self.workspaces_view(),
    {
        &self.workspaces
    }

    pub fn branch(&self) -> (r: &String)
        ensures
            r@ == self.branch_view(),
    {
        &self.branch
    }

    pub fn current_view(&self) -> (r: usize)
        ensures
            r == self.view_index(),
    {
        self.view
    }

    pub fn list(&self) -> (r: &ListView)
        ensures
            r@ == self.list_model(),
    {
        &self.list
    }

    /// Opens repository `repo` (the one detected around the current directory).
    pub fn set_repo(&mut self, repo: Option<String>)
        requires
            old(self).wf(),
        ensures
            final(self).wf(),
            final(self).repo_view() == opt_view(repo),
            final(self).view_index() == old(self).view_index(),
            final(self).list_model() == old(self).list_model(),
    {
        self.repo = repo;
    }

    /// A git command on the open repository.
    pub fn git(&self, args: Vec<String>) -> (r: Vec<String>)
        ensures
            views_of(r@) == git_cmd(self.repo_view(), views_of(args@)),
    {
        let repo = match &self.repo {
            Some(p) => p.clone(),
            None => String::new(),
        };
        let mut v = strs2("git", "-C");
        let ghost head = views_of(v@);
        v.push(repo);
        assert(views_of(v@) =~= head.push(repo@));
        extend(&mut v, args);
        assert(views_of(v@) =~= git_cmd(self.repo_view(), views_of(args@)));
        v
    }

    /// Shows the repositories found in the workspaces (label, path), or a
    /// hint when there is none.
    pub fn set_picker(&mut self, rows: Vec<(String, String)>)
        requires
            old(self).wf(),
        ensures
            final(self).wf(),
            final(self).repo_view() == old(self).repo_view(),
            final(self).view_index() == old(self).view_index(),
            rows@.len() > 0 ==> final(self).list_model().rows == crate::ui::plain_rows(rows@),
            rows@.len() == 0 ==> final(self).list_model().rows.len() == 1
                && final(self).list_model().rows[0].text@
                == "No Git repository in this directory (and no workspaces with repos in config.toml)"@
                && final(self).list_model().rows[0].id@.len() == 0
                && final(self).list_model().rows[0].look is Plain,
    {
        if rows.len() == 0 {
            self.list.set_items(
                vec![
                    (
                        lit(
                            "No Git repository in this directory (and no workspaces with repos in config.toml)",
                        ),
                        String::new(),
                    ),
                ],
            );
        } else {
            self.list.set_items(rows);
        }
    }

    /// The command that reads the current branch.
    pub fn branch_cmd(&self) -> (r: Vec<String>)
        ensures
            views_of(r@) == git_cmd(self.repo_view(), seq!["rev-parse"@, "--abbrev-ref"@, "HEAD"@]),
    {
        self.git(strs3("rev-parse", "--abbrev-ref", "HEAD"))
    }

    /// Records the branch from the output of `branch_cmd` (empty on error).
    pub fn set_branch(&mut self, out: Result<String, String>)
        requires
            old(self).wf(),
        ensures
            final(self).wf(),
            final(self).repo_view() == old(self).repo_view(),
            final(self).view_index() == old(self).view_index(),
            final(self).list_model() == old(self).list_model(),
            final(self).branch_view() == match out {
                Ok(o) => trim(o@),
                Err(_) => Seq::empty(),
            },
    {
        self.branch = match out {
            Ok(o) => {
                let c = chars_of(o.as_str());
                let t = trim_chars(&c);
                string_of(&t)
            },
            Err(_) => String::new(),
        };
    }

    /// The command whose output the current view shows.
    pub fn refresh_cmd(&self) -> (r: Vec<String>)
        ensures
            views_of(r@) == git_cmd(
                self.repo_view(),
                if self.view_index() == 0 {
                    seq!["status"@, "--porcelain"@]
                } else if self.view_index() == 1 {
                    seq!["log"@, "--oneline"@, "--graph"@, "--decorate"@, "-60"@]
                } else {
                    seq!["branch"@, "-a"@]
                },
            ),
    {
        if self.view == 0 {
            self.git(strs2("status", "--porcelain"))
        } else if self.view == 1 {
            let mut a = strs4("log", "--oneline", "--graph", "--decorate");
            let ghost h = views_of(a@);
            a.push(lit("-60"));
            assert(views_of(a@) =~= h.push("-60"@));
            self.git(a)
        } else {
            self.git(strs2("branch", "-a"))
        }
    }

    /// Shows the output of `refresh_cmd` (or its error).
    pub fn apply_output(&mut self, out: Result<String, String>, p: &Palette)
        requires
            old(self).wf(),
            old(self).view_index() == 0 ==> match out {
                Ok(o) => all_porcelain_ok(o@),
                Err(_) => true,
            },
        ensures
            final(self).wf(),
            final(self).repo_view() == old(self).repo_view(),
            final(self).view_index() == old(self).view_index(),
            shown_rows(final(self).list_model().rows) == git_rows(
                old(self).view_index(),
                result_view(out),
                *p,
            ),
    {
        let rows: Vec<(String, String, Option<Color>)> = match out {
            Ok(o) => {
                let oc = chars_of(o.as_str());
                let ls = split_lines(&oc);
                if self.view == 0 {
                    assert forall|k: int| 0 <= k < ls@.len() implies porcelain_ok(
                        #[trigger] ls@[k]@,
                    ) by {
                        crate::text::lemma_deep_chars(ls@[k]);
                        assert(lines(o@)[k] == ls.deep_view()[k]);
                    }
                    let r = status_rows_of(&ls, p);
                    if r.len() == 0 {
                        vec![(lit("Working tree clean ✓"), String::new(), None)]
                    } else {
                        r
                    }
                } else if self.view == 1 {
                    log_rows_of(&ls)
                } else {
                    branch_rows_of(&ls)
                }
            },
            Err(e) => vec![(concat("Error: ", e.as_str()), String::new(), None)],
        };
        let ghost expect = git_rows(self.view, result_view(out), *p);
        assert(rows_view(rows@) =~= expect);
        self.list.set_items_styled(rows);
        assert(shown_rows(self.list@.rows) =~= expect);
    }

    /// Handles a key: the list's keys, then the repository picker (no
    /// repository open) or the Git actions.
    pub fn on_key(&mut self, key: Key, has_delta: bool, win: bool) -> (r: GitStep)
        requires
            old(self).wf(),
        ensures
            final(self).wf(),
            final(self).list_model() == key_step(old(self).list_model(), key).0,
            key_step(old(self).list_model(), key).1 ==> r@ == GitStepView::Step(
                StepView::Act(ActionView::Handled),
            ) && final(self).view_index() == old(self).view_index() && final(self).repo_view()
                == old(self).repo_view(),
            !key_step(old(self).list_model(), key).1 && old(self).repo_view() is None ==> {
                &&& final(self).view_index() == old(self).view_index()
                &&& if key == Key::Enter {
                    match sel_id(old(self).list_model()) {
                        Some(id) => r@ == GitStepView::RefreshNow && final(self).repo_view()
                            == Some(id),
                        None => r@ == GitStepView::Step(StepView::Act(ActionView::Handled))
                            && final(self).repo_view() is None,
                    }
                } else {
                    r@ == GitStepView::Step(StepView::Act(ActionView::Ignored))
                        && final(self).repo_view() is None
                }
            },
            !key_step(old(self).list_model(), key).1 && old(self).repo_view() is Some ==> {
                if key == Key::Char('v') {
                    &&& r@ == GitStepView::Step(StepView::Act(ActionView::Refresh))
                    &&& final(self).view_index() == (old(self).view_index() + 1) % 3
                    &&& final(self).repo_view() == old(self).repo_view()
                } else if key == Key::Char('o') {
                    &&& r@ == GitStepView::Picker
                    &&& final(self).repo_view() is None
                    &&& final(self).view_index() == old(self).view_index()
                } else {
                    &&& r@ == git_key(
                        old(self).repo_view().unwrap(),
                        old(self).view_index(),
                        key,
                        sel_id(old(self).list_model()),
                        has_delta,
                        win,
                    )
                    &&& final(self).view_index() == old(self).view_index()
                    &&& final(self).repo_view() == old(self).repo_view()
                }
            },
    {
        if self.list.key(key) {
            return GitStep::Step(act(Action::Handled));
        }
        let sid = self.list.selected_id();
        let id = match sid {
            Some(i) => if i.as_str().is_empty() {
                None
            } else {
                Some(i)
            },
            None => None,
        };
        assert(opt_view(id) == sel_id(old(self).list_model()));
        if self.repo.is_none() {
            if key == Key::Enter {
                match id {
                    Some(i) => {
                        self.repo = Some(i);
                        return GitStep::RefreshNow;
                    },
                    None => {
                        return GitStep::Step(act(Action::Handled));
                    },
                }
            }
            return GitStep::Step(act(Action::Ignored));
        }
        if key == Key::Char('v') {
            self.view = (self.view + 1) % 3;
            return GitStep::Step(act(Action::Refresh));
        }
        if key == Key::Char('o') {
            self.repo = None;
            return GitStep::Picker;
        }
        let repo = match &self.repo {
            Some(r) => r.clone(),
            None => String::new(),
        };
        assert(Some(repo@) == self.repo_view());
        if key == Key::Char('e') {
            GitStep::Step(run(self.git(strs2("fetch", "--all")), true))
        } else if key == Key::Char('p') {
            GitStep::Step(run(self.git(strs1("pull")), true))
        } else if key == Key::Char('P') {
            GitStep::Step(run(self.git(strs1("push")), true))
        } else if key == Key::Char('c') {
            GitStep::Step(
                act(
                    Action::Prompt {
                        label: lit("Commit message"),
                        template: self.git(strs3("commit", "-m", "{}")),
                        interactive: false,
                        show: true,
                    },
                ),
            )
        } else if key == Key::Char(' ') && self.view == 0 {
            match id {
                Some(path) => GitStep::Probe { path },
                None => GitStep::Step(act(Action::Handled)),
            }
        } else if key == Key::Char('E') && self.view == 0 {
            match id {
                Some(path) => GitStep::Edit {
                    file: crate::config::join(repo.as_str(), path.as_str(), win),
                },
                None => GitStep::Step(act(Action::Handled)),
            }
        } else if key == Key::Enter {
            if self.view == 0 {
                match id {
                    Some(path) => if has_delta {
                        GitStep::Step(
                            act(
                                Action::Interactive(
                                    crate::platform::diff_delta(
                                        repo.as_str(),
                                        path.as_str(),
                                        win,
                                    ),
                                ),
                            ),
                        )
                    } else {
                        GitStep::Step(
                            Step::Capture {
                                title: concat("diff ", path.as_str()),
                                cmd: self.git(strs4("diff", "HEAD", "--", path.as_str())),
                            },
                        )
                    },
                    None => GitStep::Step(act(Action::Handled)),
                }
            } else if self.view == 2 {
                match id {
                    Some(name) => {
                        let nc = chars_of(name.as_str());
                        let short = strip_all_prefixes(&nc, "remotes/origin/");
                        let s = string_of(&short);
                        GitStep::Step(run(self.git(strs2("checkout", s.as_str())), true))
                    },
                    None => GitStep::Step(act(Action::Handled)),
                }
            } else {
                GitStep::Step(act(Action::Handled))
            }
        } else {
            GitStep::Step(act(Action::Ignored))
        }
    }

    /// Stage or unstage `path` from the answer of `git status --porcelain --
    /// path`: restore --staged when its first line says staged, else add.
    pub fn stage_cmd(&self, path: &str, probe: Result<String, String>) -> (r: Step)
        requires
            match probe {
                Ok(o) => lines(o@).len() > 0 ==> porcelain_ok(lines(o@)[0]),
                Err(_) => true,
            },
        ensures
            r@ == run_v(
                git_cmd(
                    self.repo_view(),
                    if match probe {
                        Ok(o) => lines(o@).len() > 0 && porcelain(lines(o@)[0]) matches Some(
                            (true, _),
                        ),
                        Err(_) => false,
                    } {
                        seq!["restore"@, "--staged"@, "--"@, path@]
                    } else {
                        seq!["add"@, "--"@, path@]
                    },
                ),
                false,
            ),
    {
        let staged = match probe {
            Ok(o) => {
                let oc = chars_of(o.as_str());
                let ls = split_lines(&oc);
                if ls.len() > 0 {
                    proof {
                        crate::text::lemma_deep_chars(ls@[0]);
                    }
                    match porcelain_fields(&ls[0]) {
                        Some((s, _)) => s,
                        None => false,
                    }
                } else {
                    false
                }
            },
            Err(_) => false,
        };
        if staged {
            run(self.git(strs4("restore", "--staged", "--", path)), false)
        } else {
            run(self.git(strs3("add", "--", path)), false)
        }
    }

    /// The module's own shortcuts for the bottom bar.
    pub fn footer(&self) -> (r: String)
        ensures
            r@ == (if self.repo_view() is None {
                "Enter open repo"@
            } else {
                "v view · Space stage · Enter diff/checkout · E edit · c commit · p pull · P push · e fetch · o other repo"@
            }),
    {
        if self.repo.is_none() {
            lit("Enter open repo")
        } else {
            lit(
                "v view · Space stage · Enter diff/checkout · E edit · c commit · p pull · P push · e fetch · o other repo",
            )
        }
    }

    /// Text copied by the global `y` key.
    pub fn clip(&self) -> (r: Option<String>)
        ensures
            opt_view(r) == match selected_row(self.list_model()) {
                Some(row) => crate::ui::clip_of(row),
                None => None,
            },
    {
        self.list.clip()
    }
}

fn status_rows_of(ls: &Vec<Vec<char>>, p: &Palette) -> (r: Vec<(String, String, Option<Color>)>)
    requires
        forall|k: int| 0 <= k < ls@.len() ==> porcelain_ok(#[trigger] ls@[k]@),
    ensures
        rows_view(r@) == status_rows(ls.deep_view(), *p),
{
    let mut acc: Vec<(String, String, Option<Color>)> = Vec::new();
    let mut i: usize = 0;
    while i < ls.len()
        invariant
            i <= ls@.len(),
            forall|k: int| 0 <= k < ls@.len() ==> porcelain_ok(#[trigger] ls@[k]@),
            rows_view(acc@) == status_rows(ls.deep_view().take(i as int), *p),
        decreases ls@.len() - i,
    {
        proof {
            crate::text::lemma_deep_chars(ls@[i as int]);
            assert(ls.deep_view().take(i + 1).drop_last() =~= ls.deep_view().take(i as int));
        }
        let ghost before = acc@;
        match porcelain_fields(&ls[i]) {
            Some((staged, path)) => {
                let mut text = if staged {
                    chars_of("●")
                } else {
                    chars_of(" ")
                };
                append_str(&mut text, " ");
                crate::text::append(&mut text, &ls[i]);
                let line = string_of(&ls[i]);
                let color = status_color(line.as_str(), p);
                acc.push((string_of(&text), string_of(&path), Some(color)));
                assert(rows_view(acc@) =~= rows_view(before).push(
                    (text@, path@, Some(color)),
                ));
            },
            None => {},
        }
        i = i + 1;
    }
    assert(ls.deep_view().take(ls@.len() as int) =~= ls.deep_view());
    acc
}

fn log_rows_of(ls: &Vec<Vec<char>>) -> (r: Vec<(String, String, Option<Color>)>)
    ensures
        rows_view(r@) == log_rows(ls.deep_view()),
{
    let mut acc: Vec<(String, String, Option<Color>)> = Vec::new();
    let mut i: usize = 0;
    while i < ls.len()
        invariant
            i <= ls@.len(),
            rows_view(acc@) == log_rows(ls.deep_view().take(i as int)),
        decreases ls@.len() - i,
    {
        proof {
            crate::text::lemma_deep_chars(ls@[i as int]);
        }
        let ghost before = acc@;
        let t = string_of(&ls[i]);
        acc.push((t, String::new(), None));
        assert(rows_view(acc@) =~= rows_view(before).push((t@, Seq::<char>::empty(), None)));
        assert(ls.deep_view().take(i + 1) =~= ls.deep_view().take(i as int).push(ls@[i as int]@));
        assert(log_rows(ls.deep_view().take(i + 1)) =~= log_rows(ls.deep_view().take(i as int)).push(
            (ls@[i as int]@, Seq::<char>::empty(), None),
        ));
        i = i + 1;
    }
    assert(ls.deep_view().take(ls@.len() as int) =~= ls.deep_view());
    acc
}

fn branch_rows_of(ls: &Vec<Vec<char>>) -> (r: Vec<(String, String, Option<Color>)>)
    ensures
        rows_view(r@) == branch_rows(ls.deep_view()),
{
    let mut acc: Vec<(String, String, Option<Color>)> = Vec::new();
    let mut i: usize = 0;
    while i < ls.len()
        invariant
            i <= ls@.len(),
            rows_view(acc@) == branch_rows(ls.deep_view().take(i as int)),
        decreases ls@.len() - i,
    {
        proof {
            crate::text::lemma_deep_chars(ls@[i as int]);
        }
        let ghost before = acc@;
        let s = strip_all_prefixes(&ls[i], "* ");
        let name = trim_chars(&s);
        let t = string_of(&ls[i]);
        let n = string_of(&name);
        acc.push((t, n, None));
        assert(rows_view(acc@) =~= rows_view(before).push((t@, n@, None)));
        assert(ls.deep_view().take(i + 1) =~= ls.deep_view().take(i as int).push(ls@[i as int]@));
        assert(branch_rows(ls.deep_view().take(i + 1)) =~= branch_rows(
            ls.deep_view().take(i as int),
        ).push((ls@[i as int]@, trim(strip_all_prefix(ls@[i as int]@, "* "@)), None)));
        i = i + 1;
    }
    assert(ls.deep_view().take(ls@.len() as int) =~= ls.deep_view());
    acc
}


/// Whether `c` is ASCII (one byte in UTF-8).
pub open spec fn is_ascii_char(c: char) -> bool {
    (c as u32) < 0x80
}

/// Lines that start with two ASCII status columns and a space are cut after
/// those three bytes, and can be parsed.
proof fn lemma_status_prefix(x: char, y: char, rest: Seq<char>)
    requires
        is_ascii_char(x),
        is_ascii_char(y),
        rest.len() > 0,
    ensures
        ({
            let l = seq![x, y, ' '] + rest;
            &&& utf8_len(l) >= 4
            &&& porcelain_cut(l) == 3
            &&& porcelain_ok(l)
            &&& l.skip(3) == rest
            &&& l[0] == x
        }),
{
    let l = seq![x, y, ' '] + rest;
    crate::text::lemma_utf8_len_at_least_len(l);
    assert(l.take(1).drop_last() =~= Seq::<char>::empty());
    assert(l.take(2).drop_last() =~= l.take(1));
    assert(l.take(3).drop_last() =~= l.take(2));
    assert(utf8_len(Seq::<char>::empty()) == 0);
    assert(utf8_len(l.take(1)) == 1);
    assert(utf8_len(l.take(2)) == 2);
    assert(utf8_len(l.take(3)) == 3);
    assert(l.skip(3) =~= rest);
}

/// A porcelain line "XY path", with ASCII status columns and a path without
/// " -> ", gives whether the change is staged (X neither blank nor `?`) and
/// the path.
pub proof fn law_porcelain_path(x: char, y: char, p: Seq<char>)
    requires
        is_ascii_char(x),
        is_ascii_char(y),
        p.len() > 0,
        !crate::text::contains_seq(p, " -> "@),
    ensures
        porcelain_ok(seq![x, y, ' '] + p),
        porcelain(seq![x, y, ' '] + p) == Some((x != ' ' && x != '?', p)),
{
    lemma_status_prefix(x, y, p);
    crate::text::lemma_find_seq_from(p, " -> "@, 0);
    let k = find_seq_from(p, " -> "@, 0);
    if k < p.len() {
        assert(crate::text::occurs_at(p, " -> "@, k));
    }
}

/// In `q + " -> " + p`, with no `>` in `q`, no arrow starts inside `q`.
proof fn lemma_no_arrow_before(q: Seq<char>, p: Seq<char>, j: int)
    requires
        forall|k: int| 0 <= k < q.len() ==> q[k] != '>',
        0 <= j < q.len(),
    ensures
        !crate::text::occurs_at(q + " -> "@ + p, " -> "@, j),
{
    reveal_strlit(" -> ");
    let arrow = " -> "@;
    let t = q + arrow + p;
    let n = q.len() as int;
    if crate::text::occurs_at(t, arrow, j) {
        assert(t.subrange(j, j + 4)[2] == arrow[2]);
        assert(t.subrange(j, j + 4)[1] == arrow[1]);
        if j + 2 < n {
            assert(t[j + 2] == q[j + 2]);
        } else if j + 2 == n {
            assert(t[j + 2] == ' ');
        } else {
            assert(t[j + 1] == ' ');
        }
    }
}

/// A rename "XY old -> new" gives the new name, whatever the old one holds
/// (short of a `>`).
pub proof fn law_porcelain_rename(x: char, y: char, q: Seq<char>, p: Seq<char>)
    requires
        is_ascii_char(x),
        is_ascii_char(y),
        forall|k: int| 0 <= k < q.len() ==> q[k] != '>',
    ensures
        porcelain_ok(seq![x, y, ' '] + q + " -> "@ + p),
        porcelain(seq![x, y, ' '] + q + " -> "@ + p) == Some((x != ' ' && x != '?', p)),
{
    reveal_strlit(" -> ");
    let arrow = " -> "@;
    let t = q + arrow + p;
    assert(seq![x, y, ' '] + q + arrow + p =~= seq![x, y, ' '] + t);
    lemma_status_prefix(x, y, t);
    let n = q.len() as int;
    assert(crate::text::occurs_at(t, arrow, n)) by {
        assert(t.subrange(n, n + 4) =~= arrow);
    }
    assert forall|j: int| 0 <= j < n implies !crate::text::occurs_at(t, arrow, j) by {
        lemma_no_arrow_before(q, p, j);
    }
    crate::text::lemma_find_seq_from(t, arrow, 0);
    let k = find_seq_from(t, arrow, 0);
    assert(k == n);
    assert(t.skip(n + 4) =~= p);
}


/// In a repository, `e`, `p` and `P` run `git -C <repo>` with `fetch --all`,
/// `pull` and `push`, showing their output; `c` asks for the message of
/// `git -C <repo> commit -m <message>`.
pub proof fn law_remote_commands(repo: Seq<char>, view: usize, id: Option<Seq<char>>, has_delta: bool, win: bool)
    ensures
        git_key(repo, view, Key::Char('e'), id, has_delta, win) == GitStepView::Step(
            StepView::Act(
                ActionView::Run {
                    cmd: seq!["git"@, "-C"@, repo, "fetch"@, "--all"@],
                    confirm: None,
                    show: true,
                },
            ),
        ),
        git_key(repo, view, Key::Char('p'), id, has_delta, win) == GitStepView::Step(
            StepView::Act(
                ActionView::Run { cmd: seq!["git"@, "-C"@, repo, "pull"@], confirm: None, show: true },
            ),
        ),
        git_key(repo, view, Key::Char('P'), id, has_delta, win) == GitStepView::Step(
            StepView::Act(
                ActionView::Run { cmd: seq!["git"@, "-C"@, repo, "push"@], confirm: None, show: true },
            ),
        ),
        git_key(repo, view, Key::Char('c'), id, has_delta, win) == GitStepView::Step(
            StepView::Act(
                ActionView::Prompt {
                    label: "Commit message"@,
                    template: seq!["git"@, "-C"@, repo, "commit"@, "-m"@, "{}"@],
                    interactive: false,
                    show: true,
                },
            ),
        ),
{
    assert(git_cmd(Some(repo), seq!["fetch"@, "--all"@]) =~= seq!["git"@, "-C"@, repo, "fetch"@, "--all"@]);
    assert(git_cmd(Some(repo), seq!["pull"@]) =~= seq!["git"@, "-C"@, repo, "pull"@]);
    assert(git_cmd(Some(repo), seq!["push"@]) =~= seq!["git"@, "-C"@, repo, "push"@]);
    assert(git_cmd(Some(repo), seq!["commit"@, "-m"@, "{}"@]) =~= seq![
        "git"@,
        "-C"@,
        repo,
        "commit"@,
        "-m"@,
        "{}"@,
    ]);
}

} // verus!
