//! GitHub: repositories, issues, pull requests and Actions runs through `gh`.
use vstd::prelude::*;
use crate::modules::{
    act, confirm_v, extend, opt_view, run, run_confirm, run_v, strs1, strs2, strs3, strs4,
    Action, ActionView, Step, StepView,
};
use crate::modules::docker::sel_id;
use crate::text::{
    chars_of, concat, lines, lit, pieces, replace_char, replace_chars, split_char, string_of,
    trim, trim_chars, views_of,
};
use crate::ui::{key_step, selected_row, Key, ListModel, ListView};

verus! {

/// Title and `gh` subcommand of each view, in the order `v` cycles through them.
pub const VIEWS: [(&'static str, &'static str); 4] = [
    ("Repos", "repo"),
    ("Issues", "issue"),
    ("PRs", "pr"),
    ("Actions", "run"),
];

/// The `gh` subcommand of view `view`.
pub open spec fn kind_of(view: usize) -> Seq<char> {
    if view == 0 {
        "repo"@
    } else if view == 1 {
        "issue"@
    } else if view == 2 {
        "pr"@
    } else {
        "run"@
    }
}

pub fn kind(view: usize) -> (r: &'static str)
    ensures
        r@ == kind_of(view),
{
    if view == 0 {
        "repo"
    } else if view == 1 {
        "issue"
    } else if view == 2 {
        "pr"
    } else {
        "run"
    }
}

/// A `gh` command; `--repo` is added when a context repository is pinned,
/// except for the `repo` subcommands (they take it as an argument).
pub open spec fn gh_cmd(repo: Option<Seq<char>>, args: Seq<Seq<char>>) -> Seq<Seq<char>> {
    seq!["gh"@] + args + if (args.len() == 0 || args[0] != "repo"@) && repo is Some {
        seq!["--repo"@, repo.unwrap()]
    } else {
        Seq::empty()
    }
}

/// Rows from the output of a `gh ... list`: blank lines dropped, tabs shown
/// as two spaces, id = first column, trimmed.
pub open spec fn gh_rows(ls: Seq<Seq<char>>) -> Seq<(Seq<char>, Seq<char>)>
    decreases ls.len(),
{
    if ls.len() == 0 {
        Seq::empty()
    } else {
        let prev = gh_rows(ls.drop_last());
        let l = ls.last();
        if trim(l).len() == 0 {
            prev
        } else {
            prev.push((replace_char(l, '\t', "  "@), trim(pieces(l, '\t')[0])))
        }
    }
}

/// Rows the module shows for the output of its command (or its error).
pub open spec fn github_rows(view: usize, repo: Option<Seq<char>>, out: Result<Seq<char>, Seq<char>>) -> Seq<
    (Seq<char>, Seq<char>),
> {
    match out {
        Ok(o) => {
            let r = gh_rows(lines(o));
            if r.len() == 0 {
                seq![("No results"@, Seq::empty())]
            } else {
                r
            }
        },
        Err(e) => seq![("Error: "@ + e, Seq::empty())] + if view != 0 && repo is None {
            seq![
                (Seq::empty(), Seq::empty()),
                ("→ No context repo: go to the Repos view (v) and pin one with Space,"@, Seq::empty()),
                ("  or launch devc inside a repository."@, Seq::empty()),
            ]
        } else {
            Seq::empty()
        },
    }
}

/// The context repository after Space on a row of id `id`: pinned, or
/// unpinned when it was the pinned one.
pub open spec fn pin(repo: Option<Seq<char>>, id: Option<Seq<char>>) -> Option<Seq<char>> {
    match id {
        Some(new) => if repo == Some(new) {
            None
        } else {
            Some(new)
        },
        None => repo,
    }
}

/// What a key does in view `view` once the list has not taken it (and it is
/// neither `v` nor Space in the Repos view).
pub open spec fn github_key(view: usize, repo: Option<Seq<char>>, key: Key, id: Option<Seq<char>>) -> StepView {
    let k = kind_of(view);
    if key == Key::Enter {
        match id {
            Some(id) => StepView::Capture {
                title: k + " "@ + id,
                cmd: gh_cmd(repo, seq![k, "view"@, id]),
            },
            None => StepView::Act(ActionView::Handled),
        }
    } else if key == Key::Char('o') {
        match id {
            Some(id) => run_v(gh_cmd(repo, seq![k, "view"@, id, "--web"@]), false),
            None => StepView::Act(ActionView::Handled),
        }
    } else if key == Key::Char('x') && view == 3 {
        match id {
            Some(id) => confirm_v(
                gh_cmd(repo, seq!["run"@, "rerun"@, id]),
                "Re-run this workflow?"@,
                true,
            ),
            None => StepView::Act(ActionView::Handled),
        }
    } else {
        StepView::Act(ActionView::Ignored)
    }
}

pub open spec fn pairs_view(v: Seq<(String, String)>) -> Seq<(Seq<char>, Seq<char>)> {
    v.map_values(|r: (String, String)| (r.0@, r.1@))
}

pub open spec fn plain_view(rows: Seq<crate::ui::Row>) -> Seq<(Seq<char>, Seq<char>)> {
    rows.map_values(|r: crate::ui::Row| (r.text@, r.id@))
}

/// Repositories, issues, pull requests and Actions runs.
pub struct GitHub {
    view: usize,
    list: ListView,
    /// Context repository (owner/name) for issues, PRs and Actions.
    repo: Option<String>,
}

impl GitHub {
    pub closed spec fn view_index(&self) -> usize {
        self.view
    }

    pub closed spec fn list_model(&self) -> ListModel {
        self.list@
    }

    pub closed spec fn repo_view(&self) -> Option<Seq<char>> {
        opt_view(self.repo)
    }

    pub closed spec fn wf(&self) -> bool {
        self.view < 4 && self.list.wf()
    }

    pub fn new() -> (r: Self)
        ensures
            r.wf(),
            r.view_index() == 0,
            r.repo_view() is None,
            crate::ui::fresh(r.list_model()),
    {
        GitHub { view: 0, list: ListView::new(), repo: None }
    }

    pub fn current_view(&self) -> (r: usize)
        ensures
            r == self.view_index(),
    {
        self.view
    }

    pub fn repo(&self) -> (r: &Option<String>)
        ensures
            opt_view(*r) == self.repo_view(),
    {
        &self.repo
    }

    pub fn list(&self) -> (r: &ListView)
        ensures
            r@ == self.list_model(),
    {
        &self.list
    }

    /// A `gh` command with the context repository.
    pub fn gh(&self, args: Vec<String>) -> (r: Vec<String>)
        ensures
            views_of(r@) == gh_cmd(self.repo_view(), views_of(args@)),
    {
        let is_repo = if args.len() > 0 {
            let a = chars_of(args[0].as_str());
            crate::text::eq_str(&a, "repo")
        } else {
            false
        };
        let mut v = strs1("gh");
        let ghost a = views_of(args@);
        extend(&mut v, args);
        if !is_repo {
            match &self.repo {
                Some(r) => {
                    let ghost before = views_of(v@);
                    v.push(lit("--repo"));
                    v.push(r.clone());
                    assert(views_of(v@) =~= before + seq!["--repo"@, r@]);
                },
                None => {},
            }
        }
        assert(views_of(v@) =~= gh_cmd(self.repo_view(), a));
        v
    }

    /// gh is not installed.
    pub fn set_missing(&mut self)
        requires
            old(self).wf(),
        ensures
            final(self).wf(),
            final(self).view_index() == old(self).view_index(),
            final(self).repo_view() == old(self).repo_view(),
            plain_view(final(self).list_model().rows) == seq![
                ("gh (GitHub CLI) is not installed"@, Seq::<char>::empty()),
            ],
    {
        let t = lit("gh (GitHub CLI) is not installed");
        let ghost tv = t@;
        self.list.set_items(vec![(t, String::new())]);
        assert(plain_view(self.list@.rows) =~= seq![(tv, Seq::<char>::empty())]);
    }

    /// The command that lists what the current view shows.
    pub fn refresh_cmd(&self) -> (r: Vec<String>)
        ensures
            views_of(r@) == if self.view_index() == 0 {
                seq!["gh"@, "repo"@, "list"@, "--limit"@, "40"@]
            } else if self.view_index() == 3 {
                gh_cmd(self.repo_view(), seq!["run"@, "list"@, "--limit"@, "20"@])
            } else {
                gh_cmd(self.repo_view(), seq![kind_of(self.view_index()), "list"@, "--limit"@, "40"@])
            },
    {
        if self.view == 0 {
            let mut v = strs3("gh", "repo", "list");
            extend(&mut v, strs2("--limit", "40"));
            assert(views_of(v@) =~= seq!["gh"@, "repo"@, "list"@, "--limit"@, "40"@]);
            v
        } else if self.view == 3 {
            self.gh(strs4("run", "list", "--limit", "20"))
        } else {
            self.gh(strs4(kind(self.view), "list", "--limit", "40"))
        }
    }

    /// Shows the output of `refresh_cmd` (or its error, with a hint when no
    /// context repository is pinned).
    pub fn apply_output(&mut self, out: Result<String, String>)
        requires
            old(self).wf(),
        ensures
            final(self).wf(),
            final(self).view_index() == old(self).view_index(),
            final(self).repo_view() == old(self).repo_view(),
            plain_view(final(self).list_model().rows) == github_rows(
                old(self).view_index(),
                old(self).repo_view(),
                crate::modules::docker::result_view(out),
            ),
    {
        let rows: Vec<(String, String)> = match out {
            Ok(o) => {
                let oc = chars_of(o.as_str());
                let ls = crate::text::split_lines(&oc);
                let mut acc: Vec<(String, String)> = Vec::new();
                let mut i: usize = 0;
                while i < ls.len()
                    invariant
                        i <= ls@.len(),
                        pairs_view(acc@) == gh_rows(ls.deep_view().take(i as int)),
                    decreases ls@.len() - i,
                {
                    proof {
                        crate::text::lemma_deep_chars(ls@[i as int]);
                        assert(ls.deep_view().take(i + 1).drop_last() =~= ls.deep_view().take(
                            i as int,
                        ));
                    }
                    let ghost before = acc@;
                    let l = &ls[i];
                    if trim_chars(l).len() > 0 {
                        let cols = split_char(l, '\t');
                        proof {
                            crate::text::lemma_deep_chars(cols@[0]);
                        }
                        let id = trim_chars(&cols[0]);
                        let t = replace_chars(l, '\t', "  ");
                        let a = string_of(&t);
                        let b = string_of(&id);
                        acc.push((a, b));
                        assert(pairs_view(acc@) =~= pairs_view(before).push((a@, b@)));
                    }
                    i = i + 1;
                }
                assert(ls.deep_view().take(ls@.len() as int) =~= ls.deep_view());
                if acc.len() == 0 {
                    vec![(lit("No results"), String::new())]
                } else {
                    acc
                }
            },
            Err(e) => {
                let mut rows = vec![(concat("Error: ", e.as_str()), String::new())];
                if self.view != 0 && self.repo.is_none() {
                    rows.push((String::new(), String::new()));
                    rows.push(
                        (
                            lit(
                                "→ No context repo: go to the Repos view (v) and pin one with Space,",
                            ),
                            String::new(),
                        ),
                    );
                    rows.push((lit("  or launch devc inside a repository."), String::new()));
                }
                rows
            },
        };
        let ghost want = github_rows(
            self.view,
            self.repo_view(),
            crate::modules::docker::result_view(out),
        );
        assert(pairs_view(rows@) =~= want);
        self.list.set_items(rows);
        assert(plain_view(self.list@.rows) =~= want);
    }

    /// Handles a key: the list's keys, `v` (next view), Space (pin the
    /// context repository), then details, browser and re-run.
    pub fn on_key(&mut self, key: Key) -> (r: Step)
        requires
            old(self).wf(),
        ensures
            final(self).wf(),
            final(self).list_model() == key_step(old(self).list_model(), key).0,
            key_step(old(self).list_model(), key).1 ==> r@ == StepView::Act(ActionView::Handled)
                && final(self).view_index() == old(self).view_index() && final(self).repo_view()
                == old(self).repo_view(),
            !key_step(old(self).list_model(), key).1 ==> if key == Key::Char('v') {
                &&& r@ == StepView::Act(ActionView::Refresh)
                &&& final(self).view_index() == (old(self).view_index() + 1) % 4
                &&& final(self).repo_view() == old(self).repo_view()
            } else if key == Key::Char(' ') && old(self).view_index() == 0 {
                &&& r@ == StepView::Act(ActionView::Handled)
                &&& final(self).view_index() == old(self).view_index()
                &&& final(self).repo_view() == pin(old(self).repo_view(), sel_id(old(self).list_model()))
            } else {
                &&& r@ == github_key(
                    old(self).view_index(),
                    old(self).repo_view(),
                    key,
                    sel_id(old(self).list_model()),
                )
                &&& final(self).view_index() == old(self).view_index()
                &&& final(self).repo_view() == old(self).repo_view()
            },
    {
        if self.list.key(key) {
            return act(Action::Handled);
        }
        let id = match self.list.selected_id() {
            Some(i) => if i.as_str().is_empty() {
                None
            } else {
                Some(i)
            },
            None => None,
        };
        if key == Key::Char('v') {
            self.view = (self.view + 1) % 4;
            return act(Action::Refresh);
        }
        if key == Key::Char(' ') && self.view == 0 {
            match id {
                Some(new) => {
                    let same = match &self.repo {
                        Some(cur) => {
                            let a = chars_of(cur.as_str());
                            let b = chars_of(new.as_str());
                            crate::text::seq_eq(&a, &b)
                        },
                        None => false,
                    };
                    if same {
                        self.repo = None;
                    } else {
                        self.repo = Some(new);
                    }
                },
                None => {},
            }
            return act(Action::Handled);
        }
        let k = kind(self.view);
        if key == Key::Enter {
            match id {
                Some(id) => {
                    let t = concat(k, " ");
                    Step::Capture {
                        title: concat(t.as_str(), id.as_str()),
                        cmd: self.gh(strs3(k, "view", id.as_str())),
                    }
                },
                None => act(Action::Handled),
            }
        } else if key == Key::Char('o') {
            match id {
                Some(id) => run(self.gh(strs4(k, "view", id.as_str(), "--web")), false),
                None => act(Action::Handled),
            }
        } else if key == Key::Char('x') && self.view == 3 {
            match id {
                Some(id) => run_confirm(
                    self.gh(strs3("run", "rerun", id.as_str())),
                    lit("Re-run this workflow?"),
                    true,
                ),
                None => act(Action::Handled),
            }
        } else {
            act(Action::Ignored)
        }
    }

    /// The module's own shortcuts for the bottom bar.
    pub fn footer(&self) -> (r: String)
        ensures
            r@ == (if self.view_index() == 0 {
                "v view · Space pin context repo · Enter details · o open in browser"@
            } else if self.view_index() == 3 {
                "v view · Enter details · o open in browser · x re-run"@
            } else {
                "v view · Enter details · o open in browser"@
            }),
    {
        if self.view == 0 {
            lit("v view · Space pin context repo · Enter details · o open in browser")
        } else if self.view == 3 {
            lit("v view · Enter details · o open in browser · x re-run")
        } else {
            lit("v view · Enter details · o open in browser")
        }
    }

    /// Text copied by the global `y` key.
    pub fn clip(&self) -> (r: Option<String>)
        ensures
            opt_view(r) == match selected_row(self.list_model()) {
                Some(row) => crate::ui::clip_of(row),
                None => None,
            },
    {
        self.list.clip()
    }
}


/// Space on a repository pins it; Space on the pinned one unpins it.
pub proof fn law_space_toggles_pin(id: Seq<char>)
    ensures
        pin(None, Some(id)) == Some(id),
        pin(pin(None, Some(id)), Some(id)) is None,
{
}

} // verus!
