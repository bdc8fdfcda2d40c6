//! Docker: containers, images, volumes, networks and Compose projects.
use vstd::prelude::*;
use crate::modules::{
    act, cmd2, cmd3, cmd4, cmd5, cmd6, cmd_with_head, confirm_v, run, run_confirm, run_v, with_head, Action, ActionView, Step,
    StepView,
};
use crate::text::{
    append, append_str, before_char, chars_of, concat, eq_str, find_char, has_prefix, lines,
    lit, pad, pad_right, pieces, replace_char, replace_chars, split_char, split_lines, split_ws,
    starts_with, string_of, tokens, trim, trim_chars, views_of, views_of_strs,
};
use crate::theme::{Color, Palette};
use crate::ui::{key_step, selected_row, Key, ListModel, ListView};

verus! {

/// Names of the views, in the order `v` cycles through them.
pub const VIEWS: [&'static str; 5] = ["Containers", "Images", "Volumes", "Networks", "Compose"];

/// A `docker` command.
pub open spec fn d_cmd(args: Seq<Seq<char>>) -> Seq<Seq<char>> {
    with_head("docker"@, args)
}

pub fn d(args: &[&str]) -> (r: Vec<String>)
    ensures
        views_of(r@) == d_cmd(views_of_strs(args@)),
{
    cmd_with_head("docker", args)
}

/// A `docker compose ls --all` line → (project, status, first compose file):
/// nothing for the header or a line of fewer than three columns.
pub open spec fn compose_line(l: Seq<char>) -> Option<(Seq<char>, Seq<char>, Seq<char>)> {
    let cols = tokens(l);
    if cols.len() < 3 || cols[0] == "NAME"@ {
        None
    } else {
        Some((cols[0], cols[1], before_char(cols[2], ',')))
    }
}

pub open spec fn triple_view(r: Option<(String, String, String)>) -> Option<
    (Seq<char>, Seq<char>, Seq<char>),
> {
    match r {
        Some((a, b, c)) => Some((a@, b@, c@)),
        None => None,
    }
}

/// `docker compose ls --all` line → (project, status, compose file).
/// With several files (comma-separated) the first one is used.
pub fn parse_compose_line(line: &str) -> (r: Option<(String, String, String)>)
    ensures
        triple_view(r) == compose_line(line@),
{
    let l = chars_of(line);
    match compose_fields(&l) {
        Some((a, b, c)) => Some((string_of(&a), string_of(&b), string_of(&c))),
        None => None,
    }
}

fn compose_fields(l: &Vec<char>) -> (r: Option<(Vec<char>, Vec<char>, Vec<char>)>)
    ensures
        match r {
            Some((a, b, c)) => compose_line(l@) == Some((a@, b@, c@)),
            None => compose_line(l@) is None,
        },
{
    let cols = split_ws(l);
    if cols.len() < 3 {
        return None;
    }
    assert(cols.deep_view()[0] == cols@[0]@) by {
        crate::text::lemma_deep_chars(cols@[0]);
    }
    assert(cols.deep_view()[1] == cols@[1]@) by {
        crate::text::lemma_deep_chars(cols@[1]);
    }
    assert(cols.deep_view()[2] == cols@[2]@) by {
        crate::text::lemma_deep_chars(cols@[2]);
    }
    if eq_str(&cols[0], "NAME") {
        return None;
    }
    let cut = find_char(&cols[2], ',', 0);
    let file = crate::text::slice_of(&cols[2], 0, cut);
    assert(file@ == cols@[2]@.take(cut as int));
    Some((crate::text::copy(&cols[0]), crate::text::copy(&cols[1]), file))
}

/// Text of a compose row: name and status in columns, then the file.
pub open spec fn compose_row_text(name: Seq<char>, status: Seq<char>, file: Seq<char>) -> Seq<
    char,
> {
    pad_right(name, 24) + " "@ + pad_right(status, 14) + " "@ + file
}

/// Rows of the Compose view from the output of `docker compose ls --all`:
/// one per project line, id = its compose file (what up/down/logs need),
/// green while running.
pub open spec fn compose_rows(ls: Seq<Seq<char>>, p: Palette) -> Seq<(Seq<char>, Seq<char>, Option<Color>)>
    decreases ls.len(),
{
    if ls.len() == 0 {
        Seq::empty()
    } else {
        let prev = compose_rows(ls.drop_last(), p);
        match compose_line(ls.last()) {
            Some((name, status, file)) => prev.push(
                (
                    compose_row_text(name, status, file),
                    file,
                    Some(
                        if starts_with(status, "running"@) {
                            p.green
                        } else {
                            Color::DarkGray
                        },
                    ),
                ),
            ),
            None => prev,
        }
    }
}

/// Rows of the other views from their tab-separated output: blank lines
/// dropped, tabs shown as two spaces, id = first column; in the containers
/// view, green when the status (third column) starts with `Up`, else red.
pub open spec fn table_rows(ls: Seq<Seq<char>>, containers: bool, p: Palette) -> Seq<
    (Seq<char>, Seq<char>, Option<Color>),
>
    decreases ls.len(),
{
    if ls.len() == 0 {
        Seq::empty()
    } else {
        let prev = table_rows(ls.drop_last(), containers, p);
        let l = ls.last();
        if trim(l).len() == 0 {
            prev
        } else {
            let cols = pieces(l, '\t');
            let status = if cols.len() > 2 {
                cols[2]
            } else {
                Seq::empty()
            };
            prev.push(
                (
                    replace_char(l, '\t', "  "@),
                    cols[0],
                    if containers {
                        Some(
                            if starts_with(status, "Up"@) {
                                p.green
                            } else {
                                p.red
                            },
                        )
                    } else {
                        None
                    },
                ),
            )
        }
    }
}

pub open spec fn rows_view(v: Seq<(String, String, Option<Color>)>) -> Seq<
    (Seq<char>, Seq<char>, Option<Color>),
> {
    v.map_values(|r: (String, String, Option<Color>)| (r.0@, r.1@, r.2))
}

/// The rows a view shows for the output of its command (or its error).
pub open spec fn docker_rows(view: usize, out: Result<Seq<char>, Seq<char>>, p: Palette) -> Seq<
    (Seq<char>, Seq<char>, Option<Color>),
> {
    match out {
        Ok(o) => {
            let r = if view == 4 {
                compose_rows(lines(o), p)
            } else {
                table_rows(lines(o), view == 0, p)
            };
            if r.len() == 0 {
                seq![
                    (
                        if view == 4 {
                            "No compose projects"@
                        } else {
                            "(empty)"@
                        },
                        Seq::empty(),
                        None,
                    ),
                ]
            } else {
                r
            }
        },
        Err(e) => seq![("Error: "@ + e, Seq::empty(), None)],
    }
}

pub open spec fn result_view(r: Result<String, String>) -> Result<Seq<char>, Seq<char>> {
    match r {
        Ok(o) => Ok(o@),
        Err(e) => Err(e@),
    }
}

/// Text, id and colour of each row.
pub open spec fn shown_rows(rows: Seq<crate::ui::Row>) -> Seq<(Seq<char>, Seq<char>, Option<Color>)> {
    rows.map_values(
        |r: crate::ui::Row|
            (
                r.text@,
                r.id@,
                match r.look {
                    crate::ui::Look::Colored(c) => Some(c),
                    _ => None,
                },
            ),
    )
}

fn compose_row_chars(name: &Vec<char>, status: &Vec<char>, file: &Vec<char>) -> (r: Vec<char>)
    ensures
        r@ == compose_row_text(name@, status@, file@),
{
    let mut t = pad(name, 24);
    append_str(&mut t, " ");
    let st = pad(status, 14);
    append(&mut t, &st);
    append_str(&mut t, " ");
    append(&mut t, file);
    t
}

fn compose_rows_of(ls: &Vec<Vec<char>>, p: &Palette) -> (r: Vec<(String, String, Option<Color>)>)
    ensures
        rows_view(r@) == compose_rows(ls.deep_view(), *p),
{
    let mut acc: Vec<(String, String, Option<Color>)> = Vec::new();
    let mut i: usize = 0;
    let running = chars_of("running");
    while i < ls.len()
        invariant
            i <= ls@.len(),
            running@ == "running"@,
            rows_view(acc@) == compose_rows(ls.deep_view().take(i as int), *p),
        decreases ls@.len() - i,
    {
        proof {
            crate::text::lemma_deep_chars(ls@[i as int]);
            assert(ls.deep_view().take(i + 1).drop_last() =~= ls.deep_view().take(i as int));
        }
        let ghost before = acc@;
        match compose_fields(&ls[i]) {
            Some((name, status, file)) => {
                let text = compose_row_chars(&name, &status, &file);
                let color = if has_prefix(&status, &running) {
                    p.green
                } else {
                    Color::DarkGray
                };
                acc.push((string_of(&text), string_of(&file), Some(color)));
                assert(rows_view(acc@) =~= rows_view(before).push((text@, file@, Some(color))));
            },
            None => {},
        }
        i = i + 1;
    }
    assert(ls.deep_view().take(ls@.len() as int) =~= ls.deep_view());
    acc
}

fn table_rows_of(ls: &Vec<Vec<char>>, containers: bool, p: &Palette) -> (r: Vec<
    (String, String, Option<Color>),
>)
    ensures
        rows_view(r@) == table_rows(ls.deep_view(), containers, *p),
{
    let mut acc: Vec<(String, String, Option<Color>)> = Vec::new();
    let mut i: usize = 0;
    let up = chars_of("Up");
    while i < ls.len()
        invariant
            i <= ls@.len(),
            up@ == "Up"@,
            rows_view(acc@) == table_rows(ls.deep_view().take(i as int), containers, *p),
        decreases ls@.len() - i,
    {
        proof {
            crate::text::lemma_deep_chars(ls@[i as int]);
            assert(ls.deep_view().take(i + 1).drop_last() =~= ls.deep_view().take(i as int));
        }
        let ghost before = acc@;
        let l = &ls[i];
        let tr = trim_chars(l);
        if tr.len() > 0 {
            let cols = split_char(l, '\t');
            proof {
                crate::text::lemma_deep_chars(cols@[0]);
            }
            let color = if containers {
                let st = if cols.len() > 2 {
                    proof {
                        crate::text::lemma_deep_chars(cols@[2]);
                    }
                    crate::text::copy(&cols[2])
                } else {
                    Vec::new()
                };
                Some(
                    if has_prefix(&st, &up) {
                        p.green
                    } else {
                        p.red
                    },
                )
            } else {
                None
            };
            let text = replace_chars(l, '\t', "  ");
            acc.push((string_of(&text), string_of(&cols[0]), color));
            assert(rows_view(acc@) =~= rows_view(before).push((text@, cols@[0]@, color)));
        }
        i = i + 1;
    }
    assert(ls.deep_view().take(ls@.len() as int) =~= ls.deep_view());
    acc
}

/// The action of key `key` on the row of id `i` in view `v`.
fn row_action(v: usize, key: Key, i: &str) -> (r: Step)
    requires
        key != Key::Char('P'),
    ensures
        r@ == docker_key(v, key, Some(i@)),
{
    if v == 0 && key == Key::Char('u') {
        run(cmd2("docker", "start", i), false)
    } else if v == 0 && key == Key::Char('x') {
        run(cmd2("docker", "stop", i), false)
    } else if v == 0 && key == Key::Char('t') {
        run(cmd2("docker", "restart", i), false)
    } else if v == 0 && key == Key::Enter {
        Step::Capture { title: concat("logs ", i), cmd: cmd4("docker", "logs", "--tail", "300", i) }
    } else if v == 0 && key == Key::Char('e') {
        act(Action::Interactive(cmd4("docker", "exec", "-it", i, "sh")))
    } else if v == 0 && key == Key::Char('i') {
        Step::Capture { title: concat("inspect ", i), cmd: cmd2("docker", "inspect", i) }
    } else if v == 0 && key == Key::Char('k') {
        let m = concat("Delete container ", i);
        run_confirm(cmd3("docker", "rm", "-f", i), concat(m.as_str(), "?"), false)
    } else if v == 1 && key == Key::Char('k') {
        let m = concat("Delete image ", i);
        run_confirm(cmd2("docker", "rmi", i), concat(m.as_str(), "?"), true)
    } else if v == 2 && key == Key::Char('k') {
        let m = concat("Delete volume ", i);
        run_confirm(cmd3("docker", "volume", "rm", i), concat(m.as_str(), "?"), true)
    } else if v == 3 && key == Key::Char('k') {
        let m = concat("Delete network ", i);
        run_confirm(cmd3("docker", "network", "rm", i), concat(m.as_str(), "?"), true)
    } else if v == 4 && key == Key::Char('u') {
        run(cmd5("docker", "compose", "-f", i, "up", "-d"), true)
    } else if v == 4 && key == Key::Char('x') {
        let m = concat("docker compose down? (", i);
        run_confirm(cmd4("docker", "compose", "-f", i, "down"), concat(m.as_str(), ")"), true)
    } else if v == 4 && key == Key::Enter {
        Step::Capture {
            title: concat("compose logs · ", i),
            cmd: cmd6("docker", "compose", "-f", i, "logs", "--tail", "200"),
        }
    } else {
        act(Action::Ignored)
    }
}

pub struct Docker {
    view: usize,
    list: ListView,
}

/// The selected row's id, unless it is empty.
pub open spec fn sel_id(m: ListModel) -> Option<Seq<char>> {
    match selected_row(m) {
        Some(r) => if r.id@.len() > 0 {
            Some(r.id@)
        } else {
            None
        },
        None => None,
    }
}

/// What a key does in view `view` once the list has not taken it and it is
/// not `v` (next view).
pub open spec fn docker_key(view: usize, key: Key, id: Option<Seq<char>>) -> StepView {
    if key == Key::Char('P') {
        confirm_v(
            d_cmd(seq!["system"@, "prune"@, "-f"@]),
            "Run docker system prune? Removes everything unused."@,
            true,
        )
    } else {
        match id {
            None => StepView::Act(ActionView::Ignored),
            Some(id) => if view == 0 && key == Key::Char('u') {
                run_v(d_cmd(seq!["start"@, id]), false)
            } else if view == 0 && key == Key::Char('x') {
                run_v(d_cmd(seq!["stop"@, id]), false)
            } else if view == 0 && key == Key::Char('t') {
                run_v(d_cmd(seq!["restart"@, id]), false)
            } else if view == 0 && key == Key::Enter {
                StepView::Capture {
                    title: "logs "@ + id,
                    cmd: d_cmd(seq!["logs"@, "--tail"@, "300"@, id]),
                }
            } else if view == 0 && key == Key::Char('e') {
                StepView::Act(ActionView::Interactive(d_cmd(seq!["exec"@, "-it"@, id, "sh"@])))
            } else if view == 0 && key == Key::Char('i') {
                StepView::Capture { title: "inspect "@ + id, cmd: d_cmd(seq!["inspect"@, id]) }
            } else if view == 0 && key == Key::Char('k') {
                confirm_v(
                    d_cmd(seq!["rm"@, "-f"@, id]),
                    "Delete container "@ + id + "?"@,
                    false,
                )
            } else if view == 1 && key == Key::Char('k') {
                confirm_v(d_cmd(seq!["rmi"@, id]), "Delete image "@ + id + "?"@, true)
            } else if view == 2 && key == Key::Char('k') {
                confirm_v(d_cmd(seq!["volume"@, "rm"@, id]), "Delete volume "@ + id + "?"@, true)
            } else if view == 3 && key == Key::Char('k') {
                confirm_v(
                    d_cmd(seq!["network"@, "rm"@, id]),
                    "Delete network "@ + id + "?"@,
                    true,
                )
            } else if view == 4 && key == Key::Char('u') {
                run_v(d_cmd(seq!["compose"@, "-f"@, id, "up"@, "-d"@]), true)
            } else if view == 4 && key == Key::Char('x') {
                confirm_v(
                    d_cmd(seq!["compose"@, "-f"@, id, "down"@]),
                    "docker compose down? ("@ + id + ")"@,
                    true,
                )
            } else if view == 4 && key == Key::Enter {
                StepView::Capture {
                    title: "compose logs · "@ + id,
                    cmd: d_cmd(seq!["compose"@, "-f"@, id, "logs"@, "--tail"@, "200"@]),
                }
            } else {
                StepView::Act(ActionView::Ignored)
            },
        }
    }
}

/// The command that lists what view `view` shows.
pub open spec fn refresh_cmd_spec(view: usize) -> Seq<Seq<char>> {
    if view == 4 {
        d_cmd(seq!["compose"@, "ls"@, "--all"@])
    } else if view == 0 {
        d_cmd(seq!["ps"@, "-a"@, "--format"@, "{{.ID}}\t{{.Names}}\t{{.Status}}\t{{.Image}}"@])
    } else if view == 1 {
        d_cmd(seq!["images"@, "--format"@, "{{.ID}}\t{{.Repository}}:{{.Tag}}\t{{.Size}}"@])
    } else if view == 2 {
        d_cmd(seq!["volume"@, "ls"@, "--format"@, "{{.Name}}\t{{.Driver}}"@])
    } else {
        d_cmd(seq!["network"@, "ls"@, "--format"@, "{{.ID}}\t{{.Name}}\t{{.Driver}}"@])
    }
}

impl Docker {
    pub closed spec fn view_index(&self) -> usize {
        self.view
    }

    pub closed spec fn list_model(&self) -> ListModel {
        self.list@
    }

    pub closed spec fn wf(&self) -> bool {
        self.view < 5 && self.list.wf()
    }

    pub fn new() -> (r: Self)
        ensures
            r.wf(),
            r.view_index() == 0,
            crate::ui::fresh(r.list_model()),
    {
        Docker { view: 0, list: ListView::new() }
    }

    pub fn current_view(&self) -> (r: usize)
        ensures
            r == self.view_index(),
    {
        self.view
    }

    pub fn list(&self) -> (r: &ListView)
        ensures
            r@ == self.list_model(),
    {
        &self.list
    }

    /// The command whose output the current view shows.
    pub fn refresh_cmd(&self) -> (r: Vec<String>)
        ensures
            views_of(r@) == refresh_cmd_spec(self.view_index()),
    {
        let r = if self.view == 4 {
            d(&["compose", "ls", "--all"])
        } else if self.view == 0 {
            d(&["ps", "-a", "--format", "{{.ID}}\t{{.Names}}\t{{.Status}}\t{{.Image}}"])
        } else if self.view == 1 {
            d(&["images", "--format", "{{.ID}}\t{{.Repository}}:{{.Tag}}\t{{.Size}}"])
        } else if self.view == 2 {
            d(&["volume", "ls", "--format", "{{.Name}}\t{{.Driver}}"])
        } else {
            d(&["network", "ls", "--format", "{{.ID}}\t{{.Name}}\t{{.Driver}}"])
        };
        assert(views_of(r@) =~= refresh_cmd_spec(self.view_index()));
        r
    }

    /// Shows the output of `refresh_cmd` (or the error it ended with).
    pub fn apply_output(&mut self, out: Result<String, String>, p: &Palette)
        requires
            old(self).wf(),
        ensures
            final(self).wf(),
            final(self).view_index() == old(self).view_index(),
            shown_rows(final(self).list_model().rows) == docker_rows(
                old(self).view_index(),
                result_view(out),
                *p,
            ),
    {
        let rows = match out {
            Ok(o) => {
                let oc = chars_of(o.as_str());
                let ls = split_lines(&oc);
                let r = if self.view == 4 {
                    compose_rows_of(&ls, p)
                } else {
                    table_rows_of(&ls, self.view == 0, p)
                };
                if r.len() == 0 {
                    let msg = if self.view == 4 {
                        lit("No compose projects")
                    } else {
                        lit("(empty)")
                    };
                    vec![(msg, String::new(), None)]
                } else {
                    r
                }
            },
            Err(e) => vec![(concat("Error: ", e.as_str()), String::new(), None)],
        };
        let ghost expect = docker_rows(self.view, result_view(out), *p);
        assert(rows_view(rows@) =~= expect);
        self.list.set_items_styled(rows);
        assert(shown_rows(self.list@.rows) =~= expect);
    }

    /// Handles a key: the list's own keys first, then `v` (next view), `P`
    /// (prune) and the actions on the selected row.
    pub fn on_key(&mut self, key: Key) -> (r: Step)
        requires
            old(self).wf(),
        ensures
            final(self).wf(),
            final(self).list_model() == key_step(old(self).list_model(), key).0,
            key_step(old(self).list_model(), key).1 ==> r@ == StepView::Act(ActionView::Handled)
                && final(self).view_index() == old(self).view_index(),
            !key_step(old(self).list_model(), key).1 && key == Key::Char('v') ==> r@
                == StepView::Act(ActionView::Refresh) && final(self).view_index() == (
            old(self).view_index() + 1) % 5,
            !key_step(old(self).list_model(), key).1 && key != Key::Char('v') ==> r@ == docker_key(
                old(self).view_index(),
                key,
                sel_id(old(self).list_model()),
            ) && final(self).view_index() == old(self).view_index(),
    {
        if self.list.key(key) {
            return act(Action::Handled);
        }
        if key == Key::Char('v') {
            self.view = (self.view + 1) % 5;
            return act(Action::Refresh);
        }
        if key == Key::Char('P') {
            return run_confirm(
                cmd3("docker", "system", "prune", "-f"),
                lit("Run docker system prune? Removes everything unused."),
                true,
            );
        }
        let id = match self.list.selected_id() {
            Some(id) => {
                if id.as_str().is_empty() {
                    return act(Action::Ignored);
                }
                id
            },
            None => {
                return act(Action::Ignored);
            },
        };
        proof {
            assert(sel_id(old(self).list_model()) == Some(id@));
        }
        row_action(self.view, key, id.as_str())
    }

    /// The module's own shortcuts for the bottom bar.
    pub fn footer(&self) -> (r: String)
        ensures
            r@ == (if self.view_index() == 0 {
                "v view · u start · x stop · t restart · Enter logs · e shell · i inspect · k delete · P prune"@
            } else if self.view_index() == 4 {
                "v view · u up -d · x down · Enter logs"@
            } else {
                "v view · k delete · P prune"@
            }),
    {
        if self.view == 0 {
            lit(
                "v view · u start · x stop · t restart · Enter logs · e shell · i inspect · k delete · P prune",
            )
        } else if self.view == 4 {
            lit("v view · u up -d · x down · Enter logs")
        } else {
            lit("v view · k delete · P prune")
        }
    }

    /// Text copied by the global `y` key.
    pub fn clip(&self) -> (r: Option<String>)
        ensures
            crate::modules::opt_view(r) == match selected_row(self.list_model()) {
                Some(row) => crate::ui::clip_of(row),
                None => None,
            },
    {
        self.list.clip()
    }

    /// docker is not installed.
    pub fn set_missing(&mut self)
        requires
            old(self).wf(),
        ensures
            final(self).wf(),
            final(self).view_index() == old(self).view_index(),
            final(self).list_model().rows.len() == 1,
            final(self).list_model().rows[0].text@ == "docker is not installed"@,
            final(self).list_model().rows[0].id@.len() == 0,
    {
        self.list.set_items(vec![(lit("docker is not installed"), String::new())]);
    }
}


/// Destructive actions ask first: deleting a container, an image, a volume
/// or a network, `compose down` and `system prune` all open a confirmation.
pub proof fn law_destructive_actions_confirm(view: usize, key: Key, id: Option<Seq<char>>)
    requires
        key == Key::Char('P') || (id is Some && (key == Key::Char('k') && view < 4 || key
            == Key::Char('x') && view == 4)),
    ensures
        docker_key(view, key, id) matches StepView::Act(ActionView::Run { confirm: Some(_), .. }),
{
}


/// In the containers view, `u`, `x` and `t` on a container run exactly
/// `docker start`, `docker stop` and `docker restart` of it, without asking
/// and without a pane; the three commands differ.
pub proof fn law_container_lifecycle(id: Seq<char>)
    ensures
        docker_key(0, Key::Char('u'), Some(id)) == StepView::Act(
            ActionView::Run { cmd: seq!["docker"@, "start"@, id], confirm: None, show: false },
        ),
        docker_key(0, Key::Char('x'), Some(id)) == StepView::Act(
            ActionView::Run { cmd: seq!["docker"@, "stop"@, id], confirm: None, show: false },
        ),
        docker_key(0, Key::Char('t'), Some(id)) == StepView::Act(
            ActionView::Run { cmd: seq!["docker"@, "restart"@, id], confirm: None, show: false },
        ),
        "start"@ != "stop"@ && "stop"@ != "restart"@ && "start"@ != "restart"@,
{
    reveal_strlit("start");
    reveal_strlit("stop");
    reveal_strlit("restart");
    assert("start"@[2] != "stop"@[2]);
    assert("stop"@.len() != "restart"@.len());
    assert("start"@.len() != "restart"@.len());
    assert(d_cmd(seq!["start"@, id]) =~= seq!["docker"@, "start"@, id]);
    assert(d_cmd(seq!["stop"@, id]) =~= seq!["docker"@, "stop"@, id]);
    assert(d_cmd(seq!["restart"@, id]) =~= seq!["docker"@, "restart"@, id]);
}

/// In the containers view, Enter shows the last 300 log lines of the
/// container, `e` opens a shell in it, and `i` shows its inspection.
pub proof fn law_container_views(id: Seq<char>)
    ensures
        docker_key(0, Key::Enter, Some(id)) == (StepView::Capture {
            title: "logs "@ + id,
            cmd: seq!["docker"@, "logs"@, "--tail"@, "300"@, id],
        }),
        docker_key(0, Key::Char('e'), Some(id)) == StepView::Act(
            ActionView::Interactive(seq!["docker"@, "exec"@, "-it"@, id, "sh"@]),
        ),
        docker_key(0, Key::Char('i'), Some(id)) == (StepView::Capture {
            title: "inspect "@ + id,
            cmd: seq!["docker"@, "inspect"@, id],
        }),
{
    assert(d_cmd(seq!["logs"@, "--tail"@, "300"@, id]) =~= seq![
        "docker"@,
        "logs"@,
        "--tail"@,
        "300"@,
        id,
    ]);
    assert(d_cmd(seq!["exec"@, "-it"@, id, "sh"@]) =~= seq!["docker"@, "exec"@, "-it"@, id, "sh"@]);
    assert(d_cmd(seq!["inspect"@, id]) =~= seq!["docker"@, "inspect"@, id]);
}

} // verus!

