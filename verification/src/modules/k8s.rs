//! Kubernetes: pods, deployments, services, nodes and namespaces through `kubectl`.
use vstd::prelude::*;
use crate::modules::{
    act, extend, run, run_confirm, run_v, confirm_v, strs1, strs2, strs3, Action, ActionView,
    Step, StepView,
};
use crate::modules::docker::{result_view, rows_view, sel_id, shown_rows};
use crate::text::{
    chars_of, concat, find_char, find_char_from, lines, lit, split_lines, split_ws, string_of,
    tokens, trim, trim_chars, views_of,
};
use crate::theme::{Color, Palette};
use crate::ui::{key_step, selected_row, Key, ListModel, ListView};

verus! {

/// Title, `kubectl` resource and whether it lives in a namespace, per view,
/// in the order `v` cycles through them.
pub const VIEWS: [(&'static str, &'static str, bool); 5] = [
    ("Pods", "pods", true),
    ("Deployments", "deployments", true),
    ("Services", "services", true),
    ("Nodes", "nodes", false),
    ("Namespaces", "namespaces", false),
];

/// The resource listed by view `view`.
pub open spec fn resource_of(view: usize) -> Seq<char> {
    if view == 0 {
        "pods"@
    } else if view == 1 {
        "deployments"@
    } else if view == 2 {
        "services"@
    } else if view == 3 {
        "nodes"@
    } else {
        "namespaces"@
    }
}

/// Whether the resource of view `view` lives in a namespace.
pub open spec fn namespaced(view: usize) -> bool {
    view < 3
}

fn resource(view: usize) -> (r: &'static str)
    ensures
        r@ == resource_of(view),
{
    if view == 0 {
        "pods"
    } else if view == 1 {
        "deployments"
    } else if view == 2 {
        "services"
    } else if view == 3 {
        "nodes"
    } else {
        "namespaces"
    }
}

/// Colour of a pod by the STATUS column of `kubectl get pods`.
pub open spec fn pod_color(status: Seq<char>, p: Palette) -> Color {
    if status == "Running"@ || status == "Completed"@ {
        p.green
    } else if status == "Pending"@ || status == "ContainerCreating"@ || status
        == "PodInitializing"@ || status == "Terminating"@ {
        p.yellow
    } else {
        p.red
    }
}

pub fn pod_status_color(status: &str, p: &Palette) -> (c: Color)
    ensures
        c == pod_color(status@, *p),
{
    let s = chars_of(status);
    if crate::text::eq_str(&s, "Running") || crate::text::eq_str(&s, "Completed") {
        p.green
    } else if crate::text::eq_str(&s, "Pending") || crate::text::eq_str(&s, "ContainerCreating")
        || crate::text::eq_str(&s, "PodInitializing") || crate::text::eq_str(&s, "Terminating") {
        p.yellow
    } else {
        p.red
    }
}

/// A row id is "namespace name" for namespaced resources, "name" for the
/// rest: split at the first space.
pub open spec fn split_id_spec(id: Seq<char>) -> (Option<Seq<char>>, Seq<char>) {
    let i = find_char_from(id, ' ', 0);
    if i < id.len() {
        (Some(id.take(i)), id.skip(i + 1))
    } else {
        (None, id)
    }
}

pub fn split_id(id: &str) -> (r: (Option<String>, String))
    ensures
        (crate::modules::opt_view(r.0), r.1@) == split_id_spec(id@),
{
    let s = chars_of(id);
    let i = find_char(&s, ' ', 0);
    if i < s.len() {
        let ns = crate::text::slice_of(&s, 0, i);
        let name = crate::text::slice_of(&s, i + 1, s.len());
        assert(ns@ =~= s@.take(i as int));
        assert(name@ =~= s@.skip(i + 1));
        (Some(string_of(&ns)), string_of(&name))
    } else {
        (None, lit(id))
    }
}

/// `kubectl <args> <name>`, then `-n <namespace>` when the id has one.
pub open spec fn kubectl_cmd(id: Seq<char>, args: Seq<Seq<char>>) -> Seq<Seq<char>> {
    let (ns, name) = split_id_spec(id);
    seq!["kubectl"@] + args + seq![name] + match ns {
        Some(n) => seq!["-n"@, n],
        None => Seq::empty(),
    }
}

pub fn kubectl(id: &str, args: Vec<String>) -> (r: Vec<String>)
    ensures
        views_of(r@) == kubectl_cmd(id@, views_of(args@)),
{
    let (ns, name) = split_id(id);
    let mut v = strs1("kubectl");
    let ghost a = views_of(args@);
    extend(&mut v, args);
    let ghost before = views_of(v@);
    v.push(name);
    match ns {
        Some(n) => {
            v.push(lit("-n"));
            v.push(n);
        },
        None => {},
    }
    assert(views_of(v@) =~= kubectl_cmd(id@, a));
    v
}

/// The command that lists view `view`.
pub open spec fn refresh_cmd_spec(view: usize) -> Seq<Seq<char>> {
    seq!["kubectl"@, "get"@, resource_of(view)] + (if namespaced(view) {
        seq!["-A"@]
    } else {
        Seq::empty()
    }) + seq!["--no-headers"@]
}

/// Id of a listed line from its columns: "namespace name" for namespaced
/// resources, else the first column.
pub open spec fn row_id(cols: Seq<Seq<char>>, ns: bool) -> Seq<char> {
    if ns && cols.len() >= 2 {
        cols[0] + " "@ + cols[1]
    } else if cols.len() > 0 {
        cols[0]
    } else {
        Seq::empty()
    }
}

/// Colour of a listed line: in the pods view, by the STATUS column (the
/// fourth of `kubectl get pods -A`).
pub open spec fn row_color(cols: Seq<Seq<char>>, pods: bool, p: Palette) -> Option<Color> {
    if pods {
        Some(pod_color(if cols.len() > 3 { cols[3] } else { Seq::empty() }, p))
    } else {
        None
    }
}

/// Rows from the output of `kubectl get`: blank lines dropped, each line
/// shown as it is.
pub open spec fn k8s_table(ls: Seq<Seq<char>>, ns: bool, pods: bool, p: Palette) -> Seq<
    (Seq<char>, Seq<char>, Option<Color>),
>
    decreases ls.len(),
{
    if ls.len() == 0 {
        Seq::empty()
    } else {
        let prev = k8s_table(ls.drop_last(), ns, pods, p);
        let l = ls.last();
        if trim(l).len() == 0 {
            prev
        } else {
            prev.push((l, row_id(tokens(l), ns), row_color(tokens(l), pods, p)))
        }
    }
}

/// The rows view `view` shows for the output of its command (or its error).
pub open spec fn k8s_rows(view: usize, out: Result<Seq<char>, Seq<char>>, p: Palette) -> Seq<
    (Seq<char>, Seq<char>, Option<Color>),
> {
    match out {
        Ok(o) => {
            let r = k8s_table(lines(o), namespaced(view), view == 0, p);
            if r.len() == 0 {
                seq![("(vacío)"@, Seq::empty(), None)]
            } else {
                r
            }
        },
        Err(e) => seq![("Error: "@ + e, Seq::empty(), None)],
    }
}

/// What a key does on the row of id `id` in view `view`.
pub open spec fn k8s_key(view: usize, key: Key, id: Seq<char>) -> StepView {
    if key == Key::Enter {
        StepView::Capture {
            title: id,
            cmd: if view == 0 {
                kubectl_cmd(id, seq!["logs"@, "--tail=300"@])
            } else {
                kubectl_cmd(id, seq!["describe"@, resource_of(view)])
            },
        }
    } else if key == Key::Char('e') && view == 0 {
        StepView::Act(
            ActionView::Interactive(kubectl_cmd(id, seq!["exec"@, "-it"@]) + seq!["--"@, "sh"@]),
        )
    } else if key == Key::Char('t') && view == 1 {
        run_v(kubectl_cmd(id, seq!["rollout"@, "restart"@, "deployment"@]), true)
    } else if key == Key::Char('c') && view == 1 {
        StepView::Act(
            ActionView::Prompt {
                label: "Número de réplicas"@,
                template: kubectl_cmd(id, seq!["scale"@, "deployment"@]) + seq![
                    "--replicas={}"@,
                ],
                interactive: false,
                show: true,
            },
        )
    } else if key == Key::Char('k') {
        confirm_v(
            kubectl_cmd(id, seq!["delete"@, resource_of(view)]),
            "¿Eliminar "@ + resource_of(view) + " "@ + id + "?"@,
            true,
        )
    } else {
        StepView::Act(ActionView::Ignored)
    }
}

fn row_id_of(cols: &Vec<Vec<char>>, ns: bool) -> (r: Vec<char>)
    ensures
        r@ == row_id(cols.deep_view(), ns),
{
    if ns && cols.len() >= 2 {
        proof {
            crate::text::lemma_deep_chars(cols@[0]);
            crate::text::lemma_deep_chars(cols@[1]);
        }
        let mut r = crate::text::copy(&cols[0]);
        crate::text::append_str(&mut r, " ");
        crate::text::append(&mut r, &cols[1]);
        r
    } else if cols.len() > 0 {
        proof {
            crate::text::lemma_deep_chars(cols@[0]);
        }
        crate::text::copy(&cols[0])
    } else {
        Vec::new()
    }
}

fn row_color_of(cols: &Vec<Vec<char>>, pods: bool, p: &Palette) -> (r: Option<Color>)
    ensures
        r == row_color(cols.deep_view(), pods, *p),
{
    if pods {
        let st = if cols.len() > 3 {
            proof {
                crate::text::lemma_deep_chars(cols@[3]);
            }
            string_of(&cols[3])
        } else {
            String::new()
        };
        Some(pod_status_color(st.as_str(), p))
    } else {
        None
    }
}

fn k8s_table_of(ls: &Vec<Vec<char>>, ns: bool, pods: bool, p: &Palette) -> (r: Vec<
    (String, String, Option<Color>),
>)
    ensures
        rows_view(r@) == k8s_table(ls.deep_view(), ns, pods, *p),
{
    let mut acc: Vec<(String, String, Option<Color>)> = Vec::new();
    let mut i: usize = 0;
    while i < ls.len()
        invariant
            i <= ls@.len(),
            rows_view(acc@) == k8s_table(ls.deep_view().take(i as int), ns, pods, *p),
        decreases ls@.len() - i,
    {
        proof {
            crate::text::lemma_deep_chars(ls@[i as int]);
            assert(ls.deep_view().take(i + 1).drop_last() =~= ls.deep_view().take(i as int));
        }
        let ghost before = acc@;
        let l = &ls[i];
        if trim_chars(l).len() > 0 {
            let cols = split_ws(l);
            let id = row_id_of(&cols, ns);
            let color = row_color_of(&cols, pods, p);
            acc.push((string_of(l), string_of(&id), color));
            assert(rows_view(acc@) =~= rows_view(before).push((l@, id@, color)));
        }
        i = i + 1;
    }
    assert(ls.deep_view().take(ls@.len() as int) =~= ls.deep_view());
    acc
}

/// The action of `key` on the row of id `id` in view `view`.
fn row_action(view: usize, key: Key, id: &str) -> (r: Step)
    ensures
        r@ == k8s_key(view, key, id@),
{
    let res = resource(view);
    if key == Key::Enter {
        let cmd = if view == 0 {
            kubectl(id, strs2("logs", "--tail=300"))
        } else {
            kubectl(id, strs2("describe", res))
        };
        Step::Capture { title: lit(id), cmd }
    } else if key == Key::Char('e') && view == 0 {
        let mut cmd = kubectl(id, strs2("exec", "-it"));
        extend(&mut cmd, strs2("--", "sh"));
        act(Action::Interactive(cmd))
    } else if key == Key::Char('t') && view == 1 {
        run(kubectl(id, strs3("rollout", "restart", "deployment")), true)
    } else if key == Key::Char('c') && view == 1 {
        let mut template = kubectl(id, strs2("scale", "deployment"));
        extend(&mut template, strs1("--replicas={}"));
        act(
            Action::Prompt {
                label: lit("Número de réplicas"),
                template,
                interactive: false,
                show: true,
            },
        )
    } else if key == Key::Char('k') {
        let m1 = concat("¿Eliminar ", res);
        let m2 = concat(m1.as_str(), " ");
        let m3 = concat(m2.as_str(), id);
        let msg = concat(m3.as_str(), "?");
        run_confirm(kubectl(id, strs2("delete", res)), msg, true)
    } else {
        act(Action::Ignored)
    }
}

/// Pods, deployments, services, nodes and namespaces.
pub struct K8s {
    view: usize,
    list: ListView,
}

impl K8s {
    pub closed spec fn view_index(&self) -> usize {
        self.view
    }

    pub closed spec fn list_model(&self) -> ListModel {
        self.list@
    }

    pub closed spec fn wf(&self) -> bool {
        self.view < 5 && self.list.wf()
    }

    pub fn new() -> (r: Self)
        ensures
            r.wf(),
            r.view_index() == 0,
            crate::ui::fresh(r.list_model()),
    {
        K8s { view: 0, list: ListView::new() }
    }

    pub fn current_view(&self) -> (r: usize)
        ensures
            r == self.view_index(),
    {
        self.view
    }

    pub fn list(&self) -> (r: &ListView)
        ensures
            r@ == self.list_model(),
    {
        &self.list
    }

    /// kubectl is not installed.
    pub fn set_missing(&mut self)
        requires
            old(self).wf(),
        ensures
            final(self).wf(),
            final(self).view_index() == old(self).view_index(),
            shown_rows(final(self).list_model().rows) == seq![
                ("kubectl no está instalado"@, Seq::<char>::empty(), None::<Color>),
            ],
    {
        let t = lit("kubectl no está instalado");
        let ghost tv = t@;
        self.list.set_items(vec![(t, String::new())]);
        assert(shown_rows(self.list@.rows) =~= seq![(tv, Seq::<char>::empty(), None::<Color>)]);
    }

    /// The command whose output the current view shows.
    pub fn refresh_cmd(&self) -> (r: Vec<String>)
        ensures
            views_of(r@) == refresh_cmd_spec(self.view_index()),
    {
        let mut v = strs3("kubectl", "get", resource(self.view));
        if self.view < 3 {
            extend(&mut v, strs1("-A"));
        }
        extend(&mut v, strs1("--no-headers"));
        assert(views_of(v@) =~= refresh_cmd_spec(self.view_index()));
        v
    }

    /// Shows the output of `refresh_cmd` (or the error it ended with).
    pub fn apply_output(&mut self, out: Result<String, String>, p: &Palette)
        requires
            old(self).wf(),
        ensures
            final(self).wf(),
            final(self).view_index() == old(self).view_index(),
            shown_rows(final(self).list_model().rows) == k8s_rows(
                old(self).view_index(),
                result_view(out),
                *p,
            ),
    {
        let rows = match out {
            Ok(o) => {
                let oc = chars_of(o.as_str());
                let ls = split_lines(&oc);
                let r = k8s_table_of(&ls, self.view < 3, self.view == 0, p);
                if r.len() == 0 {
                    vec![(lit("(vacío)"), String::new(), None)]
                } else {
                    r
                }
            },
            Err(e) => vec![(concat("Error: ", e.as_str()), String::new(), None)],
        };
        let ghost expect = k8s_rows(self.view, result_view(out), *p);
        assert(rows_view(rows@) =~= expect);
        self.list.set_items_styled(rows);
        assert(shown_rows(self.list@.rows) =~= expect);
    }

    /// Handles a key: the list's own keys first, then `v` (next view), then
    /// the actions on the selected row.
    pub fn on_key(&mut self, key: Key) -> (r: Step)
        requires
            old(self).wf(),
        ensures
            final(self).wf(),
            final(self).list_model() == key_step(old(self).list_model(), key).0,
            key_step(old(self).list_model(), key).1 ==> r@ == StepView::Act(ActionView::Handled)
                && final(self).view_index() == old(self).view_index(),
            !key_step(old(self).list_model(), key).1 && key == Key::Char('v') ==> r@
                == StepView::Act(ActionView::Refresh) && final(self).view_index() == (
            old(self).view_index() + 1) % 5,
            !key_step(old(self).list_model(), key).1 && key != Key::Char('v') ==> {
                &&& final(self).view_index() == old(self).view_index()
                &&& r@ == match sel_id(old(self).list_model()) {
                    Some(id) => k8s_key(old(self).view_index(), key, id),
                    None => StepView::Act(ActionView::Ignored),
                }
            },
    {
        if self.list.key(key) {
            return act(Action::Handled);
        }
        if key == Key::Char('v') {
            self.view = (self.view + 1) % 5;
            return act(Action::Refresh);
        }
        let id = match self.list.selected_id() {
            Some(id) => {
                if id.as_str().is_empty() {
                    return act(Action::Ignored);
                }
                id
            },
            None => {
                return act(Action::Ignored);
            },
        };
        row_action(self.view, key, id.as_str())
    }

    /// The module's own shortcuts for the bottom bar.
    pub fn footer(&self) -> (r: String)
        ensures
            r@ == "v vista · Enter logs/describe · e shell · t rollout restart · c escalar · k eliminar"@,
    {
        lit("v vista · Enter logs/describe · e shell · t rollout restart · c escalar · k eliminar")
    }

    /// Text copied by the global `y` key.
    pub fn clip(&self) -> (r: Option<String>)
        ensures
            crate::modules::opt_view(r) == match selected_row(self.list_model()) {
                Some(row) => crate::ui::clip_of(row),
                None => None,
            },
    {
        self.list.clip()
    }
}


/// Deleting a resource always asks first.
pub proof fn law_delete_confirms(view: usize, id: Seq<char>)
    ensures
        k8s_key(view, Key::Char('k'), id) matches StepView::Act(
            ActionView::Run { confirm: Some(_), .. },
        ),
{
}

} // verus!
