//! The list shared by every module: rows with a display look, an id for the
//! actions, a live filter and a selection that always points at a visible row.
use vstd::prelude::*;
use crate::text::{chars_of, concat, contains, contains_seq, string_of, trim, trim_chars};
use crate::theme::Color;

verus! {

/// A key press, by the key's identity (modifiers play no part).
#[derive(Clone, Copy, Debug, PartialEq, Eq, Structural)]
pub enum Key {
    Char(char),
    Enter,
    Esc,
    Backspace,
    Up,
    Down,
    PageUp,
    PageDown,
    Tab,
    BackTab,
    Other,
}

/// Foreground colour and emphasis of a piece of text.
#[derive(Clone, Copy, Debug, PartialEq, Eq, Structural)]
pub struct Style {
    pub fg: Option<Color>,
    pub bold: bool,
    pub underlined: bool,
}

/// A piece of a row drawn in one style.
#[derive(Clone, Debug)]
pub struct Span {
    pub content: String,
    pub style: Style,
}

/// How a row is drawn.
#[derive(Clone, Debug)]
pub enum Look {
    Plain,
    Colored(Color),
    Spans(Vec<Span>),
}

/// A row: how it looks, its plain text (what the filter and the clipboard
/// see) and the id that the module's actions use.
#[derive(Clone, Debug)]
pub struct Row {
    pub text: String,
    pub id: String,
    pub look: Look,
}

/// A rectangle of terminal cells.
#[derive(Clone, Copy, Debug, PartialEq, Eq, Structural)]
pub struct Rect {
    pub x: u16,
    pub y: u16,
    pub width: u16,
    pub height: u16,
}

/// The rectangle of `pct_x`% × `pct_y`% of `area`, centred in it (overlays).
pub fn centered(area: Rect, pct_x: u16, pct_y: u16) -> (r: Rect)
    requires
        area.width * pct_x <= u16::MAX,
        area.height * pct_y <= u16::MAX,
        area.width * pct_x / 100 <= area.width,
        area.height * pct_y / 100 <= area.height,
        area.x + area.width <= u16::MAX,
        area.y + area.height <= u16::MAX,
    ensures
        r.width == area.width * pct_x / 100,
        r.height == area.height * pct_y / 100,
        r.x == area.x + (area.width - r.width) / 2,
        r.y == area.y + (area.height - r.height) / 2,
{
    let w = area.width * pct_x / 100;
    let h = area.height * pct_y / 100;
    Rect { x: area.x + (area.width - w) / 2, y: area.y + (area.height - h) / 2, width: w, height: h }
}

/// `str::to_lowercase`: the Unicode lowercase of a string.
pub uninterp spec fn lowercase(s: Seq<char>) -> Seq<char>;

/// Whether every character of `s` is ASCII.
pub open spec fn is_ascii_text(s: Seq<char>) -> bool {
    forall|k: int| 0 <= k < s.len() ==> (#[trigger] s[k] as u32) < 0x80
}

/// `s` with `A`-`Z` turned into `a`-`z`.
pub open spec fn lower_ascii(s: Seq<char>) -> Seq<char> {
    s.map_values(|c: char| crate::text::ascii_lower(c))
}

/// `str::to_lowercase`. Each character maps to one or more characters, so the
/// result is empty exactly when `s` is; on ASCII text the Unicode lowercase
/// mapping turns `A`-`Z` into `a`-`z` and keeps every other character. Beyond
/// ASCII the mapping is left to the name.
#[verifier::external_body]
pub(crate) fn to_lowercase(s: &str) -> (r: String)
    ensures
        r@ == lowercase(s@),
        (r@.len() == 0) == (s@.len() == 0),
        is_ascii_text(s@) ==> r@ == lower_ascii(s@),
{
    s.to_lowercase()
}

/// `String::push`.
#[verifier::external_body]
pub(crate) fn push_char(s: &mut String, c: char)
    ensures
        final(s)@ == old(s)@.push(c),
{
    s.push(c)
}

/// `String::pop`: removes and returns the last character, if any.
#[verifier::external_body]
pub(crate) fn pop_char(s: &mut String) -> (r: Option<char>)
    ensures
        old(s)@.len() == 0 ==> r is None && final(s)@ == old(s)@,
        old(s)@.len() > 0 ==> r == Some(old(s)@.last()) && final(s)@ == old(s)@.drop_last(),
{
    s.pop()
}

/// Whether a row of text `text` passes the filter `filter`: case-insensitive
/// substring, and every row passes an empty filter.
pub open spec fn shown(text: Seq<char>, filter: Seq<char>) -> bool {
    filter.len() == 0 || contains_seq(lowercase(text), lowercase(filter))
}

/// The filter on ASCII text: a substring once both are lower-cased, and an
/// empty filter shows every row.
pub open spec fn ascii_shown(text: Seq<char>, filter: Seq<char>) -> bool {
    filter.len() == 0 || contains_seq(lower_ascii(text), lower_ascii(filter))
}

/// Indices of the rows among the first `n` that pass the filter, in order.
pub open spec fn visible_upto(rows: Seq<Row>, filter: Seq<char>, n: int) -> Seq<int>
    decreases n,
{
    if n <= 0 {
        Seq::empty()
    } else {
        let v = visible_upto(rows, filter, n - 1);
        if shown(rows[n - 1].text@, filter) {
            v.push(n - 1)
        } else {
            v
        }
    }
}

pub proof fn lemma_visible_upto(rows: Seq<Row>, filter: Seq<char>, n: int)
    requires
        0 <= n <= rows.len(),
    ensures
        visible_upto(rows, filter, n).len() <= n,
        forall|k: int|
            0 <= k < visible_upto(rows, filter, n).len() ==> 0 <= #[trigger] visible_upto(
                rows,
                filter,
                n,
            )[k] < n,
        forall|k: int|
            0 <= k < visible_upto(rows, filter, n).len() ==> shown(
                rows[visible_upto(rows, filter, n)[k]].text@,
                filter,
            ),
        filter.len() == 0 ==> visible_upto(rows, filter, n) == Seq::new(
            n as nat,
            |k: int| k,
        ),
    decreases n,
{
    if n > 0 {
        lemma_visible_upto(rows, filter, n - 1);
        if filter.len() == 0 {
            assert(visible_upto(rows, filter, n) =~= Seq::new(n as nat, |k: int| k));
        }
    }
}

/// The state of a list: its rows, selection (a position among the visible
/// rows), filter text and whether the filter is being typed.
pub struct ListModel {
    pub rows: Seq<Row>,
    pub sel: Option<usize>,
    pub filter: Seq<char>,
    pub filtering: bool,
}

/// A list as it starts: no rows, no selection, no filter, not filtering.
pub open spec fn fresh(m: ListModel) -> bool {
    m.rows.len() == 0 && m.sel is None && m.filter.len() == 0 && !m.filtering
}

/// Indices of the visible rows.
pub open spec fn visible(m: ListModel) -> Seq<int> {
    visible_upto(m.rows, m.filter, m.rows.len() as int)
}

/// The selection points at a visible row, and there is one whenever a row is visible.
pub open spec fn selection_ok(m: ListModel) -> bool {
    let n = visible(m).len();
    &&& n == 0 ==> m.sel is None
    &&& n > 0 ==> m.sel is Some && m.sel.unwrap() < n
}

/// The selection after the rows or the filter change: kept where it was when
/// possible, moved to the last visible row when past it, the first when there
/// was none, and none when no row is visible.
pub open spec fn clamp_sel(sel: Option<usize>, n: int) -> Option<usize> {
    if n <= 0 {
        None
    } else {
        let i = match sel {
            Some(i) => i as int,
            None => 0,
        };
        Some((if i < n - 1 {
            i
        } else {
            n - 1
        }) as usize)
    }
}

pub open spec fn is_up(k: Key) -> bool {
    k == Key::Char('w') || k == Key::Char('W') || k == Key::Up
}

pub open spec fn is_down(k: Key) -> bool {
    k == Key::Char('s') || k == Key::Char('S') || k == Key::Down
}

pub open spec fn is_filter_key(k: Key) -> bool {
    k == Key::Char('/') || k == Key::Char('f') || k == Key::Char('F')
}

/// The filter text after key `k` while it is being typed.
pub open spec fn edit_filter(filter: Seq<char>, k: Key) -> Seq<char> {
    match k {
        Key::Esc => Seq::empty(),
        Key::Backspace => if filter.len() > 0 {
            filter.drop_last()
        } else {
            filter
        },
        Key::Char(c) => filter.push(c),
        _ => filter,
    }
}

/// The list after key `k`, and whether the list consumed the key.
pub open spec fn key_step(m: ListModel, k: Key) -> (ListModel, bool) {
    if m.filtering {
        let typed = ListModel {
            rows: m.rows,
            sel: m.sel,
            filter: edit_filter(m.filter, k),
            filtering: !(k == Key::Esc || k == Key::Enter),
        };
        (
            ListModel {
                rows: typed.rows,
                sel: clamp_sel(m.sel, visible(typed).len() as int),
                filter: typed.filter,
                filtering: typed.filtering,
            },
            true,
        )
    } else {
        let n = visible(m).len();
        let i = match m.sel {
            Some(i) => i as int,
            None => 0,
        };
        if is_up(k) {
            (
                ListModel {
                    rows: m.rows,
                    sel: if n > 0 {
                        Some((if i > 0 {
                            i - 1
                        } else {
                            0
                        }) as usize)
                    } else {
                        m.sel
                    },
                    filter: m.filter,
                    filtering: m.filtering,
                },
                true,
            )
        } else if is_down(k) {
            (
                ListModel {
                    rows: m.rows,
                    sel: if n > 0 {
                        Some((if i + 1 < n - 1 {
                            i + 1
                        } else {
                            n - 1
                        }) as usize)
                    } else {
                        m.sel
                    },
                    filter: m.filter,
                    filtering: m.filtering,
                },
                true,
            )
        } else if is_filter_key(k) {
            (ListModel { rows: m.rows, sel: m.sel, filter: m.filter, filtering: true }, true)
        } else {
            (m, false)
        }
    }
}

/// The text of a row built from spans: their contents, in order.
pub open spec fn spans_text(spans: Seq<Span>) -> Seq<char>
    decreases spans.len(),
{
    if spans.len() == 0 {
        Seq::empty()
    } else {
        spans_text(spans.drop_last()) + spans.last().content@
    }
}

/// Plain rows (text, id).
pub open spec fn plain_rows(items: Seq<(String, String)>) -> Seq<Row> {
    items.map_values(|it: (String, String)| Row { text: it.0, id: it.1, look: Look::Plain })
}

/// Rows with an optional colour each.
pub open spec fn styled_rows(items: Seq<(String, String, Option<Color>)>) -> Seq<Row> {
    items.map_values(
        |it: (String, String, Option<Color>)|
            Row {
                text: it.0,
                id: it.1,
                look: match it.2 {
                    Some(c) => Look::Colored(c),
                    None => Look::Plain,
                },
            },
    )
}

/// What `clip` gives for a row: its id, or its trimmed text when it has no id;
/// nothing when that is empty.
pub open spec fn clip_of(r: Row) -> Option<Seq<char>> {
    let out = if r.id@.len() == 0 {
        trim(r.text@)
    } else {
        r.id@
    };
    if out.len() == 0 {
        None
    } else {
        Some(out)
    }
}

/// The selected visible row, if any.
pub open spec fn selected_row(m: ListModel) -> Option<Row> {
    match m.sel {
        Some(i) => if i < visible(m).len() {
            Some(m.rows[visible(m)[i as int]])
        } else {
            None
        },
        None => None,
    }
}

pub struct ListView {
    items: Vec<Row>,
    selected: Option<usize>,
    filter: String,
    filtering: bool,
}

impl View for ListView {
    type V = ListModel;

    closed spec fn view(&self) -> ListModel {
        ListModel {
            rows: self.items@,
            sel: self.selected,
            filter: self.filter@,
            filtering: self.filtering,
        }
    }
}

impl ListView {
    pub open spec fn wf(&self) -> bool {
        selection_ok(self@)
    }

    pub fn new() -> (l: Self)
        ensures
            l@.rows.len() == 0,
            l@.sel is None,
            l@.filter.len() == 0,
            !l@.filtering,
            l.wf(),
    {
        ListView { items: Vec::new(), selected: None, filter: String::new(), filtering: false }
    }

    pub fn selection(&self) -> (r: Option<usize>)
        ensures
            r == self@.sel,
    {
        self.selected
    }

    pub fn filter_text(&self) -> (r: &String)
        ensures
            r@ == self@.filter,
    {
        &self.filter
    }

    pub fn is_filtering(&self) -> (r: bool)
        ensures
            r == self@.filtering,
    {
        self.filtering
    }

    /// The row at position `i` of all rows.
    pub fn row(&self, i: usize) -> (r: &Row)
        requires
            i < self@.rows.len(),
        ensures
            *r == self@.rows[i as int],
    {
        &self.items[i]
    }

    /// Whether the row of text `text` passes the current filter.
    fn passes(&self, text: &String) -> (b: bool)
        ensures
            b == shown(text@, self.filter@),
            is_ascii_text(text@) && is_ascii_text(self.filter@) ==> b == ascii_shown(
                text@,
                self.filter@,
            ),
    {
        if self.filter.as_str().is_empty() {
            return true;
        }
        let f = to_lowercase(self.filter.as_str());
        let t = to_lowercase(text.as_str());
        let tc = chars_of(t.as_str());
        let fc = chars_of(f.as_str());
        contains(&tc, &fc)
    }

    /// Indices of the visible rows, in order.
    ///
    /// On ASCII rows and an ASCII filter the filter ignores case: such a row
    /// is visible exactly when its text, lower-cased, contains the filter,
    /// lower-cased (or the filter is empty).
    pub fn visible_indices(&self) -> (v: Vec<usize>)
        ensures
            v@.len() == visible(self@).len(),
            forall|k: int| 0 <= k < v@.len() ==> v@[k] as int == visible(self@)[k],
            forall|j: int|
                0 <= j < self@.rows.len() && is_ascii_text(#[trigger] self@.rows[j].text@)
                    && is_ascii_text(self@.filter) ==> (v@.contains(j as usize) <==> ascii_shown(
                    self@.rows[j].text@,
                    self@.filter,
                )),
    {
        let mut v: Vec<usize> = Vec::new();
        let mut i: usize = 0;
        while i < self.items.len()
            invariant
                i <= self.items@.len(),
                v@.len() == visible_upto(self.items@, self.filter@, i as int).len(),
                forall|k: int|
                    0 <= k < v@.len() ==> v@[k] as int == visible_upto(
                        self.items@,
                        self.filter@,
                        i as int,
                    )[k],
                forall|k: int| 0 <= k < v@.len() ==> #[trigger] v@[k] < i,
                forall|j: int|
                    0 <= j < i && is_ascii_text(#[trigger] self.items@[j].text@) && is_ascii_text(
                        self.filter@,
                    ) ==> (v@.contains(j as usize) <==> ascii_shown(
                        self.items@[j].text@,
                        self.filter@,
                    )),
            decreases self.items@.len() - i,
        {
            let ghost before = v@;
            let ok = self.passes(&self.items[i].text);
            if ok {
                v.push(i);
                assert(v@[v@.len() - 1] == i);
            }
            assert forall|j: int|
                0 <= j < i + 1 && is_ascii_text(#[trigger] self.items@[j].text@) && is_ascii_text(
                    self.filter@,
                ) implies (v@.contains(j as usize) <==> ascii_shown(
                self.items@[j].text@,
                self.filter@,
            )) by {
                if j < i {
                    if before.contains(j as usize) {
                        let k = choose|k: int| 0 <= k < before.len() && before[k] == j as usize;
                        assert(v@[k] == j as usize);
                    }
                    if v@.contains(j as usize) {
                        let k = choose|k: int| 0 <= k < v@.len() && v@[k] == j as usize;
                        if k == before.len() {
                            assert(v@[k] == i);
                        } else {
                            assert(before[k] == j as usize);
                        }
                    }
                } else {
                    if ok {
                        assert(v@[before.len() as int] == i);
                    } else if v@.contains(j as usize) {
                        let k = choose|k: int| 0 <= k < v@.len() && v@[k] == j as usize;
                        assert(before[k] < i);
                    }
                }
            }
            i = i + 1;
        }
        v
    }

    fn clamp(&mut self)
        ensures
            final(self)@.rows == old(self)@.rows,
            final(self)@.filter == old(self)@.filter,
            final(self)@.filtering == old(self)@.filtering,
            final(self)@.sel == clamp_sel(old(self)@.sel, visible(old(self)@).len() as int),
            final(self).wf(),
    {
        let len = self.visible_indices().len();
        if len == 0 {
            self.selected = None;
        } else {
            let i = match self.selected {
                Some(i) => i,
                None => 0,
            };
            let j = if i < len - 1 {
                i
            } else {
                len - 1
            };
            self.selected = Some(j);
        }
    }

    pub fn set_items(&mut self, items: Vec<(String, String)>)
        ensures
            final(self)@.rows == plain_rows(items@),
            final(self)@.filter == old(self)@.filter,
            final(self)@.filtering == old(self)@.filtering,
            final(self)@.sel == clamp_sel(old(self)@.sel, visible(final(self)@).len() as int),
            final(self).wf(),
    {
        let mut rows: Vec<Row> = Vec::new();
        let mut i: usize = 0;
        while i < items.len()
            invariant
                i <= items@.len(),
                rows@ == plain_rows(items@.take(i as int)),
            decreases items@.len() - i,
        {
            let t = items[i].0.clone();
            let id = items[i].1.clone();
            rows.push(Row { text: t, id: id, look: Look::Plain });
            i = i + 1;
            assert(rows@ =~= plain_rows(items@.take(i as int)));
        }
        assert(items@.take(items@.len() as int) =~= items@);
        self.items = rows;
        self.clamp();
    }

    /// Like `set_items`, but each row may carry its own colour (state: running, error...).
    pub fn set_items_styled(&mut self, items: Vec<(String, String, Option<Color>)>)
        ensures
            final(self)@.rows == styled_rows(items@),
            final(self)@.filter == old(self)@.filter,
            final(self)@.filtering == old(self)@.filtering,
            final(self)@.sel == clamp_sel(old(self)@.sel, visible(final(self)@).len() as int),
            final(self).wf(),
    {
        let mut rows: Vec<Row> = Vec::new();
        let mut i: usize = 0;
        while i < items.len()
            invariant
                i <= items@.len(),
                rows@ == styled_rows(items@.take(i as int)),
            decreases items@.len() - i,
        {
            let t = items[i].0.clone();
            let id = items[i].1.clone();
            let look = match items[i].2 {
                Some(c) => Look::Colored(c),
                None => Look::Plain,
            };
            rows.push(Row { text: t, id: id, look: look });
            i = i + 1;
            assert(rows@ =~= styled_rows(items@.take(i as int)));
        }
        assert(items@.take(items@.len() as int) =~= items@);
        self.items = rows;
        self.clamp();
    }

    /// Rows made of spans of several colours; the text of each is its spans'
    /// contents put together.
    pub fn set_items_rich(&mut self, items: Vec<(Vec<Span>, String)>)
        ensures
            final(self)@.rows.len() == items@.len(),
            forall|k: int|
                0 <= k < items@.len() ==> {
                    &&& (#[trigger] final(self)@.rows[k]).text@ == spans_text(items@[k].0@)
                    &&& final(self)@.rows[k].id == items@[k].1
                    &&& final(self)@.rows[k].look == Look::Spans(items@[k].0)
                },
            final(self)@.filter == old(self)@.filter,
            final(self)@.filtering == old(self)@.filtering,
            final(self)@.sel == clamp_sel(old(self)@.sel, visible(final(self)@).len() as int),
            final(self).wf(),
    {
        let mut rows: Vec<Row> = Vec::new();
        let ghost all = items@;
        for item in it: items.into_iter()
            invariant
                it.seq() == all,
                rows@.len() == it.index(),
                forall|k: int|
                    0 <= k < it.index() ==> {
                        &&& (#[trigger] rows@[k]).text@ == spans_text(all[k].0@)
                        &&& rows@[k].id == all[k].1
                        &&& rows@[k].look == Look::Spans(all[k].0)
                    },
        {
            let (spans, id) = item;
            let text = join_spans(&spans);
            rows.push(Row { text: text, id: id, look: Look::Spans(spans) });
        }
        self.items = rows;
        self.clamp();
    }

    /// Id of the selected visible row.
    pub fn selected_id(&self) -> (r: Option<String>)
        ensures
            match selected_row(self@) {
                Some(row) => r is Some && r.unwrap()@ == row.id@,
                None => r is None,
            },
    {
        let vis = self.visible_indices();
        proof {
            lemma_visible_upto(self.items@, self.filter@, self.items@.len() as int);
        }
        match self.selected {
            Some(i) => {
                if i < vis.len() {
                    Some(self.items[vis[i]].id.clone())
                } else {
                    None
                }
            },
            None => None,
        }
    }

    /// Text copied with `y`: the selected row's id when it has one (pid, hash,
    /// path...), else its visible line, trimmed.
    pub fn clip(&self) -> (r: Option<String>)
        ensures
            match selected_row(self@) {
                Some(row) => match clip_of(row) {
                    Some(out) => r is Some && r.unwrap()@ == out,
                    None => r is None,
                },
                None => r is None,
            },
    {
        let vis = self.visible_indices();
        let i = match self.selected {
            Some(i) => i,
            None => {
                return None;
            },
        };
        if i >= vis.len() {
            return None;
        }
        proof {
            lemma_visible_upto(self.items@, self.filter@, self.items@.len() as int);
        }
        let row = &self.items[vis[i]];
        let out = if row.id.as_str().is_empty() {
            let tc = chars_of(row.text.as_str());
            let tt = trim_chars(&tc);
            string_of(&tt)
        } else {
            row.id.clone()
        };
        if out.as_str().is_empty() {
            None
        } else {
            Some(out)
        }
    }

    /// Handles a key: navigation (w/s, arrows), starting the filter (/ or f)
    /// and typing into it. Returns whether the list consumed the key.
    pub fn key(&mut self, key: Key) -> (consumed: bool)
        requires
            old(self).wf(),
        ensures
            (final(self)@, consumed) == key_step(old(self)@, key),
            final(self).wf(),
    {
        if self.filtering {
            match key {
                Key::Esc => {
                    self.filtering = false;
                    self.filter = String::new();
                },
                Key::Enter => {
                    self.filtering = false;
                },
                Key::Backspace => {
                    let _ = pop_char(&mut self.filter);
                },
                Key::Char(c) => {
                    push_char(&mut self.filter, c);
                },
                _ => {},
            }
            self.clamp();
            return true;
        }
        let up = key == Key::Char('w') || key == Key::Char('W') || key == Key::Up;
        let down = key == Key::Char('s') || key == Key::Char('S') || key == Key::Down;
        if up {
            let len = self.visible_indices().len();
            if len > 0 {
                let i = match self.selected {
                    Some(i) => i,
                    None => 0,
                };
                self.selected = Some(if i > 0 {
                    i - 1
                } else {
                    0
                });
            }
            true
        } else if down {
            let len = self.visible_indices().len();
            if len > 0 {
                let i = match self.selected {
                    Some(i) => i,
                    None => 0,
                };
                self.selected = Some(if i + 1 < len - 1 {
                    i + 1
                } else {
                    len - 1
                });
            }
            true
        } else if key == Key::Char('/') || key == Key::Char('f') || key == Key::Char('F') {
            self.filtering = true;
            true
        } else {
            false
        }
    }
}

/// The contents of `spans`, put together.
pub fn join_spans(spans: &Vec<Span>) -> (r: String)
    ensures
        r@ == spans_text(spans@),
{
    let mut acc: String = String::new();
    let mut i: usize = 0;
    while i < spans.len()
        invariant
            i <= spans@.len(),
            acc@ == spans_text(spans@.take(i as int)),
        decreases spans@.len() - i,
    {
        let next = concat(acc.as_str(), spans[i].content.as_str());
        assert(spans@.take(i + 1).drop_last() =~= spans@.take(i as int));
        acc = next;
        i = i + 1;
    }
    assert(spans@.take(spans@.len() as int) =~= spans@);
    acc
}

/// Every key keeps the selection on a visible row (and present whenever a row is visible).
pub proof fn law_key_keeps_selection(m: ListModel, k: Key)
    requires
        selection_ok(m),
    ensures
        selection_ok(key_step(m, k).0),
        key_step(m, k).0.rows == m.rows,
{
}

/// Moving down then up, away from the last row, comes back to the same row.
pub proof fn law_down_then_up(m: ListModel, i: usize)
    requires
        selection_ok(m),
        !m.filtering,
        m.sel == Some(i),
        i + 1 < visible(m).len(),
        m.rows.len() <= usize::MAX,
    ensures
        key_step(key_step(m, Key::Down).0, Key::Up).0.sel == Some(i),
{
    lemma_visible_upto(m.rows, m.filter, m.rows.len() as int);
    let m2 = key_step(m, Key::Down).0;
    assert(m2.rows == m.rows && m2.filter == m.filter && !m2.filtering);
    assert(visible(m2) == visible(m));
    assert(m2.sel == Some((i + 1) as usize));
}

/// Esc while typing the filter clears it, and then every row is visible.
pub proof fn law_escape_shows_all(m: ListModel)
    requires
        m.filtering,
    ensures
        key_step(m, Key::Esc).0.filter.len() == 0,
        !key_step(m, Key::Esc).0.filtering,
        visible(key_step(m, Key::Esc).0) == Seq::new(m.rows.len(), |k: int| k),
{
    let m2 = key_step(m, Key::Esc).0;
    assert(m2.filter.len() == 0);
    assert(m2.rows == m.rows);
    lemma_visible_upto(m2.rows, m2.filter, m2.rows.len() as int);
    assert(visible(m2) =~= Seq::new(m.rows.len(), |k: int| k));
}

/// Enter while typing the filter keeps the filter and ends typing.
pub proof fn law_enter_keeps_filter(m: ListModel)
    requires
        m.filtering,
    ensures
        key_step(m, Key::Enter).0.filter == m.filter,
        !key_step(m, Key::Enter).0.filtering,
        key_step(m, Key::Enter).1,
{
}

/// Outside the filter, only navigation and filter keys are consumed, and an
/// unconsumed key changes nothing.
pub proof fn law_unconsumed_key_changes_nothing(m: ListModel, k: Key)
    requires
        !m.filtering,
        !is_up(k),
        !is_down(k),
        !is_filter_key(k),
    ensures
        key_step(m, k) == (m, false),
{
}


/// While the filter is being typed, a character is added at its end; typing
/// goes on.
pub proof fn law_typing_appends(m: ListModel, c: char)
    requires
        m.filtering,
    ensures
        key_step(m, Key::Char(c)).0.filter == m.filter + seq![c],
        key_step(m, Key::Char(c)).0.filtering,
        key_step(m, Key::Char(c)).0.rows == m.rows,
        key_step(m, Key::Char(c)).1,
{
    assert(m.filter.push(c) =~= m.filter + seq![c]);
}

/// While the filter is being typed, Backspace removes its last character and
/// only that one; typing goes on.
pub proof fn law_backspace_erases_one(m: ListModel)
    requires
        m.filtering,
        m.filter.len() > 0,
    ensures
        key_step(m, Key::Backspace).0.filter.len() == m.filter.len() - 1,
        key_step(m, Key::Backspace).0.filter + seq![m.filter.last()] == m.filter,
        key_step(m, Key::Backspace).0.filtering,
        key_step(m, Key::Backspace).0.rows == m.rows,
        key_step(m, Key::Backspace).1,
{
    assert(m.filter.drop_last() + seq![m.filter.last()] =~= m.filter);
}

/// Typing a character and erasing it gives back the filter and the visible
/// rows as they were.
pub proof fn law_type_then_erase_filter(m: ListModel, c: char)
    requires
        m.filtering,
    ensures
        key_step(key_step(m, Key::Char(c)).0, Key::Backspace).0.filter == m.filter,
        key_step(key_step(m, Key::Char(c)).0, Key::Backspace).0.filtering,
        visible(key_step(key_step(m, Key::Char(c)).0, Key::Backspace).0) == visible(m),
{
    let m1 = key_step(m, Key::Char(c)).0;
    let m2 = key_step(m1, Key::Backspace).0;
    assert(m1.filter == m.filter.push(c));
    assert(m.filter.push(c).drop_last() =~= m.filter);
    assert(m2.rows == m.rows);
}

} // verus!

