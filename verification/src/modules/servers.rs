//! Servers: listening development ports, SSH hosts, and networking.
use vstd::prelude::*;
use crate::modules::{
    act, run, run_confirm, run_v, confirm_v, strs1, Action, ActionView, Step, StepView, opt_view,
};
use crate::modules::docker::{result_view, rows_view, sel_id, shown_rows};
use crate::text::{
    append, append_str, chars_of, concat, contains, contains_seq, copy, eq_ascii_nocase, eq_str,
    eq_ignore_ascii_case, ends_with, find_char, find_char_from, find_seq, find_seq_from,
    has_suffix, is_digit, lines, lines_from, lit, pad, pad_right, pieces, rsplit_once, rsplit_once_char,
    slice_of, split_char, split_lines, split_ws, string_of, strip_prefix_spec,
    strip_cr, tokens, trim, trim_chars, views_of,
};
use crate::theme::{Color, Palette};
use crate::ui::{key_step, selected_row, Key, ListModel, ListView, Span, Style};
use crate::config::Server;

verus! {

/// Names of the views, in the order `v` cycles through them.
pub const VIEWS: [&'static str; 3] = ["Ports", "SSH", "Network"];

/// Named development ports outside the `is_dev_port` ranges: databases,
/// queues, observability, LLMs... (n8n 5678, ollama 11434, etc.).
pub const DEV_PORTS: [u16; 79] = [
    1025,
    1080,
    1313,
    1433,
    1521,
    1880,
    1883,
    2181,
    2375,
    2376,
    2379,
    2380,
    3100,
    3200,
    3306,
    3690,
    4200,
    4222,
    4317,
    4318,
    4321,
    4443,
    4566,
    4646,
    5555,
    5601,
    5671,
    5672,
    5678,
    5858,
    5984,
    6006,
    6060,
    6333,
    6443,
    7077,
    7233,
    7474,
    7687,
    7700,
    7860,
    8123,
    8161,
    8200,
    8500,
    8501,
    8529,
    8545,
    8546,
    8761,
    8787,
    8848,
    8983,
    9042,
    9200,
    9222,
    9229,
    9300,
    9411,
    9418,
    10000,
    10250,
    11211,
    11434,
    15672,
    16686,
    19000,
    19006,
    24678,
    27017,
    27018,
    27019,
    28015,
    33060,
    35729,
    50051,
    54321,
    54322,
    61616,
];

/// A typical development-server port: the web-framework ranges (node,
/// vite, flask, django, jupyter, postgres, redis...) or a named one. Desktop
/// noise (spotify, vscode, discord, cups...) stays out.
pub open spec fn dev_port(port: u16) -> bool {
    ||| 3000 <= port <= 3099
    ||| 4000 <= port <= 4050
    ||| 5000 <= port <= 5099
    ||| 5170 <= port <= 5180
    ||| 5432 <= port <= 5440
    ||| 6379 <= port <= 6390
    ||| 7000 <= port <= 7010
    ||| 8000 <= port <= 8099
    ||| 8440 <= port <= 8450
    ||| 8880 <= port <= 8899
    ||| 9000 <= port <= 9099
    ||| DEV_PORTS@.contains(port)
}

/// Whether `port` is a typical development-server port.
pub fn is_dev_port(port: u16) -> (b: bool)
    ensures
        b == dev_port(port),
{
    if (3000 <= port && port <= 3099) || (4000 <= port && port <= 4050) || (5000 <= port && port
        <= 5099) || (5170 <= port && port <= 5180) || (5432 <= port && port <= 5440) || (6379
        <= port && port <= 6390) || (7000 <= port && port <= 7010) || (8000 <= port && port
        <= 8099) || (8440 <= port && port <= 8450) || (8880 <= port && port <= 8899) || (9000
        <= port && port <= 9099) {
        return true;
    }
    let mut i: usize = 0;
    while i < 79
        invariant
            i <= 79,
            forall|j: int| 0 <= j < i ==> DEV_PORTS@[j] != port,
        decreases 79 - i,
    {
        if DEV_PORTS[i] == port {
            assert(DEV_PORTS@[i as int] == port);
            return true;
        }
        i = i + 1;
    }
    assert(!DEV_PORTS@.contains(port));
    false
}

/// A host name that is not a pattern (`*`, `?`, `!`).
pub open spec fn plain_host(h: Seq<char>) -> bool {
    !crate::text::has_char(h, '*') && !crate::text::has_char(h, '?') && !crate::text::has_char(h, '!')
}

/// The plain names among `ts`, in order.
pub open spec fn plain_hosts(ts: Seq<Seq<char>>) -> Seq<Seq<char>>
    decreases ts.len(),
{
    if ts.len() == 0 {
        Seq::empty()
    } else {
        let prev = plain_hosts(ts.drop_last());
        if plain_host(ts.last()) {
            prev.push(ts.last())
        } else {
            prev
        }
    }
}

/// The names after `Host ` (or `host `) on a trimmed line.
pub open spec fn host_line(line: Seq<char>) -> Seq<Seq<char>> {
    let l = trim(line);
    match strip_prefix_spec(l, "Host "@) {
        Some(rest) => plain_hosts(tokens(rest)),
        None => match strip_prefix_spec(l, "host "@) {
            Some(rest) => plain_hosts(tokens(rest)),
            None => Seq::empty(),
        },
    }
}

/// Hosts of an ssh config, in order.
pub open spec fn ssh_hosts(ls: Seq<Seq<char>>) -> Seq<Seq<char>>
    decreases ls.len(),
{
    if ls.len() == 0 {
        Seq::empty()
    } else {
        ssh_hosts(ls.drop_last()) + host_line(ls.last())
    }
}

fn host_names(line: &Vec<char>) -> (r: Vec<Vec<char>>)
    ensures
        r.deep_view() == host_line(line@),
{
    let l = trim_chars(line);
    let rest = match crate::text::strip_prefix(&l, "Host ") {
        Some(r) => r,
        None => match crate::text::strip_prefix(&l, "host ") {
            Some(r) => r,
            None => {
                let e: Vec<Vec<char>> = Vec::new();
                assert(e.deep_view() =~= host_line(line@));
                return e;
            },
        },
    };
    let ts = split_ws(&rest);
    let mut out: Vec<Vec<char>> = Vec::new();
    let mut i: usize = 0;
    while i < ts.len()
        invariant
            i <= ts@.len(),
            out.deep_view() == plain_hosts(ts.deep_view().take(i as int)),
        decreases ts@.len() - i,
    {
        proof {
            crate::text::lemma_deep_chars(ts@[i as int]);
            assert(ts.deep_view().take(i + 1).drop_last() =~= ts.deep_view().take(i as int));
        }
        let ghost before = out.deep_view();
        let h = &ts[i];
        if !crate::text::contains_char(h, '*') && !crate::text::contains_char(h, '?')
            && !crate::text::contains_char(h, '!') {
            let c = copy(h);
            out.push(c);
            proof {
                crate::text::lemma_deep_chars(c);
            }
            assert(out.deep_view() =~= before.push(c@));
        }
        i = i + 1;
    }
    assert(ts.deep_view().take(ts@.len() as int) =~= ts.deep_view());
    out
}

/// Hosts from ~/.ssh/config (wildcard patterns left out).
pub fn parse_ssh_config(text: &str) -> (r: Vec<String>)
    ensures
        views_of(r@) == ssh_hosts(lines(text@)),
{
    let tc = chars_of(text);
    let ls = split_lines(&tc);
    let mut out: Vec<String> = Vec::new();
    let mut i: usize = 0;
    while i < ls.len()
        invariant
            i <= ls@.len(),
            ls.deep_view() == lines(text@),
            views_of(out@) == ssh_hosts(ls.deep_view().take(i as int)),
        decreases ls@.len() - i,
    {
        proof {
            crate::text::lemma_deep_chars(ls@[i as int]);
            assert(ls.deep_view().take(i + 1).drop_last() =~= ls.deep_view().take(i as int));
        }
        let hs = host_names(&ls[i]);
        let ghost before = views_of(out@);
        let mut k: usize = 0;
        while k < hs.len()
            invariant
                k <= hs@.len(),
                views_of(out@) == before + hs.deep_view().take(k as int),
            decreases hs@.len() - k,
        {
            proof {
                crate::text::lemma_deep_chars(hs@[k as int]);
            }
            let ghost b2 = out@;
            let h = string_of(&hs[k]);
            out.push(h);
            assert(views_of(out@) =~= views_of(b2).push(h@));
            k = k + 1;
            assert(hs.deep_view().take(k as int) =~= hs.deep_view().take(k - 1).push(
                hs@[k - 1]@,
            ));
        }
        assert(hs.deep_view().take(hs@.len() as int) =~= hs.deep_view());
        i = i + 1;
    }
    assert(ls.deep_view().take(ls@.len() as int) =~= ls.deep_view());
    out
}

/// Index of the first non-digit character at or after `i`, or `s.len()`.
pub open spec fn digits_end_from(s: Seq<char>, i: int) -> int
    decreases s.len() - i,
{
    if i >= s.len() {
        s.len() as int
    } else if is_digit(s[i]) {
        digits_end_from(s, i + 1)
    } else {
        i
    }
}

/// The leading ASCII digits of `s`.
pub open spec fn digit_run(s: Seq<char>) -> Seq<char> {
    s.take(digits_end_from(s, 0))
}

fn leading_digits(s: &Vec<char>) -> (r: Vec<char>)
    ensures
        r@ == digit_run(s@),
{
    let mut i: usize = 0;
    while i < s.len() && crate::text::is_ascii_digit(s[i])
        invariant
            i <= s@.len(),
            digits_end_from(s@, 0) == digits_end_from(s@, i as int),
        decreases s@.len() - i,
    {
        i = i + 1;
    }
    let r = slice_of(s, 0, i);
    assert(r@ =~= s@.take(i as int));
    r
}

/// The second piece of `str::split(p)`: between the first and second `p` (or the end).
pub open spec fn second_piece(s: Seq<char>, p: Seq<char>) -> Option<Seq<char>> {
    let k = find_seq_from(s, p, 0);
    if k >= s.len() {
        None
    } else {
        let after = s.skip(k + p.len());
        Some(after.take(find_seq_from(after, p, 0)))
    }
}

/// Host shown for a listening address: `localhost` for loopback and for
/// every-interface addresses, else the address itself.
pub open spec fn host_of(addr: Seq<char>, exposed: bool) -> Seq<char> {
    if exposed || addr == "127.0.0.1"@ || addr == "[::1]"@ {
        "localhost"@
    } else {
        addr
    }
}

/// One `ss -tlnp` line → (host, port, process name, pid, exposed to the network).
pub open spec fn ss_line(l: Seq<char>) -> Option<(Seq<char>, Seq<char>, Seq<char>, Seq<char>, bool)> {
    let cols = tokens(l);
    if cols.len() == 0 || cols[0] != "LISTEN"@ || cols.len() < 4 {
        None
    } else {
        match rsplit_once(cols[3], ':') {
            None => None,
            Some((addr, port)) => {
                let exposed = addr == "0.0.0.0"@ || addr == "*"@ || addr == "[::]"@ || addr
                    == "::"@;
                let proc_tok = if cols.len() > 5 {
                    cols[5]
                } else {
                    Seq::empty()
                };
                let q = find_char_from(proc_tok, '"', 0);
                let name = if q >= proc_tok.len() {
                    "?"@
                } else {
                    proc_tok.subrange(q + 1, find_char_from(proc_tok, '"', q + 1))
                };
                let pid = match second_piece(proc_tok, "pid="@) {
                    Some(seg) => digit_run(seg),
                    None => Seq::empty(),
                };
                Some((host_of(addr, exposed), port, name, pid, exposed))
            },
        }
    }
}

pub open spec fn quint_view(r: Option<(String, String, String, String, bool)>) -> Option<
    (Seq<char>, Seq<char>, Seq<char>, Seq<char>, bool),
> {
    match r {
        Some((a, b, c, d, e)) => Some((a@, b@, c@, d@, e)),
        None => None,
    }
}

fn second_piece_of(s: &Vec<char>, p: &str) -> (r: Option<Vec<char>>)
    ensures
        match r {
            Some(t) => second_piece(s@, p@) == Some(t@),
            None => second_piece(s@, p@) is None,
        },
{
    let pc = chars_of(p);
    let k = find_seq(s, &pc, 0);
    if k >= s.len() {
        return None;
    }
    proof {
        crate::text::lemma_find_seq_from(s@, p@, 0);
    }
    let after = slice_of(s, k + pc.len(), s.len());
    assert(after@ =~= s@.skip(k + p@.len()));
    let e = find_seq(&after, &pc, 0);
    let seg = slice_of(&after, 0, e);
    assert(seg@ =~= after@.take(e as int));
    Some(seg)
}

fn is_any_addr(addr: &Vec<char>, with_double_colon: bool) -> (b: bool)
    ensures
        b == (addr@ == "0.0.0.0"@ || addr@ == "*"@ || addr@ == "[::]"@ || (with_double_colon
            && addr@ == "::"@)),
{
    eq_str(addr, "0.0.0.0") || eq_str(addr, "*") || eq_str(addr, "[::]") || (with_double_colon
        && eq_str(addr, "::"))
}

fn host_for(addr: &Vec<char>, exposed: bool) -> (r: String)
    ensures
        r@ == host_of(addr@, exposed),
{
    if exposed || eq_str(addr, "127.0.0.1") || eq_str(addr, "[::1]") {
        lit("localhost")
    } else {
        string_of(addr)
    }
}

/// One `ss -tlnp` line → (host, port, process name, pid, exposed to the network).
pub fn parse_ss_line(line: &str) -> (r: Option<(String, String, String, String, bool)>)
    ensures
        quint_view(r) == ss_line(line@),
{
    let l = chars_of(line);
    let cols = split_ws(&l);
    if cols.len() == 0 {
        return None;
    }
    proof {
        crate::text::lemma_deep_chars(cols@[0]);
    }
    if !eq_str(&cols[0], "LISTEN") || cols.len() < 4 {
        return None;
    }
    proof {
        crate::text::lemma_deep_chars(cols@[3]);
    }
    let (addr, port) = match rsplit_once_char(&cols[3], ':') {
        Some(x) => x,
        None => {
            return None;
        },
    };
    let exposed = is_any_addr(&addr, true);
    let proc_tok: Vec<char> = if cols.len() > 5 {
        proof {
            crate::text::lemma_deep_chars(cols@[5]);
        }
        copy(&cols[5])
    } else {
        Vec::new()
    };
    let q = find_char(&proc_tok, '"', 0);
    let name = if q >= proc_tok.len() {
        lit("?")
    } else {
        let r = find_char(&proc_tok, '"', q + 1);
        let n = slice_of(&proc_tok, q + 1, r);
        string_of(&n)
    };
    let pid = match second_piece_of(&proc_tok, "pid=") {
        Some(seg) => {
            let d = leading_digits(&seg);
            string_of(&d)
        },
        None => String::new(),
    };
    let host = host_for(&addr, exposed);
    Some((host, string_of(&port), name, pid, exposed))
}

/// One `netstat -ano` line → (host, port, pid, exposed). The state column is
/// not looked at (it is localized on non-English Windows): a listening TCP
/// socket is one whose remote address is port 0, with a numeric pid.
pub open spec fn netstat_line(l: Seq<char>) -> Option<(Seq<char>, Seq<char>, Seq<char>, bool)> {
    let cols = tokens(l);
    if cols.len() < 5 || !eq_ignore_ascii_case(cols[0], "tcp"@) || !ends_with(cols[2], ":0"@) {
        None
    } else {
        let pid = cols[4];
        if pid.len() == 0 || !(forall|k: int| 0 <= k < pid.len() ==> is_digit(#[trigger] pid[k])) {
            None
        } else {
            match rsplit_once(cols[1], ':') {
                None => None,
                Some((addr, port)) => {
                    let exposed = addr == "0.0.0.0"@ || addr == "*"@ || addr == "[::]"@;
                    Some((host_of(addr, exposed), port, pid, exposed))
                },
            }
        }
    }
}

pub open spec fn quad_view(r: Option<(String, String, String, bool)>) -> Option<
    (Seq<char>, Seq<char>, Seq<char>, bool),
> {
    match r {
        Some((a, b, c, d)) => Some((a@, b@, c@, d)),
        None => None,
    }
}

fn all_digits(s: &Vec<char>) -> (b: bool)
    ensures
        b == (forall|k: int| 0 <= k < s@.len() ==> is_digit(#[trigger] s@[k])),
{
    let mut i: usize = 0;
    while i < s.len()
        invariant
            i <= s@.len(),
            forall|k: int| 0 <= k < i ==> is_digit(#[trigger] s@[k]),
        decreases s@.len() - i,
    {
        if !crate::text::is_ascii_digit(s[i]) {
            return false;
        }
        i = i + 1;
    }
    true
}

/// One listening line of `netstat -ano` → (host, port, pid, exposed).
pub fn parse_netstat_line(line: &str) -> (r: Option<(String, String, String, bool)>)
    ensures
        quad_view(r) == netstat_line(line@),
{
    let l = chars_of(line);
    let cols = split_ws(&l);
    if cols.len() < 5 {
        return None;
    }
    proof {
        crate::text::lemma_deep_chars(cols@[0]);
        crate::text::lemma_deep_chars(cols@[1]);
        crate::text::lemma_deep_chars(cols@[2]);
        crate::text::lemma_deep_chars(cols@[4]);
    }
    if !eq_ascii_nocase(&cols[0], "tcp") {
        return None;
    }
    let suffix = chars_of(":0");
    if !has_suffix(&cols[2], &suffix) {
        return None;
    }
    let pid = &cols[4];
    if pid.len() == 0 || !all_digits(pid) {
        return None;
    }
    let (addr, port) = match rsplit_once_char(&cols[1], ':') {
        Some(x) => x,
        None => {
            return None;
        },
    };
    let exposed = is_any_addr(&addr, false);
    let host = host_for(&addr, exposed);
    Some((host, string_of(&port), string_of(pid), exposed))
}

/// Entries of the `ss -tlnp` lines that parse, in order.
pub open spec fn ss_entries_spec(ls: Seq<Seq<char>>) -> Seq<(Seq<char>, Seq<char>, Seq<char>, Seq<char>, bool)>
    decreases ls.len(),
{
    if ls.len() == 0 {
        Seq::empty()
    } else {
        let prev = ss_entries_spec(ls.drop_last());
        match ss_line(ls.last()) {
            Some(e) => prev.push(e),
            None => prev,
        }
    }
}

pub open spec fn quints_view(v: Seq<(String, String, String, String, bool)>) -> Seq<
    (Seq<char>, Seq<char>, Seq<char>, Seq<char>, bool),
> {
    v.map_values(|e: (String, String, String, String, bool)| (e.0@, e.1@, e.2@, e.3@, e.4))
}

/// Listening sockets from the output of `ss -tlnp`.
pub fn ss_entries(out: &str) -> (r: Vec<(String, String, String, String, bool)>)
    ensures
        quints_view(r@) == ss_entries_spec(lines(out@)),
{
    let oc = chars_of(out);
    let ls = split_lines(&oc);
    let mut acc: Vec<(String, String, String, String, bool)> = Vec::new();
    let mut i: usize = 0;
    while i < ls.len()
        invariant
            i <= ls@.len(),
            ls.deep_view() == lines(out@),
            quints_view(acc@) == ss_entries_spec(ls.deep_view().take(i as int)),
        decreases ls@.len() - i,
    {
        proof {
            crate::text::lemma_deep_chars(ls@[i as int]);
            assert(ls.deep_view().take(i + 1).drop_last() =~= ls.deep_view().take(i as int));
        }
        let line = string_of(&ls[i]);
        let ghost before = acc@;
        match parse_ss_line(line.as_str()) {
            Some(e) => {
                acc.push(e);
                assert(quints_view(acc@) =~= quints_view(before).push(
                    (e.0@, e.1@, e.2@, e.3@, e.4),
                ));
            },
            None => {},
        }
        i = i + 1;
    }
    assert(ls.deep_view().take(ls@.len() as int) =~= ls.deep_view());
    acc
}

/// Entries of the `netstat -ano` lines that parse, in order.
pub open spec fn netstat_entries_spec(ls: Seq<Seq<char>>) -> Seq<(Seq<char>, Seq<char>, Seq<char>, bool)>
    decreases ls.len(),
{
    if ls.len() == 0 {
        Seq::empty()
    } else {
        let prev = netstat_entries_spec(ls.drop_last());
        match netstat_line(ls.last()) {
            Some(e) => prev.push(e),
            None => prev,
        }
    }
}

pub open spec fn quads_view(v: Seq<(String, String, String, bool)>) -> Seq<
    (Seq<char>, Seq<char>, Seq<char>, bool),
> {
    v.map_values(|e: (String, String, String, bool)| (e.0@, e.1@, e.2@, e.3))
}

/// Listening sockets from the output of `netstat -ano` (host, port, pid, exposed).
pub fn netstat_entries(out: &str) -> (r: Vec<(String, String, String, bool)>)
    ensures
        quads_view(r@) == netstat_entries_spec(lines(out@)),
{
    let oc = chars_of(out);
    let ls = split_lines(&oc);
    let mut acc: Vec<(String, String, String, bool)> = Vec::new();
    let mut i: usize = 0;
    while i < ls.len()
        invariant
            i <= ls@.len(),
            ls.deep_view() == lines(out@),
            quads_view(acc@) == netstat_entries_spec(ls.deep_view().take(i as int)),
        decreases ls@.len() - i,
    {
        proof {
            crate::text::lemma_deep_chars(ls@[i as int]);
            assert(ls.deep_view().take(i + 1).drop_last() =~= ls.deep_view().take(i as int));
        }
        let line = string_of(&ls[i]);
        let ghost before = acc@;
        match parse_netstat_line(line.as_str()) {
            Some(e) => {
                acc.push(e);
                assert(quads_view(acc@) =~= quads_view(before).push((e.0@, e.1@, e.2@, e.3)));
            },
            None => {},
        }
        i = i + 1;
    }
    assert(ls.deep_view().take(ls@.len() as int) =~= ls.deep_view());
    acc
}

pub open spec fn fg(c: Color) -> Style {
    Style { fg: Some(c), bold: false, underlined: false }
}

pub open spec fn no_style() -> Style {
    Style { fg: None, bold: false, underlined: false }
}

pub open spec fn spans_view(v: Seq<Span>) -> Seq<(Seq<char>, Style)> {
    v.map_values(|s: Span| (s.content@, s.style))
}

/// Spans and id of each rich row.
pub open spec fn rich_view(rows: Seq<crate::ui::Row>) -> Seq<(Seq<(Seq<char>, Style)>, Seq<char>)> {
    rows.map_values(
        |r: crate::ui::Row|
            (
                match r.look {
                    crate::ui::Look::Spans(v) => spans_view(v@),
                    _ => Seq::empty(),
                },
                r.id@,
            ),
    )
}

pub open spec fn rich_items_view(v: Seq<(Vec<Span>, String)>) -> Seq<(Seq<(Seq<char>, Style)>, Seq<char>)> {
    v.map_values(|r: (Vec<Span>, String)| (spans_view(r.0@), r.1@))
}

/// The URL of a listening socket.
pub open spec fn url_of(host: Seq<char>, port: Seq<char>) -> Seq<char> {
    "http://"@ + host + ":"@ + port
}

/// A port row: the URL (cyan, underlined, so the terminal opens it on
/// Ctrl+click), the process name (green), the pid (grey) and, when it
/// listens on every interface, an orange warning; id = "pid\turl".
pub open spec fn port_row(e: (Seq<char>, Seq<char>, Seq<char>, Seq<char>, bool), p: Palette) -> (
    Seq<(Seq<char>, Style)>,
    Seq<char>,
) {
    let url = url_of(e.0, e.1);
    (
        seq![
            (pad_right(url, 28), Style { fg: Some(p.cyan), bold: false, underlined: true }),
            (" "@ + e.2, fg(p.green)),
            ("  pid "@ + e.3, fg(Color::DarkGray)),
        ] + if e.4 {
            seq![("  ⚠ exposed to the network"@, fg(p.orange))]
        } else {
            Seq::empty()
        },
        e.3 + "\t"@ + url,
    )
}

/// Whether a socket is listed: it has a pid, and it is a development port
/// unless all ports are shown.
pub open spec fn port_listed(e: (Seq<char>, Seq<char>, Seq<char>, Seq<char>, bool), show_all: bool) -> bool {
    e.3.len() > 0 && (show_all || match crate::text::parse_u16_spec(e.1) {
        Some(n) => dev_port(n),
        None => false,
    })
}

pub open spec fn port_rows(es: Seq<(Seq<char>, Seq<char>, Seq<char>, Seq<char>, bool)>, show_all: bool, p: Palette) -> Seq<
    (Seq<(Seq<char>, Style)>, Seq<char>),
>
    decreases es.len(),
{
    if es.len() == 0 {
        Seq::empty()
    } else {
        let prev = port_rows(es.drop_last(), show_all, p);
        if port_listed(es.last(), show_all) {
            prev.push(port_row(es.last(), p))
        } else {
            prev
        }
    }
}

/// A span of `content` in `style`.
pub fn span(content: Vec<char>, style: Style) -> (s: Span)
    ensures
        s.content@ == content@,
        s.style == style,
{
    Span { content: string_of(&content), style }
}

fn span_str(prefix: &str, rest: &Vec<char>, style: Style) -> (s: Span)
    ensures
        s.content@ == prefix@ + rest@,
        s.style == style,
{
    let mut c = chars_of(prefix);
    append(&mut c, rest);
    span(c, style)
}

fn port_row_of(e: &(String, String, String, String, bool), p: &Palette) -> (r: (Vec<Span>, String))
    ensures
        (spans_view(r.0@), r.1@) == port_row((e.0@, e.1@, e.2@, e.3@, e.4), *p),
{
    let mut url = chars_of("http://");
    let h = chars_of(e.0.as_str());
    append(&mut url, &h);
    append_str(&mut url, ":");
    let pt = chars_of(e.1.as_str());
    append(&mut url, &pt);
    let name = chars_of(e.2.as_str());
    let pid = chars_of(e.3.as_str());
    let mut spans: Vec<Span> = Vec::new();
    spans.push(span(pad(&url, 28), Style { fg: Some(p.cyan), bold: false, underlined: true }));
    spans.push(span_str(" ", &name, Style { fg: Some(p.green), bold: false, underlined: false }));
    spans.push(
        span_str("  pid ", &pid, Style { fg: Some(Color::DarkGray), bold: false, underlined: false }),
    );
    if e.4 {
        spans.push(
            span(
                chars_of("  ⚠ exposed to the network"),
                Style { fg: Some(p.orange), bold: false, underlined: false },
            ),
        );
    }
    let mut id = copy(&pid);
    append_str(&mut id, "\t");
    append(&mut id, &url);
    let ghost want = port_row((e.0@, e.1@, e.2@, e.3@, e.4), *p);
    assert(spans_view(spans@) =~= want.0);
    (spans, string_of(&id))
}

/// Rows of the Ports view from the listening sockets (or the error met
/// listing them).
pub open spec fn ports_view_rows(
    es: Result<Seq<(Seq<char>, Seq<char>, Seq<char>, Seq<char>, bool)>, Seq<char>>,
    show_all: bool,
    p: Palette,
) -> Seq<(Seq<(Seq<char>, Style)>, Seq<char>)> {
    match es {
        Ok(v) => port_rows(v, show_all, p),
        Err(e) => seq![(seq![("Error: "@ + e, no_style())], Seq::empty())],
    }
}

/// A server from config.toml as `user@host` (or `host`).
pub open spec fn target_of(user: Option<Seq<char>>, host: Seq<char>) -> Seq<char> {
    match user {
        Some(u) => u + "@"@ + host,
        None => host,
    }
}

/// Row of a configured server: alias (yellow, bold), target (cyan) and
/// description (grey); id = the ssh command, tab-separated.
pub open spec fn server_row(s: Server, p: Palette) -> (Seq<(Seq<char>, Style)>, Seq<char>) {
    let target = target_of(opt_view(s.user), s.host@);
    (
        seq![
            ("⚑ "@ + pad_right(s.alias@, 16), Style { fg: Some(p.yellow), bold: true, underlined: false }),
            (" "@ + target, fg(p.cyan)),
            ("  "@ + match s.desc {
                Some(d) => d@,
                None => Seq::empty(),
            }, fg(Color::DarkGray)),
        ],
        match s.port {
            Some(port) => "ssh\t-p\t"@ + crate::text::decimal(port as nat) + "\t"@ + target,
            None => "ssh\t"@ + target,
        },
    )
}

/// Row of a host from ~/.ssh/config.
pub open spec fn host_row(h: Seq<char>, p: Palette) -> (Seq<(Seq<char>, Style)>, Seq<char>) {
    (seq![("  "@ + h, fg(p.cyan))], "ssh\t"@ + h)
}

/// Rows of the SSH view: configured servers, then the ssh config's hosts;
/// a hint when there is none.
pub open spec fn ssh_view_rows(servers: Seq<Server>, cfg: Seq<char>, p: Palette) -> Seq<
    (Seq<(Seq<char>, Style)>, Seq<char>),
> {
    let r = servers.map_values(|s: Server| server_row(s, p)) + ssh_hosts(lines(cfg)).map_values(
        |h: Seq<char>| host_row(h, p),
    );
    if r.len() == 0 {
        seq![
            (
                seq![("No hosts: add entries to ~/.ssh/config or [[servers]] in config.toml"@, no_style())],
                Seq::empty(),
            ),
        ]
    } else {
        r
    }
}

fn server_row_of(s: &Server, p: &Palette) -> (r: (Vec<Span>, String))
    ensures
        (spans_view(r.0@), r.1@) == server_row(*s, *p),
{
    let host = chars_of(s.host.as_str());
    let target = match &s.user {
        Some(u) => {
            let mut t = chars_of(u.as_str());
            append_str(&mut t, "@");
            append(&mut t, &host);
            t
        },
        None => host,
    };
    let alias = chars_of(s.alias.as_str());
    let desc = match &s.desc {
        Some(d) => chars_of(d.as_str()),
        None => Vec::new(),
    };
    let mut spans: Vec<Span> = Vec::new();
    spans.push(
        span_str("⚑ ", &pad(&alias, 16), Style { fg: Some(p.yellow), bold: true, underlined: false }),
    );
    spans.push(span_str(" ", &target, Style { fg: Some(p.cyan), bold: false, underlined: false }));
    spans.push(
        span_str("  ", &desc, Style { fg: Some(Color::DarkGray), bold: false, underlined: false }),
    );
    let id = match s.port {
        Some(port) => {
            let mut i = chars_of("ssh\t-p\t");
            let n = crate::text::decimal_chars(port as u64);
            append(&mut i, &n);
            append_str(&mut i, "\t");
            append(&mut i, &target);
            i
        },
        None => {
            let mut i = chars_of("ssh\t");
            append(&mut i, &target);
            i
        },
    };
    let ghost want = server_row(*s, *p);
    assert(spans_view(spans@) =~= want.0);
    (spans, string_of(&id))
}

/// Text of one of the Linux network rows.
pub open spec fn linux_network_rows(
    addr: Result<Seq<char>, Seq<char>>,
    route: Result<Seq<char>, Seq<char>>,
    resolv: Seq<char>,
    p: Palette,
) -> Seq<(Seq<char>, Seq<char>, Option<Color>)> {
    (match addr {
        Ok(o) => iface_rows(lines(o), p),
        Err(e) => seq![("Error: "@ + e, Seq::empty(), None)],
    }) + (match route {
        Ok(o) => route_rows(lines(o)),
        Err(_) => Seq::empty(),
    }) + dns_rows(lines(resolv))
}

/// Interfaces (`ip -br addr`): id = interface name; green when up.
pub open spec fn iface_rows(ls: Seq<Seq<char>>, p: Palette) -> Seq<(Seq<char>, Seq<char>, Option<Color>)>
    decreases ls.len(),
{
    if ls.len() == 0 {
        Seq::empty()
    } else {
        let prev = iface_rows(ls.drop_last(), p);
        let l = ls.last();
        if trim(l).len() == 0 {
            prev
        } else {
            prev.push(
                (
                    l,
                    if tokens(l).len() > 0 {
                        tokens(l)[0]
                    } else {
                        Seq::empty()
                    },
                    Some(
                        if contains_seq(l, " UP "@) {
                            p.green
                        } else {
                            Color::DarkGray
                        },
                    ),
                ),
            )
        }
    }
}

/// Default routes (`ip route show default`), marked with `⇡`.
pub open spec fn route_rows(ls: Seq<Seq<char>>) -> Seq<(Seq<char>, Seq<char>, Option<Color>)>
    decreases ls.len(),
{
    if ls.len() == 0 {
        Seq::empty()
    } else {
        let prev = route_rows(ls.drop_last());
        let l = ls.last();
        if trim(l).len() == 0 {
            prev
        } else {
            prev.push(("⇡ "@ + l, Seq::empty(), None))
        }
    }
}

/// Name servers of resolv.conf, marked with `✦`; id = the server.
pub open spec fn dns_rows(ls: Seq<Seq<char>>) -> Seq<(Seq<char>, Seq<char>, Option<Color>)>
    decreases ls.len(),
{
    if ls.len() == 0 {
        Seq::empty()
    } else {
        let prev = dns_rows(ls.drop_last());
        match strip_prefix_spec(trim(ls.last()), "nameserver "@) {
            Some(ns) => prev.push(("✦ DNS "@ + trim(ns), trim(ns), None)),
            None => prev,
        }
    }
}

/// Rows of the Windows network view, from one PowerShell run that prints
/// tagged lines: `IF|name|status|ips`, `GW|gateway|interface`, `DNS|server`.
pub open spec fn win_network_rows(ls: Seq<Seq<char>>, p: Palette) -> Seq<(Seq<char>, Seq<char>, Option<Color>)>
    decreases ls.len(),
{
    if ls.len() == 0 {
        Seq::empty()
    } else {
        let prev = win_network_rows(ls.drop_last(), p);
        let l = trim(ls.last());
        let c = pieces(l, '|');
        if l.len() == 0 {
            prev
        } else if c.len() == 4 && c[0] == "IF"@ {
            prev.push(
                (
                    pad_right(c[1], 24) + " "@ + pad_right(c[2], 14) + " "@ + c[3],
                    c[1],
                    Some(
                        if eq_ignore_ascii_case(c[2], "up"@) {
                            p.green
                        } else {
                            Color::DarkGray
                        },
                    ),
                ),
            )
        } else if c.len() == 3 && c[0] == "GW"@ {
            prev.push(("⇡ default via "@ + c[1] + " dev "@ + c[2], Seq::empty(), None))
        } else if c.len() == 2 && c[0] == "DNS"@ {
            prev.push(("✦ DNS "@ + c[1], c[1], None))
        } else {
            prev
        }
    }
}

fn row3(text: Vec<char>, id: Vec<char>, color: Option<Color>) -> (r: (String, String, Option<Color>))
    ensures
        r.0@ == text@,
        r.1@ == id@,
        r.2 == color,
{
    (string_of(&text), string_of(&id), color)
}

fn win_network_rows_of(ls: &Vec<Vec<char>>, p: &Palette) -> (r: Vec<(String, String, Option<Color>)>)
    ensures
        rows_view(r@) == win_network_rows(ls.deep_view(), *p),
{
    let mut acc: Vec<(String, String, Option<Color>)> = Vec::new();
    let mut i: usize = 0;
    while i < ls.len()
        invariant
            i <= ls@.len(),
            rows_view(acc@) == win_network_rows(ls.deep_view().take(i as int), *p),
        decreases ls@.len() - i,
    {
        proof {
            crate::text::lemma_deep_chars(ls@[i as int]);
            assert(ls.deep_view().take(i + 1).drop_last() =~= ls.deep_view().take(i as int));
        }
        let ghost before = acc@;
        let l = trim_chars(&ls[i]);
        let c = split_char(&l, '|');
        proof {
            crate::text::lemma_deep_chars(c@[0]);
        }
        if l.len() == 0 {
        } else if c.len() == 4 && eq_str(&c[0], "IF") {
            proof {
                crate::text::lemma_deep_chars(c@[1]);
                crate::text::lemma_deep_chars(c@[2]);
                crate::text::lemma_deep_chars(c@[3]);
            }
            let mut t = pad(&c[1], 24);
            append_str(&mut t, " ");
            append(&mut t, &pad(&c[2], 14));
            append_str(&mut t, " ");
            append(&mut t, &c[3]);
            let color = if eq_ascii_nocase(&c[2], "up") {
                p.green
            } else {
                Color::DarkGray
            };
            let r = row3(t, copy(&c[1]), Some(color));
            acc.push(r);
            assert(rows_view(acc@) =~= rows_view(before).push((r.0@, r.1@, r.2)));
        } else if c.len() == 3 && eq_str(&c[0], "GW") {
            proof {
                crate::text::lemma_deep_chars(c@[1]);
                crate::text::lemma_deep_chars(c@[2]);
            }
            let mut t = chars_of("⇡ default via ");
            append(&mut t, &c[1]);
            append_str(&mut t, " dev ");
            append(&mut t, &c[2]);
            let r = row3(t, Vec::new(), None);
            acc.push(r);
            assert(rows_view(acc@) =~= rows_view(before).push((r.0@, r.1@, r.2)));
        } else if c.len() == 2 && eq_str(&c[0], "DNS") {
            proof {
                crate::text::lemma_deep_chars(c@[1]);
            }
            let mut t = chars_of("✦ DNS ");
            append(&mut t, &c[1]);
            let r = row3(t, copy(&c[1]), None);
            acc.push(r);
            assert(rows_view(acc@) =~= rows_view(before).push((r.0@, r.1@, r.2)));
        }
        i = i + 1;
    }
    assert(ls.deep_view().take(ls@.len() as int) =~= ls.deep_view());
    acc
}

fn iface_rows_of(ls: &Vec<Vec<char>>, p: &Palette) -> (r: Vec<(String, String, Option<Color>)>)
    ensures
        rows_view(r@) == iface_rows(ls.deep_view(), *p),
{
    let mut acc: Vec<(String, String, Option<Color>)> = Vec::new();
    let mut i: usize = 0;
    let up = chars_of(" UP ");
    while i < ls.len()
        invariant
            i <= ls@.len(),
            up@ == " UP "@,
            rows_view(acc@) == iface_rows(ls.deep_view().take(i as int), *p),
        decreases ls@.len() - i,
    {
        proof {
            crate::text::lemma_deep_chars(ls@[i as int]);
            assert(ls.deep_view().take(i + 1).drop_last() =~= ls.deep_view().take(i as int));
        }
        let ghost before = acc@;
        let l = &ls[i];
        if trim_chars(l).len() > 0 {
            let ts = split_ws(l);
            let name = if ts.len() > 0 {
                proof {
                    crate::text::lemma_deep_chars(ts@[0]);
                }
                copy(&ts[0])
            } else {
                Vec::new()
            };
            let color = if contains(l, &up) {
                p.green
            } else {
                Color::DarkGray
            };
            let r = row3(copy(l), name, Some(color));
            acc.push(r);
            assert(rows_view(acc@) =~= rows_view(before).push((r.0@, r.1@, r.2)));
        }
        i = i + 1;
    }
    assert(ls.deep_view().take(ls@.len() as int) =~= ls.deep_view());
    acc
}

fn route_rows_of(ls: &Vec<Vec<char>>) -> (r: Vec<(String, String, Option<Color>)>)
    ensures
        rows_view(r@) == route_rows(ls.deep_view()),
{
    let mut acc: Vec<(String, String, Option<Color>)> = Vec::new();
    let mut i: usize = 0;
    while i < ls.len()
        invariant
            i <= ls@.len(),
            rows_view(acc@) == route_rows(ls.deep_view().take(i as int)),
        decreases ls@.len() - i,
    {
        proof {
            crate::text::lemma_deep_chars(ls@[i as int]);
            assert(ls.deep_view().take(i + 1).drop_last() =~= ls.deep_view().take(i as int));
        }
        let ghost before = acc@;
        let l = &ls[i];
        if trim_chars(l).len() > 0 {
            let mut t = chars_of("⇡ ");
            append(&mut t, l);
            let r = row3(t, Vec::new(), None);
            acc.push(r);
            assert(rows_view(acc@) =~= rows_view(before).push((r.0@, r.1@, r.2)));
        }
        i = i + 1;
    }
    assert(ls.deep_view().take(ls@.len() as int) =~= ls.deep_view());
    acc
}

fn dns_rows_of(ls: &Vec<Vec<char>>) -> (r: Vec<(String, String, Option<Color>)>)
    ensures
        rows_view(r@) == dns_rows(ls.deep_view()),
{
    let mut acc: Vec<(String, String, Option<Color>)> = Vec::new();
    let mut i: usize = 0;
    while i < ls.len()
        invariant
            i <= ls@.len(),
            rows_view(acc@) == dns_rows(ls.deep_view().take(i as int)),
        decreases ls@.len() - i,
    {
        proof {
            crate::text::lemma_deep_chars(ls@[i as int]);
            assert(ls.deep_view().take(i + 1).drop_last() =~= ls.deep_view().take(i as int));
        }
        let ghost before = acc@;
        let l = trim_chars(&ls[i]);
        match crate::text::strip_prefix(&l, "nameserver ") {
            Some(ns) => {
                let n = trim_chars(&ns);
                let mut t = chars_of("✦ DNS ");
                append(&mut t, &n);
                let r = row3(t, n, None);
                acc.push(r);
                assert(rows_view(acc@) =~= rows_view(before).push((r.0@, r.1@, r.2)));
            },
            None => {},
        }
        i = i + 1;
    }
    assert(ls.deep_view().take(ls@.len() as int) =~= ls.deep_view());
    acc
}

fn lines_of(s: &str) -> (r: Vec<Vec<char>>)
    ensures
        r.deep_view() == lines(s@),
{
    let c = chars_of(s);
    split_lines(&c)
}

/// The text shown when ssh-copy-id is missing: the PowerShell equivalent for `target`.
pub open spec fn copy_id_help(target: Seq<char>) -> Seq<char> {
    "The OpenSSH shipped with Windows has no ssh-copy-id.\n\nPowerShell equivalent, with the public key already generated (key g):\n\ntype $env:USERPROFILE\\.ssh\\id_ed25519.pub | ssh "@
        + target + " \"mkdir -p ~/.ssh && cat >> ~/.ssh/authorized_keys\"\n"@
}

/// What a key does in view `view` on the row of id `id` (the list has not
/// taken the key, and it is none of `v`, `t` in Ports, `p`/`t` in Network).
pub open spec fn servers_row_key(view: usize, key: Key, id: Seq<char>, has_copy_id: bool, win: bool) -> StepView {
    let parts = pieces(id, '\t');
    if view == 0 && key == Key::Char('k') {
        confirm_v(
            crate::platform::kill_cmd(parts[0], false, win),
            "Kill the process with pid "@ + parts[0] + "?"@,
            false,
        )
    } else if view == 0 && (key == Key::Char('o') || key == Key::Enter) {
        if parts.len() > 1 {
            run_v(crate::platform::open_url_cmd(parts[1], win), false)
        } else {
            StepView::Act(ActionView::Handled)
        }
    } else if view == 1 && key == Key::Enter {
        StepView::Act(ActionView::Interactive(parts))
    } else if view == 1 && key == Key::Char('g') {
        StepView::Act(ActionView::Interactive(seq!["ssh-keygen"@]))
    } else if view == 1 && key == Key::Char('c') {
        let cmd = parts.update(0, "ssh-copy-id"@);
        if !has_copy_id {
            StepView::Act(
                ActionView::Show {
                    title: "ssh-copy-id not available"@,
                    text: copy_id_help(cmd.last()),
                },
            )
        } else {
            StepView::Act(ActionView::Interactive(cmd))
        }
    } else {
        StepView::Act(ActionView::Ignored)
    }
}

/// What a key does in view `view` once the list has not taken it.
pub open spec fn servers_key(view: usize, key: Key, id: Option<Seq<char>>, has_copy_id: bool, win: bool) -> StepView {
    if view == 2 && key == Key::Char('p') {
        StepView::Act(
            ActionView::Prompt {
                label: "Host to ping"@,
                template: if win {
                    seq!["ping"@, "-t"@, "{}"@]
                } else {
                    seq!["ping"@, "{}"@]
                },
                interactive: true,
                show: false,
            },
        )
    } else if view == 2 && key == Key::Char('t') {
        StepView::Act(
            ActionView::Prompt {
                label: "Host to traceroute"@,
                template: seq![
                    if win {
                        "tracert"@
                    } else {
                        "traceroute"@
                    },
                    "{}"@,
                ],
                interactive: true,
                show: false,
            },
        )
    } else {
        match id {
            None => StepView::Act(ActionView::Ignored),
            Some(id) => servers_row_key(view, key, id, has_copy_id, win),
        }
    }
}

fn strings_of(v: &Vec<Vec<char>>) -> (r: Vec<String>)
    ensures
        views_of(r@) == v.deep_view(),
{
    let mut out: Vec<String> = Vec::new();
    let mut i: usize = 0;
    while i < v.len()
        invariant
            i <= v@.len(),
            views_of(out@) == v.deep_view().take(i as int),
        decreases v@.len() - i,
    {
        proof {
            crate::text::lemma_deep_chars(v@[i as int]);
        }
        let ghost before = out@;
        let x = string_of(&v[i]);
        out.push(x);
        assert(views_of(out@) =~= views_of(before).push(x@));
        i = i + 1;
        assert(v.deep_view().take(i as int) =~= v.deep_view().take(i - 1).push(v@[i - 1]@));
    }
    assert(v.deep_view().take(v@.len() as int) =~= v.deep_view());
    out
}

fn row_key(view: usize, key: Key, id: &str, has_copy_id: bool, win: bool) -> (r: Step)
    ensures
        r@ == servers_row_key(view, key, id@, has_copy_id, win),
{
    let ic = chars_of(id);
    let parts = split_char(&ic, '\t');
    proof {
        crate::text::lemma_deep_chars(parts@[0]);
    }
    if view == 0 && key == Key::Char('k') {
        let pid = string_of(&parts[0]);
        let m = concat("Kill the process with pid ", pid.as_str());
        run_confirm(
            crate::platform::kill(pid.as_str(), false, win),
            concat(m.as_str(), "?"),
            false,
        )
    } else if view == 0 && (key == Key::Char('o') || key == Key::Enter) {
        if parts.len() > 1 {
            proof {
                crate::text::lemma_deep_chars(parts@[1]);
            }
            let url = string_of(&parts[1]);
            run(crate::platform::open_url(url.as_str(), win), false)
        } else {
            act(Action::Handled)
        }
    } else if view == 1 && key == Key::Enter {
        act(Action::Interactive(strings_of(&parts)))
    } else if view == 1 && key == Key::Char('g') {
        act(Action::Interactive(strs1("ssh-keygen")))
    } else if view == 1 && key == Key::Char('c') {
        let mut cmd = strings_of(&parts);
        let ghost before = views_of(cmd@);
        cmd.set(0, lit("ssh-copy-id"));
        assert(views_of(cmd@) =~= before.update(0, "ssh-copy-id"@));
        if !has_copy_id {
            let target = cmd[cmd.len() - 1].clone();
            let a = concat(
                "The OpenSSH shipped with Windows has no ssh-copy-id.\n\nPowerShell equivalent, with the public key already generated (key g):\n\ntype $env:USERPROFILE\\.ssh\\id_ed25519.pub | ssh ",
                target.as_str(),
            );
            let text = concat(a.as_str(), " \"mkdir -p ~/.ssh && cat >> ~/.ssh/authorized_keys\"\n");
            act(Action::Show { title: lit("ssh-copy-id not available"), text })
        } else {
            act(Action::Interactive(cmd))
        }
    } else {
        act(Action::Ignored)
    }
}

/// The command that lists the listening TCP sockets: `ss -tlnp` on Linux,
/// `netstat -ano` on Windows (which gives the pid but not the name).
pub open spec fn ports_cmd_spec(win: bool) -> Seq<Seq<char>> {
    if win {
        seq!["netstat"@, "-ano"@]
    } else {
        seq!["ss"@, "-tlnp"@]
    }
}

pub fn ports_cmd(win: bool) -> (r: Vec<String>)
    ensures
        views_of(r@) == ports_cmd_spec(win),
{
    if win {
        crate::modules::strs2("netstat", "-ano")
    } else {
        crate::modules::strs2("ss", "-tlnp")
    }
}

/// The interfaces with their addresses, one per line (`ip -br addr`).
pub fn addr_cmd() -> (r: Vec<String>)
    ensures
        views_of(r@) == seq!["ip"@, "-br"@, "addr"@],
{
    crate::modules::strs3("ip", "-br", "addr")
}

/// The default routes (`ip route show default`).
pub fn route_cmd() -> (r: Vec<String>)
    ensures
        views_of(r@) == seq!["ip"@, "route"@, "show"@, "default"@],
{
    crate::modules::strs4("ip", "route", "show", "default")
}

/// One PowerShell call (starting it costs ~300 ms) that prints the adapters
/// (`IF|name|status|addresses`), the default gateways (`GW|hop|interface`)
/// and the DNS servers (`DNS|address`).
pub open spec fn network_win_script() -> Seq<char> {
    "Get-NetAdapter | ForEach-Object { 'IF|{0}|{1}|{2}' -f $_.Name, $_.Status, ((Get-NetIPAddress -InterfaceIndex $_.ifIndex -AddressFamily IPv4 -ErrorAction SilentlyContinue).IPAddress -join ' ') }; Get-NetRoute -DestinationPrefix '0.0.0.0/0' -ErrorAction SilentlyContinue | ForEach-Object { 'GW|{0}|{1}' -f $_.NextHop, $_.InterfaceAlias }; Get-DnsClientServerAddress -AddressFamily IPv4 -ErrorAction SilentlyContinue | ForEach-Object { $_.ServerAddresses } | Sort-Object -Unique | ForEach-Object { 'DNS|{0}' -f $_ }"@
}

pub fn network_win_cmd() -> (r: Vec<String>)
    ensures
        views_of(r@) == crate::platform::ps_cmd(network_win_script()),
{
    crate::platform::ps(
        "Get-NetAdapter | ForEach-Object { 'IF|{0}|{1}|{2}' -f $_.Name, $_.Status, ((Get-NetIPAddress -InterfaceIndex $_.ifIndex -AddressFamily IPv4 -ErrorAction SilentlyContinue).IPAddress -join ' ') }; Get-NetRoute -DestinationPrefix '0.0.0.0/0' -ErrorAction SilentlyContinue | ForEach-Object { 'GW|{0}|{1}' -f $_.NextHop, $_.InterfaceAlias }; Get-DnsClientServerAddress -AddressFamily IPv4 -ErrorAction SilentlyContinue | ForEach-Object { $_.ServerAddresses } | Sort-Object -Unique | ForEach-Object { 'DNS|{0}' -f $_ }",
    )
}

/// Listening development ports, SSH hosts and networking.
pub struct Servers {
    view: usize,
    list: ListView,
    servers: Vec<Server>,
    /// Show all listening ports, not just development ones.
    show_all: bool,
}

impl Servers {
    pub closed spec fn view_index(&self) -> usize {
        self.view
    }

    pub closed spec fn list_model(&self) -> ListModel {
        self.list@
    }

    pub closed spec fn showing_all(&self) -> bool {
        self.show_all
    }

    pub closed spec fn servers_view(&self) -> Seq<Server> {
        self.servers@
    }

    pub closed spec fn wf(&self) -> bool {
        self.view < 3 && self.list.wf()
    }

    pub fn new(servers: Vec<Server>) -> (r: Self)
        ensures
            r.wf(),
            r.view_index() == 0,
            !r.showing_all(),
            r.servers_view() == servers@,
            crate::ui::fresh(r.list_model()),
    {
        Servers { view: 0, list: ListView::new(), servers, show_all: false }
    }

    pub fn current_view(&self) -> (r: usize)
        ensures
            r == self.view_index(),
    {
        self.view
    }

    pub fn show_all(&self) -> (r: bool)
        ensures
            r == self.showing_all(),
    {
        self.show_all
    }

    pub fn list(&self) -> (r: &ListView)
        ensures
            r@ == self.list_model(),
    {
        &self.list
    }

    /// Shows the listening sockets (or the error met listing them).
    pub fn set_ports(
        &mut self,
        es: Result<Vec<(String, String, String, String, bool)>, String>,
        p: &Palette,
    )
        requires
            old(self).wf(),
        ensures
            final(self).wf(),
            final(self).view_index() == old(self).view_index(),
            final(self).showing_all() == old(self).showing_all(),
            ({
                let want = ports_view_rows(
                    match es {
                        Ok(v) => Ok(quints_view(v@)),
                        Err(e) => Err(e@),
                    },
                    old(self).showing_all(),
                    *p,
                );
                if want.len() == 0 {
                    final(self).list_model().rows.len() == 1
                        && final(self).list_model().rows[0].text@
                        == "No development servers listening (t shows all ports)"@
                        && final(self).list_model().rows[0].id@.len() == 0
                        && final(self).list_model().rows[0].look is Plain
                } else {
                    rich_view(final(self).list_model().rows) == want
                }
            }),
    {
        let rows: Vec<(Vec<Span>, String)> = match es {
            Ok(v) => {
                let mut acc: Vec<(Vec<Span>, String)> = Vec::new();
                let mut i: usize = 0;
                while i < v.len()
                    invariant
                        i <= v@.len(),
                        rich_items_view(acc@) == port_rows(
                            quints_view(v@).take(i as int),
                            self.show_all,
                            *p,
                        ),
                    decreases v@.len() - i,
                {
                    let e = &v[i];
                    let ghost before = acc@;
                    assert(quints_view(v@).take(i + 1).drop_last() =~= quints_view(v@).take(
                        i as int,
                    ));
                    let pc = chars_of(e.1.as_str());
                    let listed = !e.3.as_str().is_empty() && (self.show_all || match crate::text::parse_u16(&pc) {
                        Some(n) => is_dev_port(n),
                        None => false,
                    });
                    if listed {
                        let r = port_row_of(e, p);
                        acc.push(r);
                        assert(rich_items_view(acc@) =~= rich_items_view(before).push(
                            (spans_view(r.0@), r.1@),
                        ));
                    }
                    i = i + 1;
                }
                assert(quints_view(v@).take(v@.len() as int) =~= quints_view(v@));
                acc
            },
            Err(e) => {
                let msg = concat("Error: ", e.as_str());
                let sp = Span { content: msg, style: Style { fg: None, bold: false, underlined: false } };
                let r = vec![(vec![sp], String::new())];
                assert(spans_view(r@[0].0@) =~= seq![("Error: "@ + e@, no_style())]);
                assert(rich_items_view(r@) =~= seq![(seq![("Error: "@ + e@, no_style())], Seq::<char>::empty())]);
                r
            },
        };
        if rows.len() == 0 {
            self.list.set_items(
                vec![(lit("No development servers listening (t shows all ports)"), String::new())],
            );
        } else {
            let ghost want = rich_items_view(rows@);
            self.list.set_items_rich(rows);
            assert(rich_view(self.list@.rows) =~= want);
        }
    }

    /// Shows the configured servers and the hosts of the ssh config `cfg`.
    pub fn set_ssh(&mut self, cfg: &str, p: &Palette)
        requires
            old(self).wf(),
        ensures
            final(self).wf(),
            final(self).view_index() == old(self).view_index(),
            final(self).showing_all() == old(self).showing_all(),
            rich_view(final(self).list_model().rows) == ssh_view_rows(old(self).servers_view(), cfg@, *p),
    {
        let mut rows: Vec<(Vec<Span>, String)> = Vec::new();
        let mut i: usize = 0;
        while i < self.servers.len()
            invariant
                i <= self.servers@.len(),
                rich_items_view(rows@) == self.servers@.take(i as int).map_values(|s: Server| server_row(s, *p)),
            decreases self.servers@.len() - i,
        {
            let ghost before = rows@;
            let r = server_row_of(&self.servers[i], p);
            rows.push(r);
            assert(rich_items_view(rows@) =~= rich_items_view(before).push(
                (spans_view(r.0@), r.1@),
            ));
            assert(self.servers@.take(i + 1) =~= self.servers@.take(i as int).push(
                self.servers@[i as int],
            ));
            i = i + 1;
            assert(rich_items_view(rows@) =~= self.servers@.take(i as int).map_values(
                |s: Server| server_row(s, *p),
            ));
        }
        assert(self.servers@.take(self.servers@.len() as int) =~= self.servers@);
        let hosts = parse_ssh_config(cfg);
        let ghost mid = rows@;
        let mut k: usize = 0;
        while k < hosts.len()
            invariant
                k <= hosts@.len(),
                rich_items_view(rows@) == rich_items_view(mid) + views_of(hosts@).take(k as int).map_values(
                    |h: Seq<char>| host_row(h, *p),
                ),
            decreases hosts@.len() - k,
        {
            let ghost before = rows@;
            let hc = chars_of(hosts[k].as_str());
            let sp = span_str("  ", &hc, Style { fg: Some(p.cyan), bold: false, underlined: false });
            let id = concat("ssh\t", hosts[k].as_str());
            let ghost hr = host_row(hosts@[k as int]@, *p);
            let item = (vec![sp], id);
            assert(spans_view(item.0@) =~= hr.0);
            rows.push(item);
            assert(rich_items_view(rows@) =~= rich_items_view(before).push(hr));
            assert(views_of(hosts@).take(k + 1) =~= views_of(hosts@).take(k as int).push(
                hosts@[k as int]@,
            ));
            k = k + 1;
            assert(rich_items_view(rows@) =~= rich_items_view(mid) + views_of(hosts@).take(
                k as int,
            ).map_values(|h: Seq<char>| host_row(h, *p)));
        }
        assert(views_of(hosts@).take(hosts@.len() as int) =~= views_of(hosts@));
        if rows.len() == 0 {
            let sp = Span {
                content: lit("No hosts: add entries to ~/.ssh/config or [[servers]] in config.toml"),
                style: Style { fg: None, bold: false, underlined: false },
            };
            let item = (vec![sp], String::new());
            assert(spans_view(item.0@) =~= seq![
                ("No hosts: add entries to ~/.ssh/config or [[servers]] in config.toml"@, no_style()),
            ]);
            rows.push(item);
        }
        let ghost want = rich_items_view(rows@);
        assert(want =~= ssh_view_rows(self.servers@, cfg@, *p));
        self.list.set_items_rich(rows);
        assert(rich_view(self.list@.rows) =~= want);
    }

    /// Shows interfaces (`ip -br addr`), default routes (`ip route show
    /// default`) and the name servers of `/etc/resolv.conf`.
    pub fn set_network(
        &mut self,
        addr: Result<String, String>,
        route: Result<String, String>,
        resolv: &str,
        p: &Palette,
    )
        requires
            old(self).wf(),
        ensures
            final(self).wf(),
            final(self).view_index() == old(self).view_index(),
            final(self).showing_all() == old(self).showing_all(),
            shown_rows(final(self).list_model().rows) == linux_network_rows(
                result_view(addr),
                result_view(route),
                resolv@,
                *p,
            ),
    {
        let mut rows = match addr {
            Ok(o) => iface_rows_of(&lines_of(o.as_str()), p),
            Err(e) => vec![(concat("Error: ", e.as_str()), String::new(), None)],
        };
        let ghost a = rows_view(rows@);
        let more = match route {
            Ok(o) => route_rows_of(&lines_of(o.as_str())),
            Err(_) => Vec::new(),
        };
        let ghost b = rows_view(more@);
        let mut more = more;
        rows.append(&mut more);
        let ghost ab = rows_view(rows@);
        assert(ab =~= a + b);
        let mut dns = dns_rows_of(&lines_of(resolv));
        let ghost c = rows_view(dns@);
        rows.append(&mut dns);
        assert(rows_view(rows@) =~= a + b + c);
        let ghost want = linux_network_rows(result_view(addr), result_view(route), resolv@, *p);
        assert(rows_view(rows@) =~= want);
        self.list.set_items_styled(rows);
        assert(shown_rows(self.list@.rows) =~= want);
    }

    /// Shows the Windows network lines (or the error met reading them).
    pub fn set_network_win(&mut self, out: Result<String, String>, p: &Palette)
        requires
            old(self).wf(),
        ensures
            final(self).wf(),
            final(self).view_index() == old(self).view_index(),
            final(self).showing_all() == old(self).showing_all(),
            match out {
                Ok(o) => shown_rows(final(self).list_model().rows) == win_network_rows(lines(o@), *p),
                Err(e) => shown_rows(final(self).list_model().rows) == seq![
                    ("Error: "@ + e@, Seq::<char>::empty(), None::<Color>),
                ],
            },
    {
        match out {
            Ok(o) => {
                let rows = win_network_rows_of(&lines_of(o.as_str()), p);
                let ghost want = rows_view(rows@);
                self.list.set_items_styled(rows);
                assert(shown_rows(self.list@.rows) =~= want);
            },
            Err(e) => {
                let rows = vec![(concat("Error: ", e.as_str()), String::new())];
                let ghost t = rows@[0].0@;
                self.list.set_items(rows);
                assert(shown_rows(self.list@.rows) =~= seq![(t, Seq::<char>::empty(), None::<Color>)]);
            },
        }
    }

    /// Handles a key: the list's keys, `v` (next view), `t` (all ports /
    /// development ports), ping and traceroute, and the actions on the
    /// selected row.
    pub fn on_key(&mut self, key: Key, has_copy_id: bool, win: bool) -> (r: Step)
        requires
            old(self).wf(),
        ensures
            final(self).wf(),
            final(self).list_model() == key_step(old(self).list_model(), key).0,
            final(self).servers_view() == old(self).servers_view(),
            key_step(old(self).list_model(), key).1 ==> r@ == StepView::Act(ActionView::Handled)
                && final(self).view_index() == old(self).view_index() && final(self).showing_all()
                == old(self).showing_all(),
            !key_step(old(self).list_model(), key).1 ==> if key == Key::Char('v') {
                &&& r@ == StepView::Act(ActionView::Refresh)
                &&& final(self).view_index() == (old(self).view_index() + 1) % 3
                &&& final(self).showing_all() == old(self).showing_all()
            } else if old(self).view_index() == 0 && key == Key::Char('t') {
                &&& r@ == StepView::Act(ActionView::Refresh)
                &&& final(self).view_index() == old(self).view_index()
                &&& final(self).showing_all() == !old(self).showing_all()
            } else {
                &&& r@ == servers_key(
                    old(self).view_index(),
                    key,
                    sel_id(old(self).list_model()),
                    has_copy_id,
                    win,
                )
                &&& final(self).view_index() == old(self).view_index()
                &&& final(self).showing_all() == old(self).showing_all()
            },
    {
        if self.list.key(key) {
            return act(Action::Handled);
        }
        if key == Key::Char('v') {
            self.view = (self.view + 1) % 3;
            return act(Action::Refresh);
        }
        if self.view == 0 && key == Key::Char('t') {
            self.show_all = !self.show_all;
            return act(Action::Refresh);
        }
        if self.view == 2 && key == Key::Char('p') {
            return act(
                Action::Prompt {
                    label: lit("Host to ping"),
                    template: if win {
                        crate::modules::strs3("ping", "-t", "{}")
                    } else {
                        crate::modules::strs2("ping", "{}")
                    },
                    interactive: true,
                    show: false,
                },
            );
        }
        if self.view == 2 && key == Key::Char('t') {
            return act(
                Action::Prompt {
                    label: lit("Host to traceroute"),
                    template: crate::modules::strs2(
                        if win {
                            "tracert"
                        } else {
                            "traceroute"
                        },
                        "{}",
                    ),
                    interactive: true,
                    show: false,
                },
            );
        }
        match self.list.selected_id() {
            Some(id) => {
                if id.as_str().is_empty() {
                    act(Action::Ignored)
                } else {
                    row_key(self.view, key, id.as_str(), has_copy_id, win)
                }
            },
            None => act(Action::Ignored),
        }
    }

    /// The module's own shortcuts for the bottom bar.
    pub fn footer(&self) -> (r: String)
        ensures
            r@ == (if self.view_index() == 0 {
                "v view · Enter/o open in browser (or Ctrl+click the URL) · k kill process · t all/dev"@
            } else if self.view_index() == 1 {
                "v view · Enter connect · c copy key (ssh-copy-id) · g generate keys"@
            } else {
                "v view · p ping · t traceroute"@
            }),
    {
        if self.view == 0 {
            lit("v view · Enter/o open in browser (or Ctrl+click the URL) · k kill process · t all/dev")
        } else if self.view == 1 {
            lit("v view · Enter connect · c copy key (ssh-copy-id) · g generate keys")
        } else {
            lit("v view · p ping · t traceroute")
        }
    }

    /// Text copied by the global `y` key: in the Ports view the URL (the
    /// useful bit), elsewhere the id.
    pub fn clip(&self) -> (r: Option<String>)
        ensures
            opt_view(r) == match selected_row(self.list_model()) {
                Some(row) => match crate::ui::clip_of(row) {
                    Some(id) => if self.view_index() == 0 && pieces(id, '\t').len() > 1 {
                        Some(pieces(id, '\t')[1])
                    } else {
                        Some(id)
                    },
                    None => None,
                },
                None => None,
            },
    {
        let id = match self.list.clip() {
            Some(id) => id,
            None => {
                return None;
            },
        };
        if self.view == 0 {
            let ic = chars_of(id.as_str());
            let parts = split_char(&ic, '\t');
            if parts.len() > 1 {
                proof {
                    crate::text::lemma_deep_chars(parts@[1]);
                }
                return Some(string_of(&parts[1]));
            }
        }
        Some(id)
    }
}


/// Killing the process behind a port always asks first.
pub proof fn law_kill_confirms(id: Seq<char>, has_copy_id: bool, win: bool)
    ensures
        servers_row_key(0, Key::Char('k'), id, has_copy_id, win) matches StepView::Act(
            ActionView::Run { confirm: Some(_), .. },
        ),
{
}

/// A socket listening on every interface carries the network warning.
pub proof fn law_exposed_socket_warned(e: (Seq<char>, Seq<char>, Seq<char>, Seq<char>, bool), p: Palette)
    requires
        e.4,
    ensures
        port_row(e, p).0.last() == ("  ⚠ exposed to the network"@, fg(p.orange)),
{
}

/// The development ports are a part of all ports: each row listed with the
/// dev-only filter is also listed when all ports are shown, and there are
/// never more of them.
pub proof fn law_dev_ports_within_all(es: Seq<(Seq<char>, Seq<char>, Seq<char>, Seq<char>, bool)>, p: Palette)
    ensures
        port_rows(es, false, p).len() <= port_rows(es, true, p).len(),
        forall|k: int|
            0 <= k < port_rows(es, false, p).len() ==> port_rows(es, true, p).contains(
                #[trigger] port_rows(es, false, p)[k],
            ),
    decreases es.len(),
{
    if es.len() > 0 {
        let d = es.drop_last();
        law_dev_ports_within_all(d, p);
        let a = port_rows(d, false, p);
        let b = port_rows(d, true, p);
        let e = es.last();
        if port_listed(e, false) {
            assert(port_listed(e, true));
            assert forall|k: int| 0 <= k < a.len() + 1 implies b.push(port_row(e, p)).contains(
                #[trigger] a.push(port_row(e, p))[k],
            ) by {
                if k < a.len() {
                    let j = choose|j: int| 0 <= j < b.len() && b[j] == a[k];
                    assert(b.push(port_row(e, p))[j] == a[k]);
                } else {
                    assert(b.push(port_row(e, p))[b.len() as int] == port_row(e, p));
                }
            }
        } else if port_listed(e, true) {
            assert forall|k: int| 0 <= k < a.len() implies b.push(port_row(e, p)).contains(
                #[trigger] a[k],
            ) by {
                let j = choose|j: int| 0 <= j < b.len() && b[j] == a[k];
                assert(b.push(port_row(e, p))[j] == a[k]);
            }
        }
    }
}


proof fn lemma_ssh_hosts_concat(x: Seq<Seq<char>>, y: Seq<Seq<char>>)
    ensures
        ssh_hosts(x + y) == ssh_hosts(x) + ssh_hosts(y),
    decreases y.len(),
{
    if y.len() == 0 {
        assert(x + y =~= x);
        assert(ssh_hosts(x) + ssh_hosts(y) =~= ssh_hosts(x));
    } else {
        assert((x + y).drop_last() =~= x + y.drop_last());
        lemma_ssh_hosts_concat(x, y.drop_last());
        assert(ssh_hosts(x) + ssh_hosts(y) =~= ssh_hosts(x) + ssh_hosts(y.drop_last()) + host_line(
            y.last(),
        ));
    }
}

proof fn lemma_ssh_hosts_cons(l: Seq<char>, y: Seq<Seq<char>>)
    ensures
        ssh_hosts(seq![l] + y) == host_line(l) + ssh_hosts(y),
{
    lemma_ssh_hosts_concat(seq![l], y);
    assert(seq![l].drop_last() =~= Seq::<Seq<char>>::empty());
    assert(ssh_hosts(Seq::<Seq<char>>::empty()) == Seq::<Seq<char>>::empty());
    assert(ssh_hosts(seq![l]) == ssh_hosts(seq![l].drop_last()) + host_line(l));
    assert(Seq::<Seq<char>>::empty() + host_line(l) =~= host_line(l));
}

/// A line ending in `'\r'` names the same hosts without it, and an empty
/// line names none.
proof fn lemma_host_line_cr(t: Seq<char>)
    ensures
        host_line(strip_cr(t)) == host_line(t),
        host_line(Seq::<char>::empty()) == Seq::<Seq<char>>::empty(),
{
    if t.len() > 0 && t.last() == '\r' {
        assert(t.drop_last().push('\r') =~= t);
        crate::text::lemma_trim_ws_suffix(t.drop_last(), '\r');
    }
    reveal_strlit("Host ");
    reveal_strlit("host ");
    let e = Seq::<char>::empty();
    crate::text::lemma_skip_ws(e, 0);
    assert(trim(e) =~= e);
}

proof fn lemma_ssh_hosts_joined(a: Seq<char>, b: Seq<char>, i: int)
    requires
        0 <= i <= a.len(),
    ensures
        ssh_hosts(lines_from(a + seq!['\n'] + b, i)) == ssh_hosts(lines_from(a, i)) + ssh_hosts(
            lines(b),
        ),
    decreases a.len() - i,
{
    crate::text::lemma_lines_joined(a, b, i);
    let s = a + seq!['\n'] + b;
    lemma_host_line_cr(Seq::<char>::empty());
    if i >= a.len() {
        lemma_ssh_hosts_cons(Seq::<char>::empty(), lines(b));
        assert(lines_from(a, i) =~= Seq::<Seq<char>>::empty());
        assert(ssh_hosts(lines_from(a, i)) + ssh_hosts(lines(b)) =~= ssh_hosts(lines(b)));
        assert(Seq::<Seq<char>>::empty() + ssh_hosts(lines(b)) =~= ssh_hosts(lines(b)));
    } else {
        let e = find_char_from(a, '\n', i);
        if e < a.len() {
            let l = strip_cr(a.subrange(i, e));
            lemma_ssh_hosts_joined(a, b, e + 1);
            lemma_ssh_hosts_cons(l, lines_from(s, e + 1));
            lemma_ssh_hosts_cons(l, lines_from(a, e + 1));
            assert(host_line(l) + (ssh_hosts(lines_from(a, e + 1)) + ssh_hosts(lines(b)))
                =~= host_line(l) + ssh_hosts(lines_from(a, e + 1)) + ssh_hosts(lines(b)));
        } else {
            let t = a.subrange(i, a.len() as int);
            lemma_host_line_cr(t);
            lemma_ssh_hosts_cons(strip_cr(t), lines(b));
            lemma_ssh_hosts_cons(t, Seq::<Seq<char>>::empty());
            assert(seq![t] + Seq::<Seq<char>>::empty() =~= seq![t]);
            assert(ssh_hosts(Seq::<Seq<char>>::empty()) =~= Seq::<Seq<char>>::empty());
            assert(host_line(t) + Seq::<Seq<char>>::empty() =~= host_line(t));
        }
    }
}

/// Hosts are collected line by line, in order: the hosts of two texts joined
/// by a newline are those of the first, then those of the second.
pub proof fn law_ssh_hosts_line_by_line(a: Seq<char>, b: Seq<char>)
    ensures
        ssh_hosts(lines(a + "\n"@ + b)) == ssh_hosts(lines(a)) + ssh_hosts(lines(b)),
{
    reveal_strlit("\n");
    assert("\n"@ =~= seq!['\n']);
    lemma_ssh_hosts_joined(a, b, 0);
}


/// Each is a non-empty text without whitespace.
pub open spec fn all_words(cs: Seq<Seq<char>>) -> bool {
    forall|k: int|
        0 <= k < cs.len() ==> #[trigger] cs[k].len() > 0 && forall|m: int|
            0 <= m < cs[k].len() ==> !crate::text::is_ws(cs[k][m])
}

/// Words joined by single spaces split back into those words.
pub proof fn lemma_tokens_of_joined(cs: Seq<Seq<char>>)
    requires
        all_words(cs),
    ensures
        tokens(crate::platform::join_with(cs, " "@)) == cs,
    decreases cs.len(),
{
    reveal_strlit(" ");
    if cs.len() == 0 {
        assert(tokens(Seq::<char>::empty()) =~= Seq::<Seq<char>>::empty());
    } else if cs.len() == 1 {
        assert(cs[0].len() > 0);
        crate::text::lemma_single_token(cs[0]);
        assert(seq![cs[0]] =~= cs);
    } else {
        let d = cs.drop_last();
        assert(all_words(d)) by {
            assert forall|k: int| 0 <= k < d.len() implies #[trigger] d[k].len() > 0 && forall|m: int|
                0 <= m < d[k].len() ==> !crate::text::is_ws(d[k][m]) by {
                assert(d[k] == cs[k]);
            }
        }
        lemma_tokens_of_joined(d);
        let x = crate::platform::join_with(d, " "@);
        assert(" "@ =~= seq![' ']);
        assert(crate::text::is_ws(' '));
        crate::text::lemma_tokens_split(x, ' ', cs.last(), 0);
        assert(cs.last().len() > 0);
        crate::text::lemma_single_token(cs.last());
        assert(x + " "@ + cs.last() =~= x + seq![' '] + cs.last());
        assert(d + seq![cs.last()] =~= cs);
    }
}

/// The state column of a `netstat` line (LISTENING, ESCUCHANDO, ...) never
/// changes what the line gives: the line rebuilt from the same columns with
/// any other word in the fourth gives the same result. A listening socket is
/// told only by its remote address ending in `:0`.
pub proof fn law_netstat_ignores_state(l: Seq<char>, state: Seq<char>)
    requires
        tokens(l).len() >= 4,
        state.len() > 0,
        forall|m: int| 0 <= m < state.len() ==> !crate::text::is_ws(state[m]),
    ensures
        netstat_line(crate::platform::join_with(tokens(l).update(3, state), " "@)) == netstat_line(l),
{
    let c = tokens(l);
    crate::text::lemma_tokens_from_shape(l, 0);
    let c2 = c.update(3, state);
    assert(all_words(c2)) by {
        assert forall|k: int| 0 <= k < c2.len() implies #[trigger] c2[k].len() > 0 && forall|m: int|
            0 <= m < c2[k].len() ==> !crate::text::is_ws(c2[k][m]) by {
            if k != 3 {
                assert(c2[k] == c[k]);
                assert(c[k].len() > 0);
            }
        }
    }
    lemma_tokens_of_joined(c2);
}


/// A listening line of `ss -tlnp` whose local address (fourth column) is
/// `addr:port`, with no `:` in the port: what the parse gives for its host,
/// port and exposure.
proof fn lemma_ss_local(l: Seq<char>, addr: Seq<char>, port: Seq<char>)
    requires
        tokens(l).len() >= 4,
        tokens(l)[0] == "LISTEN"@,
        tokens(l)[3] == addr + ":"@ + port,
        forall|k: int| 0 <= k < port.len() ==> port[k] != ':',
    ensures
        ss_line(l) matches Some((h, p, _, _, e)) && p == port && e == (addr == "0.0.0.0"@ || addr
            == "*"@ || addr == "[::]"@ || addr == "::"@) && h == host_of(addr, e),
{
    reveal_strlit(":");
    assert(addr + ":"@ + port =~= addr + seq![':'] + port);
    crate::text::lemma_rsplit_once_join(addr, ':', port);
}

/// A socket bound to an any-address (`0.0.0.0`, `*`, `[::]` or `::`) is
/// exposed to the network, and is shown as `localhost` with the port it
/// listens on.
pub proof fn law_ss_any_address_exposed(l: Seq<char>, addr: Seq<char>, port: Seq<char>)
    requires
        tokens(l).len() >= 4,
        tokens(l)[0] == "LISTEN"@,
        tokens(l)[3] == addr + ":"@ + port,
        forall|k: int| 0 <= k < port.len() ==> port[k] != ':',
        addr == "0.0.0.0"@ || addr == "*"@ || addr == "[::]"@ || addr == "::"@,
    ensures
        ss_line(l) matches Some((h, p, _, _, e)) && e && h == "localhost"@ && p == port,
{
    lemma_ss_local(l, addr, port);
}

/// A socket bound to the loopback (`127.0.0.1` or `[::1]`) is not exposed,
/// and is shown as `localhost`.
pub proof fn law_ss_loopback_local(l: Seq<char>, addr: Seq<char>, port: Seq<char>)
    requires
        tokens(l).len() >= 4,
        tokens(l)[0] == "LISTEN"@,
        tokens(l)[3] == addr + ":"@ + port,
        forall|k: int| 0 <= k < port.len() ==> port[k] != ':',
        addr == "127.0.0.1"@ || addr == "[::1]"@,
    ensures
        ss_line(l) matches Some((h, p, _, _, e)) && !e && h == "localhost"@ && p == port,
{
    reveal_strlit("127.0.0.1");
    reveal_strlit("[::1]");
    reveal_strlit("0.0.0.0");
    reveal_strlit("*");
    reveal_strlit("[::]");
    reveal_strlit("::");
    lemma_ss_local(l, addr, port);
    if addr == "127.0.0.1"@ {
        assert(addr[0] != "0.0.0.0"@[0]);
        assert(addr.len() != "*"@.len() && addr.len() != "[::]"@.len() && addr.len() != "::"@.len());
    } else {
        assert(addr.len() != "0.0.0.0"@.len() && addr.len() != "*"@.len() && addr.len() != "::"@.len()
            && addr.len() != "[::]"@.len());
    }
}

/// A socket bound to any other address is not exposed and is shown by that
/// address.
pub proof fn law_ss_specific_address(l: Seq<char>, addr: Seq<char>, port: Seq<char>)
    requires
        tokens(l).len() >= 4,
        tokens(l)[0] == "LISTEN"@,
        tokens(l)[3] == addr + ":"@ + port,
        forall|k: int| 0 <= k < port.len() ==> port[k] != ':',
        addr != "0.0.0.0"@ && addr != "*"@ && addr != "[::]"@ && addr != "::"@,
        addr != "127.0.0.1"@ && addr != "[::1]"@,
    ensures
        ss_line(l) matches Some((h, p, _, _, e)) && !e && h == addr && p == port,
{
    lemma_ss_local(l, addr, port);
}

/// Every port of the documented development ranges is a development port:
/// the framework ranges 3000-3099, 4000-4050, 5000-5099, vite's 5170-5180,
/// postgres 5432-5440, redis 6379-6390, 7000-7010, 8000-8099, 8440-8450,
/// 8880-8899 and 9000-9099.
pub proof fn law_dev_port_ranges(port: u16)
    requires
        (3000 <= port <= 3099) || (4000 <= port <= 4050) || (5000 <= port <= 5099) || (5170 <= port
            <= 5180) || (5432 <= port <= 5440) || (6379 <= port <= 6390) || (7000 <= port <= 7010)
            || (8000 <= port <= 8099) || (8440 <= port <= 8450) || (8880 <= port <= 8899) || (9000
            <= port <= 9099),
    ensures
        dev_port(port),
{
}


/// A listening TCP line of `netstat -ano` (remote address ending in `:0`,
/// numeric pid) bound to an any-address (`0.0.0.0`, `*` or `[::]`) is
/// exposed and shown as `localhost`, with its port and pid.
pub proof fn law_netstat_any_address_exposed(l: Seq<char>, addr: Seq<char>, port: Seq<char>)
    requires
        tokens(l).len() >= 5,
        tokens(l)[0] == "TCP"@,
        tokens(l)[1] == addr + ":"@ + port,
        ends_with(tokens(l)[2], ":0"@),
        tokens(l)[4].len() > 0,
        forall|k: int| 0 <= k < tokens(l)[4].len() ==> is_digit(#[trigger] tokens(l)[4][k]),
        forall|k: int| 0 <= k < port.len() ==> port[k] != ':',
        addr == "0.0.0.0"@ || addr == "*"@ || addr == "[::]"@,
    ensures
        netstat_line(l) == Some(("localhost"@, port, tokens(l)[4], true)),
{
    reveal_strlit(":");
    reveal_strlit("TCP");
    reveal_strlit("tcp");
    assert(addr + ":"@ + port =~= addr + seq![':'] + port);
    crate::text::lemma_rsplit_once_join(addr, ':', port);
    let t = tokens(l)[0];
    assert(eq_ignore_ascii_case(t, "tcp"@)) by {
        assert(t.len() == 3);
        assert(crate::text::ascii_lower(t[0]) == "tcp"@[0]);
        assert(crate::text::ascii_lower(t[1]) == "tcp"@[1]);
        assert(crate::text::ascii_lower(t[2]) == "tcp"@[2]);
    }
}

} // verus!

