//! Plain-text primitives over character sequences: whitespace splitting,
//! trimming, line splitting and searching, each with the meaning that the
//! corresponding `str` method has, stated as a spec function.
use vstd::prelude::*;

verus! {

// ---------------------------------------------------------------------------
// Characters
// ---------------------------------------------------------------------------

/// Unicode `White_Space`, the set that `char::is_whitespace` tests.
pub open spec fn is_ws(c: char) -> bool {
    let u = c as u32;
    ||| 0x09 <= u <= 0x0D
    ||| u == 0x20
    ||| u == 0x85
    ||| u == 0xA0
    ||| u == 0x1680
    ||| 0x2000 <= u <= 0x200A
    ||| u == 0x2028
    ||| u == 0x2029
    ||| u == 0x202F
    ||| u == 0x205F
    ||| u == 0x3000
}

pub fn is_whitespace(c: char) -> (b: bool)
    ensures
        b == is_ws(c),
{
    let u = c as u32;
    (0x09 <= u && u <= 0x0D) || u == 0x20 || u == 0x85 || u == 0xA0 || u == 0x1680 || (0x2000
        <= u && u <= 0x200A) || u == 0x2028 || u == 0x2029 || u == 0x202F || u == 0x205F || u
        == 0x3000
}

pub open spec fn is_digit(c: char) -> bool {
    '0' <= c && c <= '9'
}

pub fn is_ascii_digit(c: char) -> (b: bool)
    ensures
        b == is_digit(c),
{
    '0' <= c && c <= '9'
}

/// `char::to_ascii_lowercase`.
pub open spec fn ascii_lower(c: char) -> char {
    if 'A' <= c && c <= 'Z' {
        ((c as u32) + 32) as char
    } else {
        c
    }
}

pub fn to_ascii_lower(c: char) -> (r: char)
    ensures
        r == ascii_lower(c),
{
    if 'A' <= c && c <= 'Z' {
        let u: u32 = (c as u32) + 32;
        char_from_ascii(u)
    } else {
        c
    }
}

/// The character `a..=z` whose code is `u`.
fn char_from_ascii(u: u32) -> (c: char)
    requires
        97 <= u <= 122,
    ensures
        c as u32 == u,
{
    let b: u8 = u as u8;
    let c = b as char;
    c
}

// ---------------------------------------------------------------------------
// Searching
// ---------------------------------------------------------------------------

/// Index of the first `c` at or after `i`, or `s.len()`.
pub open spec fn find_char_from(s: Seq<char>, c: char, i: int) -> int
    decreases s.len() - i,
{
    if i >= s.len() {
        s.len() as int
    } else if s[i] == c {
        i
    } else {
        find_char_from(s, c, i + 1)
    }
}

pub proof fn lemma_find_char_from(s: Seq<char>, c: char, i: int)
    requires
        0 <= i <= s.len(),
    ensures
        i <= find_char_from(s, c, i) <= s.len(),
        find_char_from(s, c, i) < s.len() ==> s[find_char_from(s, c, i)] == c,
        forall|k: int| i <= k < find_char_from(s, c, i) ==> s[k] != c,
    decreases s.len() - i,
{
    if i < s.len() && s[i] != c {
        lemma_find_char_from(s, c, i + 1);
    }
}

pub fn find_char(s: &Vec<char>, c: char, from: usize) -> (r: usize)
    requires
        from <= s.len(),
    ensures
        r == find_char_from(s@, c, from as int),
        from <= r <= s.len(),
{
    let mut i = from;
    proof {
        lemma_find_char_from(s@, c, from as int);
    }
    while i < s.len()
        invariant
            from <= i <= s.len(),
            find_char_from(s@, c, from as int) == find_char_from(s@, c, i as int),
        decreases s.len() - i,
    {
        if s[i] == c {
            return i;
        }
        i = i + 1;
    }
    i
}

/// Whether `c` occurs in `s`.
pub open spec fn has_char(s: Seq<char>, c: char) -> bool {
    exists|k: int| 0 <= k < s.len() && s[k] == c
}

pub fn contains_char(s: &Vec<char>, c: char) -> (b: bool)
    ensures
        b == has_char(s@, c),
{
    let i = find_char(s, c, 0);
    proof {
        lemma_find_char_from(s@, c, 0);
    }
    i < s.len()
}

/// Index of the last `c` in `s.take(j)`, or -1.
pub open spec fn rfind_char_before(s: Seq<char>, c: char, j: int) -> int
    decreases j,
{
    if j <= 0 {
        -1
    } else if s[j - 1] == c {
        j - 1
    } else {
        rfind_char_before(s, c, j - 1)
    }
}

pub proof fn lemma_rfind_char(s: Seq<char>, c: char, j: int)
    requires
        0 <= j <= s.len(),
    ensures
        -1 <= rfind_char_before(s, c, j) < j,
        rfind_char_before(s, c, j) >= 0 ==> s[rfind_char_before(s, c, j)] == c,
        forall|k: int| rfind_char_before(s, c, j) < k < j ==> s[k] != c,
    decreases j,
{
    if j > 0 && s[j - 1] != c {
        lemma_rfind_char(s, c, j - 1);
    }
}

/// `str::rsplit_once(c)`: the parts before and after the last `c`.
pub open spec fn rsplit_once(s: Seq<char>, c: char) -> Option<(Seq<char>, Seq<char>)> {
    let k = rfind_char_before(s, c, s.len() as int);
    if k < 0 {
        None
    } else {
        Some((s.take(k), s.skip(k + 1)))
    }
}

pub fn rsplit_once_char(s: &Vec<char>, c: char) -> (r: Option<(Vec<char>, Vec<char>)>)
    ensures
        match r {
            Some((a, b)) => rsplit_once(s@, c) == Some((a@, b@)),
            None => rsplit_once(s@, c) is None,
        },
{
    let mut j = s.len();
    proof {
        lemma_rfind_char(s@, c, s@.len() as int);
    }
    while j > 0
        invariant
            j <= s.len(),
            rfind_char_before(s@, c, s@.len() as int) == rfind_char_before(s@, c, j as int),
        decreases j,
    {
        if s[j - 1] == c {
            let a = slice_of(s, 0, j - 1);
            let b = slice_of(s, j, s.len());
            assert(a@ == s@.take(j - 1));
            assert(b@ == s@.skip(j as int));
            return Some((a, b));
        }
        j = j - 1;
    }
    None
}

/// Whether `p` occurs in `s` starting at `i`.
pub open spec fn occurs_at(s: Seq<char>, p: Seq<char>, i: int) -> bool {
    0 <= i && i + p.len() <= s.len() && s.subrange(i, i + p.len()) == p
}

/// Index of the first occurrence of `p` at or after `i`, or `s.len()`.
pub open spec fn find_seq_from(s: Seq<char>, p: Seq<char>, i: int) -> int
    decreases s.len() - i,
{
    if i >= s.len() {
        s.len() as int
    } else if occurs_at(s, p, i) {
        i
    } else {
        find_seq_from(s, p, i + 1)
    }
}

pub proof fn lemma_find_seq_from(s: Seq<char>, p: Seq<char>, i: int)
    requires
        0 <= i <= s.len(),
    ensures
        i <= find_seq_from(s, p, i) <= s.len(),
        find_seq_from(s, p, i) < s.len() ==> occurs_at(s, p, find_seq_from(s, p, i)),
        forall|k: int| i <= k < find_seq_from(s, p, i) ==> !occurs_at(s, p, k),
    decreases s.len() - i,
{
    if i < s.len() && !occurs_at(s, p, i) {
        lemma_find_seq_from(s, p, i + 1);
    }
}

/// Whether `s[i..]` starts with `p`.
pub fn matches_at(s: &Vec<char>, p: &Vec<char>, i: usize) -> (b: bool)
    requires
        i <= s.len(),
    ensures
        b == occurs_at(s@, p@, i as int),
{
    if p.len() > s.len() - i {
        return false;
    }
    let mut k: usize = 0;
    while k < p.len()
        invariant
            i + p.len() <= s.len(),
            k <= p.len(),
            forall|m: int| 0 <= m < k ==> s@[i + m] == p@[m],
        decreases p.len() - k,
    {
        if s[i + k] != p[k] {
            assert(s@.subrange(i as int, i + p.len())[k as int] != p@[k as int]);
            return false;
        }
        k = k + 1;
    }
    assert(s@.subrange(i as int, i + p.len()) =~= p@);
    true
}

pub fn find_seq(s: &Vec<char>, p: &Vec<char>, from: usize) -> (r: usize)
    requires
        from <= s.len(),
    ensures
        r == find_seq_from(s@, p@, from as int),
        from <= r <= s.len(),
{
    let mut i = from;
    proof {
        lemma_find_seq_from(s@, p@, from as int);
    }
    while i < s.len()
        invariant
            from <= i <= s.len(),
            find_seq_from(s@, p@, from as int) == find_seq_from(s@, p@, i as int),
        decreases s.len() - i,
    {
        if matches_at(s, p, i) {
            return i;
        }
        i = i + 1;
    }
    i
}

/// `str::starts_with`.
pub open spec fn starts_with(s: Seq<char>, p: Seq<char>) -> bool {
    p.len() <= s.len() && s.take(p.len() as int) == p
}

pub fn has_prefix(s: &Vec<char>, p: &Vec<char>) -> (b: bool)
    ensures
        b == starts_with(s@, p@),
{
    let b = matches_at(s, p, 0);
    proof {
        if b {
            assert(s@.subrange(0, p@.len() as int) == s@.take(p@.len() as int));
        } else if p@.len() <= s@.len() {
            assert(s@.subrange(0, p@.len() as int) == s@.take(p@.len() as int));
        }
    }
    b
}

/// `str::ends_with`.
pub open spec fn ends_with(s: Seq<char>, p: Seq<char>) -> bool {
    p.len() <= s.len() && s.skip(s.len() - p.len()) == p
}

pub fn has_suffix(s: &Vec<char>, p: &Vec<char>) -> (b: bool)
    ensures
        b == ends_with(s@, p@),
{
    if p.len() > s.len() {
        return false;
    }
    let b = matches_at(s, p, s.len() - p.len());
    proof {
        assert(s@.subrange(s@.len() - p@.len(), s@.len() as int) == s@.skip(
            s@.len() - p@.len(),
        ));
    }
    b
}

/// `str::contains` with a string pattern.
pub open spec fn contains_seq(s: Seq<char>, p: Seq<char>) -> bool {
    exists|k: int| occurs_at(s, p, k)
}

pub fn contains(s: &Vec<char>, p: &Vec<char>) -> (b: bool)
    ensures
        b == contains_seq(s@, p@),
{
    if p.len() == 0 {
        assert(s@.subrange(0, 0) =~= p@);
        assert(occurs_at(s@, p@, 0));
        return true;
    }
    let i = find_seq(s, p, 0);
    proof {
        lemma_find_seq_from(s@, p@, 0);
        if i < s@.len() {
            assert(occurs_at(s@, p@, i as int));
        } else {
            assert forall|k: int| !occurs_at(s@, p@, k) by {
                if 0 <= k < s@.len() {
                } else if k >= s@.len() {
                    assert(k + p@.len() > s@.len());
                }
            }
        }
    }
    i < s.len()
}

// ---------------------------------------------------------------------------
// Copies and equality
// ---------------------------------------------------------------------------

/// A copy of `s[a..b]`.
pub fn slice_of(s: &Vec<char>, a: usize, b: usize) -> (r: Vec<char>)
    requires
        a <= b <= s.len(),
    ensures
        r@ == s@.subrange(a as int, b as int),
{
    let mut r: Vec<char> = Vec::new();
    let mut i = a;
    while i < b
        invariant
            a <= i <= b <= s.len(),
            r@ == s@.subrange(a as int, i as int),
        decreases b - i,
    {
        r.push(s[i]);
        i = i + 1;
        assert(r@ =~= s@.subrange(a as int, i as int));
    }
    r
}

pub fn copy(s: &Vec<char>) -> (r: Vec<char>)
    ensures
        r@ == s@,
{
    let r = slice_of(s, 0, s.len());
    assert(r@ =~= s@);
    r
}

pub fn seq_eq(a: &Vec<char>, b: &Vec<char>) -> (r: bool)
    ensures
        r == (a@ == b@),
{
    if a.len() != b.len() {
        return false;
    }
    let mut i: usize = 0;
    while i < a.len()
        invariant
            a.len() == b.len(),
            i <= a.len(),
            forall|k: int| 0 <= k < i ==> a@[k] == b@[k],
        decreases a.len() - i,
    {
        if a[i] != b[i] {
            return false;
        }
        i = i + 1;
    }
    assert(a@ =~= b@);
    true
}

/// Whether the characters of `a` are those of `lit`.
pub fn eq_str(a: &Vec<char>, lit: &str) -> (r: bool)
    ensures
        r == (a@ == lit@),
{
    let b = chars_of(lit);
    seq_eq(a, &b)
}

/// `str::eq_ignore_ascii_case`.
pub open spec fn eq_ignore_ascii_case(a: Seq<char>, b: Seq<char>) -> bool {
    a.len() == b.len() && forall|k: int| 0 <= k < a.len() ==> ascii_lower(a[k]) == ascii_lower(b[k])
}

pub fn eq_ascii_nocase(a: &Vec<char>, lit: &str) -> (r: bool)
    ensures
        r == eq_ignore_ascii_case(a@, lit@),
{
    let b = chars_of(lit);
    if a.len() != b.len() {
        return false;
    }
    let mut i: usize = 0;
    while i < a.len()
        invariant
            a.len() == b.len(),
            b@ == lit@,
            i <= a.len(),
            forall|k: int| 0 <= k < i ==> ascii_lower(a@[k]) == ascii_lower(b@[k]),
        decreases a.len() - i,
    {
        if to_ascii_lower(a[i]) != to_ascii_lower(b[i]) {
            return false;
        }
        i = i + 1;
    }
    true
}

// ---------------------------------------------------------------------------
// Conversions between `str`/`String` and characters
// ---------------------------------------------------------------------------

pub fn chars_of(s: &str) -> (res: Vec<char>)
    ensures
        res@ == s@,
{
    let mut v: Vec<char> = Vec::new();
    for c in it: s.chars()
        invariant
            v@ == it.seq().take(it.index() as int),
    {
        v.push(c);
    }
    v
}

/// The string made of the characters of `v`, in order.
pub(crate) fn string_of(v: &Vec<char>) -> (s: String)
    ensures
        s@ == v@,
{
    let mut s = String::new();
    let mut i: usize = 0;
    while i < v.len()
        invariant
            i <= v@.len(),
            s@ == v@.take(i as int),
        decreases v@.len() - i,
    {
        crate::ui::push_char(&mut s, v[i]);
        i = i + 1;
        assert(s@ =~= v@.take(i as int));
    }
    assert(v@.take(v@.len() as int) =~= v@);
    s
}

/// `str::to_string`.
pub fn lit(s: &str) -> (r: String)
    ensures
        r@ == s@,
{
    s.to_owned()
}

/// Literals, as a list of owned strings.
pub open spec fn views_of_strs(v: Seq<&str>) -> Seq<Seq<char>> {
    v.map_values(|x: &str| x@)
}

pub open spec fn views_of(v: Seq<String>) -> Seq<Seq<char>> {
    v.map_values(|x: String| x@)
}

/// The strings of `v`, owned.
pub fn owned(v: &[&str]) -> (r: Vec<String>)
    ensures
        views_of(r@) == views_of_strs(v@),
{
    let mut r: Vec<String> = Vec::new();
    let mut i: usize = 0;
    while i < v.len()
        invariant
            i <= v.len(),
            views_of(r@) == views_of_strs(v@.take(i as int)),
        decreases v.len() - i,
    {
        let x = lit(v[i]);
        r.push(x);
        i = i + 1;
        assert(views_of_strs(v@.take(i as int)) =~= views_of_strs(v@.take((i - 1) as int)).push(
            v@[i - 1]@,
        ));
        assert(views_of(r@) =~= views_of(r@.drop_last()).push(x@));
    }
    assert(v@.take(v@.len() as int) =~= v@);
    r
}

/// `a` followed by `b`.
pub fn concat(a: &str, b: &str) -> (r: String)
    ensures
        r@ == a@ + b@,
{
    let mut v = chars_of(a);
    let w = chars_of(b);
    let mut i: usize = 0;
    let ghost va = v@;
    while i < w.len()
        invariant
            i <= w.len(),
            v@ == va + w@.take(i as int),
        decreases w.len() - i,
    {
        v.push(w[i]);
        i = i + 1;
        assert(v@ =~= va + w@.take(i as int));
    }
    assert(w@.take(w@.len() as int) =~= w@);
    string_of(&v)
}

// ---------------------------------------------------------------------------
// Trimming
// ---------------------------------------------------------------------------

/// Index of the first non-whitespace character at or after `i`, or `s.len()`.
pub open spec fn skip_ws_from(s: Seq<char>, i: int) -> int
    decreases s.len() - i,
{
    if i >= s.len() {
        s.len() as int
    } else if is_ws(s[i]) {
        skip_ws_from(s, i + 1)
    } else {
        i
    }
}

pub proof fn lemma_skip_ws(s: Seq<char>, i: int)
    requires
        0 <= i <= s.len(),
    ensures
        i <= skip_ws_from(s, i) <= s.len(),
        skip_ws_from(s, i) < s.len() ==> !is_ws(s[skip_ws_from(s, i)]),
        forall|k: int| i <= k < skip_ws_from(s, i) ==> is_ws(s[k]),
    decreases s.len() - i,
{
    if i < s.len() && is_ws(s[i]) {
        lemma_skip_ws(s, i + 1);
    }
}

/// Index of the first whitespace character at or after `i`, or `s.len()`.
pub open spec fn token_end_from(s: Seq<char>, i: int) -> int
    decreases s.len() - i,
{
    if i >= s.len() {
        s.len() as int
    } else if is_ws(s[i]) {
        i
    } else {
        token_end_from(s, i + 1)
    }
}

pub proof fn lemma_token_end(s: Seq<char>, i: int)
    requires
        0 <= i <= s.len(),
    ensures
        i <= token_end_from(s, i) <= s.len(),
        token_end_from(s, i) < s.len() ==> is_ws(s[token_end_from(s, i)]),
        forall|k: int| i <= k < token_end_from(s, i) ==> !is_ws(s[k]),
        i < s.len() && !is_ws(s[i]) ==> i < token_end_from(s, i),
    decreases s.len() - i,
{
    if i < s.len() && !is_ws(s[i]) {
        lemma_token_end(s, i + 1);
    }
}

pub fn skip_ws(s: &Vec<char>, from: usize) -> (r: usize)
    requires
        from <= s.len(),
    ensures
        r == skip_ws_from(s@, from as int),
{
    let mut i = from;
    while i < s.len()
        invariant
            from <= i <= s.len(),
            skip_ws_from(s@, from as int) == skip_ws_from(s@, i as int),
        decreases s.len() - i,
    {
        if !is_whitespace(s[i]) {
            return i;
        }
        i = i + 1;
    }
    i
}

pub fn token_end(s: &Vec<char>, from: usize) -> (r: usize)
    requires
        from <= s.len(),
    ensures
        r == token_end_from(s@, from as int),
{
    let mut i = from;
    while i < s.len()
        invariant
            from <= i <= s.len(),
            token_end_from(s@, from as int) == token_end_from(s@, i as int),
        decreases s.len() - i,
    {
        if is_whitespace(s[i]) {
            return i;
        }
        i = i + 1;
    }
    i
}

/// Length of `s.take(j)` without its trailing whitespace.
pub open spec fn trim_end_len(s: Seq<char>, j: int) -> int
    decreases j,
{
    if j <= 0 {
        0
    } else if is_ws(s[j - 1]) {
        trim_end_len(s, j - 1)
    } else {
        j
    }
}

pub proof fn lemma_trim_end_len(s: Seq<char>, j: int)
    requires
        0 <= j <= s.len(),
    ensures
        0 <= trim_end_len(s, j) <= j,
        trim_end_len(s, j) > 0 ==> !is_ws(s[trim_end_len(s, j) - 1]),
        forall|k: int| trim_end_len(s, j) <= k < j ==> is_ws(s[k]),
    decreases j,
{
    if j > 0 && is_ws(s[j - 1]) {
        lemma_trim_end_len(s, j - 1);
    }
}

/// `str::trim_start`.
pub open spec fn trim_start(s: Seq<char>) -> Seq<char> {
    s.skip(skip_ws_from(s, 0))
}

/// `str::trim_end`.
pub open spec fn trim_end(s: Seq<char>) -> Seq<char> {
    s.take(trim_end_len(s, s.len() as int))
}

/// `str::trim`.
pub open spec fn trim(s: Seq<char>) -> Seq<char> {
    trim_end(trim_start(s))
}

pub fn trim_end_chars(s: &Vec<char>) -> (r: Vec<char>)
    ensures
        r@ == trim_end(s@),
{
    let mut j = s.len();
    proof {
        lemma_trim_end_len(s@, s@.len() as int);
    }
    while j > 0 && is_whitespace(s[j - 1])
        invariant
            j <= s.len(),
            trim_end_len(s@, s@.len() as int) == trim_end_len(s@, j as int),
        decreases j,
    {
        j = j - 1;
    }
    slice_of(s, 0, j)
}

pub fn trim_start_chars(s: &Vec<char>) -> (r: Vec<char>)
    ensures
        r@ == trim_start(s@),
{
    let i = skip_ws(s, 0);
    proof {
        lemma_skip_ws(s@, 0);
    }
    let r = slice_of(s, i, s.len());
    assert(r@ =~= s@.skip(i as int));
    r
}

pub fn trim_chars(s: &Vec<char>) -> (r: Vec<char>)
    ensures
        r@ == trim(s@),
{
    let t = trim_start_chars(s);
    trim_end_chars(&t)
}

/// The deep view of a character vector is its view.
pub proof fn lemma_deep_chars(v: Vec<char>)
    ensures
        v.deep_view() == v@,
{
    assert(v.deep_view() =~= v@);
}

// ---------------------------------------------------------------------------
// Whitespace-separated tokens
// ---------------------------------------------------------------------------

/// `str::split_whitespace` applied to `s[i..]`.
pub open spec fn tokens_from(s: Seq<char>, i: int) -> Seq<Seq<char>>
    decreases s.len() - i,
{
    if i < 0 || i >= s.len() {
        Seq::empty()
    } else {
        let a = skip_ws_from(s, i);
        if a >= s.len() {
            Seq::empty()
        } else {
            let b = token_end_from(s, a);
            proof {
                lemma_skip_ws(s, i);
                lemma_token_end(s, a);
            }
            seq![s.subrange(a, b)] + tokens_from(s, b)
        }
    }
}

/// `str::split_whitespace`.
pub open spec fn tokens(s: Seq<char>) -> Seq<Seq<char>> {
    tokens_from(s, 0)
}

pub proof fn lemma_tokens_from_shape(s: Seq<char>, i: int)
    requires
        0 <= i <= s.len(),
    ensures
        forall|k: int|
            0 <= k < tokens_from(s, i).len() ==> {
                &&& #[trigger] tokens_from(s, i)[k].len() > 0
                &&& forall|m: int|
                    0 <= m < tokens_from(s, i)[k].len() ==> !is_ws(tokens_from(s, i)[k][m])
            },
        tokens_from(s, i).len() <= s.len() - i,
    decreases s.len() - i,
{
    if i < s.len() {
        let a = skip_ws_from(s, i);
        lemma_skip_ws(s, i);
        if a < s.len() {
            let b = token_end_from(s, a);
            lemma_token_end(s, a);
            lemma_tokens_from_shape(s, b);
            let t = tokens_from(s, i);
            assert(t == seq![s.subrange(a, b)] + tokens_from(s, b));
            assert forall|k: int| 0 <= k < t.len() implies {
                &&& #[trigger] t[k].len() > 0
                &&& forall|m: int| 0 <= m < t[k].len() ==> !is_ws(t[k][m])
            } by {
                if k == 0 {
                    assert(t[0] == s.subrange(a, b));
                } else {
                    assert(t[k] == tokens_from(s, b)[k - 1]);
                }
            }
        }
    }
}

/// Each whitespace-separated token, in order.
pub fn split_ws(s: &Vec<char>) -> (res: Vec<Vec<char>>)
    ensures
        res.deep_view() == tokens(s@),
{
    let mut res: Vec<Vec<char>> = Vec::new();
    let mut i: usize = 0;
    while i < s.len()
        invariant
            i <= s.len(),
            tokens(s@) == res.deep_view() + tokens_from(s@, i as int),
        decreases s.len() - i,
    {
        let a = skip_ws(s, i);
        proof {
            lemma_skip_ws(s@, i as int);
        }
        if a == s.len() {
            assert(tokens_from(s@, i as int) == Seq::<Seq<char>>::empty());
            assert(res.deep_view() + tokens_from(s@, i as int) =~= res.deep_view());
            return res;
        }
        let b = token_end(s, a);
        proof {
            lemma_token_end(s@, a as int);
        }
        let t = slice_of(s, a, b);
        let ghost before = res.deep_view();
        res.push(t);
        proof {
            lemma_deep_chars(t);
        }
        assert(res.deep_view() =~= before.push(t@));
        assert(tokens_from(s@, i as int) == seq![t@] + tokens_from(s@, b as int));
        assert(before + tokens_from(s@, i as int) =~= res.deep_view() + tokens_from(
            s@,
            b as int,
        ));
        i = b;
    }
    assert(res.deep_view() + tokens_from(s@, i as int) =~= res.deep_view());
    res
}

// ---------------------------------------------------------------------------
// Lines
// ---------------------------------------------------------------------------

/// `l` without one trailing `'\r'`.
pub open spec fn strip_cr(l: Seq<char>) -> Seq<char> {
    if l.len() > 0 && l.last() == '\r' {
        l.drop_last()
    } else {
        l
    }
}

/// `str::lines` applied to `s[i..]`: split at each `'\n'`, a `'\r'` just
/// before it dropped, and no final empty line after a trailing `'\n'`.
pub open spec fn lines_from(s: Seq<char>, i: int) -> Seq<Seq<char>>
    decreases s.len() - i,
{
    if i < 0 || i >= s.len() {
        Seq::empty()
    } else {
        let e = find_char_from(s, '\n', i);
        proof {
            lemma_find_char_from(s, '\n', i);
        }
        if e >= s.len() {
            seq![s.subrange(i, s.len() as int)]
        } else {
            seq![strip_cr(s.subrange(i, e))] + lines_from(s, e + 1)
        }
    }
}

/// `str::lines`.
pub open spec fn lines(s: Seq<char>) -> Seq<Seq<char>> {
    lines_from(s, 0)
}

pub fn split_lines(s: &Vec<char>) -> (res: Vec<Vec<char>>)
    ensures
        res.deep_view() == lines(s@),
{
    let mut res: Vec<Vec<char>> = Vec::new();
    let mut i: usize = 0;
    while i < s.len()
        invariant
            i <= s.len(),
            lines(s@) == res.deep_view() + lines_from(s@, i as int),
        decreases s.len() - i,
    {
        let e = find_char(s, '\n', i);
        proof {
            lemma_find_char_from(s@, '\n', i as int);
        }
        let ghost before = res.deep_view();
        if e == s.len() {
            let t = slice_of(s, i, s.len());
            res.push(t);
            proof {
                lemma_deep_chars(t);
            }
            assert(res.deep_view() =~= before.push(t@));
            assert(lines_from(s@, i as int) == seq![t@]);
            assert(lines(s@) =~= res.deep_view());
            return res;
        }
        let mut t = slice_of(s, i, e);
        if t.len() > 0 && t[t.len() - 1] == '\r' {
            t.pop();
        }
        assert(t@ == strip_cr(s@.subrange(i as int, e as int)));
        res.push(t);
        proof {
            lemma_deep_chars(t);
        }
        assert(res.deep_view() =~= before.push(t@));
        assert(lines_from(s@, i as int) == seq![t@] + lines_from(s@, e + 1));
        assert(before + lines_from(s@, i as int) =~= res.deep_view() + lines_from(
            s@,
            e + 1,
        ));
        i = e + 1;
    }
    assert(res.deep_view() + lines_from(s@, i as int) =~= res.deep_view());
    res
}

// ---------------------------------------------------------------------------
// Splitting at a character, replacing, padding
// ---------------------------------------------------------------------------

/// `str::split(c)` applied to `s[i..]`: the pieces between the `c`s, empty ones included.
pub open spec fn pieces_from(s: Seq<char>, c: char, i: int) -> Seq<Seq<char>>
    decreases s.len() + 1 - i,
{
    if i < 0 || i > s.len() {
        Seq::empty()
    } else {
        let e = find_char_from(s, c, i);
        proof {
            if i < s.len() {
                lemma_find_char_from(s, c, i);
            }
        }
        if e >= s.len() {
            seq![s.subrange(i, s.len() as int)]
        } else {
            seq![s.subrange(i, e)] + pieces_from(s, c, e + 1)
        }
    }
}

/// `str::split(c)`.
pub open spec fn pieces(s: Seq<char>, c: char) -> Seq<Seq<char>> {
    pieces_from(s, c, 0)
}

/// The first piece of `str::split(c)`: what comes before the first `c`.
pub open spec fn before_char(s: Seq<char>, c: char) -> Seq<char> {
    s.take(find_char_from(s, c, 0))
}

pub fn split_char(s: &Vec<char>, c: char) -> (res: Vec<Vec<char>>)
    ensures
        res.deep_view() == pieces(s@, c),
        res@.len() >= 1,
{
    let mut res: Vec<Vec<char>> = Vec::new();
    let mut i: usize = 0;
    loop
        invariant
            i <= s.len(),
            pieces(s@, c) == res.deep_view() + pieces_from(s@, c, i as int),
        decreases s.len() - i,
    {
        let e = find_char(s, c, i);
        proof {
            if i < s.len() {
                lemma_find_char_from(s@, c, i as int);
            }
        }
        let ghost before = res.deep_view();
        let t = slice_of(s, i, e);
        res.push(t);
        proof {
            lemma_deep_chars(t);
        }
        assert(res.deep_view() =~= before.push(t@));
        if e == s.len() {
            assert(pieces_from(s@, c, i as int) == seq![t@]);
            assert(pieces(s@, c) =~= res.deep_view());
            return res;
        }
        assert(pieces_from(s@, c, i as int) == seq![t@] + pieces_from(s@, c, e + 1));
        assert(before + pieces_from(s@, c, i as int) =~= res.deep_view() + pieces_from(
            s@,
            c,
            e + 1,
        ));
        i = e + 1;
    }
}

/// `s` with each `c` replaced by `rep`.
pub open spec fn replace_char(s: Seq<char>, c: char, rep: Seq<char>) -> Seq<char>
    decreases s.len(),
{
    if s.len() == 0 {
        Seq::empty()
    } else {
        replace_char(s.drop_last(), c, rep) + if s.last() == c {
            rep
        } else {
            seq![s.last()]
        }
    }
}

pub fn replace_chars(s: &Vec<char>, c: char, rep: &str) -> (r: Vec<char>)
    ensures
        r@ == replace_char(s@, c, rep@),
{
    let rc = chars_of(rep);
    let mut out: Vec<char> = Vec::new();
    let mut i: usize = 0;
    while i < s.len()
        invariant
            i <= s@.len(),
            rc@ == rep@,
            out@ == replace_char(s@.take(i as int), c, rep@),
        decreases s@.len() - i,
    {
        let ghost before = out@;
        if s[i] == c {
            let mut k: usize = 0;
            while k < rc.len()
                invariant
                    k <= rc@.len(),
                    out@ == before + rc@.take(k as int),
                decreases rc@.len() - k,
            {
                out.push(rc[k]);
                k = k + 1;
                assert(out@ =~= before + rc@.take(k as int));
            }
            assert(rc@.take(rc@.len() as int) =~= rc@);
        } else {
            out.push(s[i]);
        }
        assert(s@.take(i + 1).drop_last() =~= s@.take(i as int));
        i = i + 1;
        assert(out@ =~= replace_char(s@.take(i as int), c, rep@));
    }
    assert(s@.take(s@.len() as int) =~= s@);
    out
}

/// `format!("{:<w}")`: `s` padded with spaces on the right to `w` characters.
pub open spec fn pad_right(s: Seq<char>, w: nat) -> Seq<char> {
    if s.len() >= w {
        s
    } else {
        s + Seq::new((w - s.len()) as nat, |i: int| ' ')
    }
}

pub fn pad(s: &Vec<char>, w: usize) -> (r: Vec<char>)
    ensures
        r@ == pad_right(s@, w as nat),
{
    let mut out = copy(s);
    while out.len() < w
        invariant
            s@.len() <= out@.len() <= if s@.len() >= w {
                s@.len()
            } else {
                w as nat
            },
            out@.take(s@.len() as int) == s@,
            forall|k: int| s@.len() <= k < out@.len() ==> out@[k] == ' ',
        decreases w - out@.len(),
    {
        out.push(' ');
    }
    assert(out@ =~= pad_right(s@, w as nat));
    out
}

/// Characters of `a`, then of `b`.
pub fn append(a: &mut Vec<char>, b: &Vec<char>)
    ensures
        final(a)@ == old(a)@ + b@,
{
    let ghost start = a@;
    let mut i: usize = 0;
    while i < b.len()
        invariant
            i <= b@.len(),
            a@ == start + b@.take(i as int),
        decreases b@.len() - i,
    {
        a.push(b[i]);
        i = i + 1;
        assert(a@ =~= start + b@.take(i as int));
    }
    assert(b@.take(b@.len() as int) =~= b@);
}

/// Characters of `a`, then of the literal `b`.
pub fn append_str(a: &mut Vec<char>, b: &str)
    ensures
        final(a)@ == old(a)@ + b@,
{
    let bc = chars_of(b);
    append(a, &bc);
}

/// `str::replace(p, r)` applied to `s[i..]`: each occurrence of `p`, left to
/// right and not overlapping, replaced by `r` (for a non-empty `p`).
pub open spec fn replace_from(s: Seq<char>, p: Seq<char>, r: Seq<char>, i: int) -> Seq<char>
    decreases s.len() - i,
{
    if i < 0 || i > s.len() {
        Seq::empty()
    } else if p.len() == 0 || i == s.len() {
        s.subrange(i, s.len() as int)
    } else {
        let j = find_seq_from(s, p, i);
        proof {
            lemma_find_seq_from(s, p, i);
        }
        if j >= s.len() {
            s.subrange(i, s.len() as int)
        } else {
            s.subrange(i, j) + r + replace_from(s, p, r, j + p.len())
        }
    }
}

/// `str::replace(p, r)`.
pub open spec fn replace_all(s: Seq<char>, p: Seq<char>, r: Seq<char>) -> Seq<char> {
    replace_from(s, p, r, 0)
}

/// Without an occurrence of `p`, replacing `p` changes nothing.
pub proof fn lemma_replace_absent(s: Seq<char>, p: Seq<char>, r: Seq<char>, i: int)
    requires
        0 <= i <= s.len(),
        forall|k: int| i <= k < s.len() ==> !occurs_at(s, p, k),
    ensures
        replace_from(s, p, r, i) == s.subrange(i, s.len() as int),
{
    if p.len() > 0 && i < s.len() {
        lemma_find_seq_from(s, p, i);
    }
}

pub fn replace_seq(s: &Vec<char>, p: &Vec<char>, r: &Vec<char>) -> (out: Vec<char>)
    requires
        p.len() > 0,
    ensures
        out@ == replace_all(s@, p@, r@),
{
    let mut out: Vec<char> = Vec::new();
    let mut i: usize = 0;
    while i < s.len()
        invariant
            i <= s.len(),
            p@.len() > 0,
            out@ + replace_from(s@, p@, r@, i as int) == replace_all(s@, p@, r@),
        decreases s.len() - i,
    {
        let j = find_seq(s, p, i);
        proof {
            lemma_find_seq_from(s@, p@, i as int);
        }
        let ghost before = out@;
        if j == s.len() {
            let rest = slice_of(s, i, s.len());
            append(&mut out, &rest);
            assert(out@ + replace_from(s@, p@, r@, s.len() as int) =~= before + replace_from(
                s@,
                p@,
                r@,
                i as int,
            ));
            return out;
        }
        let mid = slice_of(s, i, j);
        append(&mut out, &mid);
        append(&mut out, r);
        assert(before + replace_from(s@, p@, r@, i as int) =~= out@ + replace_from(
            s@,
            p@,
            r@,
            j + p@.len(),
        ));
        i = j + p.len();
    }
    assert(replace_from(s@, p@, r@, i as int) =~= Seq::<char>::empty());
    assert(out@ =~= out@ + replace_from(s@, p@, r@, i as int));
    out
}

/// `str::replace(p, r)` on strings, for a non-empty `p`.
pub fn replace_str(s: &str, p: &str, r: &str) -> (out: String)
    requires
        p@.len() > 0,
    ensures
        out@ == replace_all(s@, p@, r@),
{
    let sc = chars_of(s);
    let pc = chars_of(p);
    let rc = chars_of(r);
    let o = replace_seq(&sc, &pc, &rc);
    string_of(&o)
}

// ---------------------------------------------------------------------------
// UTF-8 lengths and prefix stripping
// ---------------------------------------------------------------------------

/// Number of bytes of `c` in UTF-8.
pub open spec fn utf8_width(c: char) -> int {
    let u = c as u32;
    if u < 0x80 {
        1
    } else if u < 0x800 {
        2
    } else if u < 0x10000 {
        3
    } else {
        4
    }
}

/// `str::len`: number of bytes of `s` in UTF-8.
pub open spec fn utf8_len(s: Seq<char>) -> int
    decreases s.len(),
{
    if s.len() == 0 {
        0
    } else {
        utf8_len(s.drop_last()) + utf8_width(s.last())
    }
}

pub fn char_width(c: char) -> (w: usize)
    ensures
        w == utf8_width(c),
{
    let u = c as u32;
    if u < 0x80 {
        1
    } else if u < 0x800 {
        2
    } else if u < 0x10000 {
        3
    } else {
        4
    }
}

pub proof fn lemma_utf8_len_mono(s: Seq<char>, i: int)
    requires
        0 <= i <= s.len(),
    ensures
        utf8_len(s.take(i)) <= utf8_len(s),
        utf8_len(s.take(i)) >= i,
    decreases s.len() - i,
{
    if i < s.len() {
        lemma_utf8_len_mono(s, i + 1);
        assert(s.take(i + 1).drop_last() =~= s.take(i));
    } else {
        assert(s.take(i) =~= s);
    }
    lemma_utf8_len_at_least_len(s.take(i));
}

pub proof fn lemma_utf8_len_at_least_len(s: Seq<char>)
    ensures
        utf8_len(s) >= s.len(),
    decreases s.len(),
{
    if s.len() > 0 {
        lemma_utf8_len_at_least_len(s.drop_last());
    }
}

/// `utf8_len(s.take(n))`, computed; `n <= s.len()`.
pub fn utf8_len_of_prefix(s: &Vec<char>, n: usize) -> (r: usize)
    requires
        n <= s.len(),
        n <= 4,
    ensures
        r == utf8_len(s@.take(n as int)),
{
    let mut total: usize = 0;
    let mut i: usize = 0;
    while i < n
        invariant
            i <= n <= s.len(),
            n <= 4,
            total == utf8_len(s@.take(i as int)),
            total <= 4 * i,
        decreases n - i,
    {
        assert(s@.take(i + 1).drop_last() =~= s@.take(i as int));
        total = total + char_width(s[i]);
        i = i + 1;
    }
    total
}

/// Whether `utf8_len(s) >= 4`.
pub fn utf8_len_at_least_4(s: &Vec<char>) -> (b: bool)
    ensures
        b == (utf8_len(s@) >= 4),
{
    let n = if s.len() < 4 {
        s.len()
    } else {
        4
    };
    let t = utf8_len_of_prefix(s, n);
    proof {
        lemma_utf8_len_mono(s@, n as int);
        if n == s.len() {
            assert(s@.take(n as int) =~= s@);
        }
    }
    t >= 4
}

/// `str::trim_start_matches(p)`: `s` without every leading repetition of `p`.
pub open spec fn strip_all_prefix(s: Seq<char>, p: Seq<char>) -> Seq<char>
    decreases s.len(),
{
    if p.len() > 0 && starts_with(s, p) {
        strip_all_prefix(s.skip(p.len() as int), p)
    } else {
        s
    }
}

pub fn strip_all_prefixes(s: &Vec<char>, p: &str) -> (r: Vec<char>)
    ensures
        r@ == strip_all_prefix(s@, p@),
{
    let pc = chars_of(p);
    let mut i: usize = 0;
    assert(s@.skip(0) =~= s@);
    if pc.len() == 0 {
        return slice_of(s, 0, s.len());
    }
    loop
        invariant
            i <= s@.len(),
            pc@ == p@,
            pc@.len() > 0,
            strip_all_prefix(s@, p@) == strip_all_prefix(s@.skip(i as int), p@),
        ensures
            i <= s@.len(),
            strip_all_prefix(s@, p@) == s@.skip(i as int),
        decreases s@.len() - i,
    {
        if i >= s.len() {
            assert(!starts_with(s@.skip(i as int), p@));
            break;
        }
        let m = matches_at(s, &pc, i);
        if !m {
            assert(!starts_with(s@.skip(i as int), p@)) by {
                if starts_with(s@.skip(i as int), p@) {
                    assert(s@.skip(i as int).take(p@.len() as int) =~= s@.subrange(
                        i as int,
                        i + p@.len(),
                    ));
                }
            }
            break;
        }
        assert(s@.skip(i as int).take(p@.len() as int) =~= s@.subrange(i as int, i + p@.len()));
        assert(s@.skip(i as int).skip(p@.len() as int) =~= s@.skip(i + p@.len()));
        i = i + pc.len();
    }
    let r = slice_of(s, i, s.len());
    assert(r@ =~= s@.skip(i as int));
    r
}

/// `str::strip_prefix`.
pub open spec fn strip_prefix_spec(s: Seq<char>, p: Seq<char>) -> Option<Seq<char>> {
    if starts_with(s, p) {
        Some(s.skip(p.len() as int))
    } else {
        None
    }
}

pub fn strip_prefix(s: &Vec<char>, p: &str) -> (r: Option<Vec<char>>)
    ensures
        match r {
            Some(t) => strip_prefix_spec(s@, p@) == Some(t@),
            None => strip_prefix_spec(s@, p@) is None,
        },
{
    let pc = chars_of(p);
    if has_prefix(s, &pc) {
        let t = slice_of(s, pc.len(), s.len());
        assert(t@ =~= s@.skip(p@.len() as int));
        Some(t)
    } else {
        None
    }
}

// ---------------------------------------------------------------------------
// Numbers
// ---------------------------------------------------------------------------

/// The digit character of `d` (`0 <= d < 10`).
pub open spec fn digit_of(d: nat) -> char {
    ((48 + d) as u8) as char
}

/// Decimal representation of `n`, without leading zeros.
pub open spec fn decimal(n: nat) -> Seq<char>
    decreases n,
{
    if n < 10 {
        seq![digit_of(n)]
    } else {
        decimal(n / 10).push(digit_of(n % 10))
    }
}

pub fn decimal_chars(n: u64) -> (r: Vec<char>)
    ensures
        r@ == decimal(n as nat),
    decreases n,
{
    if n < 10 {
        let c = ((n as u8) + 48) as char;
        vec![c]
    } else {
        let mut v = decimal_chars(n / 10);
        let c = (((n % 10) as u8) + 48) as char;
        v.push(c);
        v
    }
}

/// `u64::to_string`.
pub fn decimal_string(n: u64) -> (r: String)
    ensures
        r@ == decimal(n as nat),
{
    let v = decimal_chars(n);
    string_of(&v)
}

/// Value of a string of decimal digits.
pub open spec fn digits_value(s: Seq<char>) -> nat
    decreases s.len(),
{
    if s.len() == 0 {
        0
    } else {
        digits_value(s.drop_last()) * 10 + ((s.last() as u32) - 48) as nat
    }
}

/// `s` without one leading `+`.
pub open spec fn without_plus(s: Seq<char>) -> Seq<char> {
    if s.len() > 0 && s[0] == '+' {
        s.drop_first()
    } else {
        s
    }
}

/// Every character of `s` is an ASCII digit.
pub open spec fn all_digits(s: Seq<char>) -> bool {
    forall|k: int| 0 <= k < s.len() ==> is_digit(#[trigger] s[k])
}

/// `u16::from_str`: an optional `+`, then at least one ASCII digit, with a
/// value that fits.
pub open spec fn parse_u16_spec(s: Seq<char>) -> Option<u16> {
    let d = without_plus(s);
    if d.len() == 0 || !all_digits(d) || digits_value(d) > 65535 {
        None
    } else {
        Some(digits_value(d) as u16)
    }
}

pub proof fn lemma_digits_value_mono(s: Seq<char>, i: int)
    requires
        0 <= i <= s.len(),
        forall|k: int| 0 <= k < s.len() ==> is_digit(#[trigger] s[k]),
    ensures
        digits_value(s.take(i)) <= digits_value(s),
    decreases s.len() - i,
{
    if i < s.len() {
        lemma_digits_value_mono(s, i + 1);
        assert(s.take(i + 1).drop_last() =~= s.take(i));
        assert(s.take(i + 1).last() == s[i]);
    } else {
        assert(s.take(i) =~= s);
    }
}

pub fn parse_u16(s: &Vec<char>) -> (r: Option<u16>)
    ensures
        r == parse_u16_spec(s@),
{
    let start: usize = if s.len() > 0 && s[0] == '+' {
        1
    } else {
        0
    };
    let ghost d = without_plus(s@);
    assert(d =~= s@.skip(start as int));
    if start == s.len() {
        return None;
    }
    let mut i: usize = start;
    while i < s.len()
        invariant
            start <= i <= s@.len(),
            d == s@.skip(start as int),
            d == without_plus(s@),
            forall|k: int| start <= k < i ==> is_digit(#[trigger] s@[k]),
        decreases s@.len() - i,
    {
        if !is_ascii_digit(s[i]) {
            assert(!is_digit(d[i - start]));
            assert(!(forall|k: int| 0 <= k < d.len() ==> is_digit(#[trigger] d[k])));
            return None;
        }
        i = i + 1;
    }
    let mut v: u32 = 0;
    let mut j: usize = start;
    while j < s.len()
        invariant
            start <= j <= s@.len(),
            d == s@.skip(start as int),
            d == without_plus(s@),
            forall|k: int| 0 <= k < d.len() ==> is_digit(#[trigger] d[k]),
            v == digits_value(d.take(j - start)),
            v <= 65535,
        decreases s@.len() - j,
    {
        assert(d.take(j + 1 - start).drop_last() =~= d.take(j - start));
        assert(d.take(j + 1 - start).last() == s@[j as int]);
        let digit = (s[j] as u32) - 48;
        let next = v * 10 + digit;
        assert(digits_value(d.take(j + 1 - start)) == next);
        if next > 65535 {
            proof {
                lemma_digits_value_mono(d, j + 1 - start);
            }
            assert(digits_value(d) > 65535);
            return None;
        }
        v = next;
        j = j + 1;
    }
    assert(d.take(d.len() as int) =~= d);
    Some(v as u16)
}


// ---------------------------------------------------------------------------
// Facts on trimming and lines
// ---------------------------------------------------------------------------

proof fn lemma_trim_end_len_push(u: Seq<char>, c: char, j: int)
    requires
        0 <= j <= u.len(),
    ensures
        trim_end_len(u.push(c), j) == trim_end_len(u, j),
    decreases j,
{
    if j > 0 {
        assert(u.push(c)[j - 1] == u[j - 1]);
        lemma_trim_end_len_push(u, c, j - 1);
    }
}

proof fn lemma_skip_ws_push(u: Seq<char>, c: char, i: int)
    requires
        0 <= i <= u.len(),
        is_ws(c),
    ensures
        skip_ws_from(u.push(c), i) == (if skip_ws_from(u, i) < u.len() {
            skip_ws_from(u, i)
        } else {
            u.len() + 1int
        }),
    decreases u.len() - i,
{
    if i < u.len() {
        assert(u.push(c)[i] == u[i]);
        lemma_skip_ws_push(u, c, i + 1);
    } else {
        assert(u.push(c)[i] == c);
        assert(skip_ws_from(u.push(c), i + 1) == u.len() + 1);
    }
}

/// A whitespace character at the end does not change the trimmed text.
pub proof fn lemma_trim_ws_suffix(u: Seq<char>, c: char)
    requires
        is_ws(c),
    ensures
        trim(u.push(c)) == trim(u),
{
    lemma_skip_ws_push(u, c, 0);
    lemma_skip_ws(u, 0);
    let k = skip_ws_from(u, 0);
    if k < u.len() {
        let v = u.skip(k);
        assert(u.push(c).skip(k) =~= v.push(c));
        lemma_trim_end_len_push(v, c, v.len() as int);
        lemma_trim_end_len(v, v.len() as int);
        assert(is_ws(v.push(c)[v.len() as int]));
        assert(v.push(c).take(trim_end_len(v, v.len() as int)) =~= v.take(
            trim_end_len(v, v.len() as int),
        ));
    } else {
        assert(u.push(c).skip(u.len() + 1int) =~= Seq::<char>::empty());
        assert(u.skip(k) =~= Seq::<char>::empty());
    }
}

proof fn lemma_find_char_shift(p: Seq<char>, b: Seq<char>, c: char, j: int)
    requires
        0 <= j <= b.len(),
    ensures
        find_char_from(p + b, c, p.len() + j) == p.len() + find_char_from(b, c, j),
    decreases b.len() - j,
{
    if j < b.len() {
        assert((p + b)[p.len() + j] == b[j]);
        lemma_find_char_shift(p, b, c, j + 1);
    }
}

/// The lines of `b` read inside `p + b` are the lines of `b`.
pub proof fn lemma_lines_shift(p: Seq<char>, b: Seq<char>, j: int)
    requires
        0 <= j <= b.len(),
    ensures
        lines_from(p + b, p.len() + j) == lines_from(b, j),
    decreases b.len() - j,
{
    let s = p + b;
    if j < b.len() {
        lemma_find_char_shift(p, b, '\n', j);
        lemma_find_char_from(b, '\n', j);
        let e = find_char_from(b, '\n', j);
        if e < b.len() {
            assert(s.subrange(p.len() + j, p.len() + e) =~= b.subrange(j, e));
            lemma_lines_shift(p, b, e + 1);
        } else {
            assert(s.subrange(p.len() + j, s.len() as int) =~= b.subrange(j, b.len() as int));
        }
    }
}

/// Inside `a + "\n" + b`, the next newline from a position of `a` is the
/// next one in `a`, or the added one.
proof fn lemma_find_newline_joined(a: Seq<char>, b: Seq<char>, i: int)
    requires
        0 <= i <= a.len(),
    ensures
        find_char_from(a + seq!['\n'] + b, '\n', i) == find_char_from(a, '\n', i),
    decreases a.len() - i,
{
    let s = a + seq!['\n'] + b;
    if i < a.len() {
        assert(s[i] == a[i]);
        lemma_find_char_from(a, '\n', i);
        lemma_find_newline_joined(a, b, i + 1);
    } else {
        assert(s[i] == '\n');
    }
}

/// The lines of `a + "\n" + b` from a position of `a`: those of `a`, the
/// last one (if unterminated) with a trailing `'\r'` dropped, then for each
/// of them and of `b` what the line-wise function `f` gives.
pub open spec fn lines_joined_shape(a: Seq<char>, b: Seq<char>, i: int) -> bool {
    let s = a + seq!['\n'] + b;
    if i >= a.len() {
        lines_from(s, i) == seq![Seq::<char>::empty()] + lines(b)
    } else {
        let e = find_char_from(a, '\n', i);
        if e < a.len() {
            lines_from(s, i) == seq![strip_cr(a.subrange(i, e))] + lines_from(s, e + 1)
                && lines_from(a, i) == seq![strip_cr(a.subrange(i, e))] + lines_from(a, e + 1)
        } else {
            lines_from(s, i) == seq![strip_cr(a.subrange(i, a.len() as int))] + lines(b)
                && lines_from(a, i) == seq![a.subrange(i, a.len() as int)]
        }
    }
}

pub proof fn lemma_lines_joined(a: Seq<char>, b: Seq<char>, i: int)
    requires
        0 <= i <= a.len(),
    ensures
        lines_joined_shape(a, b, i),
        i < a.len() ==> find_char_from(a, '\n', i) < a.len() ==> i < find_char_from(a, '\n', i) + 1 <= a.len(),
{
    let s = a + seq!['\n'] + b;
    let p = a + seq!['\n'];
    assert(s == p + b);
    lemma_find_newline_joined(a, b, i);
    lemma_lines_shift(p, b, 0);
    assert(p.len() + 0 == a.len() + 1);
    if i < a.len() {
        lemma_find_char_from(a, '\n', i);
        let e = find_char_from(a, '\n', i);
        assert(s.subrange(i, e) =~= a.subrange(i, e));
    } else {
        assert(s.subrange(i, i) =~= Seq::<char>::empty());
        assert(strip_cr(Seq::<char>::empty()) == Seq::<char>::empty());
    }
}


// ---------------------------------------------------------------------------
// Facts on whitespace-separated tokens
// ---------------------------------------------------------------------------

proof fn lemma_skip_ws_prefix(x: Seq<char>, s: Seq<char>, i: int)
    requires
        0 <= i <= x.len() < s.len(),
        s.subrange(0, x.len() as int) == x,
        is_ws(s[x.len() as int]),
    ensures
        skip_ws_from(x, i) < x.len() ==> skip_ws_from(s, i) == skip_ws_from(x, i),
        skip_ws_from(x, i) >= x.len() ==> skip_ws_from(s, i) == skip_ws_from(s, x.len() + 1int),
    decreases x.len() - i,
{
    if i < x.len() {
        assert(s[i] == s.subrange(0, x.len() as int)[i]);
        lemma_skip_ws_prefix(x, s, i + 1);
    }
}

proof fn lemma_token_end_prefix(x: Seq<char>, s: Seq<char>, i: int)
    requires
        0 <= i <= x.len() < s.len(),
        s.subrange(0, x.len() as int) == x,
        is_ws(s[x.len() as int]),
    ensures
        token_end_from(s, i) == token_end_from(x, i),
    decreases x.len() - i,
{
    if i < x.len() {
        assert(s[i] == s.subrange(0, x.len() as int)[i]);
        lemma_token_end_prefix(x, s, i + 1);
    }
}

proof fn lemma_tokens_ws_run(s: Seq<char>, i: int, j: int)
    requires
        0 <= i <= j <= s.len(),
        forall|k: int| i <= k < j ==> is_ws(s[k]),
    ensures
        tokens_from(s, i) == tokens_from(s, j),
    decreases j - i,
{
    if i < j {
        lemma_tokens_ws_run(s, i + 1, j);
        assert(skip_ws_from(s, i) == skip_ws_from(s, i + 1));
    }
}

proof fn lemma_skip_ws_shift(p: Seq<char>, y: Seq<char>, j: int)
    requires
        0 <= j <= y.len(),
    ensures
        skip_ws_from(p + y, p.len() + j) == p.len() + skip_ws_from(y, j),
    decreases y.len() - j,
{
    if j < y.len() {
        assert((p + y)[p.len() + j] == y[j]);
        lemma_skip_ws_shift(p, y, j + 1);
    }
}

proof fn lemma_token_end_shift(p: Seq<char>, y: Seq<char>, j: int)
    requires
        0 <= j <= y.len(),
    ensures
        token_end_from(p + y, p.len() + j) == p.len() + token_end_from(y, j),
    decreases y.len() - j,
{
    if j < y.len() {
        assert((p + y)[p.len() + j] == y[j]);
        lemma_token_end_shift(p, y, j + 1);
    }
}

proof fn lemma_tokens_shift(p: Seq<char>, y: Seq<char>, j: int)
    requires
        0 <= j <= y.len(),
    ensures
        tokens_from(p + y, p.len() + j) == tokens_from(y, j),
    decreases y.len() - j,
{
    let s = p + y;
    if j < y.len() {
        lemma_skip_ws_shift(p, y, j);
        lemma_skip_ws(y, j);
        let a = skip_ws_from(y, j);
        if a < y.len() {
            lemma_token_end_shift(p, y, a);
            lemma_token_end(y, a);
            let b = token_end_from(y, a);
            assert(s.subrange(p.len() + a, p.len() + b) =~= y.subrange(a, b));
            lemma_tokens_shift(p, y, b);
        }
    }
}

/// The tokens of `x`, a whitespace character, then `y`: those of `x`, then
/// those of `y` (read from position `i` of `x`).
pub proof fn lemma_tokens_split(x: Seq<char>, c: char, y: Seq<char>, i: int)
    requires
        is_ws(c),
        0 <= i <= x.len(),
    ensures
        tokens_from(x + seq![c] + y, i) == tokens_from(x, i) + tokens(y),
    decreases x.len() - i,
{
    let p = x + seq![c];
    let s = p + y;
    assert(s.subrange(0, x.len() as int) =~= x);
    assert(s[x.len() as int] == c);
    lemma_skip_ws(x, i);
    lemma_skip_ws_prefix(x, s, i);
    let a = skip_ws_from(x, i);
    if a >= x.len() {
        assert forall|k: int| i <= k < x.len() + 1 implies is_ws(s[k]) by {
            if k < x.len() {
                assert(s[k] == x[k]);
            }
        }
        lemma_tokens_ws_run(s, i, x.len() + 1int);
        lemma_tokens_shift(p, y, 0);
        assert(tokens_from(x, i) =~= Seq::<Seq<char>>::empty());
        assert(Seq::<Seq<char>>::empty() + tokens(y) =~= tokens(y));
    } else {
        lemma_token_end_prefix(x, s, a);
        lemma_token_end(x, a);
        let b = token_end_from(x, a);
        assert(s.subrange(a, b) =~= x.subrange(a, b));
        lemma_tokens_split(x, c, y, b);
        assert(seq![x.subrange(a, b)] + (tokens_from(x, b) + tokens(y)) =~= seq![
            x.subrange(a, b),
        ] + tokens_from(x, b) + tokens(y));
    }
}

/// A non-empty text without whitespace is one token.
pub proof fn lemma_single_token(t: Seq<char>)
    requires
        t.len() > 0,
        forall|k: int| 0 <= k < t.len() ==> !is_ws(t[k]),
    ensures
        tokens(t) == seq![t],
{
    lemma_token_end(t, 0);
    assert(token_end_from(t, 0) == t.len());
    assert(t.subrange(0, t.len() as int) =~= t);
    assert(tokens_from(t, t.len() as int) =~= Seq::<Seq<char>>::empty());
    assert(seq![t] + Seq::<Seq<char>>::empty() =~= seq![t]);
}


proof fn lemma_rfind_after(a: Seq<char>, c: char, p: Seq<char>, j: int)
    requires
        a.len() < j <= a.len() + 1 + p.len(),
        forall|k: int| 0 <= k < p.len() ==> p[k] != c,
    ensures
        rfind_char_before(a + seq![c] + p, c, j) == a.len(),
    decreases j,
{
    let s = a + seq![c] + p;
    if j > a.len() + 1 {
        assert(s[j - 1] == p[j - 1 - a.len() - 1]);
        lemma_rfind_after(a, c, p, j - 1);
    } else {
        assert(s[j - 1] == c);
    }
}

/// Splitting `a`, `c`, `p` at its last `c` gives back `a` and `p` when `p`
/// holds no `c`.
pub proof fn lemma_rsplit_once_join(a: Seq<char>, c: char, p: Seq<char>)
    requires
        forall|k: int| 0 <= k < p.len() ==> p[k] != c,
    ensures
        rsplit_once(a + seq![c] + p, c) == Some((a, p)),
{
    let s = a + seq![c] + p;
    lemma_rfind_after(a, c, p, s.len() as int);
    assert(s.take(a.len() as int) =~= a);
    assert(s.skip(a.len() + 1int) =~= p);
}

} // verus!

