use vstd::prelude::*;
use crate::json::{Json, JsonView, views_of_list, views_of_members, view_of};
use crate::json::{lemma_views_of_list, lemma_views_of_members};
use crate::text::is_digit;

verus! {

// ---------------------------------------------------------------------------
// The grammar. These spec functions are the definition of the wire format:
// the executable parser and printer are proved to follow them exactly.
// ---------------------------------------------------------------------------

/// JSON insignificant whitespace.
pub open spec fn is_ws(c: char) -> bool {
    c == ' ' || c == '\t' || c == '\n' || c == '\r'
}

/// First position at or after `i` that does not hold whitespace.
pub open spec fn spec_skip_ws(s: Seq<char>, i: int) -> int
    decreases s.len() - i,
    when 0 <= i <= s.len()
{
    if i < s.len() && is_ws(s[i]) {
        spec_skip_ws(s, i + 1)
    } else {
        i
    }
}

pub proof fn lemma_skip_ws(s: Seq<char>, i: int)
    requires
        0 <= i <= s.len(),
    ensures
        i <= spec_skip_ws(s, i) <= s.len(),
        spec_skip_ws(s, i) == s.len() || !is_ws(s[spec_skip_ws(s, i)]),
    decreases s.len() - i,
{
    if i < s.len() && is_ws(s[i]) {
        lemma_skip_ws(s, i + 1);
    }
}

/// End of the run of decimal digits that starts at `i`.
pub open spec fn spec_scan_digits(s: Seq<char>, i: int) -> int
    decreases s.len() - i,
    when 0 <= i <= s.len()
{
    if i < s.len() && is_digit(s[i]) {
        spec_scan_digits(s, i + 1)
    } else {
        i
    }
}

pub proof fn lemma_scan_digits(s: Seq<char>, i: int)
    requires
        0 <= i <= s.len(),
    ensures
        i <= spec_scan_digits(s, i) <= s.len(),
    decreases s.len() - i,
{
    if i < s.len() && is_digit(s[i]) {
        lemma_scan_digits(s, i + 1);
    }
}

/// End of the fraction part that may start at `b`; `None` on a dot with no
/// digits after it.
pub open spec fn spec_number_frac_end(s: Seq<char>, b: int) -> Option<int> {
    if 0 <= b < s.len() && s[b] == '.' {
        let d = spec_scan_digits(s, b + 1);
        if d == b + 1 {
            None
        } else {
            Some(d)
        }
    } else {
        Some(b)
    }
}

/// End of the exponent part that may start at `c`; `None` on an exponent
/// mark with no digits after it.
pub open spec fn spec_number_exp_end(s: Seq<char>, c: int) -> Option<int> {
    if 0 <= c < s.len() && (s[c] == 'e' || s[c] == 'E') {
        let e = if c + 1 < s.len() && (s[c + 1] == '+' || s[c + 1] == '-') {
            c + 2
        } else {
            c + 1
        };
        let d = spec_scan_digits(s, e);
        if d == e {
            None
        } else {
            Some(d)
        }
    } else {
        Some(c)
    }
}

/// A number lexeme starting at `i`: optional minus, digits, optional
/// fraction, optional exponent. Returns the lexeme and the end position.
/// Leading zeros are tolerated; the lexeme is kept as it stood.
pub open spec fn spec_parse_number(s: Seq<char>, i: int) -> Option<(Seq<char>, int)> {
    let a = if i < s.len() && s[i] == '-' {
        i + 1
    } else {
        i
    };
    let b = spec_scan_digits(s, a);
    if b == a {
        None
    } else {
        match spec_number_frac_end(s, b) {
            None => None,
            Some(c) => match spec_number_exp_end(s, c) {
                None => None,
                Some(d) => Some((s.subrange(i, d), d)),
            },
        }
    }
}

pub proof fn lemma_parse_number_bounds(s: Seq<char>, i: int)
    requires
        0 <= i <= s.len(),
    ensures
        (match spec_parse_number(s, i) {
            Some((lex, j)) => i < j <= s.len(),
            None => true,
        }),
{
    let a = if i < s.len() && s[i] == '-' {
        i + 1
    } else {
        i
    };
    lemma_scan_digits(s, a);
    let b = spec_scan_digits(s, a);
    if b != a {
        match spec_number_frac_end(s, b) {
            None => {},
            Some(c) => {
                if b < s.len() && s[b] == '.' {
                    lemma_scan_digits(s, b + 1);
                }
                match spec_number_exp_end(s, c) {
                    None => {},
                    Some(d) => {
                        if c < s.len() && (s[c] == 'e' || s[c] == 'E') {
                            if c + 1 < s.len() && (s[c + 1] == '+' || s[c + 1] == '-') {
                                lemma_scan_digits(s, c + 2);
                            } else {
                                lemma_scan_digits(s, c + 1);
                            }
                        }
                    },
                }
            },
        }
    }
}

/// What a backslash escape stands for; `None` on an escape the format does
/// not use (the `\u` form is not accepted by this codec).
pub open spec fn spec_escape(c: char) -> Option<char> {
    if c == '"' {
        Some('"')
    } else if c == '\\' {
        Some('\\')
    } else if c == '/' {
        Some('/')
    } else if c == 'b' {
        Some(8u8 as char)
    } else if c == 'f' {
        Some(12u8 as char)
    } else if c == 'n' {
        Some('\n')
    } else if c == 'r' {
        Some('\r')
    } else if c == 't' {
        Some('\t')
    } else {
        None
    }
}

/// String contents from `i` (just after the opening quote) to the closing
/// quote. Returns the unescaped text and the position after the quote.
pub open spec fn spec_parse_string(s: Seq<char>, i: int) -> Option<(Seq<char>, int)>
    decreases s.len() - i,
    when 0 <= i <= s.len()
{
    if i >= s.len() {
        None
    } else {
        let c = s[i];
        if c == '"' {
            Some((Seq::empty(), i + 1))
        } else if c == '\\' {
            if i + 1 < s.len() {
                match spec_escape(s[i + 1]) {
                    Some(e) => match spec_parse_string(s, i + 2) {
                        Some((t, j)) => Some((seq![e] + t, j)),
                        None => None,
                    },
                    None => None,
                }
            } else {
                None
            }
        } else if (c as u32) < 32 {
            None
        } else {
            match spec_parse_string(s, i + 1) {
                Some((t, j)) => Some((seq![c] + t, j)),
                None => None,
            }
        }
    }
}


/// Whether the literal `lit` stands at position `i` of `s`.
pub open spec fn spec_lit_at(s: Seq<char>, i: int, lit: Seq<char>) -> bool {
    0 <= i && i + lit.len() <= s.len() && s.subrange(i, i + lit.len()) == lit
}

/// A JSON value starting exactly at `i` (no leading whitespace).
pub open spec fn spec_parse_value(s: Seq<char>, i: int) -> Option<(JsonView, int)>
    decreases s.len() - i, 0int,
    when 0 <= i <= s.len()
{
    if i >= s.len() {
        None
    } else {
        let c = s[i];
        if c == 'n' {
            if spec_lit_at(s, i, "null"@) {
                Some((JsonView::Null, i + 4))
            } else {
                None
            }
        } else if c == 't' {
            if spec_lit_at(s, i, "true"@) {
                Some((JsonView::Bool(true), i + 4))
            } else {
                None
            }
        } else if c == 'f' {
            if spec_lit_at(s, i, "false"@) {
                Some((JsonView::Bool(false), i + 5))
            } else {
                None
            }
        } else if c == '"' {
            match spec_parse_string(s, i + 1) {
                Some((t, j)) => Some((JsonView::Str(t), j)),
                None => None,
            }
        } else if c == '[' {
            let k = spec_skip_ws(s, i + 1);
            if k <= i || k > s.len() {
                None
            } else if k < s.len() && s[k] == ']' {
                Some((JsonView::Arr(Seq::empty()), k + 1))
            } else {
                match spec_parse_elems(s, k) {
                    Some((items, j)) => Some((JsonView::Arr(items), j)),
                    None => None,
                }
            }
        } else if c == '{' {
            let k = spec_skip_ws(s, i + 1);
            if k <= i || k > s.len() {
                None
            } else if k < s.len() && s[k] == '}' {
                Some((JsonView::Obj(Seq::empty()), k + 1))
            } else {
                match spec_parse_members(s, k) {
                    Some((members, j)) => Some((JsonView::Obj(members), j)),
                    None => None,
                }
            }
        } else if c == '-' || is_digit(c) {
            match spec_parse_number(s, i) {
                Some((lex, j)) => Some((JsonView::Num(lex), j)),
                None => None,
            }
        } else {
            None
        }
    }
}

/// One or more comma-separated values up to a closing bracket, starting at a
/// value (whitespace already skipped). Returns the items and the position
/// after the bracket.
pub open spec fn spec_parse_elems(s: Seq<char>, i: int) -> Option<(Seq<JsonView>, int)>
    decreases s.len() - i, 1int,
    when 0 <= i <= s.len()
{
    match spec_parse_value(s, i) {
        None => None,
        Some((v, j)) => {
            if j <= i || j > s.len() {
                None
            } else {
                let k = spec_skip_ws(s, j);
                if k < j || k > s.len() {
                    None
                } else if k < s.len() && s[k] == ',' {
                    let m = spec_skip_ws(s, k + 1);
                    if m <= k || m > s.len() {
                        None
                    } else {
                        match spec_parse_elems(s, m) {
                            Some((rest, end)) => Some((seq![v] + rest, end)),
                            None => None,
                        }
                    }
                } else if k < s.len() && s[k] == ']' {
                    Some((seq![v], k + 1))
                } else {
                    None
                }
            }
        },
    }
}

/// One or more comma-separated key/value pairs up to a closing brace,
/// starting at a key (whitespace already skipped).
pub open spec fn spec_parse_members(s: Seq<char>, i: int) -> Option<
    (Seq<(Seq<char>, JsonView)>, int),
>
    decreases s.len() - i, 1int,
    when 0 <= i <= s.len()
{
    if i >= s.len() || s[i] != '"' {
        None
    } else {
        match spec_parse_string(s, i + 1) {
            None => None,
            Some((key, j)) => {
                if j <= i || j > s.len() {
                    None
                } else {
                    let k = spec_skip_ws(s, j);
                    if k < j || k > s.len() {
                        None
                    } else if k < s.len() && s[k] == ':' {
                        let m = spec_skip_ws(s, k + 1);
                        if m <= k || m > s.len() {
                            None
                        } else {
                            match spec_parse_value(s, m) {
                                None => None,
                                Some((v, j2)) => {
                                    if j2 <= i || j2 > s.len() {
                                        None
                                    } else {
                                        let k2 = spec_skip_ws(s, j2);
                                        if k2 < j2 || k2 > s.len() {
                                            None
                                        } else if k2 < s.len() && s[k2] == ',' {
                                            let m2 = spec_skip_ws(s, k2 + 1);
                                            if m2 <= k2 || m2 > s.len() {
                                                None
                                            } else {
                                                match spec_parse_members(s, m2) {
                                                    Some((rest, end)) => Some(
                                                        (seq![(key, v)] + rest, end),
                                                    ),
                                                    None => None,
                                                }
                                            }
                                        } else if k2 < s.len() && s[k2] == '}' {
                                            Some((seq![(key, v)], k2 + 1))
                                        } else {
                                            None
                                        }
                                    }
                                },
                            }
                        }
                    } else {
                        None
                    }
                }
            },
        }
    }
}

/// A whole document: one value, surrounded only by whitespace.
pub open spec fn spec_parse_json(s: Seq<char>) -> Option<JsonView> {
    let i = spec_skip_ws(s, 0);
    match spec_parse_value(s, i) {
        None => None,
        Some((v, j)) => if 0 <= j <= s.len() && spec_skip_ws(s, j) == s.len() {
            Some(v)
        } else {
            None
        },
    }
}





// ---------------------------------------------------------------------------
// The executable parser, proved to follow the grammar above exactly.
// ---------------------------------------------------------------------------

fn skip_ws_exec(s: &str, n: usize, i: usize) -> (r: usize)
    requires
        n == s@.len(),
        i <= n,
    ensures
        r == spec_skip_ws(s@, i as int),
        i <= r <= n,
{
    let mut j: usize = i;
    loop
        invariant
            i <= j <= n,
            n == s@.len(),
            spec_skip_ws(s@, i as int) == spec_skip_ws(s@, j as int),
        ensures
            i <= j <= n,
            spec_skip_ws(s@, i as int) == j as int,
        decreases n - j,
    {
        if j < n {
            let c = s.get_char(j);
            if c == ' ' || c == '\t' || c == '\n' || c == '\r' {
                j = j + 1;
                continue ;
            }
        }
        break ;
    }
    j
}

fn scan_digits_exec(s: &str, n: usize, i: usize) -> (r: usize)
    requires
        n == s@.len(),
        i <= n,
    ensures
        r == spec_scan_digits(s@, i as int),
        i <= r <= n,
{
    let mut j: usize = i;
    loop
        invariant
            i <= j <= n,
            n == s@.len(),
            spec_scan_digits(s@, i as int) == spec_scan_digits(s@, j as int),
        ensures
            i <= j <= n,
            spec_scan_digits(s@, i as int) == j as int,
        decreases n - j,
    {
        if j < n {
            let u = s.get_char(j) as u32;
            if 48 <= u && u <= 57 {
                j = j + 1;
                continue ;
            }
        }
        break ;
    }
    j
}

/// Copies the characters of `s` between two positions.
pub fn chars_range(s: &str, from: usize, to: usize) -> (r: Vec<char>)
    requires
        from <= to <= s@.len(),
    ensures
        r@ == s@.subrange(from as int, to as int),
{
    let mut out: Vec<char> = Vec::new();
    let mut i: usize = from;
    while i < to
        invariant
            from <= i <= to <= s@.len(),
            out@ == s@.subrange(from as int, i as int),
        decreases to - i,
    {
        out.push(s.get_char(i));
        proof {
            assert(s@.subrange(from as int, i + 1) =~= s@.subrange(from as int, i as int).push(
                s@[i as int],
            ));
        }
        i = i + 1;
    }
    out
}

/// Whether the text of `lit` stands at position `i` of `s`.
fn lit_at(s: &str, n: usize, i: usize, lit: &str) -> (r: bool)
    requires
        n == s@.len(),
        i <= n,
    ensures
        r == spec_lit_at(s@, i as int, lit@),
{
    let m = lit.unicode_len();
    if m > n - i {
        return false;
    }
    let mut k: usize = 0;
    while k < m
        invariant
            k <= m == lit@.len(),
            n == s@.len(),
            i + m <= n,
            forall|q: int| 0 <= q < k ==> s@[i + q] == lit@[q],
        decreases m - k,
    {
        if s.get_char(i + k) != lit.get_char(k) {
            proof {
                assert(s@.subrange(i as int, i + m)[k as int] != lit@[k as int]);
            }
            return false;
        }
        k = k + 1;
    }
    proof {
        assert(s@.subrange(i as int, i + m) =~= lit@);
    }
    true
}

fn escape_of(c: char) -> (r: Option<char>)
    ensures
        r == spec_escape(c),
{
    if c == '"' {
        Some('"')
    } else if c == '\\' {
        Some('\\')
    } else if c == '/' {
        Some('/')
    } else if c == 'b' {
        Some(8u8 as char)
    } else if c == 'f' {
        Some(12u8 as char)
    } else if c == 'n' {
        Some('\n')
    } else if c == 'r' {
        Some('\r')
    } else if c == 't' {
        Some('\t')
    } else {
        None
    }
}

fn parse_string(s: &str, n: usize, i: usize) -> (r: Option<(Vec<char>, usize)>)
    requires
        n == s@.len(),
        i <= n,
    ensures
        (match r {
            Some((t, j)) => spec_parse_string(s@, i as int) == Some((t@, j as int)) && i < j <= n,
            None => spec_parse_string(s@, i as int) is None,
        }),
    decreases n - i,
{
    if i >= n {
        return None;
    }
    let c = s.get_char(i);
    if c == '"' {
        let t: Vec<char> = Vec::new();
        proof {
            assert(t@ =~= Seq::<char>::empty());
        }
        Some((t, i + 1))
    } else if c == '\\' {
        if i + 1 < n {
            match escape_of(s.get_char(i + 1)) {
                Some(e) => match parse_string(s, n, i + 2) {
                    Some((t, j)) => {
                        let mut out: Vec<char> = Vec::new();
                        out.push(e);
                        crate::text::push_all(&mut out, &t);
                        proof {
                            assert(out@ =~= seq![e] + t@);
                        }
                        Some((out, j))
                    },
                    None => None,
                },
                None => None,
            }
        } else {
            None
        }
    } else if (c as u32) < 32 {
        None
    } else {
        match parse_string(s, n, i + 1) {
            Some((t, j)) => {
                let mut out: Vec<char> = Vec::new();
                out.push(c);
                crate::text::push_all(&mut out, &t);
                proof {
                    assert(out@ =~= seq![c] + t@);
                }
                Some((out, j))
            },
            None => None,
        }
    }
}

fn parse_number(s: &str, n: usize, i: usize) -> (r: Option<(Vec<char>, usize)>)
    requires
        n == s@.len(),
        i <= n,
    ensures
        (match r {
            Some((lex, j)) => spec_parse_number(s@, i as int) == Some((lex@, j as int)) && i < j
                <= n,
            None => spec_parse_number(s@, i as int) is None,
        }),
{
    let a = if i < n && s.get_char(i) == '-' {
        i + 1
    } else {
        i
    };
    let b = scan_digits_exec(s, n, a);
    if b == a {
        return None;
    }
    let c = if b < n && s.get_char(b) == '.' {
        let d = scan_digits_exec(s, n, b + 1);
        if d == b + 1 {
            return None;
        }
        d
    } else {
        b
    };
    proof {
        assert(spec_number_frac_end(s@, b as int) == Some(c as int));
    }
    let dpos = if c < n && (s.get_char(c) == 'e' || s.get_char(c) == 'E') {
        let e = if c + 1 < n && (s.get_char(c + 1) == '+' || s.get_char(c + 1) == '-') {
            c + 2
        } else {
            c + 1
        };
        let d2 = scan_digits_exec(s, n, e);
        if d2 == e {
            return None;
        }
        d2
    } else {
        c
    };
    proof {
        assert(spec_number_exp_end(s@, c as int) == Some(dpos as int));
    }
    let lex = chars_range(s, i, dpos);
    Some((lex, dpos))
}

fn parse_value(s: &str, n: usize, i: usize) -> (r: Option<(Json, usize)>)
    requires
        n == s@.len(),
        i <= n,
    ensures
        (match r {
            Some((v, j)) => spec_parse_value(s@, i as int) == Some((v@, j as int)) && i < j <= n,
            None => spec_parse_value(s@, i as int) is None,
        }),
    decreases n - i, 0int,
{
    if i >= n {
        return None;
    }
    let c = s.get_char(i);
    if c == 'n' {
        if lit_at(s, n, i, "null") {
            proof {
                reveal_strlit("null");
            }
            Some((Json::Null, i + 4))
        } else {
            None
        }
    } else if c == 't' {
        if lit_at(s, n, i, "true") {
            proof {
                reveal_strlit("true");
            }
            Some((Json::Bool(true), i + 4))
        } else {
            None
        }
    } else if c == 'f' {
        if lit_at(s, n, i, "false") {
            proof {
                reveal_strlit("false");
            }
            Some((Json::Bool(false), i + 5))
        } else {
            None
        }
    } else if c == '"' {
        match parse_string(s, n, i + 1) {
            Some((t, j)) => Some((Json::Str(t), j)),
            None => None,
        }
    } else if c == '[' {
        let k = skip_ws_exec(s, n, i + 1);
        if k < n && s.get_char(k) == ']' {
            let items: Vec<Json> = Vec::new();
            proof {
                assert(views_of_list(items@) =~= Seq::<JsonView>::empty());
            }
            Some((Json::Arr(items), k + 1))
        } else {
            match parse_elems(s, n, k) {
                Some((items, j)) => Some((Json::Arr(items), j)),
                None => None,
            }
        }
    } else if c == '{' {
        let k = skip_ws_exec(s, n, i + 1);
        if k < n && s.get_char(k) == '}' {
            let members: Vec<(Vec<char>, Json)> = Vec::new();
            proof {
                assert(views_of_members(members@) =~= Seq::<(Seq<char>, JsonView)>::empty());
            }
            Some((Json::Obj(members), k + 1))
        } else {
            match parse_members(s, n, k) {
                Some((members, j)) => Some((Json::Obj(members), j)),
                None => None,
            }
        }
    } else if c == '-' || (48 <= c as u32 && c as u32 <= 57) {
        match parse_number(s, n, i) {
            Some((lex, j)) => Some((Json::Num(lex), j)),
            None => None,
        }
    } else {
        None
    }
}

fn parse_elems(s: &str, n: usize, i: usize) -> (r: Option<(Vec<Json>, usize)>)
    requires
        n == s@.len(),
        i <= n,
    ensures
        (match r {
            Some((items, j)) => spec_parse_elems(s@, i as int) == Some(
                (views_of_list(items@), j as int),
            ) && i < j <= n,
            None => spec_parse_elems(s@, i as int) is None,
        }),
    decreases n - i, 1int,
{
    match parse_value(s, n, i) {
        None => None,
        Some((v, j)) => {
            let k = skip_ws_exec(s, n, j);
            if k < n && s.get_char(k) == ',' {
                let m = skip_ws_exec(s, n, k + 1);
                match parse_elems(s, n, m) {
                    Some((rest, end)) => {
                        let mut items = rest;
                        items.insert(0, v);
                        proof {
                            broadcast use lemma_views_of_list;

                            assert(views_of_list(items@) =~= seq![v@] + views_of_list(
                                items@.drop_first(),
                            ));
                            assert(items@.drop_first() =~= items@.subrange(1, items@.len() as int));
                        }
                        Some((items, end))
                    },
                    None => None,
                }
            } else if k < n && s.get_char(k) == ']' {
                let mut items: Vec<Json> = Vec::new();
                items.push(v);
                proof {
                    broadcast use lemma_views_of_list;

                    assert(views_of_list(items@) =~= seq![v@]);
                }
                Some((items, k + 1))
            } else {
                None
            }
        },
    }
}

fn parse_members(s: &str, n: usize, i: usize) -> (r: Option<(Vec<(Vec<char>, Json)>, usize)>)
    requires
        n == s@.len(),
        i <= n,
    ensures
        (match r {
            Some((members, j)) => spec_parse_members(s@, i as int) == Some(
                (views_of_members(members@), j as int),
            ) && i < j <= n,
            None => spec_parse_members(s@, i as int) is None,
        }),
    decreases n - i, 1int,
{
    if i >= n {
        return None;
    }
    if s.get_char(i) != '"' {
        return None;
    }
    match parse_string(s, n, i + 1) {
        None => None,
        Some((key, j)) => {
            let k = skip_ws_exec(s, n, j);
            if k < n && s.get_char(k) == ':' {
                let m = skip_ws_exec(s, n, k + 1);
                match parse_value(s, n, m) {
                    None => None,
                    Some((v, j2)) => {
                        let k2 = skip_ws_exec(s, n, j2);
                        if k2 < n && s.get_char(k2) == ',' {
                            let m2 = skip_ws_exec(s, n, k2 + 1);
                            match parse_members(s, n, m2) {
                                Some((rest, end)) => {
                                    let mut members = rest;
                                    members.insert(0, (key, v));
                                    proof {
                                        broadcast use lemma_views_of_members;

                                        assert(members@.drop_first() =~= members@.subrange(
                                            1,
                                            members@.len() as int,
                                        ));
                                        assert(views_of_members(members@) =~= seq![
                                            (members@[0].0@, members@[0].1@),
                                        ] + views_of_members(members@.drop_first()));
                                    }
                                    Some((members, end))
                                },
                                None => None,
                            }
                        } else if k2 < n && s.get_char(k2) == '}' {
                            let mut members: Vec<(Vec<char>, Json)> = Vec::new();
                            members.push((key, v));
                            proof {
                                broadcast use lemma_views_of_members;

                                assert(views_of_members(members@) =~= seq![
                                    (members@[0].0@, members@[0].1@),
                                ]);
                            }
                            Some((members, k2 + 1))
                        } else {
                            None
                        }
                    },
                }
            } else {
                None
            }
        },
    }
}

/// Parses a whole JSON document: one value surrounded only by whitespace.
/// The `\u` escape form is not accepted: a body using it fails to parse
/// and is reported as a decode failure.
pub fn parse_json(s: &str) -> (r: Option<Json>)
    ensures
        (match r {
            Some(v) => spec_parse_json(s@) == Some(v@),
            None => spec_parse_json(s@) is None,
        }),
{
    let n = s.unicode_len();
    let i = skip_ws_exec(s, n, 0);
    match parse_value(s, n, i) {
        None => None,
        Some((v, j)) => {
            let k = skip_ws_exec(s, n, j);
            if k == n {
                Some(v)
            } else {
                None
            }
        },
    }
}


// ---------------------------------------------------------------------------
// The printer, proved to emit exactly the serialization the grammar gives.
// ---------------------------------------------------------------------------

/// How one character is written inside a JSON string.
pub open spec fn spec_escape_char(c: char) -> Seq<char> {
    if c == '"' {
        seq!['\\', '"']
    } else if c == '\\' {
        seq!['\\', '\\']
    } else if c == 8u8 as char {
        seq!['\\', 'b']
    } else if c == 12u8 as char {
        seq!['\\', 'f']
    } else if c == '\n' {
        seq!['\\', 'n']
    } else if c == '\r' {
        seq!['\\', 'r']
    } else if c == '\t' {
        seq!['\\', 't']
    } else {
        seq![c]
    }
}

pub open spec fn spec_escape_text(t: Seq<char>) -> Seq<char>
    decreases t.len(),
{
    if t.len() == 0 {
        Seq::empty()
    } else {
        spec_escape_text(t.drop_last()) + spec_escape_char(t.last())
    }
}

/// The serialized form of a document: minimal, with no added whitespace.
pub open spec fn spec_ser(v: JsonView) -> Seq<char>
    decreases v,
{
    match v {
        JsonView::Null => "null"@,
        JsonView::Bool(b) => if b {
            "true"@
        } else {
            "false"@
        },
        JsonView::Num(lex) => lex,
        JsonView::Str(t) => seq!['"'] + spec_escape_text(t) + seq!['"'],
        JsonView::Arr(items) => seq!['['] + spec_ser_items(items) + seq![']'],
        JsonView::Obj(members) => seq!['{'] + spec_ser_members(members) + seq!['}'],
    }
}

pub open spec fn spec_ser_items(items: Seq<JsonView>) -> Seq<char>
    decreases items,
{
    if items.len() == 0 {
        Seq::empty()
    } else if items.len() == 1 {
        spec_ser(items[0])
    } else {
        spec_ser_items(items.drop_last()) + seq![','] + spec_ser(items.last())
    }
}

pub open spec fn spec_ser_member(m: (Seq<char>, JsonView)) -> Seq<char>
    decreases m,
{
    seq!['"'] + spec_escape_text(m.0) + seq!['"', ':'] + spec_ser(m.1)
}

pub open spec fn spec_ser_members(members: Seq<(Seq<char>, JsonView)>) -> Seq<char>
    decreases members,
{
    if members.len() == 0 {
        Seq::empty()
    } else if members.len() == 1 {
        spec_ser_member(members[0])
    } else {
        spec_ser_members(members.drop_last()) + seq![','] + spec_ser_member(members.last())
    }
}

fn write_escaped(t: &Vec<char>, out: &mut Vec<char>)
    ensures
        final(out)@ == old(out)@ + spec_escape_text(t@),
{
    let mut i: usize = 0;
    while i < t.len()
        invariant
            i <= t@.len(),
            out@ == old(out)@ + spec_escape_text(t@.take(i as int)),
        decreases t@.len() - i,
    {
        let c = t[i];
        if c == '"' {
            out.push('\\');
            out.push('"');
        } else if c == '\\' {
            out.push('\\');
            out.push('\\');
        } else if c == 8u8 as char {
            out.push('\\');
            out.push('b');
        } else if c == 12u8 as char {
            out.push('\\');
            out.push('f');
        } else if c == '\n' {
            out.push('\\');
            out.push('n');
        } else if c == '\r' {
            out.push('\\');
            out.push('r');
        } else if c == '\t' {
            out.push('\\');
            out.push('t');
        } else {
            out.push(c);
        }
        proof {
            assert(t@.take(i + 1).drop_last() =~= t@.take(i as int));
            assert(t@.take(i + 1).last() == t@[i as int]);
            assert(out@ =~= old(out)@ + spec_escape_text(t@.take(i + 1)));
        }
        i = i + 1;
    }
    proof {
        assert(t@.take(t@.len() as int) =~= t@);
    }
}

fn write_str_lit(s: &str, out: &mut Vec<char>)
    ensures
        final(out)@ == old(out)@ + s@,
{
    let t = crate::text::text_of(s);
    crate::text::push_all(out, &t);
}

/// Appends the serialized form of `v` to `out`.
#[verifier::loop_isolation(false)]
pub fn write_json(v: &Json, out: &mut Vec<char>)
    ensures
        final(out)@ == old(out)@ + spec_ser(v@),
    decreases v,
{
    match v {
        Json::Null => {
            write_str_lit("null", out);
        },
        Json::Bool(b) => {
            if *b {
                write_str_lit("true", out);
            } else {
                write_str_lit("false", out);
            }
        },
        Json::Num(lex) => {
            crate::text::push_all(out, lex);
        },
        Json::Str(t) => {
            out.push('"');
            write_escaped(t, out);
            out.push('"');
            proof {
                assert(out@ =~= old(out)@ + (seq!['"'] + spec_escape_text(t@) + seq!['"']));
            }
        },
        Json::Arr(items) => {
            out.push('[');
            proof {
                broadcast use lemma_views_of_list;

                assert(views_of_list(items@).take(0) =~= Seq::<JsonView>::empty());
                assert(out@ =~= old(out)@ + seq!['['] + spec_ser_items(
                    views_of_list(items@).take(0),
                ));
            }
            let mut i: usize = 0;
            while i < items.len()
                invariant
                    i <= items@.len(),
                    views_of_list(items@).len() == items@.len(),
                    forall|q: int|
                        0 <= q < items@.len() ==> views_of_list(items@)[q] == view_of(items@[q]),
                    out@ == old(out)@ + seq!['['] + spec_ser_items(
                        views_of_list(items@).take(i as int),
                    ),
                decreases items@.len() - i,
            {
                if i > 0 {
                    out.push(',');
                }
                proof {
                    broadcast use vstd::std_specs::vec::axiom_vec_index_decreases;

                    let itemsg = *items;
                    assert(*v == Json::Arr(itemsg));
                    assert(decreases_to!(Json::Arr(itemsg) => itemsg));
                    assert(decreases_to!(itemsg => itemsg[i as int]));
                    assert(decreases_to!(*v => items@[i as int]));
                }
                write_json(&items[i], out);
                proof {
                    let vs = views_of_list(items@);
                    assert(vs.take(i + 1).drop_last() =~= vs.take(i as int));
                    assert(vs.take(i + 1).last() == vs[i as int]);
                    if i == 0 {
                        assert(spec_ser_items(vs.take(1)) == spec_ser(vs[0]));
                    }
                    assert(out@ =~= old(out)@ + seq!['['] + spec_ser_items(vs.take(i + 1)));
                }
                i = i + 1;
            }
            out.push(']');
            proof {
                let vs = views_of_list(items@);
                assert(vs.take(vs.len() as int) =~= vs);
                assert(out@ =~= old(out)@ + spec_ser(v@));
            }
        },
        Json::Obj(members) => {
            out.push('{');
            proof {
                broadcast use lemma_views_of_members;

                assert(views_of_members(members@).take(0) =~= Seq::<(Seq<char>, JsonView)>::empty());
                assert(out@ =~= old(out)@ + seq!['{'] + spec_ser_members(
                    views_of_members(members@).take(0),
                ));
            }
            let mut i: usize = 0;
            while i < members.len()
                invariant
                    i <= members@.len(),
                    views_of_members(members@).len() == members@.len(),
                    forall|q: int|
                        0 <= q < members@.len() ==> views_of_members(members@)[q] == (
                        members@[q].0@,
                        view_of(members@[q].1),
                        ),
                    out@ == old(out)@ + seq!['{'] + spec_ser_members(
                        views_of_members(members@).take(i as int),
                    ),
                decreases members@.len() - i,
            {
                if i > 0 {
                    out.push(',');
                }
                out.push('"');
                write_escaped(&members[i].0, out);
                out.push('"');
                out.push(':');
                proof {
                    broadcast use vstd::std_specs::vec::axiom_vec_index_decreases;

                    let membersg = *members;
                    assert(*v == Json::Obj(membersg));
                    assert(decreases_to!(Json::Obj(membersg) => membersg));
                    assert(decreases_to!(membersg => membersg[i as int]));
                    let pair = membersg[i as int];
                    assert(pair == (pair.0, pair.1));
                    assert(decreases_to!((pair.0, pair.1) => pair.1));
                    assert(decreases_to!(*v => members@[i as int].1));
                }
                write_json(&members[i].1, out);
                proof {
                    let ms = views_of_members(members@);
                    assert(ms[i as int] == (members@[i as int].0@, view_of(members@[i as int].1)));
                    assert(ms.take(i + 1).drop_last() =~= ms.take(i as int));
                    assert(ms.take(i + 1).last() == ms[i as int]);
                    if i == 0 {
                        assert(spec_ser_members(ms.take(1)) == spec_ser_member(ms[0]));
                    } else {
                        assert(spec_ser_members(ms.take(i + 1)) == spec_ser_members(
                            ms.take(i as int),
                        ) + seq![','] + spec_ser_member(ms[i as int]));
                    }
                    assert(spec_ser_member(ms[i as int]) == seq!['"'] + spec_escape_text(
                        members@[i as int].0@,
                    ) + seq!['"', ':'] + spec_ser(view_of(members@[i as int].1)));
                    assert(out@ =~= old(out)@ + seq!['{'] + spec_ser_members(ms.take(i + 1)));
                }
                i = i + 1;
            }
            out.push('}');
            proof {
                let ms = views_of_members(members@);
                assert(ms.take(ms.len() as int) =~= ms);
                assert(out@ =~= old(out)@ + spec_ser(v@));
            }
        },
    }
}

/// Serializes a whole document.
pub fn to_json_text(v: &Json) -> (r: Vec<char>)
    ensures
        r@ == spec_ser(v@),
{
    let mut out: Vec<char> = Vec::new();
    write_json(v, &mut out);
    proof {
        assert(out@ =~= spec_ser(v@));
    }
    out
}




// ---------------------------------------------------------------------------
// Round trip: a printed document parses back to the same value. Holds of
// well-formed documents: text may hold any character except the bare
// control characters the printer has no escape for, and number lexemes
// must be in the number grammar.
// ---------------------------------------------------------------------------

/// A character the printer can represent: printable, or one of the named
/// escapes.
pub open spec fn wf_char(c: char) -> bool {
    (c as u32) >= 32 || c == '\n' || c == '\r' || c == '\t' || c == 8u8 as char || c == 12u8
        as char
}

pub open spec fn wf_text(t: Seq<char>) -> bool {
    forall|i: int| 0 <= i < t.len() ==> wf_char(t[i])
}

/// A number lexeme in the grammar: it parses as a number and is consumed
/// whole.
pub open spec fn wf_num_lex(lex: Seq<char>) -> bool {
    lex.len() > 0 && spec_parse_number(lex, 0) == Some((lex, lex.len() as int))
}

pub open spec fn wf_json(v: JsonView) -> bool
    decreases v,
{
    match v {
        JsonView::Null => true,
        JsonView::Bool(b) => true,
        JsonView::Num(lex) => wf_num_lex(lex),
        JsonView::Str(t) => wf_text(t),
        JsonView::Arr(items) => wf_json_list(items),
        JsonView::Obj(members) => wf_json_members(members),
    }
}

pub open spec fn wf_json_list(items: Seq<JsonView>) -> bool
    decreases items,
{
    if items.len() == 0 {
        true
    } else {
        wf_json(items[0]) && wf_json_list(items.drop_first())
    }
}

pub open spec fn wf_json_members(members: Seq<(Seq<char>, JsonView)>) -> bool
    decreases members,
{
    if members.len() == 0 {
        true
    } else {
        wf_text(members[0].0) && wf_json(members[0].1) && wf_json_members(members.drop_first())
    }
}

/// The escaped text can also be taken apart at the front.
pub proof fn lemma_escape_text_front(t: Seq<char>)
    requires
        t.len() > 0,
    ensures
        spec_escape_text(t) == spec_escape_char(t[0]) + spec_escape_text(t.drop_first()),
    decreases t.len(),
{
    if t.len() == 1 {
        assert(t.drop_last() =~= Seq::<char>::empty());
        assert(t.drop_first() =~= Seq::<char>::empty());
        assert(t.last() == t[0]);
        assert(spec_escape_char(t[0]) + spec_escape_text(t.drop_first()) =~= spec_escape_char(
            t[0],
        ));
    } else {
        lemma_escape_text_front(t.drop_last());
        assert(t.drop_last()[0] == t[0]);
        assert(t.drop_last().drop_first() =~= t.drop_first().drop_last());
        assert(t.drop_first().last() == t.last());
        assert(spec_escape_char(t[0]) + spec_escape_text(t.drop_first()) =~= spec_escape_char(
            t[0],
        ) + (spec_escape_text(t.drop_first().drop_last()) + spec_escape_char(t.last())));
        assert(spec_escape_text(t) =~= (spec_escape_char(t[0]) + spec_escape_text(
            t.drop_last().drop_first(),
        )) + spec_escape_char(t.last()));
    }
}

/// The serialized items can also be taken apart at the front.
pub proof fn lemma_ser_items_front(items: Seq<JsonView>)
    requires
        items.len() > 1,
    ensures
        spec_ser_items(items) == spec_ser(items[0]) + seq![','] + spec_ser_items(
            items.drop_first(),
        ),
    decreases items.len(),
{
    reveal_with_fuel(spec_ser_items, 3);
    if items.len() == 2 {
        assert(items.drop_last()[0] == items[0]);
        assert(items.drop_last().len() == 1);
        assert(items.drop_first().len() == 1);
        assert(items.drop_first()[0] == items[1]);
        assert(items.last() == items[1]);
        assert(spec_ser_items(items) =~= spec_ser(items[0]) + seq![','] + spec_ser_items(
            items.drop_first(),
        ));
    } else {
        lemma_ser_items_front(items.drop_last());
        assert(items.drop_last()[0] == items[0]);
        assert(items.drop_last().drop_first() =~= items.drop_first().drop_last());
        assert(items.drop_first().last() == items.last());
        assert(items.drop_first().len() > 1);
        assert(spec_ser_items(items) =~= spec_ser(items[0]) + seq![','] + (spec_ser_items(
            items.drop_first().drop_last(),
        ) + seq![','] + spec_ser(items.drop_first().last())));
        assert(spec_ser(items[0]) + seq![','] + spec_ser_items(items.drop_first())
            =~= spec_ser(items[0]) + seq![','] + (spec_ser_items(items.drop_first().drop_last())
            + seq![','] + spec_ser(items.drop_first().last())));
    }
}

/// The serialized members can also be taken apart at the front.
pub proof fn lemma_ser_members_front(members: Seq<(Seq<char>, JsonView)>)
    requires
        members.len() > 1,
    ensures
        spec_ser_members(members) == spec_ser_member(members[0]) + seq![','] + spec_ser_members(
            members.drop_first(),
        ),
    decreases members.len(),
{
    reveal_with_fuel(spec_ser_members, 3);
    if members.len() == 2 {
        assert(members.drop_last()[0] == members[0]);
        assert(members.drop_last().len() == 1);
        assert(members.drop_first().len() == 1);
        assert(members.drop_first()[0] == members[1]);
        assert(members.last() == members[1]);
        assert(spec_ser_members(members) =~= spec_ser_member(members[0]) + seq![',']
            + spec_ser_members(members.drop_first()));
    } else {
        lemma_ser_members_front(members.drop_last());
        assert(members.drop_last()[0] == members[0]);
        assert(members.drop_last().drop_first() =~= members.drop_first().drop_last());
        assert(members.drop_first().last() == members.last());
        assert(members.drop_first().len() > 1);
        assert(spec_ser_members(members) =~= spec_ser_member(members[0]) + seq![','] + (
        spec_ser_members(members.drop_first().drop_last()) + seq![','] + spec_ser_member(
            members.drop_first().last(),
        )));
        assert(spec_ser_member(members[0]) + seq![','] + spec_ser_members(members.drop_first())
            =~= spec_ser_member(members[0]) + seq![','] + (spec_ser_members(
            members.drop_first().drop_last(),
        ) + seq![','] + spec_ser_member(members.drop_first().last())));
    }
}


/// A digit scan inside an embedded lexeme follows the lexeme, provided no
/// digit immediately follows it.
pub proof fn lemma_scan_digits_embed(s: Seq<char>, i: int, lex: Seq<char>, p: int)
    requires
        0 <= i,
        0 <= p <= lex.len(),
        i + lex.len() <= s.len(),
        s.subrange(i, i + lex.len()) == lex,
        i + lex.len() == s.len() || !is_digit(s[i + lex.len()]),
    ensures
        spec_scan_digits(s, i + p) == i + spec_scan_digits(lex, p),
    decreases lex.len() - p,
{
    if p < lex.len() {
        assert(s[i + p] == lex[p]);
        if is_digit(lex[p]) {
            lemma_scan_digits_embed(s, i, lex, p + 1);
        }
    }
}

/// Parsing a string at an embedded escape of `t` yields `t` and stops at
/// the closing quote.
pub proof fn lemma_parse_string_embed(s: Seq<char>, i: int, t: Seq<char>)
    requires
        0 <= i,
        wf_text(t),
        i + spec_escape_text(t).len() + 1 <= s.len(),
        s.subrange(i, i + spec_escape_text(t).len()) == spec_escape_text(t),
        s[i + spec_escape_text(t).len()] == '"',
    ensures
        spec_parse_string(s, i) == Some((t, i + spec_escape_text(t).len() + 1)),
    decreases t.len(),
{
    if t.len() == 0 {
        assert(spec_escape_text(t).len() == 0);
        assert(s[i] == '"');
    } else {
        lemma_escape_text_front(t);
        let c = t[0];
        let e = spec_escape_char(c);
        let rest = spec_escape_text(t.drop_first());
        assert(spec_escape_text(t) == e + rest);
        assert(wf_char(c));
        assert(wf_text(t.drop_first()));
        let full = spec_escape_text(t);
        let ln = full.len() as int;
        assert(s.subrange(i + e.len(), i + ln) =~= s.subrange(i, i + ln).subrange(
            e.len() as int,
            ln,
        ));
        assert((e + rest).subrange(e.len() as int, ln) =~= rest);
        assert(s.subrange(i + e.len(), i + ln) == rest);
        assert(s[i] == full[0]) by {
            assert(s.subrange(i, i + ln)[0] == s[i]);
        }
        if e.len() == 2 {
            assert(s[i + 1] == full[1]) by {
                assert(s.subrange(i, i + ln)[1] == s[i + 1]);
            }
        }
        lemma_parse_string_embed(s, i + e.len(), t.drop_first());
        if c == '"' || c == '\\' || c == 8u8 as char || c == 12u8 as char || c == '\n' || c
            == '\r' || c == '\t' {
            assert(e.len() == 2);
            assert(full[0] == e[0] && full[1] == e[1]);
            assert(s[i] == '\\');
            assert(spec_escape(s[i + 1]) == Some(c));
            assert(spec_parse_string(s, i) == Some((seq![c] + t.drop_first(), i
                + spec_escape_text(t).len() + 1)));
            assert(seq![c] + t.drop_first() =~= t);
        } else {
            assert(e.len() == 1);
            assert(full[0] == e[0]);
            assert(s[i] == c);
            assert((c as u32) >= 32);
            assert(c != '"' && c != '\\');
            assert(spec_parse_string(s, i) == Some((seq![c] + t.drop_first(), i
                + spec_escape_text(t).len() + 1)));
            assert(seq![c] + t.drop_first() =~= t);
        }
    }
}

/// A stop character: what legitimately follows a complete value inside a
/// document.
pub open spec fn is_stop(c: char) -> bool {
    c == ',' || c == ']' || c == '}'
}

/// Parsing a number at an embedded well-formed lexeme yields the lexeme
/// and stops right after it, provided a stop character or the end follows.
pub proof fn lemma_parse_number_embed(s: Seq<char>, i: int, lex: Seq<char>)
    requires
        0 <= i,
        wf_num_lex(lex),
        i + lex.len() <= s.len(),
        s.subrange(i, i + lex.len()) == lex,
        i + lex.len() == s.len() || is_stop(s[i + lex.len()]),
    ensures
        spec_parse_number(s, i) == Some((lex, i + lex.len())),
{
    let n = lex.len() as int;
    let a0 = if lex[0] == '-' {
        1int
    } else {
        0int
    };
    assert(s[i] == lex[0]);
    assert(forall|q: int| 0 <= q < n ==> s[i + q] == lex[q]);
    let b0 = spec_scan_digits(lex, a0);
    lemma_scan_digits(lex, a0);
    lemma_scan_digits_embed(s, i, lex, a0);
    assert(spec_scan_digits(s, i + a0) == i + b0);
    assert(b0 > a0) by {
        if b0 == a0 {
            assert(spec_parse_number(lex, 0) is None);
        }
    }
    let c0 = (match spec_number_frac_end(lex, b0) {
        Some(c0) => c0,
        None => -1,
    });
    assert(spec_number_frac_end(lex, b0) == Some(c0));
    assert(spec_number_frac_end(s, i + b0) == Some(i + c0)) by {
        if b0 < n && lex[b0] == '.' {
            lemma_scan_digits_embed(s, i, lex, b0 + 1);
            lemma_scan_digits(lex, b0 + 1);
        } else {
            if i + b0 < s.len() && s[i + b0] == '.' {
                assert(b0 == n);
            }
        }
    }
    let d0 = (match spec_number_exp_end(lex, c0) {
        Some(d0) => d0,
        None => -1,
    });
    assert(spec_number_exp_end(lex, c0) == Some(d0));
    assert(d0 == n) by {
        lemma_parse_number_bounds(lex, 0);
        assert(lex.subrange(0, d0) =~= lex ==> d0 == n);
        assert(lex.subrange(0, d0) == lex);
    }
    assert(spec_number_exp_end(s, i + c0) == Some(i + d0)) by {
        if c0 < n && (lex[c0] == 'e' || lex[c0] == 'E') {
            let e0 = if c0 + 1 < n && (lex[c0 + 1] == '+' || lex[c0 + 1] == '-') {
                c0 + 2
            } else {
                c0 + 1
            };
            lemma_scan_digits(lex, c0 + 1);
            if c0 + 1 < n {
                lemma_scan_digits(lex, c0 + 2);
            }
            assert(e0 <= n);
            lemma_scan_digits_embed(s, i, lex, e0);
        } else {
            if i + c0 < s.len() && (s[i + c0] == 'e' || s[i + c0] == 'E') {
                assert(c0 == n);
            }
        }
    }
    assert(s.subrange(i, i + d0) =~= lex);
}


/// Pointwise view of an embedded segment.
pub proof fn lemma_subrange_index(s: Seq<char>, i: int, w: Seq<char>)
    requires
        0 <= i,
        i + w.len() <= s.len(),
        s.subrange(i, i + w.len()) == w,
    ensures
        forall|q: int| 0 <= q < w.len() ==> s[i + q] == #[trigger] w[q],
{
    assert forall|q: int| 0 <= q < w.len() implies s[i + q] == #[trigger] w[q] by {
        assert(s.subrange(i, i + w.len() as int)[q] == s[i + q]);
    }
}

/// A segment of an embedded segment is itself embedded.
pub proof fn lemma_subrange_embed(s: Seq<char>, i: int, w: Seq<char>, a: int, b: int)
    requires
        0 <= i,
        i + w.len() <= s.len(),
        s.subrange(i, i + w.len()) == w,
        0 <= a <= b <= w.len(),
    ensures
        s.subrange(i + a, i + b) == w.subrange(a, b),
{
    lemma_subrange_index(s, i, w);
    assert(s.subrange(i + a, i + b) =~= w.subrange(a, b));
}

/// A serialized value is never empty, starts with no whitespace, and starts
/// with no closing bracket.
pub proof fn lemma_ser_head(v: JsonView)
    requires
        wf_json(v),
    ensures
        spec_ser(v).len() > 0,
        !is_ws(spec_ser(v)[0]),
        spec_ser(v)[0] != ']',
        spec_ser(v)[0] != '}',
    decreases v,
{
    reveal_strlit("null");
    reveal_strlit("true");
    reveal_strlit("false");
    assert("null"@.len() == 4 && "true"@.len() == 4 && "false"@.len() == 5);
    match v {
        JsonView::Num(lex) => {
            assert(lex[0] == '-' || is_digit(lex[0])) by {
                if lex[0] != '-' {
                    assert(spec_scan_digits(lex, 0) != 0);
                }
            }
        },
        _ => {},
    }
}

/// Parsing at an embedded serialized value yields the value back and stops
/// right after it, provided a stop character or the end follows.
pub proof fn lemma_parse_ser_embed(s: Seq<char>, i: int, v: JsonView)
    requires
        0 <= i,
        wf_json(v),
        i + spec_ser(v).len() <= s.len(),
        s.subrange(i, i + spec_ser(v).len()) == spec_ser(v),
        i + spec_ser(v).len() == s.len() || is_stop(s[i + spec_ser(v).len()]),
    ensures
        spec_parse_value(s, i) == Some((v, i + spec_ser(v).len())),
    decreases v, 0int,
{
    reveal_strlit("null");
    reveal_strlit("true");
    reveal_strlit("false");
    let w = spec_ser(v);
    let n = w.len() as int;
    lemma_ser_head(v);
    lemma_subrange_index(s, i, w);
    match v {
        JsonView::Null => {
            assert(s[i] == 'n');
            assert(s.subrange(i, i + 4) =~= "null"@);
            assert(spec_lit_at(s, i, "null"@));
        },
        JsonView::Bool(b) => {
            if b {
                assert(s[i] == 't');
                assert(s.subrange(i, i + 4) =~= "true"@);
                assert(spec_lit_at(s, i, "true"@));
                assert(!spec_lit_at(s, i, "null"@)) by {
                    if spec_lit_at(s, i, "null"@) {
                        assert(s.subrange(i, i + 4)[0] == 'n');
                    }
                }
            } else {
                assert(s[i] == 'f');
                assert(s.subrange(i, i + 5) =~= "false"@);
                assert(spec_lit_at(s, i, "false"@));
            }
        },
        JsonView::Num(lex) => {
            assert(s[i] == lex[0]);
            assert(lex[0] == '-' || is_digit(lex[0]));
            lemma_parse_number_embed(s, i, lex);
        },
        JsonView::Str(t) => {
            assert(s[i] == '"');
            let esc = spec_escape_text(t);
            assert(w == seq!['"'] + esc + seq!['"']);
            lemma_subrange_embed(s, i, w, 1, 1 + esc.len() as int);
            assert(w.subrange(1, 1 + esc.len() as int) =~= esc);
            assert(s[i + 1 + esc.len()] == w[1 + esc.len() as int]);
            assert(w[1 + esc.len() as int] == '"');
            lemma_parse_string_embed(s, i + 1, t);
            assert(spec_parse_string(s, i + 1) == Some((t, i + n)));
        },
        JsonView::Arr(items) => {
            assert(s[i] == '[');
            let body = spec_ser_items(items);
            assert(w == seq!['['] + body + seq![']']);
            assert(s[i + 1 + body.len()] == w[1 + body.len() as int]);
            assert(w[1 + body.len() as int] == ']');
            if items.len() == 0 {
                assert(body.len() == 0);
                assert(s[i + 1] == ']');
                assert(spec_skip_ws(s, i + 1) == i + 1);
                assert(v == JsonView::Arr(Seq::<JsonView>::empty())) by {
                    assert(items =~= Seq::<JsonView>::empty());
                }
            } else {
                assert(wf_json(items[0]));
                assert(body[0] == spec_ser(items[0])[0]) by {
                    if items.len() > 1 {
                        lemma_ser_items_front(items);
                        lemma_ser_head(items[0]);
                    }
                }
                lemma_ser_head(items[0]);
                assert(s[i + 1] == w[1]);
                assert(w[1] == body[0]);
                assert(!is_ws(s[i + 1]));
                assert(spec_skip_ws(s, i + 1) == i + 1);
                assert(s[i + 1] != ']');
                lemma_subrange_embed(s, i, w, 1, 1 + body.len() as int);
                assert(w.subrange(1, 1 + body.len() as int) =~= body);
                lemma_parse_elems_embed(s, i + 1, items);
                assert(spec_parse_elems(s, i + 1) == Some((items, i + n)));
            }
        },
        JsonView::Obj(members) => {
            assert(s[i] == '{');
            let body = spec_ser_members(members);
            assert(w == seq!['{'] + body + seq!['}']);
            assert(s[i + 1 + body.len()] == w[1 + body.len() as int]);
            assert(w[1 + body.len() as int] == '}');
            if members.len() == 0 {
                assert(body.len() == 0);
                assert(s[i + 1] == '}');
                assert(spec_skip_ws(s, i + 1) == i + 1);
                assert(v == JsonView::Obj(Seq::<(Seq<char>, JsonView)>::empty())) by {
                    assert(members =~= Seq::<(Seq<char>, JsonView)>::empty());
                }
            } else {
                assert(body[0] == spec_ser_member(members[0])[0]) by {
                    if members.len() > 1 {
                        lemma_ser_members_front(members);
                    }
                }
                assert(spec_ser_member(members[0])[0] == '"');
                assert(s[i + 1] == w[1]);
                assert(w[1] == body[0]);
                assert(spec_skip_ws(s, i + 1) == i + 1);
                assert(s[i + 1] != '}');
                lemma_subrange_embed(s, i, w, 1, 1 + body.len() as int);
                assert(w.subrange(1, 1 + body.len() as int) =~= body);
                lemma_parse_members_embed(s, i + 1, members);
                assert(spec_parse_members(s, i + 1) == Some((members, i + n)));
            }
        },
    }
}

/// Parsing at an embedded serialized element list yields the items back, in
/// order, and stops right after the closing bracket.
pub proof fn lemma_parse_elems_embed(s: Seq<char>, i: int, items: Seq<JsonView>)
    requires
        0 <= i,
        items.len() > 0,
        wf_json_list(items),
        i + spec_ser_items(items).len() + 1 <= s.len(),
        s.subrange(i, i + spec_ser_items(items).len()) == spec_ser_items(items),
        s[i + spec_ser_items(items).len()] == ']',
    ensures
        spec_parse_elems(s, i) == Some((items, i + spec_ser_items(items).len() + 1)),
    decreases items, 1int,
{
    let body = spec_ser_items(items);
    let w0 = spec_ser(items[0]);
    assert(wf_json(items[0]));
    lemma_ser_head(items[0]);
    lemma_subrange_index(s, i, body);
    if items.len() == 1 {
        assert(body == w0);
        lemma_parse_ser_embed(s, i, items[0]);
        let j = i + w0.len() as int;
        assert(s[j] == ']');
        assert(spec_skip_ws(s, j) == j);
        assert(spec_parse_elems(s, i) == Some((seq![items[0]], j + 1)));
        assert(seq![items[0]] =~= items);
    } else {
        lemma_ser_items_front(items);
        let rest = items.drop_first();
        let brest = spec_ser_items(rest);
        assert(body == w0 + seq![','] + brest);
        assert(s[i + w0.len()] == body[w0.len() as int]);
        assert(body[w0.len() as int] == ',');
        lemma_subrange_embed(s, i, body, 0, w0.len() as int);
        assert(body.subrange(0, w0.len() as int) =~= w0);
        lemma_parse_ser_embed(s, i, items[0]);
        let j = i + w0.len() as int;
        assert(spec_skip_ws(s, j) == j);
        assert(wf_json_list(rest));
        lemma_subrange_embed(s, i, body, w0.len() as int + 1, body.len() as int);
        assert(body.subrange(w0.len() as int + 1, body.len() as int) =~= brest);
        assert(s[j + 1 + brest.len()] == ']') by {
            assert(j + 1 + brest.len() == i + body.len());
        }
        assert(spec_skip_ws(s, j + 1) == j + 1) by {
            lemma_ser_head(rest[0]);
            assert(brest[0] == spec_ser(rest[0])[0]) by {
                if rest.len() > 1 {
                    lemma_ser_items_front(rest);
                }
            }
            assert(s[j + 1] == brest[0]) by {
                lemma_subrange_index(s, j + 1, brest);
            }
        }
        lemma_parse_elems_embed(s, j + 1, rest);
        assert(spec_parse_elems(s, j + 1) == Some((rest, i + body.len() + 1)));
        assert(seq![items[0]] + rest =~= items);
    }
}

/// Parsing at an embedded serialized member list yields the members back,
/// in order, and stops right after the closing brace.
pub proof fn lemma_parse_members_embed(s: Seq<char>, i: int, members: Seq<(Seq<char>, JsonView)>)
    requires
        0 <= i,
        members.len() > 0,
        wf_json_members(members),
        i + spec_ser_members(members).len() + 1 <= s.len(),
        s.subrange(i, i + spec_ser_members(members).len()) == spec_ser_members(members),
        s[i + spec_ser_members(members).len()] == '}',
    ensures
        spec_parse_members(s, i) == Some((members, i + spec_ser_members(members).len() + 1)),
    decreases members, 1int,
{
    let body = spec_ser_members(members);
    let m0 = members[0];
    let w0 = spec_ser_member(m0);
    let esc = spec_escape_text(m0.0);
    let wv = spec_ser(m0.1);
    assert(wf_text(m0.0) && wf_json(m0.1));
    lemma_subrange_index(s, i, body);
    if members.len() > 1 {
        lemma_ser_members_front(members);
    }
    assert(w0.len() <= body.len());
    assert(body.subrange(0, w0.len() as int) =~= w0);
    lemma_subrange_embed(s, i, body, 0, w0.len() as int);
    lemma_subrange_index(s, i, w0);
    assert(w0 == seq!['"'] + esc + seq!['"', ':'] + wv);
    assert(s[i] == w0[0] && w0[0] == '"');
    // the key
    lemma_subrange_embed(s, i, w0, 1, 1 + esc.len() as int);
    assert(w0.subrange(1, 1 + esc.len() as int) =~= esc);
    assert(s[i + 1 + esc.len()] == w0[1 + esc.len() as int]);
    assert(w0[1 + esc.len() as int] == '"');
    lemma_parse_string_embed(s, i + 1, m0.0);
    let j = i + 2 + esc.len() as int;
    assert(spec_parse_string(s, i + 1) == Some((m0.0, j)));
    // the colon
    assert(s[j] == w0[j - i]);
    assert(w0[2 + esc.len() as int] == ':');
    assert(spec_skip_ws(s, j) == j);
    // the value
    lemma_ser_head(m0.1);
    assert(w0.subrange(j - i + 1, j - i + 1 + wv.len() as int) =~= wv);
    lemma_subrange_embed(s, i, w0, j - i + 1, j - i + 1 + wv.len() as int);
    assert(s[j + 1] == w0[j - i + 1]);
    assert(w0[j - i + 1] == wv[0]);
    assert(spec_skip_ws(s, j + 1) == j + 1);
    let j2 = j + 1 + wv.len() as int;
    assert(j2 == i + w0.len());
    if members.len() == 1 {
        assert(body == w0);
        assert(s[j2] == '}');
        lemma_parse_ser_embed(s, j + 1, m0.1);
        assert(spec_skip_ws(s, j2) == j2);
        assert(spec_parse_members(s, i) == Some((seq![(m0.0, m0.1)], j2 + 1)));
        assert(seq![(m0.0, m0.1)] =~= members) by {
            assert(m0 == (m0.0, m0.1));
        }
    } else {
        lemma_ser_members_front(members);
        let rest = members.drop_first();
        let brest = spec_ser_members(rest);
        assert(body == w0 + seq![','] + brest);
        assert(s[j2] == body[w0.len() as int]);
        assert(body[w0.len() as int] == ',');
        lemma_parse_ser_embed(s, j + 1, m0.1);
        assert(spec_skip_ws(s, j2) == j2);
        assert(wf_json_members(rest));
        lemma_subrange_embed(s, i, body, w0.len() as int + 1, body.len() as int);
        assert(body.subrange(w0.len() as int + 1, body.len() as int) =~= brest);
        assert(s[j2 + 1 + brest.len()] == '}') by {
            assert(j2 + 1 + brest.len() == i + body.len());
        }
        assert(spec_skip_ws(s, j2 + 1) == j2 + 1) by {
            assert(brest[0] == spec_ser_member(rest[0])[0]) by {
                if rest.len() > 1 {
                    lemma_ser_members_front(rest);
                }
            }
            assert(spec_ser_member(rest[0])[0] == '"');
            assert(s[j2 + 1] == brest[0]) by {
                lemma_subrange_index(s, j2 + 1, brest);
            }
        }
        lemma_parse_members_embed(s, j2 + 1, rest);
        assert(spec_parse_members(s, j2 + 1) == Some((rest, i + body.len() + 1)));
        assert(seq![(m0.0, m0.1)] + rest =~= members) by {
            assert(m0 == (m0.0, m0.1));
        }
    }
}

/// Round trip: a printed well-formed document parses back to itself.
pub proof fn lemma_parse_of_ser(v: JsonView)
    requires
        wf_json(v),
    ensures
        spec_parse_json(spec_ser(v)) == Some(v),
{
    let w = spec_ser(v);
    lemma_ser_head(v);
    assert(spec_skip_ws(w, 0) == 0);
    assert(w.subrange(0, w.len() as int) =~= w);
    lemma_parse_ser_embed(w, 0, v);
    assert(spec_skip_ws(w, w.len() as int) == w.len());
}


/// A scan over digits alone runs to the end.
pub proof fn lemma_scan_all_digits(s: Seq<char>, i: int)
    requires
        0 <= i <= s.len(),
        crate::text::all_digits(s),
    ensures
        spec_scan_digits(s, i) == s.len(),
    decreases s.len() - i,
{
    if i < s.len() {
        lemma_scan_all_digits(s, i + 1);
    }
}

/// A canonical decimal spelling is a well-formed number lexeme.
pub proof fn lemma_dec_wf_num(n: nat)
    ensures
        wf_num_lex(crate::text::spec_dec(n)),
{
    crate::text::lemma_dec_digits(n);
    let lex = crate::text::spec_dec(n);
    let ln = lex.len() as int;
    lemma_scan_all_digits(lex, 0);
    assert(is_digit(lex[0]));
    assert(lex[0] != '-');
    assert(spec_number_frac_end(lex, ln) == Some(ln));
    assert(spec_number_exp_end(lex, ln) == Some(ln));
    assert(lex.subrange(0, ln) =~= lex);
}

} // verus!
