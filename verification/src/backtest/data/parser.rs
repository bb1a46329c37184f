//! The parser of the dictionary literal in a NumPy file header.
//!
//! The grammar is a subset of Python literals: dictionaries `{k: v, ...}` whose keys are
//! strings, lists `[...]` or tuples `(...)`, quoted strings, unsigned integers and the booleans
//! `True` and `False`, with spaces, tabs and line breaks between tokens. A string is quoted with
//! `'` or `"` and holds at least one character: alphanumeric characters, `<`, `>`, `_`, or a
//! backslash escaping `"`, `n`, `\` or `'`; escapes are kept as written. A separating comma
//! may also trail the last item of a list or dictionary.
use vstd::prelude::*;

verus! {

/// A value of a header's dictionary literal.
#[derive(Debug)]
pub enum Value {
    String(String),
    Integer(usize),
    Bool(bool),
    List(Vec<Value>),
    /// The entries of a dictionary, in the order they are written.
    Dict(Vec<(String, Value)>),
}

/// The mathematical value of a [`Value`].
pub enum ValueSpec {
    Text(Seq<char>),
    Integer(nat),
    Bool(bool),
    List(Seq<ValueSpec>),
    Dict(Seq<(Seq<char>, ValueSpec)>),
}

/// The mathematical value of a [`Value`].
pub open spec fn value_view(v: Value) -> ValueSpec
    decreases v,
{
    match v {
        Value::String(s) => ValueSpec::Text(s@),
        Value::Integer(n) => ValueSpec::Integer(n as nat),
        Value::Bool(b) => ValueSpec::Bool(b),
        Value::List(l) => ValueSpec::List(
            Seq::new(
                l@.len(),
                |i: int|
                    if 0 <= i < l@.len() {
                        value_view(l@[i])
                    } else {
                        ValueSpec::Bool(false)
                    },
            ),
        ),
        Value::Dict(l) => ValueSpec::Dict(
            Seq::new(
                l@.len(),
                |i: int|
                    if 0 <= i < l@.len() {
                        (l@[i].0@, value_view(l@[i].1))
                    } else {
                        (Seq::empty(), ValueSpec::Bool(false))
                    },
            ),
        ),
    }
}

/// The mathematical values of a list of values.
pub open spec fn values_view(l: Seq<Value>) -> Seq<ValueSpec> {
    Seq::new(l.len(), |i: int| value_view(l[i]))
}

/// The mathematical entries of a dictionary.
pub open spec fn entries_view(l: Seq<(String, Value)>) -> Seq<(Seq<char>, ValueSpec)> {
    Seq::new(l.len(), |i: int| (l[i].0@, value_view(l[i].1)))
}

/// Whether `char::is_alphanumeric` holds of the character.
pub uninterp spec fn alphanumeric(c: char) -> bool;

/// Calls `char::is_alphanumeric`, whose result is named [`alphanumeric`].
#[verifier::external_body]
fn is_alphanumeric(c: char) -> (r: bool)
    ensures
        r == alphanumeric(c),
{
    c.is_alphanumeric()
}

/// A space, a tab or a line break; with `comma`, also a comma.
pub open spec fn is_blank(c: char, comma: bool) -> bool {
    c == ' ' || c == '\t' || c == '\r' || c == '\n' || (comma && c == ',')
}

/// A character that a string holds unescaped.
pub open spec fn is_word(c: char) -> bool {
    alphanumeric(c) || c == '<' || c == '>' || c == '_'
}

/// A character that a backslash escapes in a string.
pub open spec fn is_escapable(c: char) -> bool {
    c == '"' || c == 'n' || c == '\\' || c == '\''
}

/// A quote.
pub open spec fn is_quote(c: char) -> bool {
    c == '"' || c == '\''
}

/// A decimal digit.
pub open spec fn is_digit(c: char) -> bool {
    '0' <= c <= '9'
}

/// The position after the blanks from `i` on.
pub open spec fn skip_blank(s: Seq<char>, i: int, comma: bool) -> int
    decreases s.len() - i,
{
    if 0 <= i < s.len() && is_blank(s[i], comma) {
        skip_blank(s, i + 1, comma)
    } else {
        i
    }
}

/// The end of a string body that started at `start` and is scanned from `i`: a run of word
/// characters and escapes, which must not be empty unless it reaches the end of the text.
pub open spec fn str_end(s: Seq<char>, i: int, start: int) -> Option<int>
    decreases s.len() - i,
{
    if i < 0 || i >= s.len() {
        Some(i)
    } else if is_word(s[i]) {
        str_end(s, i + 1, start)
    } else if s[i] == '\\' {
        if i + 1 < s.len() && is_escapable(s[i + 1]) {
            str_end(s, i + 2, start)
        } else {
            None
        }
    } else if i == start {
        None
    } else {
        Some(i)
    }
}

/// The quoted string at `i`: its body and the position after its closing quote.
pub open spec fn parse_string_at(s: Seq<char>, i: int) -> Option<(Seq<char>, int)> {
    if 0 <= i < s.len() && is_quote(s[i]) {
        match str_end(s, i + 1, i + 1) {
            Some(e) => if e < s.len() && is_quote(s[e]) {
                Some((s.subrange(i + 1, e), e + 1))
            } else {
                None
            },
            None => None,
        }
    } else {
        None
    }
}

/// The end of the run of digits from `i`.
pub open spec fn digits_end(s: Seq<char>, i: int) -> int
    decreases s.len() - i,
{
    if 0 <= i < s.len() && is_digit(s[i]) {
        digits_end(s, i + 1)
    } else {
        i
    }
}

/// The number written by the digits from `i` to `e`.
pub open spec fn digits_value(s: Seq<char>, i: int, e: int) -> nat
    decreases e - i,
{
    if e <= i {
        0
    } else {
        digits_value(s, i, e - 1) * 10 + ((s[e - 1] as int) - ('0' as int)) as nat
    }
}

/// The unsigned integer at `i` and the position after it: digits whose number fits a `usize`.
pub open spec fn parse_usize_at(s: Seq<char>, i: int) -> Option<(nat, int)> {
    let e = digits_end(s, i);
    if e == i || digits_value(s, i, e) > usize::MAX {
        None
    } else {
        Some((digits_value(s, i, e), e))
    }
}

/// `True` or `False` at `i` and the position after it.
pub open spec fn parse_bool_at(s: Seq<char>, i: int) -> Option<(bool, int)> {
    if 0 <= i && i + 4 <= s.len() && s[i] == 'T' && s[i + 1] == 'r' && s[i + 2] == 'u' && s[i
        + 3] == 'e' {
        Some((true, i + 4))
    } else if 0 <= i && i + 5 <= s.len() && s[i] == 'F' && s[i + 1] == 'a' && s[i + 2] == 'l'
        && s[i + 3] == 's' && s[i + 4] == 'e' {
        Some((false, i + 5))
    } else {
        None
    }
}

/// The value at `i`, after blanks, and the position after it.
pub open spec fn parse_value_at(s: Seq<char>, i: int) -> Option<(ValueSpec, int)>
    decreases s.len() - i, 2nat,
{
    if 0 <= i < s.len() && is_blank(s[i], false) {
        parse_value_at(s, i + 1)
    } else {
        value_at(s, i)
    }
}

/// The value starting at `i` and the position after it.
pub open spec fn value_at(s: Seq<char>, i: int) -> Option<(ValueSpec, int)>
    decreases s.len() - i, 1nat,
{
    if 0 <= i < s.len() {
        let c = s[i];
        if c == '{' {
            let items = dict_items(s, i + 1);
            let e = skip_blank(s, items.1, true);
            if 0 <= e < s.len() && s[e] == '}' {
                Some((ValueSpec::Dict(items.0), e + 1))
            } else {
                None
            }
        } else if c == '[' || c == '(' {
            let items = list_items(s, i + 1);
            let e = skip_blank(s, items.1, true);
            if 0 <= e < s.len() && (s[e] == ']' || s[e] == ')') {
                Some((ValueSpec::List(items.0), e + 1))
            } else {
                None
            }
        } else if is_quote(c) {
            match parse_string_at(s, i) {
                Some((t, e)) => Some((ValueSpec::Text(t), e)),
                None => None,
            }
        } else if is_digit(c) {
            match parse_usize_at(s, i) {
                Some((n, e)) => Some((ValueSpec::Integer(n), e)),
                None => None,
            }
        } else {
            match parse_bool_at(s, i) {
                Some((b, e)) => Some((ValueSpec::Bool(b), e)),
                None => None,
            }
        }
    } else {
        None
    }
}

/// The items of a list from `k`, just after its opening bracket, and the position after the
/// last item: items separated by commas, as many as parse.
pub open spec fn list_items(s: Seq<char>, k: int) -> (Seq<ValueSpec>, int)
    decreases s.len() - k, 3nat,
{
    match parse_value_at(s, k) {
        None => (Seq::empty(), k),
        Some((v, p)) => if k < p <= s.len() {
            let r = list_more(s, p, p);
            (seq![v] + r.0, r.1)
        } else {
            (seq![v], p)
        },
    }
}

/// The further items of a list after an item that ended at `p`, scanning from `q`.
pub open spec fn list_more(s: Seq<char>, p: int, q: int) -> (Seq<ValueSpec>, int)
    decreases s.len() - q, 0nat,
{
    if 0 <= q < s.len() && is_blank(s[q], false) {
        list_more(s, p, q + 1)
    } else if 0 <= q < s.len() && s[q] == ',' {
        match parse_value_at(s, q + 1) {
            None => (Seq::empty(), p),
            Some((v, p2)) => if q < p2 <= s.len() {
                let r = list_more(s, p2, p2);
                (seq![v] + r.0, r.1)
            } else {
                (seq![v], p2)
            },
        }
    } else {
        (Seq::empty(), p)
    }
}

/// The entry of a dictionary at `i`, after blanks: a string key, a colon and a value.
pub open spec fn key_value_at(s: Seq<char>, i: int) -> Option<(Seq<char>, ValueSpec, int)>
    decreases s.len() - i, 2nat,
{
    if 0 <= i < s.len() && is_blank(s[i], false) {
        key_value_at(s, i + 1)
    } else {
        match parse_string_at(s, i) {
            Some((key, e)) => if e > i {
                colon_value_at(s, key, e)
            } else {
                None
            },
            None => None,
        }
    }
}

/// The colon and the value of the entry with the key, scanning from `m`.
pub open spec fn colon_value_at(s: Seq<char>, key: Seq<char>, m: int) -> Option<
    (Seq<char>, ValueSpec, int),
>
    decreases s.len() - m, 1nat,
{
    if 0 <= m < s.len() && is_blank(s[m], false) {
        colon_value_at(s, key, m + 1)
    } else if 0 <= m < s.len() && s[m] == ':' {
        match parse_value_at(s, m + 1) {
            Some((v, p)) => Some((key, v, p)),
            None => None,
        }
    } else {
        None
    }
}

/// The entries of a dictionary from `k`, just after its opening brace, and the position after
/// the last entry.
pub open spec fn dict_items(s: Seq<char>, k: int) -> (Seq<(Seq<char>, ValueSpec)>, int)
    decreases s.len() - k, 3nat,
{
    match key_value_at(s, k) {
        None => (Seq::empty(), k),
        Some((key, v, p)) => if k < p <= s.len() {
            let r = dict_more(s, p, p);
            (seq![(key, v)] + r.0, r.1)
        } else {
            (seq![(key, v)], p)
        },
    }
}

/// The further entries of a dictionary after an entry that ended at `p`, scanning from `q`.
pub open spec fn dict_more(s: Seq<char>, p: int, q: int) -> (Seq<(Seq<char>, ValueSpec)>, int)
    decreases s.len() - q, 0nat,
{
    if 0 <= q < s.len() && is_blank(s[q], false) {
        dict_more(s, p, q + 1)
    } else if 0 <= q < s.len() && s[q] == ',' {
        match key_value_at(s, q + 1) {
            None => (Seq::empty(), p),
            Some((key, v, p2)) => if q < p2 <= s.len() {
                let r = dict_more(s, p2, p2);
                (seq![(key, v)] + r.0, r.1)
            } else {
                (seq![(key, v)], p2)
            },
        }
    } else {
        (Seq::empty(), p)
    }
}

/// The text's leading dictionary or list, after blanks; what follows it is not read.
pub open spec fn parse_text(s: Seq<char>) -> Option<ValueSpec> {
    let j = skip_blank(s, 0, false);
    if 0 <= j < s.len() && (s[j] == '{' || s[j] == '[' || s[j] == '(') {
        match value_at(s, j) {
            Some((v, _)) => Some(v),
            None => None,
        }
    } else {
        None
    }
}

proof fn lemma_skip_blank(s: Seq<char>, i: int, comma: bool)
    requires
        0 <= i <= s.len(),
    ensures
        i <= skip_blank(s, i, comma) <= s.len(),
    decreases s.len() - i,
{
    if 0 <= i < s.len() && is_blank(s[i], comma) {
        lemma_skip_blank(s, i + 1, comma);
    }
}

proof fn lemma_str_end(s: Seq<char>, i: int, start: int)
    requires
        0 <= i <= s.len(),
    ensures
        str_end(s, i, start) matches Some(e) ==> i <= e <= s.len(),
    decreases s.len() - i,
{
    if i < s.len() {
        if is_word(s[i]) {
            lemma_str_end(s, i + 1, start);
        } else if s[i] == '\\' && i + 1 < s.len() && is_escapable(s[i + 1]) {
            lemma_str_end(s, i + 2, start);
        }
    }
}

proof fn lemma_digits_end(s: Seq<char>, i: int)
    requires
        0 <= i <= s.len(),
    ensures
        i <= digits_end(s, i) <= s.len(),
    decreases s.len() - i,
{
    if 0 <= i < s.len() && is_digit(s[i]) {
        lemma_digits_end(s, i + 1);
    }
}

proof fn lemma_scalar_positions(s: Seq<char>, i: int)
    requires
        0 <= i <= s.len(),
    ensures
        parse_string_at(s, i) matches Some((_, e)) ==> i < e <= s.len(),
        parse_usize_at(s, i) matches Some((_, e)) ==> i < e <= s.len(),
        parse_bool_at(s, i) matches Some((_, e)) ==> i < e <= s.len(),
{
    if 0 <= i < s.len() {
        lemma_str_end(s, i + 1, i + 1);
    }
    lemma_digits_end(s, i);
}

/// A parsed value, list or dictionary ends within the text, after where it started.
proof fn lemma_value_positions(s: Seq<char>, i: int)
    requires
        0 <= i <= s.len(),
    ensures
        parse_value_at(s, i) matches Some((_, p)) ==> i < p <= s.len(),
    decreases s.len() - i, 2nat,
{
    if 0 <= i < s.len() && is_blank(s[i], false) {
        lemma_value_positions(s, i + 1);
    } else {
        lemma_value_at_positions(s, i);
    }
}

proof fn lemma_value_at_positions(s: Seq<char>, i: int)
    requires
        0 <= i <= s.len(),
    ensures
        value_at(s, i) matches Some((_, p)) ==> i < p <= s.len(),
    decreases s.len() - i, 1nat,
{
    if 0 <= i < s.len() {
        let c = s[i];
        if c == '{' {
            lemma_dict_items_positions(s, i + 1);
            lemma_skip_blank(s, dict_items(s, i + 1).1, true);
        } else if c == '[' || c == '(' {
            lemma_list_items_positions(s, i + 1);
            lemma_skip_blank(s, list_items(s, i + 1).1, true);
        } else {
            lemma_scalar_positions(s, i);
        }
    }
}

proof fn lemma_list_items_positions(s: Seq<char>, k: int)
    requires
        0 <= k <= s.len(),
    ensures
        k <= list_items(s, k).1 <= s.len(),
    decreases s.len() - k, 3nat,
{
    lemma_value_positions(s, k);
    if let Some((v, p)) = parse_value_at(s, k) {
        lemma_list_more_positions(s, p, p);
    }
}

proof fn lemma_list_more_positions(s: Seq<char>, p: int, q: int)
    requires
        0 <= p <= q <= s.len(),
    ensures
        p <= list_more(s, p, q).1 <= s.len(),
    decreases s.len() - q, 0nat,
{
    if 0 <= q < s.len() && is_blank(s[q], false) {
        lemma_list_more_positions(s, p, q + 1);
    } else if 0 <= q < s.len() && s[q] == ',' {
        lemma_value_positions(s, q + 1);
        if let Some((v, p2)) = parse_value_at(s, q + 1) {
            lemma_list_more_positions(s, p2, p2);
        }
    }
}

proof fn lemma_key_value_positions(s: Seq<char>, i: int)
    requires
        0 <= i <= s.len(),
    ensures
        key_value_at(s, i) matches Some((_, _, p)) ==> i < p <= s.len(),
    decreases s.len() - i, 2nat,
{
    if 0 <= i < s.len() && is_blank(s[i], false) {
        lemma_key_value_positions(s, i + 1);
    } else {
        lemma_scalar_positions(s, i);
        if let Some((key, e)) = parse_string_at(s, i) {
            lemma_colon_value_positions(s, key, e);
        }
    }
}

proof fn lemma_colon_value_positions(s: Seq<char>, key: Seq<char>, m: int)
    requires
        0 <= m <= s.len(),
    ensures
        colon_value_at(s, key, m) matches Some((_, _, p)) ==> m < p <= s.len(),
    decreases s.len() - m, 1nat,
{
    if 0 <= m < s.len() && is_blank(s[m], false) {
        lemma_colon_value_positions(s, key, m + 1);
    } else if 0 <= m < s.len() && s[m] == ':' {
        lemma_value_positions(s, m + 1);
    }
}

proof fn lemma_dict_items_positions(s: Seq<char>, k: int)
    requires
        0 <= k <= s.len(),
    ensures
        k <= dict_items(s, k).1 <= s.len(),
    decreases s.len() - k, 3nat,
{
    lemma_key_value_positions(s, k);
    if let Some((key, v, p)) = key_value_at(s, k) {
        lemma_dict_more_positions(s, p, p);
    }
}

proof fn lemma_dict_more_positions(s: Seq<char>, p: int, q: int)
    requires
        0 <= p <= q <= s.len(),
    ensures
        p <= dict_more(s, p, q).1 <= s.len(),
    decreases s.len() - q, 0nat,
{
    if 0 <= q < s.len() && is_blank(s[q], false) {
        lemma_dict_more_positions(s, p, q + 1);
    } else if 0 <= q < s.len() && s[q] == ',' {
        lemma_key_value_positions(s, q + 1);
        if let Some((key, v, p2)) = key_value_at(s, q + 1) {
            lemma_dict_more_positions(s, p2, p2);
        }
    }
}

/// The characters of the text.
fn chars_of(text: &str) -> (r: Vec<char>)
    ensures
        r@ == text@,
{
    let mut r: Vec<char> = Vec::new();
    for c in it: text.chars()
        invariant
            r@ == it.seq().take(it.index() as int),
            it.seq() == text@,
    {
        let ghost i = it.index();
        r.push(c);
        assert(r@ =~= it.seq().take(i + 1));
    }
    assert(r@ =~= text@);
    r
}

fn blank(c: char, comma: bool) -> (r: bool)
    ensures
        r == is_blank(c, comma),
{
    c == ' ' || c == '\t' || c == '\r' || c == '\n' || (comma && c == ',')
}

fn quote(c: char) -> (r: bool)
    ensures
        r == is_quote(c),
{
    c == '"' || c == '\''
}

fn digit(c: char) -> (r: bool)
    ensures
        r == is_digit(c),
{
    '0' <= c && c <= '9'
}

/// The position after the blanks from `i` on, as [`skip_blank`] states.
fn skip(s: &Vec<char>, i: usize, comma: bool) -> (r: usize)
    requires
        i <= s@.len(),
    ensures
        r == skip_blank(s@, i as int, comma),
    decreases s@.len() - i,
{
    if i < s.len() && blank(s[i], comma) {
        skip(s, i + 1, comma)
    } else {
        i
    }
}

/// The end of a string body, as [`str_end`] states.
fn string_end(s: &Vec<char>, i: usize, start: usize) -> (r: Option<usize>)
    requires
        i <= s@.len(),
    ensures
        match str_end(s@, i as int, start as int) {
            Some(e) => r matches Some(re) && re == e,
            None => r is None,
        },
    decreases s@.len() - i,
{
    proof {
        lemma_str_end(s@, i as int, start as int);
    }
    if i >= s.len() {
        Some(i)
    } else {
        let c = s[i];
        if is_alphanumeric(c) || c == '<' || c == '>' || c == '_' {
            string_end(s, i + 1, start)
        } else if c == '\\' {
            if i + 1 < s.len() && (s[i + 1] == '"' || s[i + 1] == 'n' || s[i + 1] == '\\' || s[i
                + 1] == '\'') {
                string_end(s, i + 2, start)
            } else {
                None
            }
        } else if i == start {
            None
        } else {
            Some(i)
        }
    }
}

/// Parses the quoted string at `i`, as [`parse_string_at`] states.
pub fn parse_string(s: &Vec<char>, text: &str, i: usize) -> (r: Option<(String, usize)>)
    requires
        s@ == text@,
        i <= s@.len(),
    ensures
        match parse_string_at(s@, i as int) {
            Some((t, e)) => r matches Some((rs, re)) && rs@ == t && re == e,
            None => r is None,
        },
{
    if i < s.len() && quote(s[i]) {
        proof {
            lemma_str_end(s@, i + 1, i + 1);
        }
        match string_end(s, i + 1, i + 1) {
            Some(e) => {
                if e < s.len() && quote(s[e]) {
                    let body = text.substring_char(i + 1, e);
                    let t = body.to_owned();
                    Some((t, e + 1))
                } else {
                    None
                }
            },
            None => None,
        }
    } else {
        None
    }
}

proof fn lemma_digits_value_grows(s: Seq<char>, i: int, k: int, e: int)
    requires
        i <= k <= e,
        forall|j: int| i <= j < e ==> is_digit(#[trigger] s[j]),
    ensures
        digits_value(s, i, k) <= digits_value(s, i, e),
    decreases e - k,
{
    if k < e {
        lemma_digits_value_grows(s, i, k, e - 1);
    }
}

proof fn lemma_digits_end_digits(s: Seq<char>, i: int)
    requires
        0 <= i <= s.len(),
    ensures
        forall|j: int| i <= j < digits_end(s, i) ==> is_digit(#[trigger] s[j]),
        i <= digits_end(s, i) <= s.len(),
    decreases s.len() - i,
{
    if 0 <= i < s.len() && is_digit(s[i]) {
        lemma_digits_end_digits(s, i + 1);
    }
}

fn digits_to(s: &Vec<char>, i: usize) -> (r: usize)
    requires
        i <= s@.len(),
    ensures
        r == digits_end(s@, i as int),
    decreases s@.len() - i,
{
    if i < s.len() && digit(s[i]) {
        digits_to(s, i + 1)
    } else {
        i
    }
}

/// Parses the unsigned integer at `i`, as [`parse_usize_at`] states.
pub fn parse_usize(s: &Vec<char>, i: usize) -> (r: Option<(usize, usize)>)
    requires
        i <= s@.len(),
    ensures
        match parse_usize_at(s@, i as int) {
            Some((n, e)) => r matches Some((rn, re)) && rn == n && re == e,
            None => r is None,
        },
{
    let e = digits_to(s, i);
    proof {
        lemma_digits_end_digits(s@, i as int);
    }
    if e == i {
        return None;
    }
    let mut n: usize = 0;
    let mut k = i;
    while k < e
        invariant
            i <= k <= e <= s@.len(),
            e == digits_end(s@, i as int),
            forall|j: int| i <= j < e ==> is_digit(#[trigger] s@[j]),
            n == digits_value(s@, i as int, k as int),
        decreases e - k,
    {
        let d = (s[k] as u32 - '0' as u32) as usize;
        assert(is_digit(s@[k as int]));
        let next: u128 = n as u128 * 10 + d as u128;
        assert(next == digits_value(s@, i as int, k + 1));
        if next > usize::MAX as u128 {
            proof {
                lemma_digits_value_grows(s@, i as int, k + 1, e as int);
            }
            return None;
        }
        n = next as usize;
        k = k + 1;
    }
    Some((n, e))
}

/// Parses `True` or `False` at `i`, as [`parse_bool_at`] states.
pub fn parse_boolean(s: &Vec<char>, i: usize) -> (r: Option<(bool, usize)>)
    requires
        i <= s@.len(),
    ensures
        match parse_bool_at(s@, i as int) {
            Some((b, e)) => r matches Some((rb, re)) && rb == b && re == e,
            None => r is None,
        },
{
    let len = s.len();
    if len >= 4 && i <= len - 4 && s[i] == 'T' && s[i + 1] == 'r' && s[i + 2] == 'u' && s[i + 3] == 'e' {
        Some((true, i + 4))
    } else if len >= 5 && i <= len - 5 && s[i] == 'F' && s[i + 1] == 'a' && s[i + 2] == 'l' && s[i + 3]
        == 's' && s[i + 4] == 'e' {
        Some((false, i + 5))
    } else {
        None
    }
}

/// Parses the value at `i`, after blanks, as [`parse_value_at`] states.
pub fn parse_value(s: &Vec<char>, text: &str, i: usize) -> (r: Option<(Value, usize)>)
    requires
        s@ == text@,
        i <= s@.len(),
    ensures
        match parse_value_at(s@, i as int) {
            Some((v, p)) => r matches Some((rv, rp)) && value_view(rv) == v && rp == p,
            None => r is None,
        },
    decreases s@.len() - i, 2nat,
{
    if i < s.len() && blank(s[i], false) {
        parse_value(s, text, i + 1)
    } else {
        parse_value_here(s, text, i)
    }
}

/// Parses the value starting at `i`, as [`value_at`] states.
fn parse_value_here(s: &Vec<char>, text: &str, i: usize) -> (r: Option<(Value, usize)>)
    requires
        s@ == text@,
        i <= s@.len(),
    ensures
        match value_at(s@, i as int) {
            Some((v, p)) => r matches Some((rv, rp)) && value_view(rv) == v && rp == p,
            None => r is None,
        },
    decreases s@.len() - i, 1nat,
{
    if i >= s.len() {
        return None;
    }
    let c = s[i];
    if c == '{' {
        let (entries, end) = parse_entries(s, text, i + 1);
        proof {
            lemma_dict_items_positions(s@, i + 1);
        }
        let e = skip(s, end, true);
        proof {
            lemma_skip_blank(s@, end as int, true);
        }
        if e < s.len() && s[e] == '}' {
            let v = Value::Dict(entries);
            assert(value_view(v) == ValueSpec::Dict(dict_items(s@, i + 1).0)) by {
                assert(entries_view(entries@) =~= dict_items(s@, i + 1).0);
                if let ValueSpec::Dict(d) = value_view(v) {
                    assert(d =~= entries_view(entries@));
                }
            }
            Some((v, e + 1))
        } else {
            None
        }
    } else if c == '[' || c == '(' {
        let (items, end) = parse_items(s, text, i + 1);
        proof {
            lemma_list_items_positions(s@, i + 1);
        }
        let e = skip(s, end, true);
        proof {
            lemma_skip_blank(s@, end as int, true);
        }
        if e < s.len() && (s[e] == ']' || s[e] == ')') {
            let v = Value::List(items);
            assert(value_view(v) == ValueSpec::List(list_items(s@, i + 1).0)) by {
                assert(values_view(items@) =~= list_items(s@, i + 1).0);
                if let ValueSpec::List(l) = value_view(v) {
                    assert(l =~= values_view(items@));
                }
            }
            Some((v, e + 1))
        } else {
            None
        }
    } else if quote(c) {
        match parse_string(s, text, i) {
            Some((t, e)) => Some((Value::String(t), e)),
            None => None,
        }
    } else if digit(c) {
        match parse_usize(s, i) {
            Some((n, e)) => Some((Value::Integer(n), e)),
            None => None,
        }
    } else {
        match parse_boolean(s, i) {
            Some((b, e)) => Some((Value::Bool(b), e)),
            None => None,
        }
    }
}

/// Parses the items of a list from `k`, as [`list_items`] states.
fn parse_items(s: &Vec<char>, text: &str, k: usize) -> (r: (Vec<Value>, usize))
    requires
        s@ == text@,
        k <= s@.len(),
    ensures
        values_view(r.0@) == list_items(s@, k as int).0,
        r.1 == list_items(s@, k as int).1,
    decreases s@.len() - k, 3nat,
{
    proof {
        lemma_value_positions(s@, k as int);
    }
    match parse_value(s, text, k) {
        None => {
            let none: Vec<Value> = Vec::new();
            assert(values_view(none@) =~= Seq::<ValueSpec>::empty());
            (none, k)
        },
        Some((v, p)) => {
            let (mut rest, end) = parse_more_items(s, text, p, p);
            let ghost rv = rest@;
            rest.insert(0, v);
            assert(values_view(rest@) =~= seq![value_view(v)] + values_view(rv));
            (rest, end)
        },
    }
}

/// Parses the further items of a list, as [`list_more`] states.
fn parse_more_items(s: &Vec<char>, text: &str, p: usize, q: usize) -> (r: (Vec<Value>, usize))
    requires
        s@ == text@,
        p <= q <= s@.len(),
    ensures
        values_view(r.0@) == list_more(s@, p as int, q as int).0,
        r.1 == list_more(s@, p as int, q as int).1,
    decreases s@.len() - q, 0nat,
{
    if q < s.len() && blank(s[q], false) {
        parse_more_items(s, text, p, q + 1)
    } else if q < s.len() && s[q] == ',' {
        proof {
            lemma_value_positions(s@, q + 1);
        }
        match parse_value(s, text, q + 1) {
            None => {
                let none: Vec<Value> = Vec::new();
                assert(values_view(none@) =~= Seq::<ValueSpec>::empty());
                (none, p)
            },
            Some((v, p2)) => {
                let (mut rest, end) = parse_more_items(s, text, p2, p2);
                let ghost rv = rest@;
                rest.insert(0, v);
                assert(values_view(rest@) =~= seq![value_view(v)] + values_view(rv));
                (rest, end)
            },
        }
    } else {
        let none: Vec<Value> = Vec::new();
        assert(values_view(none@) =~= Seq::<ValueSpec>::empty());
        (none, p)
    }
}

/// Parses the dictionary entry at `i`, as [`key_value_at`] states.
pub fn parse_key_value(s: &Vec<char>, text: &str, i: usize) -> (r: Option<(String, Value, usize)>)
    requires
        s@ == text@,
        i <= s@.len(),
    ensures
        match key_value_at(s@, i as int) {
            Some((key, v, p)) => r matches Some((rk, rv, rp)) && rk@ == key && value_view(rv) == v
                && rp == p,
            None => r is None,
        },
    decreases s@.len() - i, 2nat,
{
    if i < s.len() && blank(s[i], false) {
        parse_key_value(s, text, i + 1)
    } else {
        proof {
            lemma_scalar_positions(s@, i as int);
        }
        match parse_string(s, text, i) {
            Some((key, e)) => parse_colon_value(s, text, key, e),
            None => None,
        }
    }
}

/// Parses the colon and the value of a dictionary entry, as [`colon_value_at`] states.
fn parse_colon_value(s: &Vec<char>, text: &str, key: String, m: usize) -> (r: Option<
    (String, Value, usize),
>)
    requires
        s@ == text@,
        m <= s@.len(),
    ensures
        match colon_value_at(s@, key@, m as int) {
            Some((k, v, p)) => r matches Some((rk, rv, rp)) && rk@ == k && value_view(rv) == v
                && rp == p,
            None => r is None,
        },
    decreases s@.len() - m, 1nat,
{
    if m < s.len() && blank(s[m], false) {
        parse_colon_value(s, text, key, m + 1)
    } else if m < s.len() && s[m] == ':' {
        match parse_value(s, text, m + 1) {
            Some((v, p)) => Some((key, v, p)),
            None => None,
        }
    } else {
        None
    }
}

/// Parses the entries of a dictionary from `k`, as [`dict_items`] states.
fn parse_entries(s: &Vec<char>, text: &str, k: usize) -> (r: (Vec<(String, Value)>, usize))
    requires
        s@ == text@,
        k <= s@.len(),
    ensures
        entries_view(r.0@) == dict_items(s@, k as int).0,
        r.1 == dict_items(s@, k as int).1,
    decreases s@.len() - k, 3nat,
{
    proof {
        lemma_key_value_positions(s@, k as int);
    }
    match parse_key_value(s, text, k) {
        None => {
            let none: Vec<(String, Value)> = Vec::new();
            assert(entries_view(none@) =~= Seq::<(Seq<char>, ValueSpec)>::empty());
            (none, k)
        },
        Some((key, v, p)) => {
            let (mut rest, end) = parse_more_entries(s, text, p, p);
            let ghost rv = rest@;
            let ghost kv = key@;
            let ghost vv = value_view(v);
            rest.insert(0, (key, v));
            assert(entries_view(rest@) =~= seq![(kv, vv)] + entries_view(rv));
            (rest, end)
        },
    }
}

/// Parses the further entries of a dictionary, as [`dict_more`] states.
fn parse_more_entries(s: &Vec<char>, text: &str, p: usize, q: usize) -> (r: (
    Vec<(String, Value)>,
    usize,
))
    requires
        s@ == text@,
        p <= q <= s@.len(),
    ensures
        entries_view(r.0@) == dict_more(s@, p as int, q as int).0,
        r.1 == dict_more(s@, p as int, q as int).1,
    decreases s@.len() - q, 0nat,
{
    if q < s.len() && blank(s[q], false) {
        parse_more_entries(s, text, p, q + 1)
    } else if q < s.len() && s[q] == ',' {
        proof {
            lemma_key_value_positions(s@, q + 1);
        }
        match parse_key_value(s, text, q + 1) {
            None => {
                let none: Vec<(String, Value)> = Vec::new();
            assert(entries_view(none@) =~= Seq::<(Seq<char>, ValueSpec)>::empty());
            (none, p)
            },
            Some((key, v, p2)) => {
                let (mut rest, end) = parse_more_entries(s, text, p2, p2);
                let ghost rv = rest@;
                let ghost kv = key@;
                let ghost vv = value_view(v);
                rest.insert(0, (key, v));
                assert(entries_view(rest@) =~= seq![(kv, vv)] + entries_view(rv));
                (rest, end)
            },
        }
    } else {
        let none: Vec<(String, Value)> = Vec::new();
            assert(entries_view(none@) =~= Seq::<(Seq<char>, ValueSpec)>::empty());
            (none, p)
    }
}

/// Parses the text's leading dictionary or list, after blanks, as [`parse_text`] states; what
/// follows it is not read.
pub fn parse(text: &str) -> (r: Option<Value>)
    ensures
        match parse_text(text@) {
            Some(v) => r matches Some(rv) && value_view(rv) == v,
            None => r is None,
        },
{
    let s = chars_of(text);
    let j = skip(&s, 0, false);
    proof {
        lemma_skip_blank(s@, 0, false);
    }
    if j < s.len() && (s[j] == '{' || s[j] == '[' || s[j] == '(') {
        match parse_value_here(&s, text, j) {
            Some((v, _)) => Some(v),
            None => None,
        }
    } else {
        None
    }
}

impl Value {
    /// Returns the string, or an error if the value is not a string.
    pub fn get_string(&self) -> (r: Result<&str, String>)
        ensures
            match self {
                Value::String(t) => r matches Ok(rt) && rt@ == t@,
                _ => r matches Err(m) && m@ == "must be a string"@,
            },
    {
        match self {
            Value::String(t) => Ok(t.as_str()),
            _ => Err("must be a string".to_owned()),
        }
    }

    /// Returns the unsigned integer, or an error if the value is not one.
    pub fn get_integer(&self) -> (r: Result<usize, String>)
        ensures
            match self {
                Value::Integer(n) => r == Ok::<usize, String>(*n),
                _ => r matches Err(m) && m@ == "must be an unsigned integer"@,
            },
    {
        match self {
            Value::Integer(n) => Ok(*n),
            _ => Err("must be an unsigned integer".to_owned()),
        }
    }

    /// Returns the boolean, or an error if the value is not one.
    pub fn get_bool(&self) -> (r: Result<bool, String>)
        ensures
            match self {
                Value::Bool(b) => r == Ok::<bool, String>(*b),
                _ => r matches Err(m) && m@ == "must be a bool"@,
            },
    {
        match self {
            Value::Bool(b) => Ok(*b),
            _ => Err("must be a bool".to_owned()),
        }
    }

    /// Returns the items, or an error if the value is not a list.
    pub fn get_list(&self) -> (r: Result<&Vec<Value>, String>)
        ensures
            match self {
                Value::List(l) => r matches Ok(rl) && rl@ == l@,
                _ => r matches Err(m) && m@ == "must be a list"@,
            },
    {
        match self {
            Value::List(l) => Ok(l),
            _ => Err("must be a list".to_owned()),
        }
    }

    /// Returns the entries, or an error if the value is not a dictionary.
    pub fn get_dict(&self) -> (r: Result<&Vec<(String, Value)>, String>)
        ensures
            match self {
                Value::Dict(d) => r matches Ok(rd) && rd@ == d@,
                _ => r matches Err(m) && m@ == "must be a dict"@,
            },
    {
        match self {
            Value::Dict(d) => Ok(d),
            _ => Err("must be a dict".to_owned()),
        }
    }
}

} // verus!
