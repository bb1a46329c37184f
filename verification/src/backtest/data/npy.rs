//! The header of a NumPy `.npy` file holding a structured array.
//!
//! The header is a Python dictionary literal giving the record's fields (`descr`), the memory
//! order (`fortran_order`) and the array's shape, padded with spaces and ended by a newline so
//! that the data starts at a multiple of 64 bytes.
use vstd::prelude::*;
use vstd::utf8::{decode_utf8, encode_utf8, valid_utf8};

use crate::backtest::data::parser::{
    entries_view, parse, parse_text, value_view, values_view, Value, ValueSpec,
};

verus! {

/// A field of a NumPy structured array: its name and its type string.
#[derive(Debug)]
pub struct Field {
    pub name: String,
    pub ty: String,
}

/// The header of a NumPy file.
#[derive(Debug)]
pub struct NpyHeader {
    pub descr: Vec<Field>,
    pub fortran_order: bool,
    pub shape: Vec<usize>,
}

/// The character of a decimal digit.
pub open spec fn digit_char(d: nat) -> char {
    if d == 0 {
        '0'
    } else if d == 1 {
        '1'
    } else if d == 2 {
        '2'
    } else if d == 3 {
        '3'
    } else if d == 4 {
        '4'
    } else if d == 5 {
        '5'
    } else if d == 6 {
        '6'
    } else if d == 7 {
        '7'
    } else if d == 8 {
        '8'
    } else {
        '9'
    }
}

/// The decimal representation of a number, without leading zeros.
pub open spec fn decimal(n: nat) -> Seq<char>
    decreases n,
{
    if n < 10 {
        seq![digit_char(n)]
    } else {
        decimal(n / 10) + seq![digit_char(n % 10)]
    }
}

/// The `descr` entry of a header: `[('name', 'type'), ...]`, each field followed by `, `.
pub open spec fn descr_text(fields: Seq<(Seq<char>, Seq<char>)>) -> Seq<char>
    decreases fields.len(),
{
    if fields.len() == 0 {
        seq!['[']
    } else {
        let f = fields.last();
        descr_text(fields.drop_last()) + seq!['(', '\''] + f.0 + seq!['\'', ',', ' ', '\''] + f.1
            + seq!['\'', ')', ',', ' ']
    }
}

/// The `shape` entry of a header: `(n, ...)`, each length followed by `, `.
pub open spec fn shape_text(shape: Seq<usize>) -> Seq<char>
    decreases shape.len(),
{
    if shape.len() == 0 {
        seq!['(']
    } else {
        shape_text(shape.drop_last()) + decimal(shape.last() as nat) + seq![',', ' ']
    }
}

/// The fields of a header as pairs of name and type.
pub open spec fn fields_view(descr: Seq<Field>) -> Seq<(Seq<char>, Seq<char>)> {
    descr.map_values(|f: Field| (f.name@, f.ty@))
}

/// The dictionary literal of a header with the given fields, order and shape, before padding.
pub open spec fn dict_literal(fields: Seq<(Seq<char>, Seq<char>)>, fortran_order: bool, shape: Seq<usize>) -> Seq<char> {
    "{'descr': "@ + descr_text(fields) + seq![']'] + ", 'fortran_order': "@ + (
    if fortran_order {
        "True"@
    } else {
        "False"@
    }) + ", 'shape': "@ + shape_text(shape) + seq![')'] + seq!['}']
}

/// The dictionary literal of a header, before padding.
pub open spec fn dict_text(h: &NpyHeader) -> Seq<char> {
    dict_literal(fields_view(h.descr@), h.fortran_order, h.shape@)
}

/// The whole header text: the dictionary literal, the padding and the newline.
pub open spec fn padded_text(dict: Seq<char>) -> Seq<char> {
    dict + Seq::new(padding_len(encode_utf8(dict).len() as int) as nat, |i: int| ' ') + seq!['\n']
}

/// The number of spaces that pad a dictionary literal of `len` bytes so that the 10-byte file
/// preamble, the literal, the padding and the final newline fill whole 64-byte blocks.
pub open spec fn padding_len(len: int) -> int {
    let header_len = 10 + len + 1;
    if header_len % 64 != 0 {
        (header_len / 64 + 1) * 64 - header_len
    } else {
        0
    }
}

/// Appends the character of a decimal digit.
fn push_digit(s: &mut String, d: u64)
    requires
        d < 10,
    ensures
        final(s)@ == old(s)@ + seq![digit_char(d as nat)],
{
    proof {
        reveal_strlit("0");
        reveal_strlit("1");
        reveal_strlit("2");
        reveal_strlit("3");
        reveal_strlit("4");
        reveal_strlit("5");
        reveal_strlit("6");
        reveal_strlit("7");
        reveal_strlit("8");
        reveal_strlit("9");
    }
    let digit = match d {
        0 => "0",
        1 => "1",
        2 => "2",
        3 => "3",
        4 => "4",
        5 => "5",
        6 => "6",
        7 => "7",
        8 => "8",
        _ => "9",
    };
    s.append(digit);
}

/// Appends the decimal representation of a number.
pub(crate) fn push_decimal(s: &mut String, n: u64)
    ensures
        final(s)@ == old(s)@ + decimal(n as nat),
    decreases n,
{
    if n >= 10 {
        push_decimal(s, n / 10);
    }
    push_digit(s, n % 10);
    assert(s@ =~= old(s)@ + decimal(n as nat));
}

/// The index of the last entry under the key, -1 when there is none.
pub open spec fn last_index(es: Seq<(Seq<char>, ValueSpec)>, key: Seq<char>) -> int
    decreases es.len(),
{
    if es.len() == 0 {
        -1
    } else if es.last().0 == key {
        es.len() - 1
    } else {
        last_index(es.drop_last(), key)
    }
}

/// The value of the last entry under the key; a later entry overrides an earlier one.
pub open spec fn last_value(es: Seq<(Seq<char>, ValueSpec)>, key: Seq<char>) -> Option<ValueSpec> {
    let li = last_index(es, key);
    if li >= 0 {
        Some(es[li].1)
    } else {
        None
    }
}

/// A later entry has the same key as entry `i`.
pub open spec fn overridden(es: Seq<(Seq<char>, ValueSpec)>, i: int) -> bool {
    exists|j: int| i < j < es.len() && #[trigger] es[j].0 == es[i].0
}

/// What is wrong with an item of the `descr` list, if anything.
pub open spec fn field_problem(v: ValueSpec) -> Option<Seq<char>> {
    match v {
        ValueSpec::List(t) => if t.len() != 2 {
            Some("list entry must contain 2 items"@)
        } else if t[0] is Text && t[1] is Text {
            None
        } else {
            Some("list entry must contain a string for id and a valid dtype"@)
        },
        _ => Some("must be a list"@),
    }
}

/// The first thing wrong with the items of the `descr` list from index `k`.
pub open spec fn fields_problem(items: Seq<ValueSpec>, k: int) -> Option<Seq<char>>
    decreases items.len() - k,
{
    if k < 0 || k >= items.len() {
        None
    } else if field_problem(items[k]) is Some {
        field_problem(items[k])
    } else {
        fields_problem(items, k + 1)
    }
}

/// The first item of the `shape` list from index `k` that is not an unsigned integer.
pub open spec fn lengths_problem(items: Seq<ValueSpec>, k: int) -> Option<Seq<char>>
    decreases items.len() - k,
{
    if k < 0 || k >= items.len() {
        None
    } else if !(items[k] is Integer) {
        Some("must be an unsigned integer"@)
    } else {
        lengths_problem(items, k + 1)
    }
}

/// What is wrong with a header entry, if anything: `descr` must be a list of (name, type)
/// string pairs, `fortran_order` a boolean, `shape` a list of unsigned integers, and no other key
/// is allowed.
pub open spec fn entry_problem(key: Seq<char>, v: ValueSpec) -> Option<Seq<char>> {
    if key == "descr"@ {
        match v {
            ValueSpec::List(items) => fields_problem(items, 0),
            _ => Some("must be a list"@),
        }
    } else if key == "fortran_order"@ {
        match v {
            ValueSpec::Bool(_) => None,
            _ => Some("must be a bool"@),
        }
    } else if key == "shape"@ {
        match v {
            ValueSpec::List(items) => lengths_problem(items, 0),
            _ => Some("must be a list"@),
        }
    } else {
        Some("must be a list"@)
    }
}

/// The first thing wrong with the entries from index `i` that no later entry overrides.
pub open spec fn first_problem(es: Seq<(Seq<char>, ValueSpec)>, i: int) -> Option<Seq<char>>
    decreases es.len() - i,
{
    if i < 0 || i >= es.len() {
        None
    } else if !overridden(es, i) && entry_problem(es[i].0, es[i].1) is Some {
        entry_problem(es[i].0, es[i].1)
    } else {
        first_problem(es, i + 1)
    }
}

/// The (name, type) pair of a `descr` item.
pub open spec fn field_of(v: ValueSpec) -> (Seq<char>, Seq<char>) {
    (v->List_0[0]->Text_0, v->List_0[1]->Text_0)
}

/// The lengths of a shape as numbers.
pub open spec fn lengths_view(l: Seq<usize>) -> Seq<nat> {
    l.map_values(|n: usize| n as nat)
}

/// The numbers of a list of unsigned integers.
pub open spec fn integers_of(items: Seq<ValueSpec>) -> Seq<nat> {
    items.map_values(|it: ValueSpec| it->Integer_0)
}

/// The fields of a list of (name, type) pairs.
pub open spec fn fields_of_items(items: Seq<ValueSpec>) -> Seq<(Seq<char>, Seq<char>)> {
    items.map_values(|it: ValueSpec| field_of(it))
}

/// The fields of the header: from the `descr` entry, none without one.
pub open spec fn header_fields(es: Seq<(Seq<char>, ValueSpec)>) -> Seq<(Seq<char>, Seq<char>)> {
    match last_value(es, "descr"@) {
        Some(ValueSpec::List(items)) => fields_of_items(items),
        _ => Seq::empty(),
    }
}

/// The memory order of the header: from the `fortran_order` entry, `false` without one.
pub open spec fn header_order(es: Seq<(Seq<char>, ValueSpec)>) -> bool {
    match last_value(es, "fortran_order"@) {
        Some(ValueSpec::Bool(b)) => b,
        _ => false,
    }
}

/// The shape of the header: from the `shape` entry, empty without one.
pub open spec fn header_shape(es: Seq<(Seq<char>, ValueSpec)>) -> Seq<nat> {
    match last_value(es, "shape"@) {
        Some(ValueSpec::List(items)) => integers_of(items),
        _ => Seq::empty(),
    }
}

/// The error of a header text that is not a dictionary or list literal.
pub open spec fn syntax_error() -> Seq<char> {
    "the header is not a dictionary literal"@
}

/// The header read from a header text, or the reason it cannot be read.
pub open spec fn header_from(text: Seq<char>) -> Result<
    (Seq<(Seq<char>, Seq<char>)>, bool, Seq<nat>),
    Seq<char>,
> {
    match parse_text(text) {
        None => Err(syntax_error()),
        Some(ValueSpec::Dict(es)) => match first_problem(es, 0) {
            Some(m) => Err(m),
            None => Ok((header_fields(es), header_order(es), header_shape(es))),
        },
        Some(_) => Err("must be a dict"@),
    }
}

proof fn lemma_last_index(es: Seq<(Seq<char>, ValueSpec)>, key: Seq<char>)
    ensures
        -1 <= last_index(es, key) < es.len(),
        last_index(es, key) >= 0 ==> es[last_index(es, key)].0 == key,
        forall|j: int| last_index(es, key) < j < es.len() ==> #[trigger] es[j].0 != key,
    decreases es.len(),
{
    if es.len() > 0 && es.last().0 != key {
        lemma_last_index(es.drop_last(), key);
        assert forall|j: int| last_index(es, key) < j < es.len() implies #[trigger] es[j].0
            != key by {
            if j < es.len() - 1 {
                assert(es[j] == es.drop_last()[j]);
            }
        }
    }
}

proof fn lemma_last_index_of_kept(es: Seq<(Seq<char>, ValueSpec)>, i: int)
    requires
        0 <= i < es.len(),
        !overridden(es, i),
    ensures
        last_index(es, es[i].0) == i,
{
    lemma_last_index(es, es[i].0);
    let li = last_index(es, es[i].0);
    if li < i {
    } else if li > i {
        assert(es[li].0 == es[i].0);
        assert(overridden(es, i));
    }
}

proof fn lemma_first_problem_skip(es: Seq<(Seq<char>, ValueSpec)>, i: int)
    requires
        0 <= i < es.len(),
        overridden(es, i) || entry_problem(es[i].0, es[i].1) is None,
    ensures
        first_problem(es, i) == first_problem(es, i + 1),
{
}

/// The key is the name.
fn key_is(key: &String, name: &str) -> (r: bool)
    ensures
        r == (key@ == name@),
{
    *key == name.to_owned()
}

/// Reads the items of a `descr` list as fields, or returns the first thing wrong with them.
fn fields_of(items: &Vec<Value>) -> (r: Result<Vec<Field>, String>)
    ensures
        match fields_problem(values_view(items@), 0) {
            Some(m) => r matches Err(e) && e@ == m,
            None => r matches Ok(f) && fields_view(f@) == fields_of_items(values_view(items@)),
        },
{
    let ghost iv = values_view(items@);
    let mut fields: Vec<Field> = Vec::new();
    let mut k: usize = 0;
    while k < items.len()
        invariant
            k <= items@.len(),
            iv == values_view(items@),
            fields_problem(iv, 0) == fields_problem(iv, k as int),
            fields_view(fields@) == fields_of_items(iv.take(k as int)),
        decreases items@.len() - k,
    {
        assert(iv[k as int] == value_view(items@[k as int]));
        proof {
            reveal_strlit("must be a list");
            reveal_strlit("list entry must contain 2 items");
            reveal_strlit("list entry must contain a string for id and a valid dtype");
        }
        let tuple = match items[k].get_list() {
            Ok(t) => t,
            Err(e) => {
                return Err(e);
            },
        };
        if tuple.len() != 2 {
            proof {
                if let ValueSpec::List(t) = iv[k as int] {
                    assert(t.len() == tuple@.len());
                }
            }
            return Err("list entry must contain 2 items".to_owned());
        }
        let ghost tv = values_view(tuple@);
        assert(iv[k as int] == ValueSpec::List(tv)) by {
            if let ValueSpec::List(t) = iv[k as int] {
                assert(t =~= tv);
            }
        }
        assert(tv[0] == value_view(tuple@[0]));
        assert(tv[1] == value_view(tuple@[1]));
        match (&tuple[0], &tuple[1]) {
            (Value::String(name), Value::String(ty)) => {
                let ghost before = fields@;
                fields.push(Field { name: name.clone(), ty: ty.clone() });
                proof {
                    assert(field_of(iv[k as int]) == (name@, ty@));
                    assert(fields_view(fields@) =~= fields_view(before).push((name@, ty@)));
                    assert(iv.take(k + 1) =~= iv.take(k as int).push(iv[k as int]));
                    assert(field_problem(iv[k as int]) is None);
                    assert(fields_view(fields@) =~= fields_of_items(iv.take(k + 1)));
                }
            },
            _ => {
                return Err("list entry must contain a string for id and a valid dtype".to_owned());
            },
        }
        k = k + 1;
    }
    assert(iv.take(k as int) =~= iv);
    Ok(fields)
}

/// Reads the items of a `shape` list as lengths, or returns the first thing wrong with them.
fn lengths_of(items: &Vec<Value>) -> (r: Result<Vec<usize>, String>)
    ensures
        match lengths_problem(values_view(items@), 0) {
            Some(m) => r matches Err(e) && e@ == m,
            None => r matches Ok(l) && lengths_view(l@) == integers_of(values_view(items@)),
        },
{
    let ghost iv = values_view(items@);
    let mut lengths: Vec<usize> = Vec::new();
    let mut k: usize = 0;
    while k < items.len()
        invariant
            k <= items@.len(),
            iv == values_view(items@),
            lengths_problem(iv, 0) == lengths_problem(iv, k as int),
            lengths_view(lengths@) == integers_of(iv.take(k as int)),
        decreases items@.len() - k,
    {
        assert(iv[k as int] == value_view(items@[k as int]));
        proof {
            reveal_strlit("must be an unsigned integer");
        }
        let n = match items[k].get_integer() {
            Ok(n) => n,
            Err(e) => {
                return Err(e);
            },
        };
        let ghost before = lengths@;
        lengths.push(n);
        assert(iv[k as int]->Integer_0 == n as nat);
        assert(lengths_view(lengths@) =~= lengths_view(before).push(n as nat));
        assert(iv.take(k + 1) =~= iv.take(k as int).push(iv[k as int]));
        assert(lengths_view(lengths@) =~= integers_of(iv.take(k + 1)));
        k = k + 1;
    }
    assert(iv.take(k as int) =~= iv);
    Ok(lengths)
}

impl NpyHeader {
    /// Reads a header from its text, as [`header_from`] states: the text must start with a
    /// dictionary literal (after blanks; what follows it is not read) whose entries give the
    /// fields (`descr`), the memory order (`fortran_order`) and the shape, each optional; a later
    /// entry overrides an earlier one under the same key, and an entry under any other key is an
    /// error. Among several faulty entries, the first one written is reported.
    pub fn from_header(header: &str) -> (r: Result<NpyHeader, String>)
        ensures
            match header_from(header@) {
                Ok((fields, order, shape)) => r matches Ok(h) && fields_view(h.descr@) == fields
                    && h.fortran_order == order && lengths_view(h.shape@) == shape,
                Err(m) => r matches Err(e) && e@ == m,
            },
    {
        proof {
            reveal_strlit("the header is not a dictionary literal");
            reveal_strlit("must be a dict");
            reveal_strlit("must be a list");
            reveal_strlit("must be a bool");
            reveal_strlit("descr");
            reveal_strlit("fortran_order");
            reveal_strlit("shape");
        }
        let value = match parse(header) {
            Some(v) => v,
            None => {
                return Err("the header is not a dictionary literal".to_owned());
            },
        };
        let dict = match value.get_dict() {
            Ok(d) => d,
            Err(e) => {
                return Err(e);
            },
        };
        let ghost es = entries_view(dict@);
        assert(value_view(value) == ValueSpec::Dict(es)) by {
            if let ValueSpec::Dict(d) = value_view(value) {
                assert(d =~= es);
            }
        }
        let mut descr: Vec<Field> = Vec::new();
        let mut fortran_order = false;
        let mut shape: Vec<usize> = Vec::new();
        let mut i: usize = 0;
        while i < dict.len()
            invariant
                i <= dict@.len(),
                es == entries_view(dict@),
                parse_text(header@) == Some(ValueSpec::Dict(es)),
                first_problem(es, 0) == first_problem(es, i as int),
                fields_view(descr@) == (if 0 <= last_index(es, "descr"@) < i {
                    header_fields(es)
                } else {
                    Seq::empty()
                }),
                fortran_order == (if 0 <= last_index(es, "fortran_order"@) < i {
                    header_order(es)
                } else {
                    false
                }),
                lengths_view(shape@) == (if 0 <= last_index(es, "shape"@) < i {
                    header_shape(es)
                } else {
                    Seq::empty()
                }),
            decreases dict@.len() - i,
        {
            proof {
                reveal_strlit("must be a list");
                reveal_strlit("must be a bool");
                reveal_strlit("descr");
                reveal_strlit("fortran_order");
                reveal_strlit("shape");
            }
            let ghost ki = es[i as int].0;
            assert(es[i as int] == (dict@[i as int].0@, value_view(dict@[i as int].1)));
            let mut later = false;
            let mut j = i + 1;
            while j < dict.len()
                invariant
                    i < j <= dict@.len(),
                    es == entries_view(dict@),
                    later == exists|m: int| i < m < j && #[trigger] es[m].0 == es[i as int].0,
                decreases dict@.len() - j,
            {
                assert(es[j as int].0 == dict@[j as int].0@);
                if dict[j].0 == dict[i].0 {
                    later = true;
                }
                j = j + 1;
            }
            assert(later == overridden(es, i as int));
            proof {
                assert("descr"@ != "shape"@) by {
                    assert("descr"@[0] != "shape"@[0]);
                }
                lemma_last_index(es, "descr"@);
                lemma_last_index(es, "fortran_order"@);
                lemma_last_index(es, "shape"@);
                if !later {
                    lemma_last_index_of_kept(es, i as int);
                }
            }
            if !later {
                let key = &dict[i].0;
                let v = &dict[i].1;
                if key_is(key, "descr") {
                    let items = match v.get_list() {
                        Ok(l) => l,
                        Err(e) => {
                            return Err(e);
                        },
                    };
                    assert(value_view(*v) == ValueSpec::List(values_view(items@))) by {
                        if let ValueSpec::List(l) = value_view(*v) {
                            assert(l =~= values_view(items@));
                        }
                    }
                    descr = match fields_of(items) {
                        Ok(f) => f,
                        Err(e) => {
                            return Err(e);
                        },
                    };
                } else if key_is(key, "fortran_order") {
                    fortran_order = match v.get_bool() {
                        Ok(b) => b,
                        Err(e) => {
                            return Err(e);
                        },
                    };
                } else if key_is(key, "shape") {
                    let items = match v.get_list() {
                        Ok(l) => l,
                        Err(e) => {
                            return Err(e);
                        },
                    };
                    assert(value_view(*v) == ValueSpec::List(values_view(items@))) by {
                        if let ValueSpec::List(l) = value_view(*v) {
                            assert(l =~= values_view(items@));
                        }
                    }
                    shape = match lengths_of(items) {
                        Ok(l) => l,
                        Err(e) => {
                            return Err(e);
                        },
                    };
                } else {
                    return Err("must be a list".to_owned());
                }
            }
            proof {
                lemma_first_problem_skip(es, i as int);
            }
            i = i + 1;
        }
        proof {
            lemma_last_index(es, "descr"@);
            lemma_last_index(es, "fortran_order"@);
            lemma_last_index(es, "shape"@);
        }
        Ok(NpyHeader { descr, fortran_order, shape })
    }
}

impl NpyHeader {
    /// Returns the `descr` entry: `[('name', 'type'), ...]`, each field followed by `, `.
    pub fn descr(&self) -> (r: String)
        ensures
            r@ == descr_text(fields_view(self.descr@)) + seq![']'],
    {
        proof {
            reveal_strlit("[");
            reveal_strlit("]");
            reveal_strlit("('");
            reveal_strlit("', '");
            reveal_strlit("'), ");
        }
        let mut s = "[".to_owned();
        let mut i: usize = 0;
        while i < self.descr.len()
            invariant
                i <= self.descr@.len(),
                s@ == descr_text(fields_view(self.descr@.take(i as int))),
            decreases self.descr@.len() - i,
        {
            let f = &self.descr[i];
            s.append("('");
            s.append(f.name.as_str());
            s.append("', '");
            s.append(f.ty.as_str());
            s.append("'), ");
            proof {
                let fs = fields_view(self.descr@.take(i + 1));
                assert(fs.drop_last() =~= fields_view(self.descr@.take(i as int)));
                assert(fs.last() == (f.name@, f.ty@));
                reveal_strlit("('");
                reveal_strlit("', '");
                reveal_strlit("'), ");
                assert("('"@ =~= seq!['(', '\'']);
                assert("', '"@ =~= seq!['\'', ',', ' ', '\'']);
                assert("'), "@ =~= seq!['\'', ')', ',', ' ']);
                assert(s@ =~= descr_text(fs));
            }
            i = i + 1;
        }
        s.append("]");
        assert(self.descr@.take(self.descr@.len() as int) =~= self.descr@);
        s
    }

    /// Returns the `fortran_order` entry: `True` or `False`.
    pub fn fortran_order(&self) -> (r: String)
        ensures
            r@ == (if self.fortran_order {
                "True"@
            } else {
                "False"@
            }),
    {
        if self.fortran_order {
            "True".to_owned()
        } else {
            "False".to_owned()
        }
    }

    /// Returns the `shape` entry: `(n, ...)`, each length followed by `, `.
    pub fn shape(&self) -> (r: String)
        ensures
            r@ == shape_text(self.shape@) + seq![')'],
    {
        proof {
            reveal_strlit("(");
            reveal_strlit(")");
            reveal_strlit(", ");
        }
        let mut s = "(".to_owned();
        let mut i: usize = 0;
        while i < self.shape.len()
            invariant
                i <= self.shape@.len(),
                s@ == shape_text(self.shape@.take(i as int)),
            decreases self.shape@.len() - i,
        {
            push_decimal(&mut s, self.shape[i] as u64);
            s.append(", ");
            proof {
                let sh = self.shape@.take(i + 1);
                assert(sh.drop_last() =~= self.shape@.take(i as int));
                assert(sh.last() == self.shape@[i as int]);
                reveal_strlit(", ");
                assert(", "@ =~= seq![',', ' ']);
                assert(s@ =~= shape_text(sh));
            }
            i = i + 1;
        }
        s.append(")");
        assert(self.shape@.take(self.shape@.len() as int) =~= self.shape@);
        s
    }

    /// Returns the header text: the dictionary literal, padded with spaces so that the file's
    /// preamble and the header fill whole 64-byte blocks, and a newline.
    pub fn to_string_padding(&self) -> (r: String)
        requires
            encode_utf8(dict_text(self)).len() + 75 <= usize::MAX,
        ensures
            r@ == padded_text(dict_text(self)),
    {
        proof {
            reveal_strlit("{'descr': ");
            reveal_strlit(", 'fortran_order': ");
            reveal_strlit(", 'shape': ");
            reveal_strlit("}");
            reveal_strlit(" ");
            reveal_strlit("\n");
        }
        let descr = self.descr();
        let fortran_order = self.fortran_order();
        let shape = self.shape();
        let mut header = "{'descr': ".to_owned();
        header.append(descr.as_str());
        header.append(", 'fortran_order': ");
        header.append(fortran_order.as_str());
        header.append(", 'shape': ");
        header.append(shape.as_str());
        header.append("}");
        assert("}"@ =~= seq!['}']);
        assert(header@ =~= dict_text(self));
        let header_len = 10 + header.as_str().len() + 1;
        let ghost base = header@;
        if header_len % 64 != 0 {
            let padding = (header_len / 64 + 1) * 64 - header_len;
            let mut k: usize = 0;
            while k < padding
                invariant
                    k <= padding,
                    header@ == base + Seq::new(k as nat, |i: int| ' '),
                decreases padding - k,
            {
                header.append(" ");
                proof {
                    reveal_strlit(" ");
                }
                assert(" "@ =~= seq![' ']);
                k = k + 1;
                assert(header@ =~= base + Seq::new(k as nat, |i: int| ' '));
            }
        } else {
            assert(header@ =~= base + Seq::new(0, |i: int| ' '));
        }
        header.append("\n");
        assert("\n"@ =~= seq!['\n']);
        header
    }
}

/// The magic string and version that start a NumPy file (format version 1.0).
pub open spec fn npy_magic() -> Seq<u8> {
    seq![0x93u8, 0x4eu8, 0x55u8, 0x4du8, 0x50u8, 0x59u8, 0x01u8, 0x00u8]
}

/// Appends bytes to a buffer.
fn push_bytes(out: &mut Vec<u8>, bytes: &[u8])
    ensures
        final(out)@ == old(out)@ + bytes@,
{
    let mut i: usize = 0;
    while i < bytes.len()
        invariant
            i <= bytes@.len(),
            out@ == old(out)@ + bytes@.take(i as int),
        decreases bytes@.len() - i,
    {
        out.push(bytes[i]);
        i = i + 1;
        assert(out@ =~= old(out)@ + bytes@.take(i as int));
    }
    assert(bytes@.take(bytes@.len() as int) =~= bytes@);
}

/// Writes a NumPy file holding `num_records` records of the given fields to the buffer: the
/// magic string and version, the header's length as a little-endian `u16`, the header, then the
/// records' bytes.
pub fn write_npy(out: &mut Vec<u8>, descr: Vec<Field>, num_records: usize, data: &[u8])
    requires
        encode_utf8(dict_literal(fields_view(descr@), false, seq![num_records])).len() + 75
            <= usize::MAX,
    ensures
        ({
            let text = encode_utf8(
                padded_text(dict_literal(fields_view(descr@), false, seq![num_records])),
            );
            let n = text.len() as u16;
            final(out)@ == old(out)@ + npy_magic() + seq![(n % 256) as u8, (n / 256) as u8] + text
                + data@
        }),
{
    let header = NpyHeader { descr, fortran_order: false, shape: vec![num_records] };
    let magic: [u8; 8] = [0x93u8, 0x4eu8, 0x55u8, 0x4du8, 0x50u8, 0x59u8, 0x01u8, 0x00u8];
    push_bytes(out, &magic);
    assert(magic@ =~= npy_magic());
    assert(header.shape@ =~= seq![num_records]);
    let header_str = header.to_string_padding();
    let bytes = header_str.as_str().as_bytes();
    let len = #[verifier::truncate] (bytes.len() as u16);
    out.push((len % 256) as u8);
    out.push((len / 256) as u8);
    push_bytes(out, bytes);
    push_bytes(out, data);
}

/// A field whose name differs from the expected one.
#[derive(Debug)]
pub struct FieldCheckResult {
    pub expected: String,
    pub found: String,
}

/// The message reporting a field type mismatch.
pub open spec fn mismatch_message(expected: (Seq<char>, Seq<char>), found: (Seq<char>, Seq<char>)) -> Seq<char> {
    "Field type mismatch: expected '"@ + expected.0 + ": "@ + expected.1 + "', but found '"@
        + found.0 + ": "@ + found.1 + "'"@
}

/// The positions, among the first `n`, whose field names differ.
pub open spec fn renamed(expected: Seq<(Seq<char>, Seq<char>)>, found: Seq<(Seq<char>, Seq<char>)>, n: int) -> Seq<(Seq<char>, Seq<char>)>
    decreases n,
{
    if n <= 0 {
        Seq::empty()
    } else {
        let prev = renamed(expected, found, n - 1);
        if expected[n - 1].0 != found[n - 1].0 {
            prev.push((expected[n - 1].0, found[n - 1].0))
        } else {
            prev
        }
    }
}

/// The first position below `n`, from `i` on, where the field types differ.
pub open spec fn first_mismatch(
    e: Seq<(Seq<char>, Seq<char>)>,
    f: Seq<(Seq<char>, Seq<char>)>,
    i: int,
    n: int,
) -> Option<int>
    decreases n - i,
{
    if i >= n {
        None
    } else if e[i].1 != f[i].1 {
        Some(i)
    } else {
        first_mismatch(e, f, i + 1, n)
    }
}

/// The outcome of checking the fields found against the expected ones, paired in order up to
/// the shorter list: the first type mismatch, or the pairs whose names differ.
pub open spec fn field_check(e: Seq<(Seq<char>, Seq<char>)>, f: Seq<(Seq<char>, Seq<char>)>) -> Result<
    Seq<(Seq<char>, Seq<char>)>,
    Seq<char>,
> {
    let n = if e.len() < f.len() {
        e.len() as int
    } else {
        f.len() as int
    };
    match first_mismatch(e, f, 0, n) {
        Some(i) => Err(mismatch_message(e[i], f[i])),
        None => Ok(renamed(e, f, n)),
    }
}

proof fn lemma_first_mismatch(e: Seq<(Seq<char>, Seq<char>)>, f: Seq<(Seq<char>, Seq<char>)>, i: int, k: int, n: int)
    requires
        0 <= i <= k <= n,
        forall|j: int| i <= j < k ==> #[trigger] e[j].1 == f[j].1,
    ensures
        first_mismatch(e, f, i, n) == first_mismatch(e, f, k, n),
    decreases k - i,
{
    if i < k {
        lemma_first_mismatch(e, f, i + 1, k, n);
    }
}

/// Checks the fields found in a file against the expected ones, pairing them in order up to the
/// shorter list: a type mismatch is an error (the first one is reported), and the pairs whose
/// names differ are returned.
pub fn check_field_consistency(expected_types: &Vec<Field>, found_types: &Vec<Field>) -> (r: Result<
    Vec<FieldCheckResult>,
    String,
>)
    ensures
        match field_check(fields_view(expected_types@), fields_view(found_types@)) {
            Ok(pairs) => r matches Ok(v) && v@.map_values(|c: FieldCheckResult| (c.expected@, c.found@))
                == pairs,
            Err(m) => r matches Err(msg) && msg@ == m,
        },
{
    let ghost e = fields_view(expected_types@);
    let ghost f = fields_view(found_types@);
    let n = if expected_types.len() < found_types.len() {
        expected_types.len()
    } else {
        found_types.len()
    };
    assert(e.len() == expected_types@.len() && f.len() == found_types@.len());
    assert(n == (if e.len() < f.len() {
        e.len() as int
    } else {
        f.len() as int
    }));
    let mut discrepancies: Vec<FieldCheckResult> = Vec::new();
    let mut i: usize = 0;
    while i < n
        invariant
            n == (if e.len() < f.len() {
                e.len() as int
            } else {
                f.len() as int
            }),
            e == fields_view(expected_types@),
            f == fields_view(found_types@),
            n <= expected_types@.len(),
            n <= found_types@.len(),
            i <= n,
            forall|j: int| 0 <= j < i ==> #[trigger] e[j].1 == f[j].1,
            discrepancies@.map_values(|c: FieldCheckResult| (c.expected@, c.found@)) == renamed(e, f, i as int),
        decreases n - i,
    {
        let exp = &expected_types[i];
        let fnd = &found_types[i];
        assert(e[i as int] == (exp.name@, exp.ty@));
        assert(f[i as int] == (fnd.name@, fnd.ty@));
        if exp.ty != fnd.ty {
            let mut msg = "Field type mismatch: expected '".to_owned();
            msg.append(exp.name.as_str());
            msg.append(": ");
            msg.append(exp.ty.as_str());
            msg.append("', but found '");
            msg.append(fnd.name.as_str());
            msg.append(": ");
            msg.append(fnd.ty.as_str());
            msg.append("'");
            assert(msg@ =~= mismatch_message(e[i as int], f[i as int]));
            proof {
                lemma_first_mismatch(e, f, 0, i as int, n as int);
                assert(e.len() == expected_types@.len() && f.len() == found_types@.len());
                assert(first_mismatch(e, f, i as int, n as int) == Some(i as int));
                assert(field_check(e, f) == Err::<Seq<(Seq<char>, Seq<char>)>, Seq<char>>(
                    mismatch_message(e[i as int], f[i as int]),
                ));
            }
            return Err(msg);
        }
        let ghost prev = discrepancies@;
        if exp.name != fnd.name {
            discrepancies.push(FieldCheckResult { expected: exp.name.clone(), found: fnd.name.clone() });
            assert(discrepancies@.map_values(|c: FieldCheckResult| (c.expected@, c.found@)) =~= prev.map_values(|c: FieldCheckResult| (c.expected@, c.found@)).push((e[i as int].0, f[i as int].0)));
        }
        i = i + 1;
    }
    proof {
        lemma_first_mismatch(e, f, 0, n as int, n as int);
        assert(e.len() == expected_types@.len() && f.len() == found_types@.len());
        assert(field_check(e, f) == Ok::<Seq<(Seq<char>, Seq<char>)>, Seq<char>>(renamed(e, f, n as int)));
    }
    Ok(discrepancies)
}


/// The buffer starts with the NumPy magic string.
pub open spec fn has_magic(buf: Seq<u8>) -> bool {
    buf.subrange(0, 6) == npy_magic().subrange(0, 6)
}

/// The buffer's format version is 1.0.
pub open spec fn is_version_1(buf: Seq<u8>) -> bool {
    buf[6] == 1 && buf[7] == 0
}

/// The header's length, stored after the magic string and the version, little-endian.
pub open spec fn stored_header_len(buf: Seq<u8>) -> int {
    buf[8] as int + 256 * buf[9] as int
}

/// The header's bytes.
pub open spec fn header_bytes(buf: Seq<u8>) -> Seq<u8> {
    buf.subrange(10, 10 + stored_header_len(buf))
}

/// The message of `std::str::Utf8Error` for bytes that are not valid UTF-8.
pub uninterp spec fn utf8_error(bytes: Seq<u8>) -> Seq<char>;

/// Calls `std::str::from_utf8`: valid UTF-8 is decoded into its characters; otherwise the
/// error's message is returned, named [`utf8_error`].
#[verifier::external_body]
fn text_of(bytes: &[u8]) -> (r: Result<String, String>)
    ensures
        r is Ok <==> valid_utf8(bytes@),
        r matches Ok(s) ==> s@ == decode_utf8(bytes@),
        r matches Err(m) ==> m@ == utf8_error(bytes@),
{
    match std::str::from_utf8(bytes) {
        Ok(s) => Ok(s.to_owned()),
        Err(e) => Err(e.to_string()),
    }
}

/// The fields are the same, names and types, in the same order.
fn same_fields(a: &Vec<Field>, b: &Vec<Field>) -> (r: bool)
    ensures
        r == (fields_view(a@) == fields_view(b@)),
{
    if a.len() != b.len() {
        assert(fields_view(a@).len() != fields_view(b@).len());
        return false;
    }
    let mut i: usize = 0;
    while i < a.len()
        invariant
            a@.len() == b@.len(),
            i <= a@.len(),
            forall|j: int| 0 <= j < i ==> #[trigger] fields_view(a@)[j] == fields_view(b@)[j],
        decreases a@.len() - i,
    {
        if a[i].name != b[i].name || a[i].ty != b[i].ty {
            assert(fields_view(a@)[i as int] != fields_view(b@)[i as int]);
            return false;
        }
        i = i + 1;
    }
    assert(fields_view(a@) =~= fields_view(b@));
    true
}

/// What reading a NumPy file's frame and header gives when the header text parses into
/// `header` and the expected fields are `expected`: where the data starts and, when the fields
/// differ from the expected ones, the renamed pairs; or the first check that fails.
pub open spec fn header_checked(
    buf: Seq<u8>,
    header: (Seq<(Seq<char>, Seq<char>)>, bool, Seq<nat>),
    expected: Seq<(Seq<char>, Seq<char>)>,
) -> Result<(int, Option<Seq<(Seq<char>, Seq<char>)>>), Seq<char>> {
    let (fields, fortran_order, shape) = header;
    if fortran_order {
        Err("fortran order is unsupported"@)
    } else if fields != expected && field_check(expected, fields) is Err {
        Err(field_check(expected, fields)->Err_0)
    } else if shape.len() != 1 {
        Err("only 1-d is supported"@)
    } else if (10 + stored_header_len(buf)) % 64 != 0 {
        Err("Not aligned with cache line size (64 bytes)."@)
    } else if fields != expected {
        Ok((10 + stored_header_len(buf), Some(field_check(expected, fields)->Ok_0)))
    } else {
        Ok((10 + stored_header_len(buf), None))
    }
}

/// Reads the frame and the header of a NumPy file held in `buf` and checks them: the magic
/// string, the format version 1.0, a header in UTF-8, C order, fields that match the expected
/// ones (renamed fields are reported, a type mismatch is an error), one dimension, and data
/// aligned to 64 bytes. Returns where the data starts, with the renamed fields when the fields
/// differ from the expected ones.
pub fn read_npy_header(buf: &[u8], expected: &Vec<Field>) -> (r: Result<
    (usize, Option<Vec<FieldCheckResult>>),
    String,
>)
    requires
        buf@.len() >= 10,
        has_magic(buf@) && is_version_1(buf@) ==> 10 + stored_header_len(buf@) <= buf@.len(),
        has_magic(buf@) && is_version_1(buf@) && valid_utf8(header_bytes(buf@)) ==> header_from(
            decode_utf8(header_bytes(buf@)),
        ) is Ok,
    ensures
        !has_magic(buf@) ==> (r matches Err(m) && m@ == "must start with \\x93NUMPY"@),
        has_magic(buf@) && !is_version_1(buf@) ==> (r matches Err(m) && m@
            == "support only version 1.0"@),
        has_magic(buf@) && is_version_1(buf@) && !valid_utf8(header_bytes(buf@)) ==> (r matches Err(
            m,
        ) && m@ == utf8_error(header_bytes(buf@))),
        has_magic(buf@) && is_version_1(buf@) && valid_utf8(header_bytes(buf@)) ==> match header_checked(
            buf@,
            header_from(decode_utf8(header_bytes(buf@)))->Ok_0,
            fields_view(expected@),
        ) {
            Ok((offset, None)) => r matches Ok((o, None)) && o == offset,
            Ok((offset, Some(pairs))) => r matches Ok((o, Some(v))) && o == offset && v@.map_values(
                |c: FieldCheckResult| (c.expected@, c.found@),
            ) == pairs,
            Err(m) => r matches Err(e) && e@ == m,
        },
{
    proof {
        reveal_strlit("must start with \\x93NUMPY");
        reveal_strlit("support only version 1.0");
        reveal_strlit("fortran order is unsupported");
        reveal_strlit("only 1-d is supported");
        reveal_strlit("Not aligned with cache line size (64 bytes).");
    }
    if !(buf[0] == 0x93u8 && buf[1] == 0x4eu8 && buf[2] == 0x55u8 && buf[3] == 0x4du8 && buf[4]
        == 0x50u8 && buf[5] == 0x59u8) {
        assert(!has_magic(buf@)) by {
            if has_magic(buf@) {
                assert(buf@.subrange(0, 6)[0] == npy_magic().subrange(0, 6)[0]);
                assert(buf@.subrange(0, 6)[1] == npy_magic().subrange(0, 6)[1]);
                assert(buf@.subrange(0, 6)[2] == npy_magic().subrange(0, 6)[2]);
                assert(buf@.subrange(0, 6)[3] == npy_magic().subrange(0, 6)[3]);
                assert(buf@.subrange(0, 6)[4] == npy_magic().subrange(0, 6)[4]);
                assert(buf@.subrange(0, 6)[5] == npy_magic().subrange(0, 6)[5]);
            }
        }
        return Err("must start with \\x93NUMPY".to_owned());
    }
    assert(has_magic(buf@)) by {
        assert(buf@.subrange(0, 6) =~= npy_magic().subrange(0, 6));
    }
    if !(buf[6] == 1u8 && buf[7] == 0u8) {
        return Err("support only version 1.0".to_owned());
    }
    let header_len: usize = buf[8] as usize + 256 * (buf[9] as usize);
    let mut bytes: Vec<u8> = Vec::new();
    let mut i: usize = 10;
    while i < 10 + header_len
        invariant
            10 <= i <= 10 + header_len,
            header_len == stored_header_len(buf@),
            10 + header_len <= buf@.len(),
            bytes@ == buf@.subrange(10, i as int),
        decreases 10 + header_len - i,
    {
        bytes.push(buf[i]);
        i = i + 1;
        assert(bytes@ =~= buf@.subrange(10, i as int));
    }
    let text = match text_of(bytes.as_slice()) {
        Ok(t) => t,
        Err(m) => return Err(m),
    };
    let header = match NpyHeader::from_header(text.as_str()) {
        Ok(h) => h,
        Err(_) => {
            assert(false);
            return Err(String::new());
        },
    };
    if header.fortran_order {
        return Err("fortran order is unsupported".to_owned());
    }
    let renamed = if !same_fields(&header.descr, expected) {
        match check_field_consistency(expected, &header.descr) {
            Ok(pairs) => Some(pairs),
            Err(m) => return Err(m),
        }
    } else {
        None
    };
    if header.shape.len() != 1 {
        assert(lengths_view(header.shape@).len() == header.shape@.len());
        return Err("only 1-d is supported".to_owned());
    }
    assert(lengths_view(header.shape@).len() == header.shape@.len());
    if (10 + header_len) % 64 != 0 {
        return Err("Not aligned with cache line size (64 bytes).".to_owned());
    }
    Ok((10 + header_len, renamed))
}

} // verus!
