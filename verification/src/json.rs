//! A small JSON document model with a verified pretty-printer and parser.
//!
//! The configuration file is a JSON object; this module gives the crate its
//! own document type, a deterministic indented rendering, and a strict
//! parser. The format uses only unsigned integers; a numeric token of any
//! other shape is recognized and carried as its lexeme, so a decoder can
//! still name the key it sat under. Inside strings the only escapes are
//! `\"` and `\\`.

use vstd::prelude::*;
use vstd::string::StrSliceExecFns;

verus! {

/// A JSON document as executable data. A numeric token that is not an
/// unsigned 64-bit integer (negative, fractional, or too large) is carried
/// as its lexeme: the configuration format uses no such number, and a
/// decoder that meets one can then still name the offending key.
pub enum JsonValue {
    Null,
    Bool(bool),
    Number(u64),
    OtherNumber(String),
    Str(String),
    Array(Vec<JsonValue>),
    Object(Vec<(String, JsonValue)>),
}

/// The mathematical shape of a JSON document: what contracts speak about.
#[verifier::ext_equal]
pub enum JsonSpecValue {
    Null,
    Bool(bool),
    Number(u64),
    OtherNumber(Seq<char>),
    Str(Seq<char>),
    Array(Seq<JsonSpecValue>),
    Object(Seq<(Seq<char>, JsonSpecValue)>),
}

pub open spec fn json_view(v: JsonValue) -> JsonSpecValue
    decreases v,
{
    match v {
        JsonValue::Null => JsonSpecValue::Null,
        JsonValue::Bool(b) => JsonSpecValue::Bool(b),
        JsonValue::Number(n) => JsonSpecValue::Number(n),
        JsonValue::OtherNumber(s) => JsonSpecValue::OtherNumber(s@),
        JsonValue::Str(s) => JsonSpecValue::Str(s@),
        JsonValue::Array(items) => JsonSpecValue::Array(json_view_items(items@)),
        JsonValue::Object(fields) => JsonSpecValue::Object(json_view_fields(fields@)),
    }
}

pub open spec fn json_view_items(items: Seq<JsonValue>) -> Seq<JsonSpecValue>
    decreases items,
{
    if items.len() == 0 {
        Seq::<JsonSpecValue>::empty()
    } else {
        json_view_items(items.drop_last()).push(json_view(items.last()))
    }
}

pub open spec fn json_view_fields(fields: Seq<(String, JsonValue)>) -> Seq<
    (Seq<char>, JsonSpecValue),
>
    decreases fields,
{
    if fields.len() == 0 {
        Seq::<(Seq<char>, JsonSpecValue)>::empty()
    } else {
        json_view_fields(fields.drop_last()).push(
            (fields.last().0@, json_view(fields.last().1)),
        )
    }
}

impl View for JsonValue {
    type V = JsonSpecValue;

    open spec fn view(&self) -> JsonSpecValue {
        json_view(*self)
    }
}

pub proof fn lemma_json_view_items_len(items: Seq<JsonValue>)
    ensures
        json_view_items(items).len() == items.len(),
        forall|i: int|
            0 <= i < items.len() ==> #[trigger] json_view_items(items)[i] == json_view(items[i]),
    decreases items,
{
    if items.len() > 0 {
        lemma_json_view_items_len(items.drop_last());
    }
}

pub proof fn lemma_json_view_fields_len(fields: Seq<(String, JsonValue)>)
    ensures
        json_view_fields(fields).len() == fields.len(),
        forall|i: int|
            0 <= i < fields.len() ==> #[trigger] json_view_fields(fields)[i] == (
            fields[i].0@,
            json_view(fields[i].1),
            ),
    decreases fields,
{
    if fields.len() > 0 {
        lemma_json_view_fields_len(fields.drop_last());
    }
}

// ---------------------------------------------------------------------------
// Character classes and digits
// ---------------------------------------------------------------------------

pub open spec fn is_ws_char(c: char) -> bool {
    c == ' ' || c == '\n' || c == '\t' || c == '\r'
}

pub open spec fn is_digit_char(c: char) -> bool {
    '0' <= c && c <= '9'
}

pub open spec fn digit_value(c: char) -> int {
    c as int - '0' as int
}

pub open spec fn digit_char_spec(d: int) -> char {
    if d == 0 {
        '0'
    } else if d == 1 {
        '1'
    } else if d == 2 {
        '2'
    } else if d == 3 {
        '3'
    } else if d == 4 {
        '4'
    } else if d == 5 {
        '5'
    } else if d == 6 {
        '6'
    } else if d == 7 {
        '7'
    } else if d == 8 {
        '8'
    } else {
        '9'
    }
}

/// The decimal digits of `n`, most significant first.
pub open spec fn digits_spec(n: u64) -> Seq<char>
    decreases n,
{
    if n < 10 {
        seq![digit_char_spec(n as int)]
    } else {
        digits_spec(n / 10).push(digit_char_spec((n % 10) as int))
    }
}

/// A string body with `"` and `\` escaped.
pub open spec fn escape_spec(s: Seq<char>) -> Seq<char>
    decreases s,
{
    if s.len() == 0 {
        Seq::<char>::empty()
    } else {
        escape_spec(s.drop_last()) + escape_char_spec(s.last())
    }
}

pub open spec fn escape_char_spec(c: char) -> Seq<char> {
    if c == '"' || c == '\\' {
        seq!['\\', c]
    } else {
        seq![c]
    }
}

pub open spec fn spaces_spec(k: nat) -> Seq<char>
    decreases k,
{
    if k == 0 {
        Seq::<char>::empty()
    } else {
        spaces_spec((k - 1) as nat).push(' ')
    }
}

pub open spec fn quoted_spec(s: Seq<char>) -> Seq<char> {
    seq!['"'] + escape_spec(s) + seq!['"']
}

// ---------------------------------------------------------------------------
// Rendering: deterministic two-space-indented form
// ---------------------------------------------------------------------------

/// The canonical rendering of a document at indentation depth `ind`
/// (measured in levels, each two spaces wide).
pub open spec fn render_spec(v: JsonSpecValue, ind: nat) -> Seq<char>
    decreases v,
{
    match v {
        JsonSpecValue::Null => seq!['n', 'u', 'l', 'l'],
        JsonSpecValue::Bool(b) => if b {
            seq!['t', 'r', 'u', 'e']
        } else {
            seq!['f', 'a', 'l', 's', 'e']
        },
        JsonSpecValue::Number(n) => digits_spec(n),
        JsonSpecValue::OtherNumber(t) => t,
        JsonSpecValue::Str(s) => quoted_spec(s),
        JsonSpecValue::Array(items) => if items.len() == 0 {
            seq!['[', ']']
        } else {
            seq!['['] + render_items_spec(items, ind + 1) + seq!['\n'] + spaces_spec(2 * ind)
                + seq![']']
        },
        JsonSpecValue::Object(fields) => if fields.len() == 0 {
            seq!['{', '}']
        } else {
            seq!['{'] + render_fields_spec(fields, ind + 1) + seq!['\n'] + spaces_spec(2 * ind)
                + seq!['}']
        },
    }
}

/// Each element on its own indented line; a comma after all but the last.
pub open spec fn render_items_spec(items: Seq<JsonSpecValue>, ind: nat) -> Seq<char>
    decreases items,
{
    if items.len() == 0 {
        Seq::<char>::empty()
    } else {
        let head = seq!['\n'] + spaces_spec(2 * ind) + render_spec(items[0], ind);
        if items.len() == 1 {
            head
        } else {
            head + seq![','] + render_items_spec(items.drop_first(), ind)
        }
    }
}

pub open spec fn render_fields_spec(fields: Seq<(Seq<char>, JsonSpecValue)>, ind: nat) -> Seq<char>
    decreases fields,
{
    if fields.len() == 0 {
        Seq::<char>::empty()
    } else {
        let head = seq!['\n'] + spaces_spec(2 * ind) + quoted_spec(fields[0].0) + seq![':', ' ']
            + render_spec(fields[0].1, ind);
        if fields.len() == 1 {
            head
        } else {
            head + seq![','] + render_fields_spec(fields.drop_first(), ind)
        }
    }
}

/// The text written to disk: the document rendered at depth zero.
pub open spec fn render_document_spec(v: JsonSpecValue) -> Seq<char> {
    render_spec(v, 0)
}

// ---------------------------------------------------------------------------
// Parsing specification
// ---------------------------------------------------------------------------

pub open spec fn skip_ws_spec(s: Seq<char>, i: int) -> int
    decreases s.len() - i,
{
    if 0 <= i < s.len() && is_ws_char(s[i]) {
        skip_ws_spec(s, i + 1)
    } else {
        i
    }
}

pub open spec fn scan_digits_end(s: Seq<char>, i: int) -> int
    decreases s.len() - i,
{
    if 0 <= i < s.len() && is_digit_char(s[i]) {
        scan_digits_end(s, i + 1)
    } else {
        i
    }
}

/// Parse a string body starting just after the opening quote; the returned
/// position is just after the closing quote.
pub open spec fn parse_string_spec(s: Seq<char>, i: int) -> Result<(Seq<char>, int), ()>
    decreases s.len() - i,
{
    if i < 0 || i >= s.len() {
        Err(())
    } else if s[i] == '"' {
        Ok((Seq::<char>::empty(), i + 1))
    } else if s[i] == '\\' {
        if i + 1 < s.len() && (s[i + 1] == '"' || s[i + 1] == '\\') {
            match parse_string_spec(s, i + 2) {
                Ok((rest, j)) => Ok((seq![s[i + 1]] + rest, j)),
                Err(e) => Err(e),
            }
        } else {
            Err(())
        }
    } else {
        match parse_string_spec(s, i + 1) {
            Ok((rest, j)) => Ok((seq![s[i]] + rest, j)),
            Err(e) => Err(e),
        }
    }
}

/// Parse a run of digits, extending the accumulator; fails on overflow of
/// the 64-bit range.
pub open spec fn parse_digits_spec(s: Seq<char>, i: int, acc: u64) -> Result<(u64, int), ()>
    decreases s.len() - i,
{
    if 0 <= i < s.len() && is_digit_char(s[i]) {
        if acc as int > (u64::MAX - digit_value(s[i])) / 10 {
            Err(())
        } else {
            parse_digits_spec(s, i + 1, (acc * 10 + digit_value(s[i])) as u64)
        }
    } else {
        Ok((acc, i))
    }
}

/// Parse one numeric token: an optional sign, digits, an optional
/// fraction. A plain unsigned integer in the 64-bit range becomes a
/// `Number`; any other shape is kept as its lexeme.
pub open spec fn parse_number_spec(s: Seq<char>, j: int) -> Result<(JsonSpecValue, int), ()> {
    let neg = 0 <= j < s.len() && s[j] == '-';
    let d0 = if neg {
        j + 1
    } else {
        j
    };
    if !(0 <= d0 < s.len() && is_digit_char(s[d0])) {
        Err(())
    } else {
        let e1 = scan_digits_end(s, d0);
        let frac = e1 < s.len() && s[e1] == '.' && e1 + 1 < s.len() && is_digit_char(s[e1 + 1]);
        let e2 = if frac {
            scan_digits_end(s, e1 + 1)
        } else {
            e1
        };
        if !neg && !frac {
            match parse_digits_spec(s, d0, 0) {
                Ok((n, _)) => Ok((JsonSpecValue::Number(n), e1)),
                Err(_) => Ok((JsonSpecValue::OtherNumber(s.subrange(j, e1)), e1)),
            }
        } else {
            Ok((JsonSpecValue::OtherNumber(s.subrange(j, e2)), e2))
        }
    }
}

pub open spec fn has_lit_at(s: Seq<char>, i: int, lit: Seq<char>) -> bool {
    i >= 0 && i + lit.len() <= s.len() && s.subrange(i, i + lit.len()) == lit
}

/// Parse one value starting at `i`, leading whitespace allowed. `fuel`
/// bounds the recursion depth; the top-level entry point supplies enough
/// for any document that fits in the text.
pub open spec fn parse_value_spec(s: Seq<char>, i: int, fuel: nat) -> Result<
    (JsonSpecValue, int),
    (),
>
    decreases fuel,
{
    if fuel == 0 {
        Err(())
    } else {
        let j = skip_ws_spec(s, i);
        if j >= s.len() {
            Err(())
        } else if s[j] == 'n' {
            if has_lit_at(s, j, seq!['n', 'u', 'l', 'l']) {
                Ok((JsonSpecValue::Null, j + 4))
            } else {
                Err(())
            }
        } else if s[j] == 't' {
            if has_lit_at(s, j, seq!['t', 'r', 'u', 'e']) {
                Ok((JsonSpecValue::Bool(true), j + 4))
            } else {
                Err(())
            }
        } else if s[j] == 'f' {
            if has_lit_at(s, j, seq!['f', 'a', 'l', 's', 'e']) {
                Ok((JsonSpecValue::Bool(false), j + 5))
            } else {
                Err(())
            }
        } else if s[j] == '"' {
            match parse_string_spec(s, j + 1) {
                Ok((body, k)) => Ok((JsonSpecValue::Str(body), k)),
                Err(e) => Err(e),
            }
        } else if s[j] == '-' || is_digit_char(s[j]) {
            parse_number_spec(s, j)
        } else if s[j] == '[' {
            let k = skip_ws_spec(s, j + 1);
            if k < s.len() && s[k] == ']' {
                Ok((JsonSpecValue::Array(Seq::<JsonSpecValue>::empty()), k + 1))
            } else {
                match parse_items_spec(s, j + 1, (fuel - 1) as nat) {
                    Ok((items, m)) => Ok((JsonSpecValue::Array(items), m)),
                    Err(e) => Err(e),
                }
            }
        } else if s[j] == '{' {
            let k = skip_ws_spec(s, j + 1);
            if k < s.len() && s[k] == '}' {
                Ok((JsonSpecValue::Object(Seq::<(Seq<char>, JsonSpecValue)>::empty()), k + 1))
            } else {
                match parse_fields_spec(s, j + 1, (fuel - 1) as nat) {
                    Ok((fields, m)) => Ok((JsonSpecValue::Object(fields), m)),
                    Err(e) => Err(e),
                }
            }
        } else {
            Err(())
        }
    }
}

/// Parse the elements of a non-empty array, starting just after `[` or a
/// comma; the returned position is just after the closing bracket.
pub open spec fn parse_items_spec(s: Seq<char>, i: int, fuel: nat) -> Result<
    (Seq<JsonSpecValue>, int),
    (),
>
    decreases fuel,
{
    if fuel == 0 {
        Err(())
    } else {
        match parse_value_spec(s, i, (fuel - 1) as nat) {
            Err(e) => Err(e),
            Ok((v, j)) => {
                let k = skip_ws_spec(s, j);
                if k >= s.len() {
                    Err(())
                } else if s[k] == ',' {
                    match parse_items_spec(s, k + 1, (fuel - 1) as nat) {
                        Ok((rest, m)) => Ok((seq![v] + rest, m)),
                        Err(e) => Err(e),
                    }
                } else if s[k] == ']' {
                    Ok((seq![v], k + 1))
                } else {
                    Err(())
                }
            },
        }
    }
}

/// Parse the members of a non-empty object, starting just after `{` or a
/// comma; the returned position is just after the closing brace.
pub open spec fn parse_fields_spec(s: Seq<char>, i: int, fuel: nat) -> Result<
    (Seq<(Seq<char>, JsonSpecValue)>, int),
    (),
>
    decreases fuel,
{
    if fuel == 0 {
        Err(())
    } else {
        let j = skip_ws_spec(s, i);
        if j >= s.len() || s[j] != '"' {
            Err(())
        } else {
            match parse_string_spec(s, j + 1) {
                Err(e) => Err(e),
                Ok((key, k)) => {
                    let c = skip_ws_spec(s, k);
                    if c >= s.len() || s[c] != ':' {
                        Err(())
                    } else {
                        match parse_value_spec(s, c + 1, (fuel - 1) as nat) {
                            Err(e) => Err(e),
                            Ok((v, m)) => {
                                let t = skip_ws_spec(s, m);
                                if t >= s.len() {
                                    Err(())
                                } else if s[t] == ',' {
                                    match parse_fields_spec(s, t + 1, (fuel - 1) as nat) {
                                        Ok((rest, e)) => Ok((seq![(key, v)] + rest, e)),
                                        Err(e) => Err(e),
                                    }
                                } else if s[t] == '}' {
                                    Ok((seq![(key, v)], t + 1))
                                } else {
                                    Err(())
                                }
                            },
                        }
                    }
                },
            }
        }
    }
}

/// Enough recursion depth for any document held in `s`.
pub open spec fn document_fuel(s: Seq<char>) -> nat {
    2 * s.len() + 4
}

/// The parse of a whole text: one value, with nothing but whitespace after
/// it.
pub open spec fn parse_document_spec(s: Seq<char>) -> Result<JsonSpecValue, ()> {
    match parse_value_spec(s, 0, document_fuel(s)) {
        Err(e) => Err(e),
        Ok((v, j)) => if skip_ws_spec(s, j) == s.len() {
            Ok(v)
        } else {
            Err(())
        },
    }
}

// ---------------------------------------------------------------------------
// Document size, for termination and indentation bounds
// ---------------------------------------------------------------------------

pub open spec fn json_size(v: JsonSpecValue) -> nat
    decreases v,
{
    match v {
        JsonSpecValue::Array(items) => 1 + json_size_items(items),
        JsonSpecValue::Object(fields) => 1 + json_size_fields(fields),
        _ => 1,
    }
}

pub open spec fn json_size_items(items: Seq<JsonSpecValue>) -> nat
    decreases items,
{
    if items.len() == 0 {
        0
    } else {
        json_size(items[0]) + json_size_items(items.drop_first())
    }
}

pub open spec fn json_size_fields(fields: Seq<(Seq<char>, JsonSpecValue)>) -> nat
    decreases fields,
{
    if fields.len() == 0 {
        0
    } else {
        json_size(fields[0].1) + json_size_fields(fields.drop_first())
    }
}

pub proof fn lemma_json_size_items_bound(items: Seq<JsonSpecValue>)
    ensures
        forall|k: int|
            0 <= k < items.len() ==> #[trigger] json_size(items[k]) <= json_size_items(items),
    decreases items,
{
    if items.len() > 0 {
        lemma_json_size_items_bound(items.drop_first());
        assert forall|k: int| 0 <= k < items.len() implies #[trigger] json_size(items[k])
            <= json_size_items(items) by {
            if k > 0 {
                assert(items.drop_first()[k - 1] == items[k]);
            }
        }
    }
}

pub proof fn lemma_json_size_fields_bound(fields: Seq<(Seq<char>, JsonSpecValue)>)
    ensures
        forall|k: int|
            0 <= k < fields.len() ==> #[trigger] json_size(fields[k].1) <= json_size_fields(
                fields,
            ),
    decreases fields,
{
    if fields.len() > 0 {
        lemma_json_size_fields_bound(fields.drop_first());
        assert forall|k: int| 0 <= k < fields.len() implies #[trigger] json_size(fields[k].1)
            <= json_size_fields(fields) by {
            if k > 0 {
                assert(fields.drop_first()[k - 1] == fields[k]);
            }
        }
    }
}

// ---------------------------------------------------------------------------
// Executable character helpers
// ---------------------------------------------------------------------------

pub fn is_ws(c: char) -> (b: bool)
    ensures
        b == is_ws_char(c),
{
    c == ' ' || c == '\n' || c == '\t' || c == '\r'
}

pub fn is_digit(c: char) -> (b: bool)
    ensures
        b == is_digit_char(c),
{
    '0' <= c && c <= '9'
}

pub fn char_digit(c: char) -> (d: u64)
    requires
        is_digit_char(c),
    ensures
        d as int == digit_value(c),
        d < 10,
{
    (c as u32 - '0' as u32) as u64
}

pub fn digit_to_char(d: u64) -> (c: char)
    requires
        d < 10,
    ensures
        c == digit_char_spec(d as int),
{
    if d == 0 {
        '0'
    } else if d == 1 {
        '1'
    } else if d == 2 {
        '2'
    } else if d == 3 {
        '3'
    } else if d == 4 {
        '4'
    } else if d == 5 {
        '5'
    } else if d == 6 {
        '6'
    } else if d == 7 {
        '7'
    } else if d == 8 {
        '8'
    } else {
        '9'
    }
}

pub fn skip_ws(s: &Vec<char>, i: usize) -> (j: usize)
    requires
        i <= s@.len(),
    ensures
        j as int == skip_ws_spec(s@, i as int),
        i <= j <= s@.len(),
{
    let mut j = i;
    while j < s.len()
        invariant
            i <= j <= s@.len(),
            skip_ws_spec(s@, i as int) == skip_ws_spec(s@, j as int),
        decreases s@.len() - j,
    {
        if !is_ws(s[j]) {
            return j;
        }
        j += 1;
    }
    j
}

// ---------------------------------------------------------------------------
// Executable parser
// ---------------------------------------------------------------------------

/// What a rendered string-body continuation looks like: the already-read
/// prefix glued onto whatever the rest parses to.
pub open spec fn string_cont(prefix: Seq<char>, r: Result<(Seq<char>, int), ()>) -> Result<
    (Seq<char>, int),
    (),
> {
    match r {
        Ok(p) => Ok((prefix + p.0, p.1)),
        Err(e) => Err(e),
    }
}

proof fn lemma_string_cont_assoc(a: Seq<char>, b: Seq<char>, r: Result<(Seq<char>, int), ()>)
    ensures
        string_cont(a, string_cont(b, r)) == string_cont(a + b, r),
{
    match r {
        Ok(p) => {
            assert(a + (b + p.0) =~= (a + b) + p.0);
        },
        Err(_) => {},
    }
}

pub fn parse_string(s: &Vec<char>, i: usize) -> (r: Result<(Vec<char>, usize), ()>)
    requires
        i <= s@.len(),
    ensures
        match parse_string_spec(s@, i as int) {
            Ok(p) => r is Ok && r->Ok_0.0@ == p.0 && r->Ok_0.1 as int == p.1 && p.1 <= s@.len(),
            Err(_) => r is Err,
        },
{
    let mut out: Vec<char> = Vec::new();
    let mut j = i;
    loop
        invariant
            i <= j <= s@.len(),
            parse_string_spec(s@, i as int) == string_cont(out@, parse_string_spec(s@, j as int)),
        decreases s@.len() - j,
    {
        if j >= s.len() {
            return Err(());
        }
        let c = s[j];
        if c == '"' {
            proof {
                assert(out@ + Seq::<char>::empty() =~= out@);
            }
            return Ok((out, j + 1));
        } else if c == '\\' {
            if j + 1 < s.len() && (s[j + 1] == '"' || s[j + 1] == '\\') {
                let e = s[j + 1];
                let ghost out_old = out@;
                out.push(e);
                proof {
                    let rest = parse_string_spec(s@, j + 2 as int);
                    assert(parse_string_spec(s@, j as int) == string_cont(seq![e], rest));
                    lemma_string_cont_assoc(out_old, seq![e], rest);
                    assert(out_old + seq![e] =~= out@);
                }
                j += 2;
            } else {
                return Err(());
            }
        } else {
            let ghost out_old = out@;
            out.push(c);
            proof {
                let rest = parse_string_spec(s@, j + 1 as int);
                assert(parse_string_spec(s@, j as int) == string_cont(seq![c], rest));
                lemma_string_cont_assoc(out_old, seq![c], rest);
                assert(out_old + seq![c] =~= out@);
            }
            j += 1;
        }
    }
}

pub fn parse_digits_run(s: &Vec<char>, i: usize) -> (r: Result<(u64, usize), ()>)
    requires
        i <= s@.len(),
    ensures
        match parse_digits_spec(s@, i as int, 0) {
            Ok(p) => r is Ok && r->Ok_0.0 == p.0 && r->Ok_0.1 as int == p.1 && p.1 <= s@.len(),
            Err(_) => r is Err,
        },
{
    let mut acc: u64 = 0;
    let mut j = i;
    loop
        invariant
            i <= j <= s@.len(),
            parse_digits_spec(s@, i as int, 0) == parse_digits_spec(s@, j as int, acc),
        decreases s@.len() - j,
    {
        if j >= s.len() || !is_digit(s[j]) {
            return Ok((acc, j));
        }
        let d = char_digit(s[j]);
        if acc > (u64::MAX - d) / 10 {
            return Err(());
        }
        proof {
            assert((u64::MAX - d) / 10 * 10 <= u64::MAX - d);
        }
        acc = acc * 10 + d;
        j += 1;
    }
}

fn scan_digits(s: &Vec<char>, i: usize) -> (j: usize)
    requires
        i <= s@.len(),
    ensures
        j as int == scan_digits_end(s@, i as int),
        i <= j <= s@.len(),
{
    let mut j = i;
    while j < s.len()
        invariant
            i <= j <= s@.len(),
            scan_digits_end(s@, i as int) == scan_digits_end(s@, j as int),
        decreases s@.len() - j,
    {
        if !is_digit(s[j]) {
            return j;
        }
        j += 1;
    }
    j
}

fn copy_range(s: &Vec<char>, a: usize, b: usize) -> (r: Vec<char>)
    requires
        a <= b <= s@.len(),
    ensures
        r@ == s@.subrange(a as int, b as int),
{
    let mut r: Vec<char> = Vec::new();
    let mut i = a;
    while i < b
        invariant
            a <= i <= b <= s@.len(),
            r@ =~= s@.subrange(a as int, i as int),
        decreases b - i,
    {
        r.push(s[i]);
        proof {
            assert(r@ =~= s@.subrange(a as int, i + 1 as int));
        }
        i += 1;
    }
    proof {
        assert(r@ =~= s@.subrange(a as int, b as int));
    }
    r
}

/// Read one numeric token starting at `j`.
pub fn parse_number(s: &Vec<char>, j: usize) -> (r: Result<(JsonValue, usize), ()>)
    requires
        j <= s@.len(),
    ensures
        match parse_number_spec(s@, j as int) {
            Ok(p) => r is Ok && r->Ok_0.0@ == p.0 && r->Ok_0.1 as int == p.1 && p.1 <= s@.len(),
            Err(_) => r is Err,
        },
{
    let neg = j < s.len() && s[j] == '-';
    let d0 = if neg {
        j + 1
    } else {
        j
    };
    if !(d0 < s.len() && is_digit(s[d0])) {
        return Err(());
    }
    let e1 = scan_digits(s, d0);
    let frac = e1 < s.len() && s[e1] == '.' && e1 + 1 < s.len() && is_digit(s[e1 + 1]);
    let e2 = if frac {
        scan_digits(s, e1 + 1)
    } else {
        e1
    };
    if !neg && !frac {
        match parse_digits_run(s, d0) {
            Ok((n, _)) => Ok((JsonValue::Number(n), e1)),
            Err(_) => {
                let lexeme = copy_range(s, j, e1);
                Ok((JsonValue::OtherNumber(crate::text::chars_to_string(&lexeme)), e1))
            },
        }
    } else {
        let lexeme = copy_range(s, j, e2);
        Ok((JsonValue::OtherNumber(crate::text::chars_to_string(&lexeme)), e2))
    }
}

pub open spec fn value_result_matches(
    r: Result<(JsonValue, usize), ()>,
    sr: Result<(JsonSpecValue, int), ()>,
    n: int,
) -> bool {
    match (r, sr) {
        (Ok(p), Ok(q)) => p.0@ == q.0 && p.1 as int == q.1 && q.1 <= n,
        (Err(_), Err(_)) => true,
        _ => false,
    }
}

pub open spec fn items_result_matches(
    r: Result<(Vec<JsonValue>, usize), ()>,
    sr: Result<(Seq<JsonSpecValue>, int), ()>,
    n: int,
) -> bool {
    match (r, sr) {
        (Ok(p), Ok(q)) => json_view_items(p.0@) == q.0 && p.1 as int == q.1 && q.1 <= n,
        (Err(_), Err(_)) => true,
        _ => false,
    }
}

pub open spec fn fields_result_matches(
    r: Result<(Vec<(String, JsonValue)>, usize), ()>,
    sr: Result<(Seq<(Seq<char>, JsonSpecValue)>, int), ()>,
    n: int,
) -> bool {
    match (r, sr) {
        (Ok(p), Ok(q)) => json_view_fields(p.0@) == q.0 && p.1 as int == q.1 && q.1 <= n,
        (Err(_), Err(_)) => true,
        _ => false,
    }
}

pub fn parse_value(s: &Vec<char>, i: usize, fuel: usize) -> (r: Result<(JsonValue, usize), ()>)
    requires
        i <= s@.len(),
    ensures
        value_result_matches(r, parse_value_spec(s@, i as int, fuel as nat), s@.len() as int),
    decreases fuel,
{
    if fuel == 0 {
        return Err(());
    }
    let j = skip_ws(s, i);
    if j >= s.len() {
        return Err(());
    }
    let c = s[j];
    if c == 'n' {
        if s.len() - j >= 4 && s[j + 1] == 'u' && s[j + 2] == 'l' && s[j + 3] == 'l' {
            proof {
                assert(s@.subrange(j as int, j + 4 as int) =~= seq!['n', 'u', 'l', 'l']);
            }
            Ok((JsonValue::Null, j + 4))
        } else {
            proof {
                if has_lit_at(s@, j as int, seq!['n', 'u', 'l', 'l']) {
                    assert(s@[j + 1 as int] == 'u' && s@[j + 2 as int] == 'l' && s@[j
                        + 3 as int] == 'l');
                }
            }
            Err(())
        }
    } else if c == 't' {
        if s.len() - j >= 4 && s[j + 1] == 'r' && s[j + 2] == 'u' && s[j + 3] == 'e' {
            proof {
                assert(s@.subrange(j as int, j + 4 as int) =~= seq!['t', 'r', 'u', 'e']);
            }
            Ok((JsonValue::Bool(true), j + 4))
        } else {
            proof {
                if has_lit_at(s@, j as int, seq!['t', 'r', 'u', 'e']) {
                    assert(s@[j + 1 as int] == 'r' && s@[j + 2 as int] == 'u' && s@[j
                        + 3 as int] == 'e');
                }
            }
            Err(())
        }
    } else if c == 'f' {
        if s.len() - j >= 5 && s[j + 1] == 'a' && s[j + 2] == 'l' && s[j + 3] == 's' && s[j + 4]
            == 'e' {
            proof {
                assert(s@.subrange(j as int, j + 5 as int) =~= seq!['f', 'a', 'l', 's', 'e']);
            }
            Ok((JsonValue::Bool(false), j + 5))
        } else {
            proof {
                if has_lit_at(s@, j as int, seq!['f', 'a', 'l', 's', 'e']) {
                    assert(s@[j + 1 as int] == 'a' && s@[j + 2 as int] == 'l' && s@[j + 3 as int]
                        == 's' && s@[j + 4 as int] == 'e');
                }
            }
            Err(())
        }
    } else if c == '"' {
        match parse_string(s, j + 1) {
            Ok((body, k)) => Ok((JsonValue::Str(crate::text::chars_to_string(&body)), k)),
            Err(e) => Err(e),
        }
    } else if c == '-' || is_digit(c) {
        parse_number(s, j)
    } else if c == '[' {
        let k = skip_ws(s, j + 1);
        if k < s.len() && s[k] == ']' {
            let items: Vec<JsonValue> = Vec::new();
            proof {
                assert(json_view(JsonValue::Array(items)) == JsonSpecValue::Array(
                    Seq::<JsonSpecValue>::empty(),
                ));
            }
            Ok((JsonValue::Array(items), k + 1))
        } else {
            match parse_items(s, j + 1, fuel - 1) {
                Ok((items, m)) => Ok((JsonValue::Array(items), m)),
                Err(e) => Err(e),
            }
        }
    } else if c == '{' {
        let k = skip_ws(s, j + 1);
        if k < s.len() && s[k] == '}' {
            let fields: Vec<(String, JsonValue)> = Vec::new();
            proof {
                assert(json_view(JsonValue::Object(fields)) == JsonSpecValue::Object(
                    Seq::<(Seq<char>, JsonSpecValue)>::empty(),
                ));
            }
            Ok((JsonValue::Object(fields), k + 1))
        } else {
            match parse_fields(s, j + 1, fuel - 1) {
                Ok((fields, m)) => Ok((JsonValue::Object(fields), m)),
                Err(e) => Err(e),
            }
        }
    } else {
        Err(())
    }
}

pub fn parse_items(s: &Vec<char>, i: usize, fuel: usize) -> (r: Result<(Vec<JsonValue>, usize), ()>)
    requires
        i <= s@.len(),
    ensures
        items_result_matches(r, parse_items_spec(s@, i as int, fuel as nat), s@.len() as int),
    decreases fuel,
{
    if fuel == 0 {
        return Err(());
    }
    match parse_value(s, i, fuel - 1) {
        Err(e) => Err(e),
        Ok((v, j)) => {
            let k = skip_ws(s, j);
            if k >= s.len() {
                Err(())
            } else if s[k] == ',' {
                match parse_items(s, k + 1, fuel - 1) {
                    Ok((mut rest, m)) => {
                        let ghost rest_old = rest@;
                        let ghost v_view = json_view(v);
                        rest.insert(0, v);
                        proof {
                            lemma_json_view_items_len(rest@);
                            lemma_json_view_items_len(rest_old);
                            assert(json_view_items(rest@) =~~= seq![v_view] + json_view_items(
                                rest_old,
                            ));
                        }
                        Ok((rest, m))
                    },
                    Err(e) => Err(e),
                }
            } else if s[k] == ']' {
                let mut items: Vec<JsonValue> = Vec::new();
                items.push(v);
                proof {
                    lemma_json_view_items_len(items@);
                    assert(json_view_items(items@) =~~= seq![json_view(v)]);
                }
                Ok((items, k + 1))
            } else {
                Err(())
            }
        },
    }
}

pub fn parse_fields(s: &Vec<char>, i: usize, fuel: usize) -> (r: Result<
    (Vec<(String, JsonValue)>, usize),
    (),
>)
    requires
        i <= s@.len(),
    ensures
        fields_result_matches(r, parse_fields_spec(s@, i as int, fuel as nat), s@.len() as int),
    decreases fuel,
{
    if fuel == 0 {
        return Err(());
    }
    let j = skip_ws(s, i);
    if j >= s.len() {
        return Err(());
    }
    if s[j] != '"' {
        return Err(());
    }
    match parse_string(s, j + 1) {
        Err(e) => Err(e),
        Ok((key_chars, k)) => {
            let key = crate::text::chars_to_string(&key_chars);
            let c = skip_ws(s, k);
            if c >= s.len() {
                return Err(());
            }
            if s[c] != ':' {
                return Err(());
            }
            match parse_value(s, c + 1, fuel - 1) {
                Err(e) => Err(e),
                Ok((v, m)) => {
                    let t = skip_ws(s, m);
                    if t >= s.len() {
                        Err(())
                    } else if s[t] == ',' {
                        match parse_fields(s, t + 1, fuel - 1) {
                            Ok((mut rest, e)) => {
                                let ghost rest_old = rest@;
                                let ghost kv = (key@, json_view(v));
                                rest.insert(0, (key, v));
                                proof {
                                    lemma_json_view_fields_len(rest@);
                                    lemma_json_view_fields_len(rest_old);
                                    assert(json_view_fields(rest@) =~~= seq![kv]
                                        + json_view_fields(rest_old));
                                }
                                Ok((rest, e))
                            },
                            Err(e) => Err(e),
                        }
                    } else if s[t] == '}' {
                        let mut fields: Vec<(String, JsonValue)> = Vec::new();
                        fields.push((key, v));
                        proof {
                            lemma_json_view_fields_len(fields@);
                            assert(json_view_fields(fields@) =~~= seq![
                                (fields@[0].0@, json_view(fields@[0].1)),
                            ]);
                        }
                        Ok((fields, t + 1))
                    } else {
                        Err(())
                    }
                },
            }
        },
    }
}

/// Parse a whole text into a document. The length bound keeps the
/// recursion-depth budget computable in a machine word.
pub fn parse_document(s: &Vec<char>) -> (r: Result<JsonValue, ()>)
    requires
        2 * s@.len() + 4 <= usize::MAX,
    ensures
        match parse_document_spec(s@) {
            Ok(sv) => r is Ok && r->Ok_0@ == sv,
            Err(_) => r is Err,
        },
{
    let fuel: usize = 2 * s.len() + 4;
    match parse_value(s, 0, fuel) {
        Err(_) => Err(()),
        Ok((v, j)) => {
            let k = skip_ws(s, j);
            if k == s.len() {
                Ok(v)
            } else {
                Err(())
            }
        },
    }
}

// ---------------------------------------------------------------------------
// Executable renderer
// ---------------------------------------------------------------------------

fn push_spaces(ind: usize, out: &mut Vec<char>)
    ensures
        final(out)@ == old(out)@ + spaces_spec(2 * ind as nat),
{
    let mut k: usize = 0;
    while k < ind
        invariant
            k <= ind,
            out@ == old(out)@ + spaces_spec(2 * k as nat),
        decreases ind - k,
    {
        out.push(' ');
        out.push(' ');
        proof {
            assert(spaces_spec(2 * (k + 1) as nat) == spaces_spec((2 * k + 1) as nat).push(' '));
            assert(spaces_spec((2 * k + 1) as nat) == spaces_spec(2 * k as nat).push(' '));
            assert(out@ =~= old(out)@ + spaces_spec(2 * (k + 1) as nat));
        }
        k += 1;
    }
}

fn render_u64_into(n: u64, out: &mut Vec<char>)
    ensures
        final(out)@ == old(out)@ + digits_spec(n),
    decreases n,
{
    if n < 10 {
        out.push(digit_to_char(n));
        proof {
            assert(out@ =~= old(out)@ + digits_spec(n));
        }
    } else {
        render_u64_into(n / 10, out);
        out.push(digit_to_char(n % 10));
        proof {
            assert(out@ =~= old(out)@ + digits_spec(n));
        }
    }
}

fn render_raw_into(s: &str, out: &mut Vec<char>)
    ensures
        final(out)@ == old(out)@ + s@,
{
    let n = s.unicode_len();
    let mut i: usize = 0;
    while i < n
        invariant
            i <= n,
            n == s@.len(),
            out@ == old(out)@ + s@.subrange(0, i as int),
        decreases n - i,
    {
        out.push(s.get_char(i));
        proof {
            assert(out@ =~= old(out)@ + s@.subrange(0, i + 1 as int));
        }
        i += 1;
    }
    proof {
        assert(out@ =~= old(out)@ + s@);
    }
}

fn render_string_into(s: &str, out: &mut Vec<char>)
    ensures
        final(out)@ == old(out)@ + quoted_spec(s@),
{
    out.push('"');
    let n = s.unicode_len();
    let mut i: usize = 0;
    while i < n
        invariant
            i <= n,
            n == s@.len(),
            out@ == old(out)@ + seq!['"'] + escape_spec(s@.subrange(0, i as int)),
        decreases n - i,
    {
        let c = s.get_char(i);
        if c == '"' || c == '\\' {
            out.push('\\');
        }
        out.push(c);
        proof {
            let pre = s@.subrange(0, i + 1 as int);
            assert(pre.drop_last() =~= s@.subrange(0, i as int));
            assert(pre.last() == s@[i as int]);
            assert(escape_spec(pre) == escape_spec(s@.subrange(0, i as int)) + escape_char_spec(
                s@[i as int],
            ));
            assert(out@ =~= old(out)@ + seq!['"'] + escape_spec(pre));
        }
        i += 1;
    }
    out.push('"');
    proof {
        assert(s@.subrange(0, s@.len() as int) =~= s@);
        assert(out@ =~= old(out)@ + quoted_spec(s@));
    }
}

/// Append the canonical rendering of `v` at indentation depth `ind`.
pub fn render_value_into(v: &JsonValue, ind: usize, out: &mut Vec<char>)
    requires
        ind + json_size(v@) <= usize::MAX,
    ensures
        final(out)@ == old(out)@ + render_spec(v@, ind as nat),
    decreases json_size(v@),
{
    match v {
        JsonValue::Null => {
            out.push('n');
            out.push('u');
            out.push('l');
            out.push('l');
            proof {
                assert(out@ =~= old(out)@ + render_spec(v@, ind as nat));
            }
        },
        JsonValue::Bool(b) => {
            if *b {
                out.push('t');
                out.push('r');
                out.push('u');
                out.push('e');
            } else {
                out.push('f');
                out.push('a');
                out.push('l');
                out.push('s');
                out.push('e');
            }
            proof {
                assert(out@ =~= old(out)@ + render_spec(v@, ind as nat));
            }
        },
        JsonValue::Number(n) => {
            render_u64_into(*n, out);
        },
        JsonValue::OtherNumber(t) => {
            render_raw_into(t.as_str(), out);
        },
        JsonValue::Str(s) => {
            render_string_into(s.as_str(), out);
        },
        JsonValue::Array(items) => {
            proof {
                lemma_json_view_items_len(items@);
                lemma_json_size_items_bound(json_view_items(items@));
            }
            if items.len() == 0 {
                out.push('[');
                out.push(']');
                proof {
                    assert(out@ =~= old(out)@ + render_spec(v@, ind as nat));
                }
            } else {
                let ghost iv = json_view_items(items@);
                out.push('[');
                proof {
                    assert(iv.skip(0) =~= iv);
                }
                let mut k: usize = 0;
                while k < items.len()
                    invariant
                        0 <= k <= items@.len(),
                        items@.len() == iv.len(),
                        iv == json_view_items(items@),
                        v@ == JsonSpecValue::Array(iv),
                        ind + json_size(v@) <= usize::MAX,
                        json_size(v@) == 1 + json_size_items(iv),
                        forall|t: int| 0 <= t < iv.len() ==> #[trigger] iv[t] == json_view(
                            items@[t],
                        ),
                        forall|t: int|
                            0 <= t < iv.len() ==> #[trigger] json_size(iv[t]) <= json_size_items(
                                iv,
                            ),
                        out@ + render_items_spec(iv.skip(k as int), (ind + 1) as nat) == old(out)@
                            + seq!['['] + render_items_spec(iv, (ind + 1) as nat),
                        k < items@.len(),
                    decreases items@.len() - k,
                {
                    let ghost pre = out@;
                    out.push('\n');
                    push_spaces(ind + 1, out);
                    render_value_into(&items[k], ind + 1, out);
                    proof {
                        assert(out@ =~= pre + (seq!['\n'] + spaces_spec(2 * (ind + 1) as nat)
                            + render_spec(iv[k as int], (ind + 1) as nat)));
                        assert(iv.skip(k as int)[0] == iv[k as int]);
                        assert(iv.skip(k as int).drop_first() =~= iv.skip(k + 1));
                    }
                    if k + 1 < items.len() {
                        out.push(',');
                        proof {
                            assert(iv.skip(k as int).len() > 1);
                            assert(out@ + render_items_spec(iv.skip(k + 1), (ind + 1) as nat) =~= old(
                                out,
                            )@ + seq!['['] + render_items_spec(iv, (ind + 1) as nat));
                        }
                        k += 1;
                    } else {
                        proof {
                            assert(iv.skip(k as int).len() == 1);
                            assert(render_items_spec(iv.skip(k as int), (ind + 1) as nat) == seq![
                                '\n',
                            ] + spaces_spec(2 * (ind + 1) as nat) + render_spec(
                                iv[k as int],
                                (ind + 1) as nat,
                            ));
                        }
                        out.push('\n');
                        push_spaces(ind, out);
                        out.push(']');
                        proof {
                            assert(out@ =~= old(out)@ + render_spec(v@, ind as nat));
                        }
                        return ;
                    }
                }
            }
        },
        JsonValue::Object(fields) => {
            proof {
                lemma_json_view_fields_len(fields@);
                lemma_json_size_fields_bound(json_view_fields(fields@));
            }
            if fields.len() == 0 {
                out.push('{');
                out.push('}');
                proof {
                    assert(out@ =~= old(out)@ + render_spec(v@, ind as nat));
                }
            } else {
                let ghost fv = json_view_fields(fields@);
                out.push('{');
                proof {
                    assert(fv.skip(0) =~= fv);
                }
                let mut k: usize = 0;
                while k < fields.len()
                    invariant
                        0 <= k <= fields@.len(),
                        fields@.len() == fv.len(),
                        fv == json_view_fields(fields@),
                        v@ == JsonSpecValue::Object(fv),
                        ind + json_size(v@) <= usize::MAX,
                        json_size(v@) == 1 + json_size_fields(fv),
                        forall|t: int| 0 <= t < fv.len() ==> #[trigger] fv[t] == (
                        fields@[t].0@,
                        json_view(fields@[t].1),
                        ),
                        forall|t: int|
                            0 <= t < fv.len() ==> #[trigger] json_size(fv[t].1)
                                <= json_size_fields(fv),
                        out@ + render_fields_spec(fv.skip(k as int), (ind + 1) as nat) == old(out)@
                            + seq!['{'] + render_fields_spec(fv, (ind + 1) as nat),
                        k < fields@.len(),
                    decreases fields@.len() - k,
                {
                    let ghost pre = out@;
                    out.push('\n');
                    push_spaces(ind + 1, out);
                    render_string_into(fields[k].0.as_str(), out);
                    out.push(':');
                    out.push(' ');
                    render_value_into(&fields[k].1, ind + 1, out);
                    proof {
                        assert(out@ =~= pre + (seq!['\n'] + spaces_spec(2 * (ind + 1) as nat)
                            + quoted_spec(fv[k as int].0) + seq![':', ' '] + render_spec(
                            fv[k as int].1,
                            (ind + 1) as nat,
                        )));
                        assert(fv.skip(k as int)[0] == fv[k as int]);
                        assert(fv.skip(k as int).drop_first() =~= fv.skip(k + 1));
                    }
                    if k + 1 < fields.len() {
                        out.push(',');
                        proof {
                            assert(fv.skip(k as int).len() > 1);
                            assert(out@ + render_fields_spec(fv.skip(k + 1), (ind + 1) as nat) =~= old(
                                out,
                            )@ + seq!['{'] + render_fields_spec(fv, (ind + 1) as nat));
                        }
                        k += 1;
                    } else {
                        proof {
                            assert(fv.skip(k as int).len() == 1);
                        }
                        out.push('\n');
                        push_spaces(ind, out);
                        out.push('}');
                        proof {
                            assert(out@ =~= old(out)@ + render_spec(v@, ind as nat));
                        }
                        return ;
                    }
                }
            }
        },
    }
}

/// The canonical text of a whole document.
pub fn render_document(v: &JsonValue) -> (out: Vec<char>)
    requires
        json_size(v@) <= usize::MAX,
    ensures
        out@ == render_document_spec(v@),
{
    let mut out: Vec<char> = Vec::new();
    render_value_into(v, 0, &mut out);
    proof {
        assert(out@ =~= render_document_spec(v@));
    }
    out
}


// ---------------------------------------------------------------------------
// The canonical rendering parses back to the same document
// ---------------------------------------------------------------------------

/// A document the renderer can make and the parser can give back: one
/// without opaque numeric lexemes.
pub open spec fn json_wf(v: JsonSpecValue) -> bool
    decreases v,
{
    match v {
        JsonSpecValue::OtherNumber(_) => false,
        JsonSpecValue::Array(items) => json_wf_items(items),
        JsonSpecValue::Object(fields) => json_wf_fields(fields),
        _ => true,
    }
}

pub open spec fn json_wf_items(items: Seq<JsonSpecValue>) -> bool
    decreases items,
{
    if items.len() == 0 {
        true
    } else {
        json_wf(items[0]) && json_wf_items(items.drop_first())
    }
}

pub open spec fn json_wf_fields(fields: Seq<(Seq<char>, JsonSpecValue)>) -> bool
    decreases fields,
{
    if fields.len() == 0 {
        true
    } else {
        json_wf(fields[0].1) && json_wf_fields(fields.drop_first())
    }
}

/// Recursion budget that suffices to parse the document back.
pub open spec fn json_fuel(v: JsonSpecValue) -> nat
    decreases v,
{
    match v {
        JsonSpecValue::Array(items) => 1 + json_fuel_items(items),
        JsonSpecValue::Object(fields) => 1 + json_fuel_fields(fields),
        _ => 1,
    }
}

pub open spec fn json_fuel_items(items: Seq<JsonSpecValue>) -> nat
    decreases items,
{
    if items.len() == 0 {
        1
    } else {
        1 + json_fuel(items[0]) + json_fuel_items(items.drop_first())
    }
}

pub open spec fn json_fuel_fields(fields: Seq<(Seq<char>, JsonSpecValue)>) -> nat
    decreases fields,
{
    if fields.len() == 0 {
        1
    } else {
        1 + json_fuel(fields[0].1) + json_fuel_fields(fields.drop_first())
    }
}

pub open spec fn pow10(k: nat) -> nat
    decreases k,
{
    if k == 0 {
        1
    } else {
        10 * pow10((k - 1) as nat)
    }
}

proof fn lemma_digits_head(n: u64)
    ensures
        digits_spec(n).len() >= 1,
        is_digit_char(digits_spec(n)[0]),
    decreases n,
{
    if n >= 10 {
        lemma_digits_head(n / 10);
    }
}

/// The first character a rendered value can begin with.
pub open spec fn is_value_start(c: char) -> bool {
    c == 'n' || c == 't' || c == 'f' || c == '"' || c == '[' || c == '{' || is_digit_char(c)
}

proof fn lemma_render_head(v: JsonSpecValue, ind: nat)
    requires
        json_wf(v),
    ensures
        render_spec(v, ind).len() >= 1,
        is_value_start(render_spec(v, ind)[0]),
{
    match v {
        JsonSpecValue::Number(n) => {
            lemma_digits_head(n);
        },
        _ => {},
    }
}

proof fn lemma_skip_ws_run(s: Seq<char>, a: int, i: int)
    requires
        0 <= a <= i <= s.len(),
        forall|t: int| a <= t < i ==> is_ws_char(#[trigger] s[t]),
        i == s.len() || !is_ws_char(s[i]),
    ensures
        skip_ws_spec(s, a) == i,
    decreases i - a,
{
    if a < i {
        lemma_skip_ws_run(s, a + 1, i);
    }
}

/// Consuming the digits of `n` multiplies the accumulator through.
proof fn lemma_digits_chain(s: Seq<char>, i: int, n: u64, acc: u64)
    requires
        0 <= i,
        i + digits_spec(n).len() <= s.len(),
        s.subrange(i, i + digits_spec(n).len()) == digits_spec(n),
        acc * pow10(digits_spec(n).len()) + n <= u64::MAX,
    ensures
        parse_digits_spec(s, i, acc) == parse_digits_spec(
            s,
            i + digits_spec(n).len(),
            (acc * pow10(digits_spec(n).len()) + n) as u64,
        ),
    decreases n,
{
    let ds = digits_spec(n);
    let l = ds.len() as int;
    if n < 10 {
        assert(ds == seq![digit_char_spec(n as int)]);
        assert(s[i] == ds[0]);
        assert(is_digit_char(s[i]) && digit_value(s[i]) == n) by {
            lemma_digits_head(n);
        }
        assert(pow10(1) == 10 * pow10(0));
        assert(acc * 10 + n <= u64::MAX);
        assert(!(acc as int > (u64::MAX - digit_value(s[i])) / 10)) by {
            if acc as int > (u64::MAX - n) / 10 {
                assert(acc as int >= (u64::MAX - n) / 10 + 1);
                assert(((u64::MAX - n) / 10 + 1) * 10 > u64::MAX - n) by (nonlinear_arith);
                assert(acc as int * 10 >= ((u64::MAX - n) / 10 + 1) * 10) by (nonlinear_arith)
                    requires
                        acc as int >= (u64::MAX - n) / 10 + 1,
                ;
            }
        }
        assert(parse_digits_spec(s, i, acc) == parse_digits_spec(s, i + 1, (acc * 10 + n) as u64));
    } else {
        let front = digits_spec(n / 10);
        let lf = front.len() as int;
        let d = (n % 10) as int;
        assert(ds == front.push(digit_char_spec(d)));
        assert(s.subrange(i, i + lf) =~= front);
        assert(pow10(ds.len()) == 10 * pow10(front.len()));
        let m = acc * pow10(front.len()) + n / 10;
        assert(m * 10 + n % 10 == acc * pow10(ds.len()) + n) by (nonlinear_arith)
            requires
                m == acc * pow10(front.len()) + n / 10,
                pow10(ds.len()) == 10 * pow10(front.len()),
                n == 10 * (n / 10) + n % 10,
        ;
        lemma_digits_chain(s, i, n / 10, acc);
        assert(s[i + lf] == ds[lf]);
        assert(is_digit_char(s[i + lf]) && digit_value(s[i + lf]) == d);
        assert(!(m as int > (u64::MAX - d) / 10)) by {
            if m as int > (u64::MAX - d) / 10 {
                assert(m as int >= (u64::MAX - d) / 10 + 1);
                assert(((u64::MAX - d) / 10 + 1) * 10 > u64::MAX - d) by (nonlinear_arith);
                assert(m as int * 10 >= ((u64::MAX - d) / 10 + 1) * 10) by (nonlinear_arith)
                    requires
                        m as int >= (u64::MAX - d) / 10 + 1,
                ;
            }
        }
        assert(parse_digits_spec(s, i + lf, m as u64) == parse_digits_spec(
            s,
            i + l,
            (m * 10 + d) as u64,
        ));
    }
}

/// The digits of `n`, followed by anything but a digit, parse back to `n`.
proof fn lemma_parse_digits_render(s: Seq<char>, i: int, n: u64)
    requires
        0 <= i,
        i + digits_spec(n).len() <= s.len(),
        s.subrange(i, i + digits_spec(n).len()) == digits_spec(n),
        i + digits_spec(n).len() == s.len() || !is_digit_char(s[i + digits_spec(n).len()]),
    ensures
        parse_digits_spec(s, i, 0) == Ok::<(u64, int), ()>((n, i + digits_spec(n).len())),
{
    assert(0 * pow10(digits_spec(n).len()) == 0) by (nonlinear_arith);
    lemma_digits_chain(s, i, n, 0);
}

/// Consuming an escaped string body prepends it to whatever follows.
proof fn lemma_string_chain(s: Seq<char>, i: int, body: Seq<char>)
    requires
        0 <= i,
        i + escape_spec(body).len() <= s.len(),
        s.subrange(i, i + escape_spec(body).len()) == escape_spec(body),
    ensures
        parse_string_spec(s, i) == string_cont(
            body,
            parse_string_spec(s, i + escape_spec(body).len()),
        ),
    decreases body,
{
    let es = escape_spec(body);
    if body.len() == 0 {
        assert(es =~= Seq::<char>::empty());
        match parse_string_spec(s, i) {
            Ok(p) => {
                assert(body + p.0 =~= p.0);
            },
            Err(_) => {},
        }
    } else {
        let front = body.drop_last();
        let c = body.last();
        let ef = escape_spec(front);
        let lf = ef.len() as int;
        assert(es == ef + escape_char_spec(c));
        assert(s.subrange(i, i + lf) =~= ef);
        lemma_string_chain(s, i, front);
        let after = i + es.len() as int;
        if c == '"' || c == '\\' {
            assert(s[i + lf] == es[lf] && s[i + lf + 1] == es[lf + 1]);
            assert(s[i + lf] == '\\' && s[i + lf + 1] == c);
            assert(parse_string_spec(s, i + lf) == string_cont(
                seq![c],
                parse_string_spec(s, after),
            ));
        } else {
            assert(s[i + lf] == es[lf]);
            assert(s[i + lf] == c && c != '"' && c != '\\');
            assert(parse_string_spec(s, i + lf) == string_cont(
                seq![c],
                parse_string_spec(s, after),
            ));
        }
        lemma_string_cont_assoc(front, seq![c], parse_string_spec(s, after));
        assert(front + seq![c] =~= body);
    }
}

/// A quoted, escaped body followed by its closing quote parses back whole.
proof fn lemma_parse_string_render(s: Seq<char>, i: int, body: Seq<char>)
    requires
        0 <= i,
        i + escape_spec(body).len() + 1 <= s.len(),
        s.subrange(i, i + escape_spec(body).len()) == escape_spec(body),
        s[i + escape_spec(body).len()] == '"',
    ensures
        parse_string_spec(s, i) == Ok::<(Seq<char>, int), ()>(
            (body, i + escape_spec(body).len() + 1),
        ),
{
    let l = escape_spec(body).len() as int;
    lemma_string_chain(s, i, body);
    assert(parse_string_spec(s, i + l) == Ok::<(Seq<char>, int), ()>(
        (Seq::<char>::empty(), i + l + 1),
    ));
    assert(body + Seq::<char>::empty() =~= body);
}


proof fn lemma_spaces_ws(k: nat)
    ensures
        spaces_spec(k).len() == k,
        forall|t: int| 0 <= t < k ==> is_ws_char(#[trigger] spaces_spec(k)[t]),
    decreases k,
{
    if k > 0 {
        lemma_spaces_ws((k - 1) as nat);
    }
}

proof fn lemma_digits_are_digits(n: u64)
    ensures
        forall|t: int| 0 <= t < digits_spec(n).len() ==> is_digit_char(#[trigger] digits_spec(n)[t]),
    decreases n,
{
    let ds = digits_spec(n);
    if n < 10 {
        assert(is_digit_char(digit_char_spec(n as int)));
    } else {
        lemma_digits_are_digits(n / 10);
        assert(is_digit_char(digit_char_spec((n % 10) as int)));
        assert forall|t: int| 0 <= t < ds.len() implies is_digit_char(#[trigger] ds[t]) by {
            if t < ds.len() - 1 {
                assert(ds[t] == digits_spec(n / 10)[t]);
            }
        }
    }
}

proof fn lemma_scan_digits_run(s: Seq<char>, a: int, i: int)
    requires
        0 <= a <= i <= s.len(),
        forall|t: int| a <= t < i ==> is_digit_char(#[trigger] s[t]),
        i == s.len() || !is_digit_char(s[i]),
    ensures
        scan_digits_end(s, a) == i,
    decreases i - a,
{
    if a < i {
        lemma_scan_digits_run(s, a + 1, i);
    }
}

proof fn lemma_region_index(s: Seq<char>, i: int, r: Seq<char>)
    requires
        0 <= i,
        i + r.len() <= s.len(),
        s.subrange(i, i + r.len()) == r,
    ensures
        forall|t: int| 0 <= t < r.len() ==> s[i + t] == #[trigger] r[t],
{
    assert forall|t: int| 0 <= t < r.len() implies s[i + t] == #[trigger] r[t] by {
        assert(r[t] == s.subrange(i, i + r.len() as int)[t]);
    }
}

proof fn lemma_region_slice(s: Seq<char>, i: int, r: Seq<char>, p: int, q: int)
    requires
        0 <= i,
        i + r.len() <= s.len(),
        s.subrange(i, i + r.len()) == r,
        0 <= p <= q <= r.len(),
    ensures
        s.subrange(i + p, i + q) == r.subrange(p, q),
{
    lemma_region_index(s, i, r);
    assert forall|t: int| 0 <= t < q - p implies s.subrange(i + p, i + q)[t] == r.subrange(
        p,
        q,
    )[t] by {
        assert(r[p + t] == s[i + (p + t)]);
    }
    assert(s.subrange(i + p, i + q) =~= r.subrange(p, q));
}

/// After optional whitespace, the canonical rendering of a well-formed
/// document parses back to that document, ending right after it.
#[verifier::rlimit(100)]
#[verifier::spinoff_prover]
proof fn lemma_parse_value_render(
    s: Seq<char>,
    a: int,
    i: int,
    v: JsonSpecValue,
    ind: nat,
    fuel: nat,
)
    requires
        json_wf(v),
        0 <= a <= i,
        forall|t: int| a <= t < i ==> is_ws_char(#[trigger] s[t]),
        i + render_spec(v, ind).len() <= s.len(),
        s.subrange(i, i + render_spec(v, ind).len()) == render_spec(v, ind),
        i + render_spec(v, ind).len() == s.len() || (!is_digit_char(
            s[i + render_spec(v, ind).len()],
        ) && s[i + render_spec(v, ind).len()] != '.'),
        fuel >= json_fuel(v),
    ensures
        parse_value_spec(s, a, fuel) == Ok::<(JsonSpecValue, int), ()>(
            (v, i + render_spec(v, ind).len()),
        ),
    decreases v,
{
    let r = render_spec(v, ind);
    let l = r.len() as int;
    let e = i + l;
    lemma_render_head(v, ind);
    lemma_region_index(s, i, r);
    assert(s[i + 0] == r[0]);
    assert(!is_ws_char(s[i]));
    lemma_skip_ws_run(s, a, i);
    match v {
        JsonSpecValue::Null => {
            assert(r =~= seq!['n', 'u', 'l', 'l']);
        },
        JsonSpecValue::Bool(b) => {
            if b {
                assert(r =~= seq!['t', 'r', 'u', 'e']);
            } else {
                assert(r =~= seq!['f', 'a', 'l', 's', 'e']);
            }
        },
        JsonSpecValue::Number(n) => {
            lemma_digits_head(n);
            lemma_digits_are_digits(n);
            assert forall|t: int| i <= t < e implies is_digit_char(#[trigger] s[t]) by {
                assert(s[i + (t - i)] == r[t - i]);
            }
            lemma_scan_digits_run(s, i, e);
            lemma_parse_digits_render(s, i, n);
            assert(parse_number_spec(s, i) == Ok::<(JsonSpecValue, int), ()>(
                (JsonSpecValue::Number(n), e),
            ));
        },
        JsonSpecValue::OtherNumber(_) => {
            assert(false);
        },
        JsonSpecValue::Str(body) => {
            let es = escape_spec(body);
            assert(r.subrange(1, 1 + es.len() as int) =~= es);
            lemma_region_slice(s, i, r, 1, 1 + es.len() as int);
            assert(s[i + (1 + es.len())] == r[(1 + es.len()) as int]);
            lemma_parse_string_render(s, i + 1, body);
        },
        JsonSpecValue::Array(items) => {
            if items.len() == 0 {
                assert(s[i + 1] == r[1] && r[1] == ']');
                lemma_skip_ws_run(s, i + 1, i + 1);
                assert(items =~= Seq::<JsonSpecValue>::empty());
            } else {
                let ri = render_items_spec(items, ind + 1);
                let tail_at = i + 1 + ri.len() as int;
                lemma_spaces_ws(2 * ind);
                assert(r.subrange(1, tail_at - i) =~= ri);
                lemma_region_slice(s, i, r, 1, tail_at - i);
                assert(r.subrange(tail_at - i, l) =~= seq!['\n'] + spaces_spec(2 * ind)
                    + seq![']']);
                lemma_region_slice(s, i, r, tail_at - i, l);
                lemma_parse_items_render(s, i + 1, items, (ind + 1) as nat, ind, (fuel - 1) as nat);
                // The first element's rendering begins right after the
                // newline and indentation, so the empty-array test fails.
                lemma_items_layout(s, i + 1, items, (ind + 1) as nat);
                let b0 = i + 2 + 2 * (ind + 1);
                lemma_skip_ws_run(s, i + 1, b0);
            }
        },
        JsonSpecValue::Object(fields) => {
            if fields.len() == 0 {
                assert(s[i + 1] == r[1] && r[1] == '}');
                lemma_skip_ws_run(s, i + 1, i + 1);
                assert(fields =~= Seq::<(Seq<char>, JsonSpecValue)>::empty());
            } else {
                let rf = render_fields_spec(fields, ind + 1);
                let tail_at = i + 1 + rf.len() as int;
                lemma_spaces_ws(2 * ind);
                assert(r.subrange(1, tail_at - i) =~= rf);
                lemma_region_slice(s, i, r, 1, tail_at - i);
                assert(r.subrange(tail_at - i, l) =~= seq!['\n'] + spaces_spec(2 * ind)
                    + seq!['}']);
                lemma_region_slice(s, i, r, tail_at - i, l);
                lemma_parse_fields_render(s, i + 1, fields, (ind + 1) as nat, ind, (fuel - 1) as nat);
                lemma_fields_layout(s, i + 1, fields, (ind + 1) as nat);
                let b0 = i + 2 + 2 * (ind + 1);
                lemma_skip_ws_run(s, i + 1, b0);
            }
        },
    }
}

/// The shape of a rendered element list: a newline, the indentation, then
/// the first element's rendering, which starts with a value character.
proof fn lemma_items_layout(s: Seq<char>, a: int, items: Seq<JsonSpecValue>, ind: nat)
    requires
        json_wf_items(items),
        items.len() > 0,
        0 <= a,
        a + render_items_spec(items, ind).len() <= s.len(),
        s.subrange(a, a + render_items_spec(items, ind).len()) == render_items_spec(items, ind),
    ensures
        forall|t: int| a <= t < a + 1 + 2 * ind ==> is_ws_char(#[trigger] s[t]),
        a + 1 + 2 * ind < s.len(),
        is_value_start(s[a + 1 + 2 * ind]),
{
    let ri = render_items_spec(items, ind);
    lemma_spaces_ws(2 * ind);
    lemma_render_head(items[0], ind);
    lemma_region_index(s, a, ri);
    let b0 = a + 1 + 2 * ind;
    assert(s[a + (b0 - a)] == ri[(1 + 2 * ind) as int]);
    assert(ri[(1 + 2 * ind) as int] == render_spec(items[0], ind)[0]);
    assert forall|t: int| a <= t < b0 implies is_ws_char(#[trigger] s[t]) by {
        assert(s[a + (t - a)] == ri[t - a]);
        if t > a {
            assert(ri[t - a] == spaces_spec(2 * ind)[t - a - 1]);
        }
    }
}

proof fn lemma_fields_layout(s: Seq<char>, a: int, fields: Seq<(Seq<char>, JsonSpecValue)>, ind: nat)
    requires
        fields.len() > 0,
        0 <= a,
        a + render_fields_spec(fields, ind).len() <= s.len(),
        s.subrange(a, a + render_fields_spec(fields, ind).len()) == render_fields_spec(
            fields,
            ind,
        ),
    ensures
        forall|t: int| a <= t < a + 1 + 2 * ind ==> is_ws_char(#[trigger] s[t]),
        a + 1 + 2 * ind < s.len(),
        s[a + 1 + 2 * ind] == '"',
{
    let rf = render_fields_spec(fields, ind);
    lemma_spaces_ws(2 * ind);
    lemma_region_index(s, a, rf);
    let b0 = a + 1 + 2 * ind;
    assert(s[a + (b0 - a)] == rf[(1 + 2 * ind) as int]);
    assert(rf[(1 + 2 * ind) as int] == quoted_spec(fields[0].0)[0]);
    assert forall|t: int| a <= t < b0 implies is_ws_char(#[trigger] s[t]) by {
        assert(s[a + (t - a)] == rf[t - a]);
        if t > a {
            assert(rf[t - a] == spaces_spec(2 * ind)[t - a - 1]);
        }
    }
}

/// A rendered element list, followed by a newline, the closing
/// indentation, and the bracket, parses back to exactly those elements.
#[verifier::rlimit(100)]
#[verifier::spinoff_prover]
proof fn lemma_parse_items_render(
    s: Seq<char>,
    a: int,
    items: Seq<JsonSpecValue>,
    ind: nat,
    close: nat,
    fuel: nat,
)
    requires
        json_wf_items(items),
        items.len() > 0,
        0 <= a,
        a + render_items_spec(items, ind).len() + 2 + 2 * close <= s.len(),
        s.subrange(a, a + render_items_spec(items, ind).len()) == render_items_spec(items, ind),
        s.subrange(
            a + render_items_spec(items, ind).len(),
            a + render_items_spec(items, ind).len() + 2 + 2 * close,
        ) == seq!['\n'] + spaces_spec(2 * close) + seq![']'],
        fuel >= json_fuel_items(items),
    ensures
        parse_items_spec(s, a, fuel) == Ok::<(Seq<JsonSpecValue>, int), ()>(
            (items, a + render_items_spec(items, ind).len() + 2 + 2 * close),
        ),
    decreases items,
{
    let ri = render_items_spec(items, ind);
    let rl = ri.len() as int;
    let tail = seq!['\n'] + spaces_spec(2 * close) + seq![']'];
    let fin = a + rl + 2 + 2 * close;
    lemma_spaces_ws(2 * close);
    lemma_spaces_ws(2 * ind);
    lemma_region_index(s, a, ri);
    lemma_region_index(s, a + rl, tail);
    let v0 = items[0];
    let r0 = render_spec(v0, ind);
    let b0 = a + 1 + 2 * ind;
    let j = b0 + r0.len() as int;
    assert(json_wf(v0) && json_fuel(v0) <= fuel - 1);
    assert(ri.subrange(b0 - a, j - a) =~= r0);
    lemma_region_slice(s, a, ri, b0 - a, j - a);
    assert forall|t: int| a <= t < b0 implies is_ws_char(#[trigger] s[t]) by {
        assert(s[a + (t - a)] == ri[t - a]);
        if t > a {
            assert(ri[t - a] == spaces_spec(2 * ind)[t - a - 1]);
        }
    }
    if items.len() == 1 {
        // The element, then the closing line.
        assert(s[a + rl + 0] == tail[0]);
        lemma_parse_value_render(s, a, b0, v0, ind, (fuel - 1) as nat);
        assert forall|t: int| j <= t < fin - 1 implies is_ws_char(#[trigger] s[t]) by {
            assert(s[a + rl + (t - j)] == tail[t - j]);
            if t > j {
                assert(tail[t - j] == spaces_spec(2 * close)[t - j - 1]);
            }
        }
        assert(s[a + rl + (1 + 2 * close)] == tail[(1 + 2 * close) as int] && tail[(1 + 2
            * close) as int] == ']');
        lemma_skip_ws_run(s, j, fin - 1);
        assert(seq![v0] =~= items);
    } else {
        let rest = items.drop_first();
        let rr = render_items_spec(rest, ind);
        assert(ri == seq!['\n'] + spaces_spec(2 * ind) + r0 + seq![','] + rr);
        assert(s[a + (j - a)] == ri[j - a] && ri[j - a] == ',');
        lemma_parse_value_render(s, a, b0, v0, ind, (fuel - 1) as nat);
        lemma_skip_ws_run(s, j, j);
        assert(ri.subrange(j + 1 - a, rl) =~= rr);
        lemma_region_slice(s, a, ri, j + 1 - a, rl);
        assert(a + rl == j + 1 + rr.len());
        lemma_parse_items_render(s, j + 1, rest, ind, close, (fuel - 1) as nat);
        assert(seq![v0] + rest =~= items);
    }
}

/// A rendered member list, followed by a newline, the closing indentation,
/// and the brace, parses back to exactly those members.
#[verifier::rlimit(100)]
#[verifier::spinoff_prover]
proof fn lemma_parse_fields_render(
    s: Seq<char>,
    a: int,
    fields: Seq<(Seq<char>, JsonSpecValue)>,
    ind: nat,
    close: nat,
    fuel: nat,
)
    requires
        json_wf_fields(fields),
        fields.len() > 0,
        0 <= a,
        a + render_fields_spec(fields, ind).len() + 2 + 2 * close <= s.len(),
        s.subrange(a, a + render_fields_spec(fields, ind).len()) == render_fields_spec(
            fields,
            ind,
        ),
        s.subrange(
            a + render_fields_spec(fields, ind).len(),
            a + render_fields_spec(fields, ind).len() + 2 + 2 * close,
        ) == seq!['\n'] + spaces_spec(2 * close) + seq!['}'],
        fuel >= json_fuel_fields(fields),
    ensures
        parse_fields_spec(s, a, fuel) == Ok::<(Seq<(Seq<char>, JsonSpecValue)>, int), ()>(
            (fields, a + render_fields_spec(fields, ind).len() + 2 + 2 * close),
        ),
    decreases fields,
{
    let rf = render_fields_spec(fields, ind);
    let rl = rf.len() as int;
    let tail = seq!['\n'] + spaces_spec(2 * close) + seq!['}'];
    let fin = a + rl + 2 + 2 * close;
    lemma_spaces_ws(2 * close);
    lemma_spaces_ws(2 * ind);
    lemma_region_index(s, a, rf);
    lemma_region_index(s, a + rl, tail);
    let key = fields[0].0;
    let v0 = fields[0].1;
    let qk = quoted_spec(key);
    let r0 = render_spec(v0, ind);
    let b0 = a + 1 + 2 * ind;
    // The member: quoted key, colon, space, value.
    let ck = b0 + qk.len() as int;
    let vstart = ck + 2;
    let j = vstart + r0.len() as int;
    assert(json_wf(v0) && json_fuel(v0) <= fuel - 1);
    assert forall|t: int| a <= t < b0 implies is_ws_char(#[trigger] s[t]) by {
        assert(s[a + (t - a)] == rf[t - a]);
        if t > a {
            assert(rf[t - a] == spaces_spec(2 * ind)[t - a - 1]);
        }
    }
    assert(s[a + (b0 - a)] == rf[b0 - a] && rf[b0 - a] == qk[0] && qk[0] == '"');
    lemma_skip_ws_run(s, a, b0);
    assert(rf.subrange(b0 + 1 - a, ck - 1 - a) =~= escape_spec(key));
    lemma_region_slice(s, a, rf, b0 + 1 - a, ck - 1 - a);
    assert(s[a + (ck - 1 - a)] == rf[ck - 1 - a] && rf[ck - 1 - a] == qk[qk.len() - 1]
        && qk[qk.len() - 1] == '"');
    lemma_parse_string_render(s, b0 + 1, key);
    assert(s[a + (ck - a)] == rf[ck - a] && rf[ck - a] == ':');
    lemma_skip_ws_run(s, ck, ck);
    assert(s[a + (ck + 1 - a)] == rf[ck + 1 - a] && rf[ck + 1 - a] == ' ');
    assert(rf.subrange(vstart - a, j - a) =~= r0);
    lemma_region_slice(s, a, rf, vstart - a, j - a);
    if fields.len() == 1 {
        assert(s[a + rl + 0] == tail[0]);
        lemma_parse_value_render(s, ck + 1, vstart, v0, ind, (fuel - 1) as nat);
        assert forall|t: int| j <= t < fin - 1 implies is_ws_char(#[trigger] s[t]) by {
            assert(s[a + rl + (t - j)] == tail[t - j]);
            if t > j {
                assert(tail[t - j] == spaces_spec(2 * close)[t - j - 1]);
            }
        }
        assert(s[a + rl + (1 + 2 * close)] == tail[(1 + 2 * close) as int] && tail[(1 + 2
            * close) as int] == '}');
        lemma_skip_ws_run(s, j, fin - 1);
        assert(seq![(key, v0)] =~= fields);
    } else {
        let rest = fields.drop_first();
        let rr = render_fields_spec(rest, ind);
        assert(rf == seq!['\n'] + spaces_spec(2 * ind) + qk + seq![':', ' '] + r0 + seq![','] + rr);
        assert(s[a + (j - a)] == rf[j - a] && rf[j - a] == ',');
        lemma_parse_value_render(s, ck + 1, vstart, v0, ind, (fuel - 1) as nat);
        lemma_skip_ws_run(s, j, j);
        assert(rf.subrange(j + 1 - a, rl) =~= rr);
        lemma_region_slice(s, a, rf, j + 1 - a, rl);
        assert(a + rl == j + 1 + rr.len());
        lemma_parse_fields_render(s, j + 1, rest, ind, close, (fuel - 1) as nat);
        assert(seq![(key, v0)] + rest =~= fields);
    }
}


proof fn lemma_fuel_bound(v: JsonSpecValue, ind: nat)
    requires
        json_wf(v),
    ensures
        json_fuel(v) <= 2 * render_spec(v, ind).len(),
    decreases v,
{
    match v {
        JsonSpecValue::Number(n) => {
            lemma_digits_head(n);
        },
        JsonSpecValue::Array(items) => {
            if items.len() > 0 {
                lemma_fuel_items_bound(items, (ind + 1) as nat);
            }
        },
        JsonSpecValue::Object(fields) => {
            if fields.len() > 0 {
                lemma_fuel_fields_bound(fields, (ind + 1) as nat);
            }
        },
        _ => {},
    }
}

proof fn lemma_fuel_items_bound(items: Seq<JsonSpecValue>, ind: nat)
    requires
        json_wf_items(items),
        items.len() > 0,
    ensures
        json_fuel_items(items) <= 2 * render_items_spec(items, ind).len(),
    decreases items,
{
    reveal_with_fuel(json_fuel_items, 2);
    lemma_fuel_bound(items[0], ind);
    lemma_spaces_ws(2 * ind);
    if items.len() > 1 {
        lemma_fuel_items_bound(items.drop_first(), ind);
    }
}

proof fn lemma_fuel_fields_bound(fields: Seq<(Seq<char>, JsonSpecValue)>, ind: nat)
    requires
        json_wf_fields(fields),
        fields.len() > 0,
    ensures
        json_fuel_fields(fields) <= 2 * render_fields_spec(fields, ind).len(),
    decreases fields,
{
    reveal_with_fuel(json_fuel_fields, 2);
    lemma_fuel_bound(fields[0].1, ind);
    lemma_spaces_ws(2 * ind);
    assert(quoted_spec(fields[0].0).len() >= 2);
    let head = seq!['\n'] + spaces_spec(2 * ind) + quoted_spec(fields[0].0) + seq![':', ' ']
        + render_spec(fields[0].1, ind);
    assert(head.len() >= 5 + render_spec(fields[0].1, ind).len());
    if fields.len() > 1 {
        lemma_fuel_fields_bound(fields.drop_first(), ind);
        assert(render_fields_spec(fields, ind) == head + seq![','] + render_fields_spec(
            fields.drop_first(),
            ind,
        ));
    } else {
        assert(render_fields_spec(fields, ind) == head);
    }
}

/// The canonical rendering of a well-formed document parses back to that
/// very document.
pub proof fn lemma_parse_document_render(v: JsonSpecValue)
    requires
        json_wf(v),
    ensures
        parse_document_spec(render_document_spec(v)) == Ok::<JsonSpecValue, ()>(v),
{
    let s = render_document_spec(v);
    assert(s.subrange(0, s.len() as int) =~= s);
    lemma_fuel_bound(v, 0);
    lemma_render_head(v, 0);
    lemma_parse_value_render(s, 0, 0, v, 0, document_fuel(s));
}

pub proof fn lemma_json_wf_fields_concat(
    a: Seq<(Seq<char>, JsonSpecValue)>,
    b: Seq<(Seq<char>, JsonSpecValue)>,
)
    ensures
        json_wf_fields(a + b) == (json_wf_fields(a) && json_wf_fields(b)),
    decreases a,
{
    if a.len() == 0 {
        assert(a + b =~= b);
    } else {
        assert((a + b).drop_first() =~= a.drop_first() + b);
        lemma_json_wf_fields_concat(a.drop_first(), b);
    }
}

pub proof fn lemma_json_wf_fields_single(k: Seq<char>, v: JsonSpecValue)
    ensures
        json_wf_fields(seq![(k, v)]) == json_wf(v),
{
    reveal_with_fuel(json_wf_fields, 3);
    assert(seq![(k, v)].drop_first() =~= Seq::<(Seq<char>, JsonSpecValue)>::empty());
}
} // verus!
