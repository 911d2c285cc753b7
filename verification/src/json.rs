//! A small JSON document model and a verified parser for it.
//!
//! The upstream API speaks JSON, so the wire grammar is part of this
//! library's own logic. [`JsonValue`] is the executable document tree;
//! [`Json`] is its mathematical model. The parser accepts JSON documents
//! whose numbers are integers that fit in an `i64` (the schemas this client
//! decodes contain no fractional numbers) and whose string escapes are the
//! single-character ones; anything else is a decode failure, which the
//! transport layer maps to the generic bad-request code.

use vstd::prelude::*;

verus! {

broadcast use vstd::std_specs::vec::axiom_vec_index_decreases;

/// The mathematical model of a JSON document.
pub enum Json {
    Null,
    Bool(bool),
    Int(int),
    Text(Seq<char>),
    Arr(Seq<Json>),
    Obj(Seq<(Seq<char>, Json)>),
}

/// One `name: value` member of a JSON object.
#[derive(Debug)]
pub struct JsonMember {
    pub name: String,
    pub value: JsonValue,
}

/// An executable JSON document tree.
#[derive(Debug)]
pub enum JsonValue {
    Null,
    Bool(bool),
    Int(i64),
    Text(String),
    Arr(Vec<JsonValue>),
    Obj(Vec<JsonMember>),
}

impl JsonValue {
    /// The model of this document tree.
    pub open spec fn model(self) -> Json
        decreases self,
    {
        match self {
            JsonValue::Null => Json::Null,
            JsonValue::Bool(b) => Json::Bool(b),
            JsonValue::Int(n) => Json::Int(n as int),
            JsonValue::Text(s) => Json::Text(s@),
            JsonValue::Arr(vs) => Json::Arr(
                Seq::new(
                    vs@.len(),
                    |i: int|
                        if 0 <= i < vs@.len() {
                            vs[i].model()
                        } else {
                            Json::Null
                        },
                ),
            ),
            JsonValue::Obj(fs) => Json::Obj(
                Seq::new(
                    fs@.len(),
                    |i: int|
                        if 0 <= i < fs@.len() {
                            (fs[i].name@, fs[i].value.model())
                        } else {
                            (Seq::empty(), Json::Null)
                        },
                ),
            ),
        }
    }
}

/// The model of a sequence of executable documents, element by element.
pub open spec fn seq_model(vs: Seq<JsonValue>) -> Seq<Json> {
    Seq::new(vs.len(), |i: int| vs[i].model())
}

/// The model of a sequence of object members, member by member.
pub open spec fn members_model(fs: Seq<JsonMember>) -> Seq<(Seq<char>, Json)> {
    Seq::new(fs.len(), |i: int| (fs[i].name@, fs[i].value.model()))
}

pub proof fn lemma_arr_model(vs: Vec<JsonValue>)
    ensures
        JsonValue::Arr(vs).model() == Json::Arr(seq_model(vs@)),
{
    assert(JsonValue::Arr(vs).model() == Json::Arr(seq_model(vs@))) by {
        let a = JsonValue::Arr(vs).model()->Arr_0;
        assert(a =~= seq_model(vs@));
    }
}

pub proof fn lemma_obj_model(fs: Vec<JsonMember>)
    ensures
        JsonValue::Obj(fs).model() == Json::Obj(members_model(fs@)),
{
    assert(JsonValue::Obj(fs).model() == Json::Obj(members_model(fs@))) by {
        let a = JsonValue::Obj(fs).model()->Obj_0;
        assert(a =~= members_model(fs@));
    }
}

/// JSON insignificant whitespace.
pub open spec fn is_ws(c: char) -> bool {
    c == ' ' || c == '\t' || c == '\n' || c == '\r'
}

/// Whether `c` is a decimal digit.
pub open spec fn is_digit(c: char) -> bool {
    digit_val(c) >= 0
}

/// The value of a decimal digit, or -1 for any other character.
pub open spec fn digit_val(c: char) -> int {
    match c {
        '0' => 0,
        '1' => 1,
        '2' => 2,
        '3' => 3,
        '4' => 4,
        '5' => 5,
        '6' => 6,
        '7' => 7,
        '8' => 8,
        '9' => 9,
        _ => -1,
    }
}

/// The character denoted by a single-character string escape, if any.
pub open spec fn escape_char(c: char) -> Option<char> {
    match c {
        '"' => Some('"'),
        '\\' => Some('\\'),
        '/' => Some('/'),
        'b' => Some('\u{0008}'),
        'f' => Some('\u{000C}'),
        'n' => Some('\n'),
        'r' => Some('\r'),
        't' => Some('\t'),
        _ => None,
    }
}

/// The first position at or after `i` holding a non-whitespace character,
/// or the end of the text.
pub open spec fn spec_skip_ws(s: Seq<char>, i: nat) -> nat
    decreases s.len() - i,
{
    if i < s.len() && is_ws(s[i as int]) {
        spec_skip_ws(s, i + 1)
    } else {
        i
    }
}

/// The body of a string literal starting at `i` (just past the opening
/// quote), accumulated onto `acc`: the decoded text and the position just
/// past the closing quote.
pub open spec fn spec_parse_string(s: Seq<char>, i: nat, acc: Seq<char>) -> Option<(Seq<char>, nat)>
    decreases s.len() - i,
{
    if i >= s.len() {
        None
    } else if s[i as int] == '"' {
        Some((acc, i + 1))
    } else if s[i as int] == '\\' {
        if i + 1 >= s.len() {
            None
        } else {
            match escape_char(s[i as int + 1]) {
                None => None,
                Some(e) => spec_parse_string(s, i + 2, acc.push(e)),
            }
        }
    } else {
        spec_parse_string(s, i + 1, acc.push(s[i as int]))
    }
}

/// The longest run of digits from `i`, folded onto `acc` in decimal;
/// the accumulated value may never exceed `bound`.
pub open spec fn spec_accum_digits(s: Seq<char>, i: nat, acc: int, bound: int) -> Option<(int, nat)>
    decreases s.len() - i,
{
    if i < s.len() && is_digit(s[i as int]) {
        let a = acc * 10 + digit_val(s[i as int]);
        if a > bound {
            None
        } else {
            spec_accum_digits(s, i + 1, a, bound)
        }
    } else {
        Some((acc, i))
    }
}

/// A JSON integer literal at `i`: an optional minus sign and a digit run
/// without a superfluous leading zero, whose value fits in an `i64` and is
/// not followed by a fraction or exponent.
pub open spec fn spec_parse_int(s: Seq<char>, i: nat) -> Option<(int, nat)> {
    let neg = i < s.len() && s[i as int] == '-';
    let d: nat = if neg {
        i + 1
    } else {
        i
    };
    if d >= s.len() || !is_digit(s[d as int]) {
        None
    } else if s[d as int] == '0' && d + 1 < s.len() && is_digit(s[d as int + 1]) {
        None
    } else {
        let bound: int = if neg {
            -(i64::MIN as int)
        } else {
            i64::MAX as int
        };
        match spec_accum_digits(s, d, 0, bound) {
            None => None,
            Some((mag, j)) => if j < s.len() && (s[j as int] == '.' || s[j as int] == 'e'
                || s[j as int] == 'E') {
                None
            } else {
                Some((if neg { -mag } else { mag }, j))
            },
        }
    }
}

/// A JSON value starting at `i` (leading whitespace already skipped).
/// `fuel` bounds the number of nested containers and elements along one
/// branch of the parse, as the depth limit of a practical parser does;
/// it is chosen in [`spec_parse_json`] to be ample for the whole text.
pub open spec fn spec_parse_value(s: Seq<char>, i: nat, fuel: nat) -> Option<(Json, nat)>
    decreases fuel,
{
    if fuel == 0 || i >= s.len() {
        None
    } else {
        let c = s[i as int];
        if c == 'n' {
            if i + 4 <= s.len() && s[i as int + 1] == 'u' && s[i as int + 2] == 'l' && s[i as int
                + 3] == 'l' {
                Some((Json::Null, i + 4))
            } else {
                None
            }
        } else if c == 't' {
            if i + 4 <= s.len() && s[i as int + 1] == 'r' && s[i as int + 2] == 'u' && s[i as int
                + 3] == 'e' {
                Some((Json::Bool(true), i + 4))
            } else {
                None
            }
        } else if c == 'f' {
            if i + 5 <= s.len() && s[i as int + 1] == 'a' && s[i as int + 2] == 'l' && s[i as int
                + 3] == 's' && s[i as int + 4] == 'e' {
                Some((Json::Bool(false), i + 5))
            } else {
                None
            }
        } else if c == '"' {
            match spec_parse_string(s, i + 1, Seq::empty()) {
                None => None,
                Some((t, j)) => Some((Json::Text(t), j)),
            }
        } else if c == '-' || is_digit(c) {
            match spec_parse_int(s, i) {
                None => None,
                Some((n, j)) => Some((Json::Int(n), j)),
            }
        } else if c == '[' {
            let j = spec_skip_ws(s, i + 1);
            if j < s.len() && s[j as int] == ']' {
                Some((Json::Arr(Seq::empty()), j + 1))
            } else {
                match spec_parse_elems(s, j, (fuel - 1) as nat, Seq::empty()) {
                    None => None,
                    Some((vs, k)) => Some((Json::Arr(vs), k)),
                }
            }
        } else if c == '{' {
            let j = spec_skip_ws(s, i + 1);
            if j < s.len() && s[j as int] == '}' {
                Some((Json::Obj(Seq::empty()), j + 1))
            } else {
                match spec_parse_members(s, j, (fuel - 1) as nat, Seq::empty()) {
                    None => None,
                    Some((fs, k)) => Some((Json::Obj(fs), k)),
                }
            }
        } else {
            None
        }
    }
}

/// The elements of an array from `i` (positioned at an element), already
/// holding `acc`: the elements and the position just past the closing
/// bracket.
pub open spec fn spec_parse_elems(s: Seq<char>, i: nat, fuel: nat, acc: Seq<Json>) -> Option<
    (Seq<Json>, nat),
>
    decreases fuel,
{
    if fuel == 0 {
        None
    } else {
        match spec_parse_value(s, i, (fuel - 1) as nat) {
            None => None,
            Some((v, j)) => {
                let k = spec_skip_ws(s, j);
                if k < s.len() && s[k as int] == ',' {
                    spec_parse_elems(s, spec_skip_ws(s, k + 1), (fuel - 1) as nat, acc.push(v))
                } else if k < s.len() && s[k as int] == ']' {
                    Some((acc.push(v), k + 1))
                } else {
                    None
                }
            },
        }
    }
}

/// The members of an object from `i` (positioned at a member's name),
/// already holding `acc`: the members and the position just past the
/// closing brace.
pub open spec fn spec_parse_members(
    s: Seq<char>,
    i: nat,
    fuel: nat,
    acc: Seq<(Seq<char>, Json)>,
) -> Option<(Seq<(Seq<char>, Json)>, nat)>
    decreases fuel,
{
    if fuel == 0 {
        None
    } else if i >= s.len() || s[i as int] != '"' {
        None
    } else {
        match spec_parse_string(s, i + 1, Seq::empty()) {
            None => None,
            Some((name, j)) => {
                let k = spec_skip_ws(s, j);
                if !(k < s.len() && s[k as int] == ':') {
                    None
                } else {
                    match spec_parse_value(s, spec_skip_ws(s, k + 1), (fuel - 1) as nat) {
                        None => None,
                        Some((v, m)) => {
                            let p = spec_skip_ws(s, m);
                            if p < s.len() && s[p as int] == ',' {
                                spec_parse_members(
                                    s,
                                    spec_skip_ws(s, p + 1),
                                    (fuel - 1) as nat,
                                    acc.push((name, v)),
                                )
                            } else if p < s.len() && s[p as int] == '}' {
                                Some((acc.push((name, v)), p + 1))
                            } else {
                                None
                            }
                        },
                    }
                }
            },
        }
    }
}

/// The fuel that [`spec_parse_json`] grants: more than any parse of a text
/// of this length can spend.
pub open spec fn parse_fuel(len: nat) -> nat {
    3 * len + 4
}

/// The document denoted by a JSON text: one value, possibly surrounded by
/// whitespace, spanning the whole text.
pub open spec fn spec_parse_json(s: Seq<char>) -> Option<Json> {
    match spec_parse_value(s, spec_skip_ws(s, 0), parse_fuel(s.len())) {
        None => None,
        Some((v, j)) => if spec_skip_ws(s, j) == s.len() {
            Some(v)
        } else {
            None
        },
    }
}

/// Decides [`is_ws`].
fn ws_char(c: char) -> (b: bool)
    ensures
        b == is_ws(c),
{
    c == ' ' || c == '\t' || c == '\n' || c == '\r'
}

/// Computes [`digit_val`], with 10 standing for "not a digit".
fn digit_of(c: char) -> (d: u8)
    ensures
        is_digit(c) ==> d as int == digit_val(c),
        !is_digit(c) ==> d == 10,
{
    match c {
        '0' => 0,
        '1' => 1,
        '2' => 2,
        '3' => 3,
        '4' => 4,
        '5' => 5,
        '6' => 6,
        '7' => 7,
        '8' => 8,
        '9' => 9,
        _ => 10,
    }
}

/// Computes [`escape_char`].
fn escape_of(c: char) -> (r: Option<char>)
    ensures
        r == escape_char(c),
{
    match c {
        '"' => Some('"'),
        '\\' => Some('\\'),
        '/' => Some('/'),
        'b' => Some('\u{0008}'),
        'f' => Some('\u{000C}'),
        'n' => Some('\n'),
        'r' => Some('\r'),
        't' => Some('\t'),
        _ => None,
    }
}

/// Advances past insignificant whitespace.
fn skip_ws(s: &Vec<char>, i: usize) -> (r: usize)
    requires
        i <= s@.len(),
    ensures
        r as nat == spec_skip_ws(s@, i as nat),
        i <= r <= s@.len(),
{
    let mut j = i;
    while j < s.len() && ws_char(s[j])
        invariant
            i <= j <= s@.len(),
            spec_skip_ws(s@, i as nat) == spec_skip_ws(s@, j as nat),
        decreases s@.len() - j,
    {
        j = j + 1;
    }
    j
}

/// Reads a string literal's body from just past its opening quote.
fn parse_string_at(s: &Vec<char>, i: usize) -> (r: Option<(String, usize)>)
    requires
        i <= s@.len(),
    ensures
        (match r {
            Some((t, j)) => spec_parse_string(s@, i as nat, Seq::empty()) == Some((t@, j as nat))
                && i < j <= s@.len(),
            None => spec_parse_string(s@, i as nat, Seq::empty()) is None,
        }),
{
    let mut acc = String::new();
    let mut j = i;
    loop
        invariant
            i <= j <= s@.len(),
            spec_parse_string(s@, i as nat, Seq::empty()) == spec_parse_string(
                s@,
                j as nat,
                acc@,
            ),
        decreases s@.len() - j,
    {
        if j >= s.len() {
            return None;
        }
        let c = s[j];
        if c == '"' {
            return Some((acc, j + 1));
        }
        if c == '\\' {
            if j + 1 >= s.len() {
                return None;
            }
            match escape_of(s[j + 1]) {
                None => {
                    return None;
                },
                Some(e) => {
                    crate::text::push_char(&mut acc, e);
                    j = j + 2;
                },
            }
        } else {
            crate::text::push_char(&mut acc, c);
            j = j + 1;
        }
    }
}

/// Reads an integer literal.
fn parse_int_at(s: &Vec<char>, i: usize) -> (r: Option<(i64, usize)>)
    requires
        i < s@.len(),
    ensures
        (match r {
            Some((n, j)) => spec_parse_int(s@, i as nat) == Some((n as int, j as nat)) && i < j
                <= s@.len(),
            None => spec_parse_int(s@, i as nat) is None,
        }),
{
    let slen = s.len();
    let neg = s[i] == '-';
    let d0 = if neg {
        i + 1
    } else {
        i
    };
    if d0 >= slen {
        return None;
    }
    if digit_of(s[d0]) >= 10 {
        return None;
    }
    if s[d0] == '0' && d0 + 1 < s.len() && digit_of(s[d0 + 1]) < 10 {
        return None;
    }
    let bound: u64 = if neg {
        9223372036854775808
    } else {
        9223372036854775807
    };
    let mut acc: u64 = 0;
    let mut j = d0;
    while j < s.len() && digit_of(s[j]) < 10
        invariant
            i < s@.len(),
            d0 <= j <= s@.len(),
            d0 < s@.len(),
            neg == (s@[i as int] == '-'),
            d0 as int == (if neg {
                i + 1
            } else {
                i as int
            }),
            is_digit(s@[d0 as int]),
            !(s@[d0 as int] == '0' && d0 + 1 < s@.len() && is_digit(s@[d0 as int + 1])),
            acc <= bound,
            bound as int == (if neg {
                -(i64::MIN as int)
            } else {
                i64::MAX as int
            }),
            spec_accum_digits(s@, d0 as nat, 0, bound as int) == spec_accum_digits(
                s@,
                j as nat,
                acc as int,
                bound as int,
            ),
        decreases s@.len() - j,
    {
        let d = digit_of(s[j]);
        let a: u128 = (acc as u128) * 10 + (d as u128);
        if a > bound as u128 {
            return None;
        }
        acc = a as u64;
        j = j + 1;
    }
    assert(j > d0) by {
        if j == d0 {
            assert(is_digit(s@[d0 as int]));
        }
    }
    if j < s.len() {
        let c = s[j];
        if c == '.' || c == 'e' || c == 'E' {
            return None;
        }
    }
    let n: i64 = if neg {
        if acc == 9223372036854775808 {
            i64::MIN
        } else {
            -(acc as i64)
        }
    } else {
        acc as i64
    };
    Some((n, j))
}

/// Reads one JSON value starting at `i`, mirroring [`spec_parse_value`].
fn parse_value_at(s: &Vec<char>, i: usize, fuel: u128) -> (r: Option<(JsonValue, usize)>)
    requires
        i <= s@.len(),
    ensures
        (match r {
            Some((v, j)) => spec_parse_value(s@, i as nat, fuel as nat) == Some(
                (v.model(), j as nat),
            ) && j <= s@.len(),
            None => spec_parse_value(s@, i as nat, fuel as nat) is None,
        }),
    decreases fuel,
{
    if fuel == 0 {
        return None;
    }
    if i >= s.len() {
        return None;
    }
    let c = s[i];
    let slen = s.len();
    if c == 'n' {
        if slen - i >= 4 && s[i + 1] == 'u' && s[i + 2] == 'l' && s[i + 3] == 'l' {
            return Some((JsonValue::Null, i + 4));
        }
        return None;
    }
    if c == 't' {
        if slen - i >= 4 && s[i + 1] == 'r' && s[i + 2] == 'u' && s[i + 3] == 'e' {
            return Some((JsonValue::Bool(true), i + 4));
        }
        return None;
    }
    if c == 'f' {
        if slen - i >= 5 && s[i + 1] == 'a' && s[i + 2] == 'l' && s[i + 3] == 's' && s[i + 4]
            == 'e' {
            return Some((JsonValue::Bool(false), i + 5));
        }
        return None;
    }
    if c == '"' {
        match parse_string_at(s, i + 1) {
            None => {
                return None;
            },
            Some((t, j)) => {
                return Some((JsonValue::Text(t), j));
            },
        }
    }
    if c == '-' || digit_of(c) < 10 {
        match parse_int_at(s, i) {
            None => {
                return None;
            },
            Some((n, j)) => {
                return Some((JsonValue::Int(n), j));
            },
        }
    }
    if c == '[' {
        let j0 = skip_ws(s, i + 1);
        if j0 < s.len() && s[j0] == ']' {
            let vs: Vec<JsonValue> = Vec::new();
            proof {
                lemma_arr_model(vs);
                assert(seq_model(vs@) =~= Seq::<Json>::empty());
            }
            return Some((JsonValue::Arr(vs), j0 + 1));
        }
        let mut j = j0;
        let mut fuel_cur: u128 = fuel - 1;
        let mut acc: Vec<JsonValue> = Vec::new();
        proof {
            assert(seq_model(acc@) =~= Seq::<Json>::empty());
        }
        loop
            invariant
                j <= s@.len(),
                fuel_cur < fuel,
                spec_parse_value(s@, i as nat, fuel as nat) == (match spec_parse_elems(
                    s@,
                    j as nat,
                    fuel_cur as nat,
                    seq_model(acc@),
                ) {
                    None => None,
                    Some((vs, k)) => Some((Json::Arr(vs), k)),
                }),
            decreases fuel_cur,
        {
            if fuel_cur == 0 {
                return None;
            }
            match parse_value_at(s, j, fuel_cur - 1) {
                None => {
                    return None;
                },
                Some((v, j2)) => {
                    let k = skip_ws(s, j2);
                    let ghost old_acc = acc@;
                    if k < s.len() && s[k] == ',' {
                        acc.push(v);
                        proof {
                            assert(seq_model(acc@) =~= seq_model(old_acc).push(v.model()));
                        }
                        j = skip_ws(s, k + 1);
                        fuel_cur = fuel_cur - 1;
                    } else if k < s.len() && s[k] == ']' {
                        acc.push(v);
                        proof {
                            assert(seq_model(acc@) =~= seq_model(old_acc).push(v.model()));
                            lemma_arr_model(acc);
                        }
                        return Some((JsonValue::Arr(acc), k + 1));
                    } else {
                        return None;
                    }
                },
            }
        }
    }
    if c == '{' {
        let j0 = skip_ws(s, i + 1);
        if j0 < s.len() && s[j0] == '}' {
            let fs: Vec<JsonMember> = Vec::new();
            proof {
                lemma_obj_model(fs);
                assert(members_model(fs@) =~= Seq::<(Seq<char>, Json)>::empty());
            }
            return Some((JsonValue::Obj(fs), j0 + 1));
        }
        let mut j = j0;
        let mut fuel_cur: u128 = fuel - 1;
        let mut acc: Vec<JsonMember> = Vec::new();
        proof {
            assert(members_model(acc@) =~= Seq::<(Seq<char>, Json)>::empty());
        }
        loop
            invariant
                j <= s@.len(),
                fuel_cur < fuel,
                spec_parse_value(s@, i as nat, fuel as nat) == (match spec_parse_members(
                    s@,
                    j as nat,
                    fuel_cur as nat,
                    members_model(acc@),
                ) {
                    None => None,
                    Some((fs, k)) => Some((Json::Obj(fs), k)),
                }),
            decreases fuel_cur,
        {
            if fuel_cur == 0 {
                return None;
            }
            if j >= s.len() {
                return None;
            }
            if s[j] != '"' {
                return None;
            }
            match parse_string_at(s, j + 1) {
                None => {
                    return None;
                },
                Some((name, j2)) => {
                    let k = skip_ws(s, j2);
                    if !(k < s.len() && s[k] == ':') {
                        return None;
                    }
                    let vstart = skip_ws(s, k + 1);
                    match parse_value_at(s, vstart, fuel_cur - 1) {
                        None => {
                            return None;
                        },
                        Some((v, m)) => {
                            let p = skip_ws(s, m);
                            let ghost old_acc = acc@;
                            let ghost name_view = name@;
                            let ghost v_model = v.model();
                            if p < s.len() && s[p] == ',' {
                                acc.push(JsonMember { name, value: v });
                                proof {
                                    assert(members_model(acc@) =~= members_model(old_acc).push(
                                        (name_view, v_model),
                                    ));
                                }
                                j = skip_ws(s, p + 1);
                                fuel_cur = fuel_cur - 1;
                            } else if p < s.len() && s[p] == '}' {
                                acc.push(JsonMember { name, value: v });
                                proof {
                                    assert(members_model(acc@) =~= members_model(old_acc).push(
                                        (name_view, v_model),
                                    ));
                                    lemma_obj_model(acc);
                                }
                                return Some((JsonValue::Obj(acc), p + 1));
                            } else {
                                return None;
                            }
                        },
                    }
                },
            }
        }
    }
    None
}

/// Parses a complete JSON text, given as its sequence of characters.
pub fn parse_json_chars(s: &Vec<char>) -> (r: Option<JsonValue>)
    ensures
        (match r {
            Some(v) => spec_parse_json(s@) == Some(v.model()),
            None => spec_parse_json(s@) is None,
        }),
{
    let fuel: u128 = 3 * (s.len() as u128) + 4;
    let i0 = skip_ws(s, 0);
    match parse_value_at(s, i0, fuel) {
        None => None,
        Some((v, j)) => {
            let j2 = skip_ws(s, j);
            if j2 == s.len() {
                Some(v)
            } else {
                None
            }
        },
    }
}

/// Parses a complete JSON text.
pub fn parse_json(s: &str) -> (r: Option<JsonValue>)
    ensures
        (match r {
            Some(v) => spec_parse_json(s@) == Some(v.model()),
            None => spec_parse_json(s@) is None,
        }),
{
    let chars = crate::text::chars_of(s);
    parse_json_chars(&chars)
}

/// The value of the first member named `name`, if any.
pub open spec fn spec_obj_get(fs: Seq<(Seq<char>, Json)>, name: Seq<char>) -> Option<Json>
    decreases fs.len(),
{
    if fs.len() == 0 {
        None
    } else if fs[0].0 == name {
        Some(fs[0].1)
    } else {
        spec_obj_get(fs.drop_first(), name)
    }
}

/// A required text member: its characters, or `None` when the member is
/// absent or not a string.
pub open spec fn spec_field_string(fs: Seq<(Seq<char>, Json)>, name: Seq<char>) -> Option<
    Seq<char>,
> {
    match spec_obj_get(fs, name) {
        Some(Json::Text(t)) => Some(t),
        _ => None,
    }
}

/// A required integer member.
pub open spec fn spec_field_i64(fs: Seq<(Seq<char>, Json)>, name: Seq<char>) -> Option<int> {
    match spec_obj_get(fs, name) {
        Some(Json::Int(n)) => Some(n),
        _ => None,
    }
}

/// A required boolean member.
pub open spec fn spec_field_bool(fs: Seq<(Seq<char>, Json)>, name: Seq<char>) -> Option<bool> {
    match spec_obj_get(fs, name) {
        Some(Json::Bool(b)) => Some(b),
        _ => None,
    }
}

/// An optional text member: absent and null both decode to `None`; any
/// other non-string value is a decode failure.
pub open spec fn spec_field_opt_string(fs: Seq<(Seq<char>, Json)>, name: Seq<char>) -> Option<
    Option<Seq<char>>,
> {
    match spec_obj_get(fs, name) {
        None => Some(None),
        Some(Json::Null) => Some(None),
        Some(Json::Text(t)) => Some(Some(t)),
        _ => None,
    }
}

/// An optional integer member.
pub open spec fn spec_field_opt_i64(fs: Seq<(Seq<char>, Json)>, name: Seq<char>) -> Option<
    Option<int>,
> {
    match spec_obj_get(fs, name) {
        None => Some(None),
        Some(Json::Null) => Some(None),
        Some(Json::Int(n)) => Some(Some(n)),
        _ => None,
    }
}

/// An optional boolean member.
pub open spec fn spec_field_opt_bool(fs: Seq<(Seq<char>, Json)>, name: Seq<char>) -> Option<
    Option<bool>,
> {
    match spec_obj_get(fs, name) {
        None => Some(None),
        Some(Json::Null) => Some(None),
        Some(Json::Bool(b)) => Some(Some(b)),
        _ => None,
    }
}

/// Looks up the first member named `name`.
pub fn obj_get<'a>(fs: &'a Vec<JsonMember>, name: &str) -> (r: Option<&'a JsonValue>)
    ensures
        (match r {
            Some(v) => spec_obj_get(members_model(fs@), name@) == Some(v.model()),
            None => spec_obj_get(members_model(fs@), name@) is None,
        }),
{
    let ghost m = members_model(fs@);
    proof {
        assert(m.skip(0) =~= m);
    }
    let mut k: usize = 0;
    while k < fs.len()
        invariant
            k <= fs@.len(),
            m == members_model(fs@),
            m.len() == fs@.len(),
            spec_obj_get(m, name@) == spec_obj_get(m.skip(k as int), name@),
        decreases fs@.len() - k,
    {
        if crate::text::str_eq(fs[k].name.as_str(), name) {
            assert(m.skip(k as int)[0] == m[k as int]);
            return Some(&fs[k].value);
        }
        proof {
            assert(m.skip(k as int)[0] == m[k as int]);
            assert(m.skip(k as int).drop_first() =~= m.skip(k + 1));
        }
        k = k + 1;
    }
    proof {
        assert(m.skip(k as int) =~= Seq::empty());
    }
    None
}

/// Reads a required text member.
pub fn field_string(fs: &Vec<JsonMember>, name: &str) -> (r: Option<String>)
    ensures
        (match r {
            Some(t) => spec_field_string(members_model(fs@), name@) == Some(t@),
            None => spec_field_string(members_model(fs@), name@) is None,
        }),
{
    match obj_get(fs, name) {
        Some(JsonValue::Text(t)) => Some(t.clone()),
        _ => None,
    }
}

/// Reads a required integer member.
pub fn field_i64(fs: &Vec<JsonMember>, name: &str) -> (r: Option<i64>)
    ensures
        (match r {
            Some(n) => spec_field_i64(members_model(fs@), name@) == Some(n as int),
            None => spec_field_i64(members_model(fs@), name@) is None,
        }),
{
    match obj_get(fs, name) {
        Some(JsonValue::Int(n)) => Some(*n),
        _ => None,
    }
}

/// Reads a required boolean member.
pub fn field_bool(fs: &Vec<JsonMember>, name: &str) -> (r: Option<bool>)
    ensures
        (match r {
            Some(b) => spec_field_bool(members_model(fs@), name@) == Some(b),
            None => spec_field_bool(members_model(fs@), name@) is None,
        }),
{
    match obj_get(fs, name) {
        Some(JsonValue::Bool(b)) => Some(*b),
        _ => None,
    }
}

/// Reads an optional text member.
pub fn field_opt_string(fs: &Vec<JsonMember>, name: &str) -> (r: Option<Option<String>>)
    ensures
        (match r {
            Some(t) => spec_field_opt_string(members_model(fs@), name@) == Some(t.deep_view()),
            None => spec_field_opt_string(members_model(fs@), name@) is None,
        }),
{
    match obj_get(fs, name) {
        None => Some(None),
        Some(JsonValue::Null) => Some(None),
        Some(JsonValue::Text(t)) => Some(Some(t.clone())),
        _ => None,
    }
}

/// The model of an optional machine integer.
pub open spec fn opt_int_view(o: Option<i64>) -> Option<int> {
    match o {
        Some(n) => Some(n as int),
        None => None,
    }
}

/// Reads an optional integer member.
pub fn field_opt_i64(fs: &Vec<JsonMember>, name: &str) -> (r: Option<Option<i64>>)
    ensures
        (match r {
            Some(t) => spec_field_opt_i64(members_model(fs@), name@) == Some(opt_int_view(t)),
            None => spec_field_opt_i64(members_model(fs@), name@) is None,
        }),
{
    match obj_get(fs, name) {
        None => Some(None),
        Some(JsonValue::Null) => Some(None),
        Some(JsonValue::Int(n)) => Some(Some(*n)),
        _ => None,
    }
}

/// Reads an optional boolean member.
pub fn field_opt_bool(fs: &Vec<JsonMember>, name: &str) -> (r: Option<Option<bool>>)
    ensures
        (match r {
            Some(t) => spec_field_opt_bool(members_model(fs@), name@) == Some(t),
            None => spec_field_opt_bool(members_model(fs@), name@) is None,
        }),
{
    match obj_get(fs, name) {
        None => Some(None),
        Some(JsonValue::Null) => Some(None),
        Some(JsonValue::Bool(b)) => Some(Some(*b)),
        _ => None,
    }
}

} // verus!
