//! Access to JSON documents for the keyframed-composition renderer.
//!
//! The document is parsed and held by `serde_json`; this module gives its
//! values a mathematical model ([`Jn`]) and narrow trusted accessors, and
//! parses the decimal text of JSON numbers into exact fixed-point
//! millionths with verified code.

use vstd::prelude::*;

verus! {

/// Mathematical model of a JSON value: a number is carried as its decimal
/// text, an object as a map from field name to value.
pub enum Jn {
    Null,
    Bool(bool),
    Num(Seq<char>),
    Str(Seq<char>),
    Arr(Seq<Jn>),
    Obj(Map<Seq<char>, Jn>),
}

/// Field of an object model by name, if the model is an object with that
/// field.
pub open spec fn obj_field(j: Jn, key: Seq<char>) -> Option<Jn> {
    match j {
        Jn::Obj(m) => if m.contains_key(key) {
            Some(m[key])
        } else {
            None
        },
        _ => None,
    }
}

#[verifier::external_type_specification]
#[verifier::external_body]
pub struct ExJsonValue(serde_json::Value);

/// The model of a parsed `serde_json` value; a function of the document
/// it was parsed from.
pub uninterp spec fn jnode(v: serde_json::Value) -> Jn;

/// What parsing a text as JSON yields: `None` when the text is not a
/// well-formed document, else the model of its single value.
pub uninterp spec fn json_doc(s: Seq<char>) -> Option<Jn>;

/// Relies on `serde_json::from_str`: parses text as one JSON document.
#[verifier::external_body]
pub(crate) fn json_parse(s: &str) -> (r: Option<serde_json::Value>)
    ensures
        match r {
            Some(v) => json_doc(s@) == Some(jnode(v)),
            None => json_doc(s@) is None,
        },
{
    serde_json::from_str(s).ok()
}

/// Relies on `serde_json::Value::get`: the field of a JSON object by
/// name; `None` on other values or absent fields.
#[verifier::external_body]
pub(crate) fn json_get<'a>(v: &'a serde_json::Value, key: &str) -> (r: Option<
    &'a serde_json::Value,
>)
    ensures
        match r {
            Some(f) => obj_field(jnode(*v), key@) == Some(jnode(*f)),
            None => obj_field(jnode(*v), key@) is None,
        },
{
    v.get(key)
}

/// Relies on `serde_json::Value::as_array`: the elements of a JSON
/// array; `None` on other values.
#[verifier::external_body]
pub(crate) fn json_as_array<'a>(v: &'a serde_json::Value) -> (r: Option<
    &'a Vec<serde_json::Value>,
>)
    ensures
        match r {
            Some(a) => {
                &&& jnode(*v) matches Jn::Arr(s)
                &&& s.len() == a@.len()
                &&& forall|i: int| 0 <= i < s.len() ==> s[i] == jnode(a@[i])
            },
            None => !(jnode(*v) is Arr),
        },
{
    v.as_array()
}

/// Relies on `serde_json::Value::as_str`: the text of a JSON string;
/// `None` on other values.
#[verifier::external_body]
pub(crate) fn json_as_str<'a>(v: &'a serde_json::Value) -> (r: Option<&'a str>)
    ensures
        match r {
            Some(s) => jnode(*v) == Jn::Str(s@),
            None => !(jnode(*v) is Str),
        },
{
    v.as_str()
}

/// Relies on `serde_json::Number`'s decimal formatting: the decimal text
/// of a JSON number, a function of the document alone; `None` on other
/// values.
#[verifier::external_body]
pub(crate) fn json_number_chars(v: &serde_json::Value) -> (r: Option<Vec<char>>)
    ensures
        match r {
            Some(cs) => jnode(*v) == Jn::Num(cs@),
            None => !(jnode(*v) is Num),
        },
{
    match v {
        serde_json::Value::Number(n) => Some(format!("{}", n).chars().collect()),
        _ => None,
    }
}

/// Whether `c` is a decimal digit.
pub open spec fn is_digit(c: char) -> bool {
    48 <= c as u32 <= 57
}

/// Whether every character of `s` is a decimal digit.
pub open spec fn all_digits(s: Seq<char>) -> bool {
    forall|i: int| 0 <= i < s.len() ==> is_digit(#[trigger] s[i])
}

/// Numeric value of a digit string, most significant first.
pub open spec fn digits_value(s: Seq<char>) -> int
    decreases s.len(),
{
    if s.len() == 0 {
        0
    } else {
        digits_value(s.drop_last()) * 10 + (s.last() as u32 - 48)
    }
}

/// `10^k`.
pub open spec fn pow10(k: nat) -> int
    decreases k,
{
    if k == 0 {
        1
    } else {
        10 * pow10((k - 1) as nat)
    }
}

/// Index of the first `.` in `s`, or its length when there is none.
pub open spec fn dot_position(s: Seq<char>) -> int
    decreases s.len(),
{
    if s.len() == 0 {
        0
    } else if s[0] == '.' {
        0
    } else {
        1 + dot_position(s.drop_first())
    }
}

/// Value in millionths of an unsigned decimal `digits[.digits]`: the
/// integer part must have 1 to 12 digits; fractional digits beyond the
/// sixth are truncated.  `None` when the shape is anything else.
pub open spec fn parse_unsigned_micro(s: Seq<char>) -> Option<int> {
    let d = dot_position(s);
    let ip = s.subrange(0, d);
    if 1 <= ip.len() <= 12 && all_digits(ip) {
        if d == s.len() {
            Some(digits_value(ip) * 1000000)
        } else {
            let fp = s.subrange(d + 1, s.len() as int);
            if 1 <= fp.len() && all_digits(fp) {
                let taken = if fp.len() <= 6 {
                    fp
                } else {
                    fp.subrange(0, 6)
                };
                Some(
                    digits_value(ip) * 1000000 + digits_value(taken) * pow10(
                        (6 - taken.len()) as nat,
                    ),
                )
            } else {
                None
            }
        }
    } else {
        None
    }
}

/// Value in millionths of a decimal with an optional leading minus sign;
/// exponent notation and other shapes give `None`.
pub open spec fn parse_micro(s: Seq<char>) -> Option<int> {
    if s.len() >= 1 && s[0] == '-' {
        match parse_unsigned_micro(s.drop_first()) {
            Some(v) => Some(-v),
            None => None,
        }
    } else {
        parse_unsigned_micro(s)
    }
}

/// Millionths denoted by a number model; the default when the model is
/// no number or its text cannot be read back (exponent notation).
pub open spec fn num_micro_or(j: Jn, default: int) -> int {
    match j {
        Jn::Num(cs) => match parse_micro(cs) {
            Some(v) => v,
            None => default,
        },
        _ => default,
    }
}

proof fn lemma_digits_value_bound(s: Seq<char>)
    requires
        all_digits(s),
    ensures
        0 <= digits_value(s) < pow10(s.len()),
    decreases s.len(),
{
    if s.len() == 0 {
    } else {
        assert(all_digits(s.drop_last())) by {
            assert(forall|i: int|
                0 <= i < s.len() - 1 ==> s.drop_last()[i] == #[trigger] s[i]);
        }
        lemma_digits_value_bound(s.drop_last());
        assert(digits_value(s.drop_last()) * 10 + (s.last() as u32 - 48) < pow10(
            s.len(),
        )) by (nonlinear_arith)
            requires
                digits_value(s.drop_last()) < pow10((s.len() - 1) as nat),
                pow10(s.len()) == 10 * pow10((s.len() - 1) as nat),
                48 <= s.last() as u32 <= 57,
                digits_value(s.drop_last()) >= 0,
        ;
    }
}

/// Reads a digit string (at most 12 digits) into its numeric value.
fn digits_to_value(s: &Vec<char>, from: usize, to: usize) -> (r: Option<i64>)
    requires
        from <= to <= s@.len(),
    ensures
        match r {
            Some(v) => {
                &&& all_digits(s@.subrange(from as int, to as int))
                &&& 1 <= to - from <= 12
                &&& v == digits_value(s@.subrange(from as int, to as int))
                &&& 0 <= v < 1000000000000
            },
            None => !(1 <= to - from <= 12 && all_digits(
                s@.subrange(from as int, to as int),
            )),
        },
{
    if to - from < 1 || to - from > 12 {
        return None;
    }
    let ghost whole = s@.subrange(from as int, to as int);
    let mut v: i64 = 0;
    let mut i: usize = from;
    proof {
        assert(s@.subrange(from as int, from as int) =~= Seq::<char>::empty());
    }
    while i < to
        invariant
            from <= i <= to <= s@.len(),
            to - from <= 12,
            all_digits(s@.subrange(from as int, i as int)),
            v == digits_value(s@.subrange(from as int, i as int)),
            0 <= v < pow10((i - from) as nat),
        decreases to - i,
    {
        let c = s[i];
        let code = c as u32;
        if code < 48 || code > 57 {
            proof {
                assert(s@.subrange(from as int, to as int)[i - from] == s@[i as int]);
                assert(!is_digit(s@[i as int]));
            }
            return None;
        }
        proof {
            let pre = s@.subrange(from as int, i as int);
            let post = s@.subrange(from as int, i + 1);
            assert(post.drop_last() =~= pre);
            assert(post.last() == s@[i as int]);
            assert(is_digit(s@[i as int]));
            assert(all_digits(post)) by {
                assert(forall|j: int|
                    0 <= j < post.len() - 1 ==> post[j] == #[trigger] pre[j]);
            }
            lemma_digits_value_bound(post);
            lemma_pow10_increases(((i + 1) - from) as nat, 12);
            assert(pow10(((i + 1) - from) as nat) == 10 * pow10((i - from) as nat));
            assert(v * 10 + (code - 48) < 1000000000000);
        }
        v = v * 10 + ((code - 48) as i64);
        i = i + 1;
    }
    proof {
        lemma_pow10_increases((to - from) as nat, 12);
    }
    Some(v)
}

proof fn lemma_pow10_increases(a: nat, b: nat)
    requires
        a <= b,
    ensures
        pow10(a) <= pow10(b),
        pow10(12) == 1000000000000,
    decreases b,
{
    assert(pow10(12) == 1000000000000) by {
        reveal_with_fuel(pow10, 13);
    }
    if a < b {
        lemma_pow10_increases(a, (b - 1) as nat);
        assert(pow10(b) == 10 * pow10((b - 1) as nat));
        assert(pow10((b - 1) as nat) >= 0) by {
            lemma_pow10_nonneg((b - 1) as nat);
        }
    }
}

proof fn lemma_pow10_nonneg(k: nat)
    ensures
        pow10(k) >= 1,
    decreases k,
{
    if k > 0 {
        lemma_pow10_nonneg((k - 1) as nat);
    }
}

/// Position of the first `.` in `s`, or its length when there is none.
fn find_dot(s: &Vec<char>, from: usize) -> (r: usize)
    requires
        from <= s@.len(),
    ensures
        from <= r <= s@.len(),
        r - from == dot_position(s@.subrange(from as int, s@.len() as int)),
{
    let n = s.len();
    let mut i: usize = from;
    while i < n
        invariant
            from <= i <= n == s@.len(),
            dot_position(s@.subrange(from as int, n as int)) == (i - from) + dot_position(
                s@.subrange(i as int, n as int),
            ),
            forall|j: int| from <= j < i ==> s@[j] != '.',
        decreases n - i,
    {
        proof {
            let tail = s@.subrange(i as int, n as int);
            assert(tail[0] == s@[i as int]);
            assert(tail.drop_first() =~= s@.subrange(i + 1, n as int));
        }
        if s[i] == '.' {
            return i;
        }
        i = i + 1;
    }
    proof {
        assert(s@.subrange(n as int, n as int) =~= Seq::<char>::empty());
    }
    n
}

/// Reads the decimal text of a JSON number into exact millionths:
/// an optional minus sign, an integer part of at most 12 digits and an
/// optional fraction, truncated beyond the sixth fractional digit.
/// `None` for any other shape (exponent notation among them).
pub fn decimal_to_micro(s: &Vec<char>) -> (r: Option<i64>)
    ensures
        match r {
            Some(v) => parse_micro(s@) == Some(v as int),
            None => parse_micro(s@) is None,
        },
{
    let n = s.len();
    if n >= 1 && s[0] == '-' {
        let ghost body = s@.drop_first();
        let r = unsigned_to_micro(s, 1);
        proof {
            assert(s@.subrange(1, n as int) =~= body);
        }
        match r {
            Some(v) => Some(-v),
            None => None,
        }
    } else {
        proof {
            assert(s@.subrange(0, n as int) =~= s@);
        }
        unsigned_to_micro(s, 0)
    }
}

/// Reads the unsigned decimal `s[from..]` into millionths.
fn unsigned_to_micro(s: &Vec<char>, from: usize) -> (r: Option<i64>)
    requires
        from <= s@.len(),
    ensures
        match r {
            Some(v) => {
                &&& parse_unsigned_micro(s@.subrange(from as int, s@.len() as int)) == Some(
                    v as int,
                )
                &&& -0x8000_0000_0000_0000 < v
            },
            None => parse_unsigned_micro(s@.subrange(from as int, s@.len() as int)) is None,
        },
{
    let n = s.len();
    let ghost body = s@.subrange(from as int, n as int);
    let d = find_dot(s, from);
    proof {
        assert(body.subrange(0, (d - from) as int) =~= s@.subrange(from as int, d as int));
    }
    let ip = match digits_to_value(s, from, d) {
        Some(v) => v,
        None => {
            return None;
        },
    };
    if d == n {
        proof {
            assert(dot_position(body) == d - from);
        }
        return Some(ip * 1000000);
    }
    // fractional part present
    proof {
        assert(d < n);
    }
    let fr_start = d + 1;
    let fr_len = n - fr_start;
    let ghost fp = body.subrange((d - from) as int + 1, body.len() as int);
    proof {
        assert(fp =~= s@.subrange(fr_start as int, n as int));
    }
    if fr_len < 1 {
        return None;
    }
    // every fractional character must be a digit, even truncated ones
    let mut all_ok = true;
    let mut i: usize = fr_start;
    while i < n
        invariant
            fr_start <= i <= n == s@.len(),
            all_ok <==> forall|j: int| fr_start <= j < i ==> is_digit(#[trigger] s@[j]),
        decreases n - i,
    {
        let code = s[i] as u32;
        if code < 48 || code > 57 {
            proof {
                assert(!is_digit(s@[i as int]));
            }
            all_ok = false;
        } else {
            proof {
                assert(is_digit(s@[i as int]));
            }
        }
        i = i + 1;
    }
    proof {
        assert(forall|j: int|
            0 <= j < fp.len() ==> fp[j] == #[trigger] s@[j + fr_start]);
    }
    if !all_ok {
        proof {
            let bad = choose|j: int| fr_start <= j < n && !is_digit(s@[j]);
            assert(!is_digit(fp[bad - fr_start]));
        }
        return None;
    }
    proof {
        assert(all_digits(fp));
    }
    let taken_end = if fr_len <= 6 {
        n
    } else {
        fr_start + 6
    };
    let ghost taken = if fp.len() <= 6 {
        fp
    } else {
        fp.subrange(0, 6)
    };
    proof {
        assert(taken =~= s@.subrange(fr_start as int, taken_end as int));
        assert(all_digits(taken));
    }
    let fv = match digits_to_value(s, fr_start, taken_end) {
        Some(v) => v,
        None => {
            proof {
                assert(1 <= taken.len() <= 6);
                assert(false);
            }
            return None;
        },
    };
    let scale_k = 6 - (taken_end - fr_start);
    let mut mul: i64 = 1;
    let mut k: usize = 0;
    while k < scale_k
        invariant
            0 <= k <= scale_k <= 5,
            mul == pow10(k as nat),
            1 <= mul <= 100000,
        decreases scale_k - k,
    {
        proof {
            reveal_with_fuel(pow10, 7);
            lemma_pow10_increases((k + 1) as nat, 5);
        }
        mul = mul * 10;
        k = k + 1;
    }
    proof {
        lemma_digits_value_bound(taken);
        lemma_pow10_increases(taken.len(), 12);
        assert(digits_value(taken) * pow10((6 - taken.len()) as nat) < 1000000000000
            * 100000 + 1000000) by (nonlinear_arith)
            requires
                0 <= digits_value(taken) < 1000000000000,
                1 <= pow10((6 - taken.len()) as nat) <= 100000,
        ;
    }
    Some(ip * 1000000 + fv * mul)
}

} // verus!
