//! The value-literal grammar of the markup language: enum literals such as
//! `Color::rgb(100%, 0%, 0%)`, object literals such as `Stroke { width: 1px }`,
//! and the intermediate shapes the deserialization layer walks. The parsers
//! here handle exactly the flat forms: segmented enum heads with one optional
//! argument list in parentheses, and one level of key-value pairs.

use vstd::prelude::*;
use crate::numeric::Numeric;

verus! {

/// Rejection of a malformed literal.
#[derive(Clone, Copy, Debug, PartialEq, Eq, Structural)]
pub enum ParseError {
    MalformedLiteral,
}

/// The entry point for the value-literal grammar.
pub struct PaxParser;

/// An enum literal taken apart: optional type identifier, variant, optional
/// raw argument text. A `None` identifier lets tuple structs ride the same
/// shape.
pub struct PaxEnum {
    pub identifier: Option<String>,
    pub variant: String,
    pub args: Option<String>,
}

/// A color-function literal: the function name and its raw arguments, each
/// classified as percent, integer, or rotation text.
pub struct PaxColor {
    pub color_func: String,
    pub args: Vec<ColorFuncArg>,
}

/// One raw argument of a color function.
pub enum ColorFuncArg {
    Percent(String),
    Integer(String),
    Rotation(String),
}

/// A sequence literal in flight: its elements and a cursor.
pub struct PaxSeq {
    pub elements: Vec<PaxSeqArg>,
    pub index: usize,
}

/// One element of a sequence literal: raw text or a nested enum literal.
pub enum PaxSeqArg {
    Text(String),
    Enum(PaxEnum),
}

/// An object literal in flight: optional type name, key-value pairs, and a
/// cursor.
pub struct PaxObject {
    pub name: Option<String>,
    pub elements: Vec<(String, String)>,
    pub index: usize,
}

impl PaxEnum {
    pub fn new(identifier: Option<String>, variant: String, args: Option<String>) -> (r: Self)
        ensures
            r.identifier == identifier,
            r.variant == variant,
            r.args == args,
    {
        PaxEnum { identifier, variant, args }
    }
}

impl PaxSeq {
    pub fn new(elements: Vec<PaxSeqArg>) -> (r: Self)
        ensures
            r.elements@ == elements@,
            r.index == 0,
    {
        PaxSeq { elements, index: 0 }
    }
}

impl PaxObject {
    pub fn new(name: Option<String>, elements: Vec<(String, String)>) -> (r: Self)
        ensures
            r.name == name,
            r.elements@ == elements@,
            r.index == 0,
    {
        PaxObject { name, elements, index: 0 }
    }
}

/// The first index of `c` in `s`, if any.
pub open spec fn find_char_spec(s: Seq<char>, c: char) -> Option<int>
    decreases s.len(),
{
    if s.len() == 0 {
        Option::None
    } else if s[0] == c {
        Option::Some(0)
    } else {
        match find_char_spec(s.drop_first(), c) {
            Option::Some(i) => Option::Some(i + 1),
            Option::None => Option::None,
        }
    }
}

/// The last position `k < end - 1` where `s` holds a `::` separator, if any.
pub open spec fn find_last_dcolon_spec(s: Seq<char>, end: int) -> Option<int>
    decreases end,
{
    if end < 2 {
        Option::None
    } else if s[end - 2] == ':' && s[end - 1] == ':' {
        Option::Some(end - 2)
    } else {
        find_last_dcolon_spec(s, end - 1)
    }
}

/// First index of a character in a string.
fn find_char(s: &str, c: char) -> (r: Option<usize>)
    ensures
        (match r {
            Option::Some(i) => Option::Some(i as int) == find_char_spec(s@, c) && i < s@.len()
                && s@[i as int] == c,
            Option::None => find_char_spec(s@, c) is None,
        }),
{
    let len: usize = s.unicode_len();
    proof {
        lemma_find_char_in_bounds(s@, c);
    }
    let mut i: usize = 0;
    while i < len
        invariant
            i <= len,
            len == s@.len(),
            forall|k: int| 0 <= k < i ==> s@[k] != c,
            (match find_char_spec(s@, c) {
                Option::Some(j) => i <= j < s@.len() && s@[j] == c,
                Option::None => true,
            }),
        decreases len - i,
    {
        if s.get_char(i) == c {
            proof {
                lemma_find_char_hit(s@, c, i as int);
            }
            return Option::Some(i);
        }
        proof {
            lemma_find_char_skip(s@, c, i as int);
            lemma_find_char_in_bounds(s@, c);
        }
        i = i + 1;
    }
    proof {
        lemma_find_char_none(s@, c);
    }
    Option::None
}

/// A first hit, when there is one, lies inside the string on `c`.
pub proof fn lemma_find_char_in_bounds(s: Seq<char>, c: char)
    ensures
        (match find_char_spec(s, c) {
            Option::Some(j) => 0 <= j < s.len() && s[j] == c,
            Option::None => true,
        }),
    decreases s.len(),
{
    if s.len() > 0 {
        lemma_find_char_in_bounds(s.drop_first(), c);
    }
}

/// If a prefix holds no `c` and position `i` holds `c`, the first hit is `i`.
proof fn lemma_find_char_hit(s: Seq<char>, c: char, i: int)
    requires
        0 <= i < s.len(),
        s[i] == c,
        forall|k: int| 0 <= k < i ==> s[k] != c,
    ensures
        find_char_spec(s, c) == Option::Some(i),
    decreases i,
{
    if i == 0 {
    } else {
        lemma_find_char_hit(s.drop_first(), c, i - 1);
    }
}

/// A miss at position `i` pushes any hit past `i`.
proof fn lemma_find_char_skip(s: Seq<char>, c: char, i: int)
    requires
        0 <= i < s.len(),
        forall|k: int| 0 <= k <= i ==> s[k] != c,
    ensures
        (match find_char_spec(s, c) {
            Option::Some(j) => j > i,
            Option::None => true,
        }),
    decreases i,
{
    lemma_find_char_in_bounds(s, c);
    if i == 0 {
        lemma_find_char_in_bounds(s.drop_first(), c);
    } else {
        lemma_find_char_skip(s.drop_first(), c, i - 1);
    }
}

/// A string without `c` anywhere has no first hit.
proof fn lemma_find_char_none(s: Seq<char>, c: char)
    requires
        forall|k: int| 0 <= k < s.len() ==> s[k] != c,
    ensures
        find_char_spec(s, c) is None,
    decreases s.len(),
{
    if s.len() > 0 {
        lemma_find_char_none(s.drop_first(), c);
    }
}

/// Last `::` separator strictly before `end`.
fn find_last_dcolon(s: &str, end: usize) -> (r: Option<usize>)
    requires
        end <= s@.len(),
    ensures
        (match r {
            Option::Some(i) => Option::Some(i as int) == find_last_dcolon_spec(s@, end as int)
                && i + 2 <= end,
            Option::None => find_last_dcolon_spec(s@, end as int) is None,
        }),
{
    let mut e: usize = end;
    while e >= 2
        invariant
            e <= end <= s@.len(),
            find_last_dcolon_spec(s@, end as int) == find_last_dcolon_spec(s@, e as int),
        decreases e,
    {
        if s.get_char(e - 2) == ':' && s.get_char(e - 1) == ':' {
            return Option::Some(e - 2);
        }
        e = e - 1;
    }
    Option::None
}

/// Whether a character sequence is a well-formed enum literal: a
/// `::`-separated head with a non-empty variant and identifier, and an
/// optional parenthesized argument list closing at the very end.
pub open spec fn is_enum_literal(s: Seq<char>) -> bool {
    let head_end = (match find_char_spec(s, '(') {
        Option::Some(p) => p,
        Option::None => s.len() as int,
    });
    match find_last_dcolon_spec(s, head_end) {
        Option::Some(k) => {
            &&& k + 2 < head_end
            &&& (match find_last_dcolon_spec(s, k) {
                Option::Some(m) => m + 2 < k,
                Option::None => k > 0,
            })
            &&& (match find_char_spec(s, '(') {
                Option::Some(p) => p + 1 < s.len() && s[s.len() - 1] == ')',
                Option::None => true,
            })
        },
        Option::None => false,
    }
}

impl PaxEnum {
    /// Take an enum literal apart: an optional argument list in parentheses
    /// follows a `::`-separated head, of which the last segment is the
    /// variant and the segment before it the type identifier (any earlier
    /// segments are path qualifiers and are dropped). Malformed forms — no
    /// separator, an empty variant or identifier, or unbalanced parentheses
    /// — are rejected.
    pub fn from_string(input: String) -> (r: Result<PaxEnum, ParseError>)
        ensures
            (match r {
                Result::Ok(e) => {
                    let s = input@;
                    let head_end = (match find_char_spec(s, '(') {
                        Option::Some(p) => p,
                        Option::None => s.len() as int,
                    });
                    (match find_last_dcolon_spec(s, head_end) {
                        Option::Some(k) => {
                            &&& e.variant@ == s.subrange(k + 2, head_end)
                            &&& e.variant@.len() > 0
                            &&& (match e.identifier {
                                Option::Some(ident) => ident@ == (
                                match find_last_dcolon_spec(s, k) {
                                    Option::Some(m) => s.subrange(m + 2, k),
                                    Option::None => s.subrange(0, k),
                                }) && ident@.len() > 0,
                                Option::None => false,
                            })
                            &&& (match (find_char_spec(s, '('), e.args) {
                                (Option::Some(p), Option::Some(a)) => a@ == s.subrange(
                                    p + 1,
                                    s.len() - 1,
                                ) && s[s.len() - 1] == ')',
                                (Option::None, Option::None) => true,
                                _ => false,
                            })
                        },
                        Option::None => false,
                    })
                },
                Result::Err(_) => !is_enum_literal(input@),
            }),
            r is Ok <==> is_enum_literal(input@),
    {
        let s: &str = input.as_str();
        let len: usize = s.unicode_len();
        let paren = find_char(s, '(');
        let head_end: usize = match paren {
            Option::Some(p) => p,
            Option::None => len,
        };
        let k: usize = match find_last_dcolon(s, head_end) {
            Option::Some(k) => k,
            Option::None => {
                return Result::Err(ParseError::MalformedLiteral);
            },
        };
        if k + 2 >= head_end {
            return Result::Err(ParseError::MalformedLiteral);
        }
        let variant: String = String::from_str(s.substring_char(k + 2, head_end));
        let identifier: String = match find_last_dcolon(s, k) {
            Option::Some(m) => {
                if m + 2 >= k {
                    return Result::Err(ParseError::MalformedLiteral);
                }
                String::from_str(s.substring_char(m + 2, k))
            },
            Option::None => {
                if k == 0 {
                    return Result::Err(ParseError::MalformedLiteral);
                }
                String::from_str(s.substring_char(0, k))
            },
        };
        let args: Option<String> = match paren {
            Option::Some(p) => {
                if p + 1 >= len {
                    return Result::Err(ParseError::MalformedLiteral);
                }
                if s.get_char(len - 1) != ')' {
                    return Result::Err(ParseError::MalformedLiteral);
                }
                Option::Some(String::from_str(s.substring_char(p + 1, len - 1)))
            },
            Option::None => Option::None,
        };
        Result::Ok(PaxEnum { identifier: Option::Some(identifier), variant, args })
    }
}

/// The key-value split of one `key: value` piece, at its first colon; the
/// key may not be empty.
pub open spec fn kv_of(piece: Seq<char>) -> Option<(Seq<char>, Seq<char>)> {
    match find_char_spec(piece, ':') {
        Option::Some(c) => if c > 0 {
            Option::Some((piece.subrange(0, c), piece.subrange(c + 1, piece.len() as int)))
        } else {
            Option::None
        },
        Option::None => Option::None,
    }
}

/// The key-value pairs of a flat comma-separated body, or nothing when some
/// piece is not a `key: value` form.
pub open spec fn pairs_of(s: Seq<char>) -> Option<Seq<(Seq<char>, Seq<char>)>>
    decreases s.len(),
{
    match find_char_spec(s, ',') {
        Option::Some(i) => {
            proof {
                lemma_find_char_in_bounds(s, ',');
            }
            match (kv_of(s.subrange(0, i)), pairs_of(s.subrange(i + 1, s.len() as int))) {
                (Option::Some(kv), Option::Some(rest)) => Option::Some(seq![kv] + rest),
                _ => Option::None,
            }
        },
        Option::None => match kv_of(s) {
            Option::Some(kv) => Option::Some(seq![kv]),
            Option::None => Option::None,
        },
    }
}

/// Whether a character sequence is a well-formed flat object literal: an
/// optional name before `{`, a closing `}` at the very end, and a body of
/// `key: value` pairs (or nothing) between them.
pub open spec fn is_object_literal(s: Seq<char>) -> bool {
    match find_char_spec(s, '{') {
        Option::Some(b) => {
            &&& s.len() > 0
            &&& s[s.len() - 1] == '}'
            &&& b + 1 <= s.len() - 1
            &&& ({
                let body = s.subrange(b + 1, s.len() - 1);
                body.len() == 0 || pairs_of(body) is Some
            })
        },
        Option::None => false,
    }
}

impl PaxObject {
    /// Take a flat object literal apart: an optional leading type name
    /// before `{`, then `key: value` pairs separated by commas, without
    /// nested braces. Rejects anything else.
    pub fn from_string(input: String) -> (r: Result<PaxObject, ParseError>)
        ensures
            (match r {
                Result::Ok(o) => {
                    let s = input@;
                    (match find_char_spec(s, '{') {
                        Option::Some(b) => {
                            &&& s.len() > 0
                            &&& s[s.len() - 1] == '}'
                            &&& (match o.name {
                                Option::Some(nm) => nm@ == s.subrange(0, b) && b > 0,
                                Option::None => b == 0,
                            })
                            &&& o.index == 0
                            &&& ({
                                let body = s.subrange(b + 1, s.len() - 1);
                                if body.len() == 0 {
                                    o.elements@.len() == 0
                                } else {
                                    match pairs_of(body) {
                                        Option::Some(p) => o.elements@.len() == p.len() && (
                                        forall|j: int|
                                            0 <= j < p.len() ==> (#[trigger] o.elements@[j]).0@
                                                == p[j].0 && o.elements@[j].1@ == p[j].1),
                                        Option::None => false,
                                    }
                                }
                            })
                        },
                        Option::None => false,
                    })
                },
                Result::Err(_) => !is_object_literal(input@),
            }),
            r is Ok <==> is_object_literal(input@),
    {
        let s: &str = input.as_str();
        let len: usize = s.unicode_len();
        let b: usize = match find_char(s, '{') {
            Option::Some(b) => b,
            Option::None => {
                return Result::Err(ParseError::MalformedLiteral);
            },
        };
        if len == 0 || b + 1 > len {
            return Result::Err(ParseError::MalformedLiteral);
        }
        if s.get_char(len - 1) != '}' {
            return Result::Err(ParseError::MalformedLiteral);
        }
        let name: Option<String> = if b > 0 {
            Option::Some(String::from_str(s.substring_char(0, b)))
        } else {
            Option::None
        };
        if b + 1 > len - 1 {
            return Result::Err(ParseError::MalformedLiteral);
        }
        let body: &str = s.substring_char(b + 1, len - 1);
        let elements = match split_pairs(body) {
            Result::Ok(v) => v,
            Result::Err(e) => {
                return Result::Err(e);
            },
        };
        Result::Ok(PaxObject { name, elements, index: 0 })
    }
}

/// Split a flat `key: value, key: value` body into raw pairs; each
/// comma-separated piece must hold a `key: value` form. An empty body
/// yields no pairs.
fn split_pairs(body: &str) -> (r: Result<Vec<(String, String)>, ParseError>)
    ensures
        (match r {
            Result::Ok(v) => {
                if body@.len() == 0 {
                    v@.len() == 0
                } else {
                    match pairs_of(body@) {
                        Option::Some(p) => v@.len() == p.len() && (forall|j: int|
                            0 <= j < p.len() ==> (#[trigger] v@[j]).0@ == p[j].0 && v@[j].1@
                                == p[j].1),
                        Option::None => false,
                    }
                }
            },
            Result::Err(_) => body@.len() > 0 && pairs_of(body@) is None,
        }),
{
    let mut pairs: Vec<(String, String)> = Vec::new();
    if body.unicode_len() == 0 {
        return Result::Ok(pairs);
    }
    match split_pairs_into(body, &mut pairs) {
        Result::Ok(_) => {
            proof {
                let p = pairs_of(body@).unwrap();
                assert forall|j: int|
                    0 <= j < p.len() implies (#[trigger] pairs@[j]).0@ == p[j].0 && pairs@[j].1@
                        == p[j].1 by {
                    assert(pairs@[0 + j].0@ == p[j].0);
                    assert(pairs@[0 + j].1@ == p[j].1);
                }
            }
            Result::Ok(pairs)
        },
        Result::Err(e) => Result::Err(e),
    }
}

/// Append the pairs of a non-empty body, piece by piece.
fn split_pairs_into(body: &str, out: &mut Vec<(String, String)>) -> (r: Result<(), ParseError>)
    ensures
        (match r {
            Result::Ok(_) => (match pairs_of(body@) {
                Option::Some(p) => final(out)@.len() == old(out)@.len() + p.len()
                    && final(out)@.subrange(0, old(out)@.len() as int) == old(out)@ && (forall|j: int|
                    0 <= j < p.len() ==> (#[trigger] final(out)@[old(out)@.len() + j]).0@
                        == p[j].0 && final(out)@[old(out)@.len() + j].1@ == p[j].1),
                Option::None => false,
            }),
            Result::Err(_) => pairs_of(body@) is None,
        }),
    decreases body@.len(),
{
    let len: usize = body.unicode_len();
    match find_char(body, ',') {
        Option::Some(i) => {
            let piece: &str = body.substring_char(0, i);
            let kv = match split_key_value(piece) {
                Result::Ok(kv) => kv,
                Result::Err(e) => {
                    return Result::Err(e);
                },
            };
            out.push(kv);
            let ghost mid = out@;
            let rest: &str = body.substring_char(i + 1, len);
            let rr = split_pairs_into(rest, out);
            match rr {
                Result::Ok(_) => {
                    proof {
                        let p = pairs_of(body@).unwrap();
                        assert(out@.subrange(0, old(out)@.len() as int) =~= old(out)@);
                        assert forall|j: int|
                            0 <= j < p.len() implies (#[trigger] out@[old(out)@.len() + j]).0@
                                == p[j].0 && out@[old(out)@.len() + j].1@ == p[j].1 by {
                            if j == 0 {
                                assert(out@[old(out)@.len() as int] == mid.last());
                            } else {
                                let q = pairs_of(rest@).unwrap();
                                assert(p[j] == q[j - 1]);
                                assert(out@[mid.len() + (j - 1)] == out@[old(out)@.len() + j]);
                            }
                        }
                    }
                    Result::Ok(())
                },
                Result::Err(e) => Result::Err(e),
            }
        },
        Option::None => {
            let kv = match split_key_value(body) {
                Result::Ok(kv) => kv,
                Result::Err(e) => {
                    return Result::Err(e);
                },
            };
            out.push(kv);
            proof {
                assert(out@.subrange(0, old(out)@.len() as int) =~= old(out)@);
            }
            Result::Ok(())
        },
    }
}

/// Split one `key: value` piece at its first colon.
fn split_key_value(piece: &str) -> (r: Result<(String, String), ParseError>)
    ensures
        (match r {
            Result::Ok(kv) => (match kv_of(piece@) {
                Option::Some(p) => kv.0@ == p.0 && kv.1@ == p.1,
                Option::None => false,
            }),
            Result::Err(_) => kv_of(piece@) is None,
        }),
{
    let len: usize = piece.unicode_len();
    let c: usize = match find_char(piece, ':') {
        Option::Some(c) => c,
        Option::None => {
            return Result::Err(ParseError::MalformedLiteral);
        },
    };
    if c == 0 {
        return Result::Err(ParseError::MalformedLiteral);
    }
    let key: String = String::from_str(piece.substring_char(0, c));
    if c + 1 > len {
        return Result::Err(ParseError::MalformedLiteral);
    }
    let value: String = String::from_str(piece.substring_char(c + 1, len));
    Result::Ok((key, value))
}

/// A primitive literal, classified: a number, a boolean, or raw text.
pub enum LiteralValue {
    Number(Numeric),
    Boolean(bool),
    Text(String),
}

/// Classifies one primitive literal the way the deserialization layer
/// dispatches it: first as a number, then as a boolean, else as raw text.
pub struct PrimitiveDeserializer {
    pub input: String,
}

/// Whether `c` is a decimal digit.
pub open spec fn is_digit(c: char) -> bool {
    '0' <= c <= '9'
}

/// The value of one decimal digit.
pub open spec fn digit_val(c: char) -> int {
    c as int - '0' as int
}

/// Whether every character of `s` is a decimal digit.
pub open spec fn all_digits(s: Seq<char>) -> bool {
    forall|i: int| 0 <= i < s.len() ==> is_digit(#[trigger] s[i])
}

/// The number a digit string reads as.
pub open spec fn digits_val(s: Seq<char>) -> int
    decreases s.len(),
{
    if s.len() == 0 {
        0
    } else {
        digits_val(s.drop_last()) * 10 + digit_val(s.last())
    }
}

/// A digit-string prefix of bounded length reads below its radix power.
proof fn lemma_digits_val_bound(s: Seq<char>, bound: int)
    requires
        all_digits(s),
        s.len() <= bound,
        0 <= bound <= 9,
    ensures
        0 <= digits_val(s) < pow10(bound),
    decreases s.len(),
{
    if s.len() == 0 {
        lemma_pow10_pos(bound);
    } else {
        lemma_digits_val_bound(s.drop_last(), bound - 1);
        assert(is_digit(s.last()));
        assert(pow10(bound) == pow10(bound - 1) * 10);
        let p = digits_val(s.drop_last());
        assert(p * 10 + 9 < pow10(bound - 1) * 10) by (nonlinear_arith)
            requires
                p < pow10(bound - 1),
        ;
        assert(p * 10 >= 0) by (nonlinear_arith)
            requires
                p >= 0,
        ;
    }
}

/// Powers of ten.
pub open spec fn pow10(e: int) -> int
    decreases e,
{
    if e <= 0 {
        1
    } else {
        pow10(e - 1) * 10
    }
}

proof fn lemma_pow10_pos(e: int)
    ensures
        pow10(e) >= 1,
    decreases e,
{
    if e > 0 {
        lemma_pow10_pos(e - 1);
    }
}

/// Read a digit substring into a machine integer.
fn scan_digits(s: &str, from: usize, to: usize) -> (r: Option<u64>)
    requires
        from <= to <= s@.len(),
        to - from <= 9,
    ensures
        (match r {
            Option::Some(v) => all_digits(s@.subrange(from as int, to as int)) && v as int
                == digits_val(s@.subrange(from as int, to as int)),
            Option::None => !all_digits(s@.subrange(from as int, to as int)),
        }),
{
    let mut acc: u64 = 0;
    let mut i: usize = from;
    proof {
        assert(s@.subrange(from as int, from as int) =~= Seq::<char>::empty());
    }
    while i < to
        invariant
            from <= i <= to <= s@.len(),
            to - from <= 9,
            all_digits(s@.subrange(from as int, i as int)),
            acc as int == digits_val(s@.subrange(from as int, i as int)),
            acc < 1_000_000_000,
        decreases to - i,
    {
        let c: char = s.get_char(i);
        if c < '0' || c > '9' {
            proof {
                assert(!is_digit(s@[i as int]));
                assert(s@.subrange(from as int, to as int)[i - from] == s@[i as int]);
            }
            return Option::None;
        }
        let d: u64 = (c as u32 as u64) - ('0' as u32 as u64);
        proof {
            let sub1 = s@.subrange(from as int, i as int + 1);
            assert(sub1.drop_last() =~= s@.subrange(from as int, i as int));
            assert(sub1.last() == s@[i as int]);
            lemma_digits_val_bound(sub1, 9);
            reveal_with_fuel(pow10, 11);
            assert(pow10(9) == 1_000_000_000);
        }
        acc = acc * 10 + d;
        i = i + 1;
    }
    proof {
        assert(s@.subrange(from as int, to as int) =~= s@.subrange(from as int, i as int));
    }
    Option::Some(acc)
}

/// Whether a character sequence is a decimal number literal: an optional
/// minus sign, one to nine integer digits, and optionally a dot followed by
/// one to three fraction digits.
pub open spec fn is_number_literal(s: Seq<char>) -> bool {
    let body = if s.len() > 0 && s[0] == '-' {
        s.drop_first()
    } else {
        s
    };
    match find_char_spec(body, '.') {
        Option::Some(d) => {
            &&& 1 <= d <= 9
            &&& 1 <= body.len() - d - 1 <= 3
            &&& all_digits(body.subrange(0, d))
            &&& all_digits(body.subrange(d + 1, body.len() as int))
        },
        Option::None => 1 <= body.len() <= 9 && all_digits(body),
    }
}

/// The milli reading of a decimal number literal: integer digits scaled by
/// a thousand, fraction digits padded or cut to milli precision.
pub open spec fn number_literal_milli(s: Seq<char>) -> int {
    let neg = s.len() > 0 && s[0] == '-';
    let body = if neg {
        s.drop_first()
    } else {
        s
    };
    let magnitude = (match find_char_spec(body, '.') {
        Option::Some(d) => {
            let frac = body.subrange(d + 1, body.len() as int);
            let scaled = digits_val(frac) * pow10(3 - frac.len());
            digits_val(body.subrange(0, d)) * 1000 + scaled
        },
        Option::None => digits_val(body) * 1000,
    });
    if neg {
        -magnitude
    } else {
        magnitude
    }
}

/// Parse a decimal number literal into a fixed-point value.
pub fn parse_number_literal(s: &str) -> (r: Option<Numeric>)
    ensures
        (match r {
            Option::Some(n) => is_number_literal(s@) && n.as_milli() == number_literal_milli(s@),
            Option::None => !is_number_literal(s@),
        }),
{
    let len: usize = s.unicode_len();
    let neg: bool = len > 0 && s.get_char(0) == '-';
    let start: usize = if neg {
        1
    } else {
        0
    };
    let ghost body = if neg {
        s@.drop_first()
    } else {
        s@
    };
    proof {
        if neg {
            assert(body =~= s@.subrange(1, s@.len() as int));
        } else {
            assert(body =~= s@.subrange(0, s@.len() as int));
        }
    }
    let dot = find_char(s, '.');
    // a minus sign shifts every body position by one
    let dot_body: Option<usize> = match dot {
        Option::Some(d) => {
            if neg {
                if d == 0 {
                    return Option::None;
                }
                Option::Some(d - 1)
            } else {
                Option::Some(d)
            }
        },
        Option::None => Option::None,
    };
    proof {
        lemma_find_char_offset(s@, body, '.', (if neg {
            1int
        } else {
            0int
        }));
    }
    match dot_body {
        Option::Some(d) => {
            let body_len: usize = len - start;
            if !(1 <= d && d <= 9) {
                return Option::None;
            }
            if !(d + 2 <= body_len && body_len <= d + 4) {
                return Option::None;
            }
            let int_part: u64 = match scan_digits(s, start, start + d) {
                Option::Some(v) => v,
                Option::None => {
                    proof {
                        assert(body.subrange(0, d as int) =~= s@.subrange(
                            start as int,
                            start as int + d as int,
                        ));
                    }
                    return Option::None;
                },
            };
            let frac_digits: usize = body_len - d - 1;
            let frac_part: u64 = match scan_digits(s, start + d + 1, len) {
                Option::Some(v) => v,
                Option::None => {
                    proof {
                        assert(body.subrange(d as int + 1, body.len() as int) =~= s@.subrange(
                            start as int + d as int + 1,
                            s@.len() as int,
                        ));
                    }
                    return Option::None;
                },
            };
            let scale: u64 = if frac_digits == 1 {
                100
            } else if frac_digits == 2 {
                10
            } else {
                1
            };
            proof {
                assert(body.subrange(0, d as int) =~= s@.subrange(
                    start as int,
                    start as int + d as int,
                ));
                assert(body.subrange(d as int + 1, body.len() as int) =~= s@.subrange(
                    start as int + d as int + 1,
                    s@.len() as int,
                ));
                lemma_digits_val_bound(body.subrange(0, d as int), 9);
                lemma_digits_val_bound(body.subrange(d as int + 1, body.len() as int), 3);
                reveal_with_fuel(pow10, 11);
                assert(pow10(9) == 1_000_000_000 && pow10(3) == 1000);
            }
            let magnitude: u64 = int_part * 1000 + frac_part * scale;
            let m: i64 = if neg {
                -(magnitude as i64)
            } else {
                magnitude as i64
            };
            Option::Some(Numeric::Fixed(m))
        },
        Option::None => {
            let body_len: usize = len - start;
            if !(1 <= body_len && body_len <= 9) {
                return Option::None;
            }
            let v: u64 = match scan_digits(s, start, len) {
                Option::Some(v) => v,
                Option::None => {
                    proof {
                        assert(body =~= s@.subrange(start as int, s@.len() as int));
                    }
                    return Option::None;
                },
            };
            proof {
                assert(body =~= s@.subrange(start as int, s@.len() as int));
                lemma_digits_val_bound(body, 9);
                reveal_with_fuel(pow10, 11);
                assert(pow10(9) == 1_000_000_000);
            }
            let m: i64 = if neg {
                -((v * 1000) as i64)
            } else {
                (v * 1000) as i64
            };
            Option::Some(Numeric::Fixed(m))
        },
    }
}

/// Dropping a prefix shifts a first-hit position by the prefix length.
proof fn lemma_find_char_offset(s: Seq<char>, body: Seq<char>, c: char, off: int)
    requires
        0 <= off <= s.len(),
        body == s.subrange(off, s.len() as int),
        forall|k: int| 0 <= k < off ==> s[k] != c,
    ensures
        (match (find_char_spec(s, c), find_char_spec(body, c)) {
            (Option::Some(i), Option::Some(j)) => i == j + off,
            (Option::None, Option::None) => true,
            _ => false,
        }),
    decreases off,
{
    if off == 0 {
        assert(body =~= s);
    } else {
        assert(s.len() > 0);
        assert(s[0] != c);
        assert(s.drop_first().subrange(off - 1, s.drop_first().len() as int) =~= body);
        lemma_find_char_offset(s.drop_first(), body, c, off - 1);
    }
}

impl PrimitiveDeserializer {
    pub fn new(input: &str) -> (r: Self)
        ensures
            r.input@ == input@,
    {
        PrimitiveDeserializer { input: String::from_str(input) }
    }

    /// Classify this literal the way the deserialization layer dispatches
    /// it: a decimal number first, then a boolean keyword, else raw text.
    pub fn classify(&self) -> (r: LiteralValue)
        ensures
            (match r {
                LiteralValue::Number(n) => is_number_literal(self.input@) && n.as_milli()
                    == number_literal_milli(self.input@),
                LiteralValue::Boolean(b) => !is_number_literal(self.input@) && (b <==> self.input@
                    == "true"@) && (b || self.input@ == "false"@),
                LiteralValue::Text(t) => !is_number_literal(self.input@) && self.input@ != "true"@
                    && self.input@ != "false"@ && t@ == self.input@,
            }),
    {
        if let Option::Some(n) = parse_number_literal(self.input.as_str()) {
            return LiteralValue::Number(n);
        }
        proof {
            reveal_strlit("true");
            reveal_strlit("false");
        }
        if self.input == String::from_str("true") {
            return LiteralValue::Boolean(true);
        }
        if self.input == String::from_str("false") {
            return LiteralValue::Boolean(false);
        }
        LiteralValue::Text(self.input.clone())
    }
}

} // verus!
