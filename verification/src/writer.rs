//! USDA text generation from a layer's specs.
//!
//! The layer is given as a tree of prim records: each record holds the fields
//! of its spec that the writer reads, its properties in property order and its
//! children in child order. Floating-point values arrive already spelled
//! (`UsdValue::Rendered`), as do time codes of time samples.

use vstd::prelude::*;

use crate::kinds::{specifier_keyword, up_axis_token, Specifier, UpAxis};
use crate::render::{
    join_sep, last_index_exec, last_index_of, lemma_join_sep_holds, lemma_occurs_within, occurs_at, occurs_in, quoted,
    string_from,
};
use crate::text::{chars_of, decimal, join_lines, join_newline, push_char, push_decimal, views};

verus! {

// ---------------------------------------------------------------------------
// Values
// ---------------------------------------------------------------------------

/// Whether a property's value may vary over time.
#[derive(Debug, Clone, Copy, PartialEq, Eq, Structural)]
pub enum Variability {
    Varying,
    Uniform,
}

/// The value kinds whose text is spelled outside the library: floating-point
/// scalars, vectors, quaternions and matrices, and the values that are shown
/// by their debug form.
#[derive(Debug, Clone, Copy, PartialEq, Eq, Structural)]
pub enum RenderedKind {
    Half,
    HalfVec,
    Float,
    FloatVec,
    Double,
    DoubleVec,
    TimeCode,
    Vec2f,
    Vec2d,
    Vec3f,
    Vec3d,
    Vec4f,
    Vec4d,
    Quatf,
    Quatd,
    Matrix2d,
    Matrix3d,
    Matrix4d,
    UcharVec,
    Other,
}

/// A field or attribute value of a spec.
pub enum UsdValue {
    NoValue,
    Bool(bool),
    Uchar(u8),
    Int(i32),
    Uint(u32),
    Int64(i64),
    Uint64(u64),
    Str(String),
    Token(String),
    Asset(String),
    Vec2i(Vec<i32>),
    Vec3i(Vec<i32>),
    Vec4i(Vec<i32>),
    BoolVec(Vec<bool>),
    IntVec(Vec<i32>),
    UintVec(Vec<u32>),
    Int64Vec(Vec<i64>),
    Uint64Vec(Vec<u64>),
    StringVec(Vec<String>),
    TokenVec(Vec<String>),
    Dictionary(Vec<(String, UsdValue)>),
    Specifier(Specifier),
    Variability(Variability),
    ValueBlock,
    /// A value of the given kind with its text.
    Rendered(RenderedKind, String),
}

/// The USDA type name of a rendered kind.
pub open spec fn rendered_type_name(k: RenderedKind) -> Seq<char> {
    match k {
        RenderedKind::Half => "half"@,
        RenderedKind::HalfVec => "half[]"@,
        RenderedKind::Float => "float"@,
        RenderedKind::FloatVec => "float[]"@,
        RenderedKind::Double => "double"@,
        RenderedKind::DoubleVec => "double[]"@,
        RenderedKind::TimeCode => "timecode"@,
        RenderedKind::Vec2f => "float2"@,
        RenderedKind::Vec2d => "double2"@,
        RenderedKind::Vec3f => "float3"@,
        RenderedKind::Vec3d => "double3"@,
        RenderedKind::Vec4f => "float4"@,
        RenderedKind::Vec4d => "double4"@,
        RenderedKind::Quatf => "quatf"@,
        RenderedKind::Quatd => "quatd"@,
        RenderedKind::Matrix2d => "matrix2d"@,
        RenderedKind::Matrix3d => "matrix3d"@,
        RenderedKind::Matrix4d => "matrix4d"@,
        RenderedKind::UcharVec => "uchar[]"@,
        RenderedKind::Other => "token"@,
    }
}

/// The USDA type name of a value; `token` where the value has none.
pub open spec fn type_name_of(v: UsdValue) -> Seq<char> {
    match v {
        UsdValue::Bool(_) => "bool"@,
        UsdValue::BoolVec(_) => "bool[]"@,
        UsdValue::Uchar(_) => "uchar"@,
        UsdValue::Int(_) => "int"@,
        UsdValue::IntVec(_) => "int[]"@,
        UsdValue::Uint(_) => "uint"@,
        UsdValue::UintVec(_) => "uint[]"@,
        UsdValue::Int64(_) => "int64"@,
        UsdValue::Int64Vec(_) => "int64[]"@,
        UsdValue::Uint64(_) => "uint64"@,
        UsdValue::Uint64Vec(_) => "uint64[]"@,
        UsdValue::Str(_) => "string"@,
        UsdValue::StringVec(_) => "string[]"@,
        UsdValue::Token(_) => "token"@,
        UsdValue::TokenVec(_) => "token[]"@,
        UsdValue::Asset(_) => "asset"@,
        UsdValue::Vec2i(_) => "int2"@,
        UsdValue::Vec3i(_) => "int3"@,
        UsdValue::Vec4i(_) => "int4"@,
        UsdValue::Dictionary(_) => "dictionary"@,
        UsdValue::Rendered(k, _) => rendered_type_name(k),
        _ => "token"@,
    }
}

/// The decimal spelling of an integer, with a minus sign when negative.
pub open spec fn int_text(i: int) -> Seq<char> {
    if i < 0 {
        seq!['-'] + decimal((-i) as nat)
    } else {
        decimal(i as nat)
    }
}

/// Items separated by `", "`.
pub open spec fn comma_list(parts: Seq<Seq<char>>) -> Seq<char> {
    join_sep(parts, ", "@)
}

/// Items in square brackets, separated by `", "`.
pub open spec fn bracketed(parts: Seq<Seq<char>>) -> Seq<char> {
    seq!['['] + comma_list(parts) + seq![']']
}

/// Items in round brackets, separated by `", "`.
pub open spec fn tupled(parts: Seq<Seq<char>>) -> Seq<char> {
    seq!['('] + comma_list(parts) + seq![')']
}

/// The `k`-th component of an integer vector, 0 where it is missing.
pub open spec fn component(v: Seq<i32>, k: int) -> int {
    if 0 <= k < v.len() {
        v[k] as int
    } else {
        0
    }
}

/// The first `n` components of an integer vector as a tuple.
pub open spec fn int_tuple(v: Seq<i32>, n: nat) -> Seq<char> {
    tupled(Seq::new(n, |k: int| int_text(component(v, k))))
}

/// The escape of one character inside a quoted string.
pub open spec fn escape_char(c: char) -> Seq<char> {
    if c == '\\' {
        seq!['\\', '\\']
    } else if c == '"' {
        seq!['\\', '"']
    } else {
        seq![c]
    }
}

/// A string with its back slashes and double quotes escaped.
pub open spec fn escaped(s: Seq<char>) -> Seq<char>
    decreases s.len(),
{
    if s.len() == 0 {
        Seq::empty()
    } else {
        escaped(s.drop_last()) + escape_char(s.last())
    }
}

pub open spec fn bool_text(b: bool) -> Seq<char> {
    if b {
        "true"@
    } else {
        "false"@
    }
}

/// The text of a value in USDA.
pub open spec fn value_text(v: UsdValue) -> Seq<char>
    decreases v, 1nat,
{
    match v {
        UsdValue::NoValue => "None"@,
        UsdValue::Bool(b) => bool_text(b),
        UsdValue::Uchar(x) => int_text(x as int),
        UsdValue::Int(x) => int_text(x as int),
        UsdValue::Uint(x) => int_text(x as int),
        UsdValue::Int64(x) => int_text(x as int),
        UsdValue::Uint64(x) => int_text(x as int),
        UsdValue::Str(s) => quoted(escaped(s@)),
        UsdValue::Token(s) => quoted(s@),
        UsdValue::Asset(s) => seq!['@'] + s@ + seq!['@'],
        UsdValue::Vec2i(x) => int_tuple(x@, 2),
        UsdValue::Vec3i(x) => int_tuple(x@, 3),
        UsdValue::Vec4i(x) => int_tuple(x@, 4),
        UsdValue::BoolVec(x) => bracketed(x@.map_values(|b: bool| bool_text(b))),
        UsdValue::IntVec(x) => bracketed(x@.map_values(|i: i32| int_text(i as int))),
        UsdValue::UintVec(x) => bracketed(x@.map_values(|i: u32| int_text(i as int))),
        UsdValue::Int64Vec(x) => bracketed(x@.map_values(|i: i64| int_text(i as int))),
        UsdValue::Uint64Vec(x) => bracketed(x@.map_values(|i: u64| int_text(i as int))),
        UsdValue::StringVec(x) => bracketed(views(x@).map_values(|s: Seq<char>| quoted(s))),
        UsdValue::TokenVec(x) => bracketed(views(x@).map_values(|s: Seq<char>| quoted(s))),
        UsdValue::Dictionary(d) => if d@.len() == 0 {
            "{}"@
        } else {
            "{\n"@ + join_sep(entry_texts(d@), "\n"@) + "\n}"@
        },
        UsdValue::Specifier(s) => specifier_keyword(s),
        UsdValue::Variability(x) => match x {
            Variability::Varying => "varying"@,
            Variability::Uniform => "uniform"@,
        },
        UsdValue::ValueBlock => "None"@,
        UsdValue::Rendered(_, t) => t@,
    }
}

/// The declaration of a dictionary entry: type name, key and value.
pub open spec fn entry_text(key: Seq<char>, v: UsdValue) -> Seq<char>
    decreases v, 2nat,
{
    type_name_of(v) + seq![' '] + key + " = "@ + value_text(v)
}

/// The declarations of dictionary entries, in order.
pub open spec fn entry_texts(d: Seq<(String, UsdValue)>) -> Seq<Seq<char>>
    decreases d, 0nat,
{
    if d.len() == 0 {
        Seq::empty()
    } else {
        entry_texts(d.drop_last()).push(entry_text(d.last().0@, d.last().1))
    }
}

// ---------------------------------------------------------------------------
// Texts of values
// ---------------------------------------------------------------------------

proof fn lemma_views_push(v: Seq<String>, s: String)
    ensures
        views(v.push(s)) == views(v).push(s@),
{
    assert(views(v.push(s)) =~= views(v).push(s@));
}

/// Appends the decimal spelling of a signed integer.
fn push_int(s: &mut String, i: i64)
    ensures
        final(s)@ == old(s)@ + int_text(i as int),
{
    if i < 0 {
        push_char(s, '-');
        let m: u64 = if i == i64::MIN {
            9223372036854775808u64
        } else {
            (-i) as u64
        };
        push_decimal(s, m);
        assert(final(s)@ =~= old(s)@ + int_text(i as int));
    } else {
        push_decimal(s, i as u64);
    }
}

fn int_string(i: i64) -> (r: String)
    ensures
        r@ == int_text(i as int),
{
    let mut s = String::new();
    push_int(&mut s, i);
    s
}

fn uint_string(i: u64) -> (r: String)
    ensures
        r@ == int_text(i as int),
{
    let mut s = String::new();
    push_decimal(&mut s, i);
    s
}

/// Joins parts with `sep` between each two.
fn join_with(parts: &Vec<String>, sep: &str) -> (r: String)
    ensures
        r@ == join_sep(views(parts@), sep@),
{
    let ghost vs = views(parts@);
    let mut r = String::new();
    let mut i: usize = 0;
    while i < parts.len()
        invariant
            0 <= i <= parts.len(),
            vs == views(parts@),
            r@ == join_sep(vs.take(i as int), sep@),
        decreases parts.len() - i,
    {
        let ghost before = r@;
        if i != 0 {
            r.append(sep);
        }
        r.append(parts[i].as_str());
        proof {
            assert(vs.take(i + 1).drop_last() =~= vs.take(i as int));
            if i == 0 {
                assert(r@ =~= vs[0]);
            } else {
                assert(r@ =~= before + sep@ + vs[i as int]);
            }
        }
        i += 1;
    }
    assert(vs.take(i as int) =~= vs);
    r
}

/// `open`, the parts joined by `", "`, then `close`.
fn enclose(open: char, parts: &Vec<String>, close: char) -> (r: String)
    ensures
        r@ == seq![open] + comma_list(views(parts@)) + seq![close],
{
    let mut r = String::new();
    push_char(&mut r, open);
    let inner = join_with(parts, ", ");
    r.append(inner.as_str());
    push_char(&mut r, close);
    r
}

fn quoted_string(s: &str) -> (r: String)
    ensures
        r@ == quoted(s@),
{
    let mut r = String::new();
    push_char(&mut r, '"');
    r.append(s);
    push_char(&mut r, '"');
    r
}

/// Escapes back slashes and double quotes.
fn escape_text(s: &str) -> (r: String)
    ensures
        r@ == escaped(s@),
{
    let cs = chars_of(s);
    let mut r = String::new();
    let mut i: usize = 0;
    while i < cs.len()
        invariant
            0 <= i <= cs.len(),
            r@ == escaped(cs@.take(i as int)),
        decreases cs.len() - i,
    {
        let c = cs[i];
        if c == '\\' {
            push_char(&mut r, '\\');
            push_char(&mut r, '\\');
        } else if c == '"' {
            push_char(&mut r, '\\');
            push_char(&mut r, '"');
        } else {
            push_char(&mut r, c);
        }
        assert(cs@.take(i + 1).drop_last() =~= cs@.take(i as int));
        assert(r@ =~= escaped(cs@.take(i + 1)));
        i += 1;
    }
    assert(cs@.take(i as int) =~= cs@);
    r
}

fn int_tuple_string(v: &Vec<i32>, n: usize) -> (r: String)
    ensures
        r@ == int_tuple(v@, n as nat),
{
    let ghost want = Seq::new(n as nat, |k: int| int_text(component(v@, k)));
    let mut parts: Vec<String> = Vec::new();
    let mut k: usize = 0;
    while k < n
        invariant
            0 <= k <= n,
            want == Seq::new(n as nat, |k: int| int_text(component(v@, k))),
            views(parts@) == want.take(k as int),
        decreases n - k,
    {
        let x: i64 = if k < v.len() {
            v[k] as i64
        } else {
            0
        };
        let t = int_string(x);
                proof {
            lemma_views_push(parts@, t);
        }
        parts.push(t);
        assert(views(parts@) =~= want.take(k + 1));
        k += 1;
    }
    assert(want.take(k as int) =~= want);
    enclose('(', &parts, ')')
}

/// The display of each boolean, in brackets.
fn bool_list_string(v: &Vec<bool>) -> (r: String)
    ensures
        r@ == bracketed(v@.map_values(|b: bool| bool_text(b))),
{
    let ghost want = v@.map_values(|b: bool| bool_text(b));
    let mut parts: Vec<String> = Vec::new();
    let mut k: usize = 0;
    while k < v.len()
        invariant
            0 <= k <= v.len(),
            want == v@.map_values(|b: bool| bool_text(b)),
            views(parts@) == want.take(k as int),
        decreases v.len() - k,
    {
        let t = if v[k] {
            "true".to_string()
        } else {
            "false".to_string()
        };
                proof {
            lemma_views_push(parts@, t);
        }
        parts.push(t);
        assert(views(parts@) =~= want.take(k + 1));
        k += 1;
    }
    assert(want.take(k as int) =~= want);
    enclose('[', &parts, ']')
}

fn i32_list_string(v: &Vec<i32>) -> (r: String)
    ensures
        r@ == bracketed(v@.map_values(|i: i32| int_text(i as int))),
{
    let ghost want = v@.map_values(|i: i32| int_text(i as int));
    let mut parts: Vec<String> = Vec::new();
    let mut k: usize = 0;
    while k < v.len()
        invariant
            0 <= k <= v.len(),
            want == v@.map_values(|i: i32| int_text(i as int)),
            views(parts@) == want.take(k as int),
        decreases v.len() - k,
    {
        let t = int_string(v[k] as i64);
        proof {
            lemma_views_push(parts@, t);
        }
        parts.push(t);
        assert(views(parts@) =~= want.take(k + 1));
        k += 1;
    }
    assert(want.take(k as int) =~= want);
    enclose('[', &parts, ']')
}

fn u32_list_string(v: &Vec<u32>) -> (r: String)
    ensures
        r@ == bracketed(v@.map_values(|i: u32| int_text(i as int))),
{
    let ghost want = v@.map_values(|i: u32| int_text(i as int));
    let mut parts: Vec<String> = Vec::new();
    let mut k: usize = 0;
    while k < v.len()
        invariant
            0 <= k <= v.len(),
            want == v@.map_values(|i: u32| int_text(i as int)),
            views(parts@) == want.take(k as int),
        decreases v.len() - k,
    {
        let t = uint_string(v[k] as u64);
        proof {
            lemma_views_push(parts@, t);
        }
        parts.push(t);
        assert(views(parts@) =~= want.take(k + 1));
        k += 1;
    }
    assert(want.take(k as int) =~= want);
    enclose('[', &parts, ']')
}

fn i64_list_string(v: &Vec<i64>) -> (r: String)
    ensures
        r@ == bracketed(v@.map_values(|i: i64| int_text(i as int))),
{
    let ghost want = v@.map_values(|i: i64| int_text(i as int));
    let mut parts: Vec<String> = Vec::new();
    let mut k: usize = 0;
    while k < v.len()
        invariant
            0 <= k <= v.len(),
            want == v@.map_values(|i: i64| int_text(i as int)),
            views(parts@) == want.take(k as int),
        decreases v.len() - k,
    {
        let t = int_string(v[k]);
        proof {
            lemma_views_push(parts@, t);
        }
        parts.push(t);
        assert(views(parts@) =~= want.take(k + 1));
        k += 1;
    }
    assert(want.take(k as int) =~= want);
    enclose('[', &parts, ']')
}

fn u64_list_string(v: &Vec<u64>) -> (r: String)
    ensures
        r@ == bracketed(v@.map_values(|i: u64| int_text(i as int))),
{
    let ghost want = v@.map_values(|i: u64| int_text(i as int));
    let mut parts: Vec<String> = Vec::new();
    let mut k: usize = 0;
    while k < v.len()
        invariant
            0 <= k <= v.len(),
            want == v@.map_values(|i: u64| int_text(i as int)),
            views(parts@) == want.take(k as int),
        decreases v.len() - k,
    {
        let t = uint_string(v[k]);
        proof {
            lemma_views_push(parts@, t);
        }
        parts.push(t);
        assert(views(parts@) =~= want.take(k + 1));
        k += 1;
    }
    assert(want.take(k as int) =~= want);
    enclose('[', &parts, ']')
}

fn quoted_list_string(v: &Vec<String>) -> (r: String)
    ensures
        r@ == bracketed(views(v@).map_values(|s: Seq<char>| quoted(s))),
{
    let ghost want = views(v@).map_values(|s: Seq<char>| quoted(s));
    let mut parts: Vec<String> = Vec::new();
    let mut k: usize = 0;
    while k < v.len()
        invariant
            0 <= k <= v.len(),
            want == views(v@).map_values(|s: Seq<char>| quoted(s)),
            views(parts@) == want.take(k as int),
        decreases v.len() - k,
    {
        let t = quoted_string(v[k].as_str());
        proof {
            lemma_views_push(parts@, t);
        }
        parts.push(t);
        assert(views(parts@) =~= want.take(k + 1));
        k += 1;
    }
    assert(want.take(k as int) =~= want);
    enclose('[', &parts, ']')
}

/// The USDA type name of a rendered kind.
fn rendered_type_str(k: RenderedKind) -> (r: &'static str)
    ensures
        r@ == rendered_type_name(k),
{
    match k {
        RenderedKind::Half => "half",
        RenderedKind::HalfVec => "half[]",
        RenderedKind::Float => "float",
        RenderedKind::FloatVec => "float[]",
        RenderedKind::Double => "double",
        RenderedKind::DoubleVec => "double[]",
        RenderedKind::TimeCode => "timecode",
        RenderedKind::Vec2f => "float2",
        RenderedKind::Vec2d => "double2",
        RenderedKind::Vec3f => "float3",
        RenderedKind::Vec3d => "double3",
        RenderedKind::Vec4f => "float4",
        RenderedKind::Vec4d => "double4",
        RenderedKind::Quatf => "quatf",
        RenderedKind::Quatd => "quatd",
        RenderedKind::Matrix2d => "matrix2d",
        RenderedKind::Matrix3d => "matrix3d",
        RenderedKind::Matrix4d => "matrix4d",
        RenderedKind::UcharVec => "uchar[]",
        RenderedKind::Other => "token",
    }
}

/// The USDA type name of a value.
pub fn value_type_name(value: &UsdValue) -> (r: &'static str)
    ensures
        r@ == type_name_of(*value),
{
    match value {
        UsdValue::Bool(_) => "bool",
        UsdValue::BoolVec(_) => "bool[]",
        UsdValue::Uchar(_) => "uchar",
        UsdValue::Int(_) => "int",
        UsdValue::IntVec(_) => "int[]",
        UsdValue::Uint(_) => "uint",
        UsdValue::UintVec(_) => "uint[]",
        UsdValue::Int64(_) => "int64",
        UsdValue::Int64Vec(_) => "int64[]",
        UsdValue::Uint64(_) => "uint64",
        UsdValue::Uint64Vec(_) => "uint64[]",
        UsdValue::Str(_) => "string",
        UsdValue::StringVec(_) => "string[]",
        UsdValue::Token(_) => "token",
        UsdValue::TokenVec(_) => "token[]",
        UsdValue::Asset(_) => "asset",
        UsdValue::Vec2i(_) => "int2",
        UsdValue::Vec3i(_) => "int3",
        UsdValue::Vec4i(_) => "int4",
        UsdValue::Dictionary(_) => "dictionary",
        UsdValue::Rendered(k, _) => rendered_type_str(*k),
        _ => "token",
    }
}

/// The text of a value in USDA.
pub fn format_value(value: &UsdValue) -> (r: String)
    ensures
        r@ == value_text(*value),
    decreases value, 1nat,
{
    match value {
        UsdValue::NoValue => "None".to_string(),
        UsdValue::Bool(b) => if *b {
            "true".to_string()
        } else {
            "false".to_string()
        },
        UsdValue::Uchar(x) => uint_string(*x as u64),
        UsdValue::Int(x) => int_string(*x as i64),
        UsdValue::Uint(x) => uint_string(*x as u64),
        UsdValue::Int64(x) => int_string(*x),
        UsdValue::Uint64(x) => uint_string(*x),
        UsdValue::Str(s) => {
            let e = escape_text(s.as_str());
            quoted_string(e.as_str())
        },
        UsdValue::Token(s) => quoted_string(s.as_str()),
        UsdValue::Asset(s) => {
            let mut r = String::new();
            push_char(&mut r, '@');
            r.append(s.as_str());
            push_char(&mut r, '@');
            r
        },
        UsdValue::Vec2i(x) => int_tuple_string(x, 2),
        UsdValue::Vec3i(x) => int_tuple_string(x, 3),
        UsdValue::Vec4i(x) => int_tuple_string(x, 4),
        UsdValue::BoolVec(x) => bool_list_string(x),
        UsdValue::IntVec(x) => i32_list_string(x),
        UsdValue::UintVec(x) => u32_list_string(x),
        UsdValue::Int64Vec(x) => i64_list_string(x),
        UsdValue::Uint64Vec(x) => u64_list_string(x),
        UsdValue::StringVec(x) => quoted_list_string(x),
        UsdValue::TokenVec(x) => quoted_list_string(x),
        UsdValue::Dictionary(d) => {
            if d.len() == 0 {
                "{}".to_string()
            } else {
                proof {
                    assert(decreases_to!(*value => *d));
                    assert(decreases_to!(*d => d@));
                }
                let parts = entry_strings(d);
                let mut r = "{\n".to_string();
                let inner = join_with(&parts, "\n");
                r.append(inner.as_str());
                r.append("\n}");
                r
            }
        },
        UsdValue::Specifier(s) => s.as_str().to_string(),
        UsdValue::Variability(x) => match x {
            Variability::Varying => "varying".to_string(),
            Variability::Uniform => "uniform".to_string(),
        },
        UsdValue::ValueBlock => "None".to_string(),
        UsdValue::Rendered(_, t) => t.clone(),
    }
}

/// The declaration of a dictionary entry.
fn entry_string(key: &String, value: &UsdValue) -> (r: String)
    ensures
        r@ == entry_text(key@, *value),
    decreases value, 2nat,
{
    let mut r = value_type_name(value).to_string();
    push_char(&mut r, ' ');
    r.append(key.as_str());
    r.append(" = ");
    let v = format_value(value);
    r.append(v.as_str());
    r
}

/// The declarations of dictionary entries, in order.
fn entry_strings(d: &Vec<(String, UsdValue)>) -> (r: Vec<String>)
    ensures
        views(r@) == entry_texts(d@),
    decreases d@, 0nat,
{
    let mut parts: Vec<String> = Vec::new();
    let mut i: usize = 0;
    while i < d.len()
        invariant
            0 <= i <= d.len(),
            views(parts@) == entry_texts(d@.take(i as int)),
        decreases d.len() - i,
    {
        let e = &d[i];
        proof {
            assert(decreases_to!(d@ => d@[i as int]));
            assert(decreases_to!(d@[i as int] => d@[i as int].1));
        }
        let t = entry_string(&e.0, &e.1);
        proof {
            lemma_views_push(parts@, t);
            assert(d@.take(i + 1).drop_last() =~= d@.take(i as int));
        }
        parts.push(t);
        i += 1;
    }
    assert(d@.take(i as int) =~= d@);
    parts
}

// ---------------------------------------------------------------------------
// Layer records
// ---------------------------------------------------------------------------

/// A reference or payload: an asset path and a prim path, either possibly
/// empty.
pub struct AssetRef {
    pub asset_path: String,
    pub prim_path: String,
}

/// A list operation held by a spec field.
pub struct ListOpRecord<T> {
    pub explicit: bool,
    pub explicit_items: Vec<T>,
    pub prepended_items: Vec<T>,
    pub appended_items: Vec<T>,
}

/// The payload field of a prim: a list operation or a single payload.
pub enum PayloadField {
    ListOp(ListOpRecord<AssetRef>),
    Single(AssetRef),
}

/// The fields of a property spec that the writer reads.
pub struct PropertySpec {
    pub is_relationship: bool,
    pub value_type: Option<UsdValue>,
    pub custom: Option<UsdValue>,
    pub variability: Option<UsdValue>,
    pub default_value: Option<UsdValue>,
    /// The time samples, each with the text of its time code.
    pub time_samples: Option<Vec<(String, UsdValue)>>,
    /// The target paths of a relationship, each as path text.
    pub target_paths: Option<ListOpRecord<String>>,
}

/// A property of a prim: its name and its spec, where the layer has one.
pub struct PropertyRecord {
    pub name: String,
    pub spec: Option<PropertySpec>,
}

/// A prim spec with the fields that the writer reads, its properties in
/// property order and its children in child order (`None` where the layer
/// has no spec at the child's path).
pub struct PrimRecord {
    pub path: String,
    pub specifier: Option<UsdValue>,
    pub prim_type: Option<UsdValue>,
    pub kind: Option<UsdValue>,
    pub instanceable: Option<UsdValue>,
    pub references: Option<ListOpRecord<AssetRef>>,
    pub payload: Option<PayloadField>,
    pub inherits: Option<ListOpRecord<String>>,
    pub specializes: Option<ListOpRecord<String>>,
    pub custom_data: Option<UsdValue>,
    pub properties: Vec<PropertyRecord>,
    pub children: Vec<Option<PrimRecord>>,
}

/// The pseudo-root of a layer: its metadata fields and its root prims.
pub struct LayerRecord {
    pub default_prim: Option<UsdValue>,
    pub meters_per_unit: Option<UsdValue>,
    pub up_axis: Option<UsdValue>,
    pub children: Vec<Option<PrimRecord>>,
}

/// Scene-level settings for USDA generation; `N` holds the numeric settings
/// (meters per unit, frame rates, time code range).
pub struct SceneSettings<N> {
    pub default_prim: String,
    pub create_root_prim: bool,
    pub up_axis: UpAxis,
    pub numbers: N,
    pub doc: Option<String>,
}

/// The spelled numbers of the scene settings, as the header shows them.
pub struct HeaderNumbers {
    pub meters_per_unit: String,
    pub start_time_code: String,
    pub end_time_code: String,
    pub frames_per_second: String,
    pub time_codes_per_second: String,
}

impl<N> SceneSettings<N> {
    /// Settings with the default prim `World`, no root prim, Z up and the
    /// generator's doc string.
    pub fn new(numbers: N) -> (r: Self)
        ensures
            r.default_prim@ == "World"@,
            !r.create_root_prim,
            r.up_axis == UpAxis::Z,
            r.numbers == numbers,
            r.doc matches Some(d) && d@ == "Generated by PowerUSD"@,
    {
        SceneSettings {
            default_prim: "World".to_string(),
            create_root_prim: false,
            up_axis: UpAxis::Z,
            numbers,
            doc: Some("Generated by PowerUSD".to_string()),
        }
    }
}

// ---------------------------------------------------------------------------
// Specification of the lines
// ---------------------------------------------------------------------------

/// `n` levels of indentation, four spaces each.
pub open spec fn indent_text(n: nat) -> Seq<char>
    decreases n,
{
    if n == 0 {
        Seq::empty()
    } else {
        indent_text((n - 1) as nat) + "    "@
    }
}

/// A line at indentation level `n`.
pub open spec fn at(n: nat, s: Seq<char>) -> Seq<char> {
    indent_text(n) + s
}

pub open spec fn angled(p: Seq<char>) -> Seq<char> {
    seq!['<'] + p + seq!['>']
}

/// The text of a reference or payload.
pub open spec fn ref_text(r: AssetRef) -> Seq<char> {
    if r.asset_path@.len() == 0 {
        angled(r.prim_path@)
    } else if r.prim_path@.len() == 0 {
        seq!['@'] + r.asset_path@ + seq!['@']
    } else {
        seq!['@'] + r.asset_path@ + seq!['@'] + angled(r.prim_path@)
    }
}

pub open spec fn ref_texts(rs: Seq<AssetRef>) -> Seq<Seq<char>> {
    rs.map_values(|r: AssetRef| ref_text(r))
}

pub open spec fn angled_paths(ps: Seq<String>) -> Seq<Seq<char>> {
    ps.map_values(|p: String| angled(p@))
}

/// A single item bare, several in brackets.
pub open spec fn one_or_list(parts: Seq<Seq<char>>) -> Seq<char> {
    if parts.len() == 1 {
        parts[0]
    } else {
        bracketed(parts)
    }
}

/// The lines of a reference or payload list operation; `word` is the field's
/// name in USDA.
pub open spec fn ref_list_op_lines(op: ListOpRecord<AssetRef>, word: Seq<char>, n: nat) -> Seq<Seq<char>> {
    (if op.explicit && op.explicit_items@.len() > 0 {
        seq![at(n, word + " = "@ + bracketed(ref_texts(op.explicit_items@)))]
    } else {
        Seq::empty()
    }) + (if op.prepended_items@.len() > 0 {
        seq![at(n, "prepend "@ + word + " = "@ + one_or_list(ref_texts(op.prepended_items@)))]
    } else {
        Seq::empty()
    }) + (if op.appended_items@.len() > 0 {
        seq![at(n, "append "@ + word + " = "@ + one_or_list(ref_texts(op.appended_items@)))]
    } else {
        Seq::empty()
    })
}

pub open spec fn payload_lines(p: Option<PayloadField>, n: nat) -> Seq<Seq<char>> {
    match p {
        Some(PayloadField::ListOp(op)) => ref_list_op_lines(op, "payload"@, n),
        Some(PayloadField::Single(r)) => seq![at(n, "payload = "@ + ref_text(r))],
        None => Seq::empty(),
    }
}

/// The lines of a path list operation (`inherits`, `specializes`).
pub open spec fn path_list_op_lines(name: Seq<char>, op: Option<ListOpRecord<String>>, n: nat) -> Seq<Seq<char>> {
    match op {
        Some(op) => (if op.prepended_items@.len() > 0 {
            seq![at(n, "prepend "@ + name + " = "@ + one_or_list(angled_paths(op.prepended_items@)))]
        } else {
            Seq::empty()
        }) + (if op.appended_items@.len() > 0 {
            seq![at(n, "append "@ + name + " = "@ + one_or_list(angled_paths(op.appended_items@)))]
        } else {
            Seq::empty()
        }),
        None => Seq::empty(),
    }
}

/// Each line at indentation level `n`.
pub open spec fn all_at(n: nat, lines: Seq<Seq<char>>) -> Seq<Seq<char>> {
    lines.map_values(|l: Seq<char>| at(n, l))
}

pub open spec fn custom_data_lines(c: Option<UsdValue>, n: nat) -> Seq<Seq<char>> {
    match c {
        Some(UsdValue::Dictionary(d)) => if d@.len() > 0 {
            seq![at(n, "customData = {"@)] + all_at(n + 1, entry_texts(d@)) + seq![at(n, "}"@)]
        } else {
            Seq::empty()
        },
        _ => Seq::empty(),
    }
}

pub open spec fn kind_lines(k: Option<UsdValue>, n: nat) -> Seq<Seq<char>> {
    match k {
        Some(UsdValue::Token(k)) => seq![at(n, "kind = "@ + quoted(k@))],
        _ => Seq::empty(),
    }
}

pub open spec fn instanceable_lines(i: Option<UsdValue>, n: nat) -> Seq<Seq<char>> {
    match i {
        Some(UsdValue::Bool(true)) => seq![at(n, "instanceable = true"@)],
        _ => Seq::empty(),
    }
}

pub open spec fn references_lines(r: Option<ListOpRecord<AssetRef>>, n: nat) -> Seq<Seq<char>> {
    match r {
        Some(op) => ref_list_op_lines(op, "references"@, n),
        None => Seq::empty(),
    }
}

/// The metadata lines of a prim.
pub open spec fn metadata_lines(p: PrimRecord, n: nat) -> Seq<Seq<char>> {
    kind_lines(p.kind, n) + instanceable_lines(p.instanceable, n) + references_lines(p.references, n)
        + payload_lines(p.payload, n) + path_list_op_lines("inherits"@, p.inherits, n)
        + path_list_op_lines("specializes"@, p.specializes, n) + custom_data_lines(p.custom_data, n)
}

/// A field holding a token or a string.
pub open spec fn text_field(v: Option<UsdValue>) -> Option<Seq<char>> {
    match v {
        Some(UsdValue::Token(s)) => Some(s@),
        Some(UsdValue::Str(s)) => Some(s@),
        _ => None,
    }
}

pub open spec fn custom_prefix(c: Option<UsdValue>) -> Seq<char> {
    match c {
        Some(UsdValue::Bool(true)) => "custom "@,
        _ => Seq::empty(),
    }
}

pub open spec fn variability_prefix(v: Option<UsdValue>) -> Seq<char> {
    match v {
        Some(UsdValue::Variability(Variability::Uniform)) => "uniform "@,
        _ => Seq::empty(),
    }
}

/// The lines of time samples, each with its time code.
pub open spec fn sample_lines(ts: Seq<(String, UsdValue)>, n: nat) -> Seq<Seq<char>> {
    ts.map_values(|e: (String, UsdValue)| at(n, e.0@ + ": "@ + value_text(e.1) + seq![',']))
}

/// The lines of an attribute.
pub open spec fn attribute_lines(s: PropertySpec, name: Seq<char>, n: nat) -> Seq<Seq<char>> {
    let head = custom_prefix(s.custom) + variability_prefix(s.variability) + match text_field(
        s.value_type,
    ) {
        Some(t) => t,
        None => "token"@,
    } + seq![' '] + name;
    match s.default_value {
        Some(v) => seq![at(n, head + " = "@ + value_text(v))],
        None => match s.time_samples {
            Some(ts) => seq![at(n, head + ".timeSamples = {"@)] + sample_lines(ts@, n + 1) + seq![
                at(n, "}"@),
            ],
            None => seq![at(n, head)],
        },
    }
}

/// The lines of a relationship.
pub open spec fn relationship_lines(s: PropertySpec, name: Seq<char>, n: nat) -> Seq<Seq<char>> {
    let c = custom_prefix(s.custom);
    match s.target_paths {
        Some(op) => if op.prepended_items@.len() > 0 {
            seq![at(n, c + "prepend rel "@ + name + " = "@ + bracketed(angled_paths(op.prepended_items@)))]
        } else if op.appended_items@.len() > 0 {
            seq![at(n, c + "append rel "@ + name + " = "@ + bracketed(angled_paths(op.appended_items@)))]
        } else if op.explicit_items@.len() > 0 {
            seq![at(n, c + "rel "@ + name + " = "@ + one_or_list(angled_paths(op.explicit_items@)))]
        } else {
            Seq::empty()
        },
        None => seq![at(n, c + "rel "@ + name)],
    }
}

/// Whether `line` starts with `head` and names every part, and every two
/// neighbouring parts in order with `", "` between them.
pub open spec fn names_all(line: Seq<char>, head: Seq<char>, parts: Seq<Seq<char>>) -> bool {
    &&& line.len() >= head.len()
    &&& line.take(head.len() as int) == head
    &&& forall|i: int| 0 <= i < parts.len() ==> occurs_in(#[trigger] parts[i], line)
    &&& forall|i: int| 0 <= i && i + 1 < parts.len() ==> occurs_in(#[trigger] parts[i] + ", "@ + parts[i + 1], line)
}

/// A list written after `head`, bare or in brackets, names all its parts.
proof fn lemma_list_names_all(head: Seq<char>, parts: Seq<Seq<char>>, bracket: bool)
    requires
        parts.len() > 0,
    ensures
        names_all(head + (if bracket || parts.len() != 1 { bracketed(parts) } else { parts[0] }), head, parts),
{
    let x = if bracket || parts.len() != 1 {
        bracketed(parts)
    } else {
        parts[0]
    };
    let l = head + x;
    assert(l.take(head.len() as int) =~= head);
    lemma_join_sep_holds(parts, ", "@);
    let inner = join_sep(parts, ", "@);
    if bracket || parts.len() != 1 {
        assert(l =~= (head + seq!['[']) + inner + seq![']']);
        assert forall|i: int| 0 <= i < parts.len() implies occurs_in(#[trigger] parts[i], l) by {
            lemma_occurs_within(parts[i], inner, head + seq!['['], seq![']']);
        }
        assert forall|i: int| 0 <= i && i + 1 < parts.len() implies occurs_in(#[trigger] parts[i] + ", "@ + parts[i + 1], l) by {
            lemma_occurs_within(parts[i] + ", "@ + parts[i + 1], inner, head + seq!['['], seq![']']);
        }
    } else {
        assert(l.subrange(head.len() as int, (head.len() + parts[0].len()) as int) =~= parts[0]);
        assert(occurs_at(parts[0], l, head.len() as int));
    }
}

/// Each non-empty list of a reference or payload list operation is written
/// on a line of its own, after `word = ` (`prepend word = `, `append word =
/// `), naming every reference in order; an explicit list is always in
/// brackets.
pub proof fn law_reference_lists_name_every_item(op: ListOpRecord<AssetRef>, word: Seq<char>, n: nat)
    ensures
        ({
            let ls = ref_list_op_lines(op, word, n);
            &&& (op.explicit && op.explicit_items@.len() > 0) ==> exists|k: int|
                0 <= k < ls.len() && names_all(
                    #[trigger] ls[k],
                    indent_text(n) + word + " = "@,
                    ref_texts(op.explicit_items@),
                ) && ls[k][(indent_text(n).len() + word.len() + 3) as int] == '['
            &&& op.prepended_items@.len() > 0 ==> exists|k: int|
                0 <= k < ls.len() && names_all(
                    #[trigger] ls[k],
                    indent_text(n) + "prepend "@ + word + " = "@,
                    ref_texts(op.prepended_items@),
                )
            &&& op.appended_items@.len() > 0 ==> exists|k: int|
                0 <= k < ls.len() && names_all(
                    #[trigger] ls[k],
                    indent_text(n) + "append "@ + word + " = "@,
                    ref_texts(op.appended_items@),
                )
        }),
{
    reveal_strlit(" = ");
    let ls = ref_list_op_lines(op, word, n);
    let e = if op.explicit && op.explicit_items@.len() > 0 {
        seq![at(n, word + " = "@ + bracketed(ref_texts(op.explicit_items@)))]
    } else {
        Seq::<Seq<char>>::empty()
    };
    let pp = if op.prepended_items@.len() > 0 {
        seq![at(n, "prepend "@ + word + " = "@ + one_or_list(ref_texts(op.prepended_items@)))]
    } else {
        Seq::<Seq<char>>::empty()
    };
    let ap = if op.appended_items@.len() > 0 {
        seq![at(n, "append "@ + word + " = "@ + one_or_list(ref_texts(op.appended_items@)))]
    } else {
        Seq::<Seq<char>>::empty()
    };
    assert(ls == e + pp + ap);
    if op.explicit && op.explicit_items@.len() > 0 {
        let parts = ref_texts(op.explicit_items@);
        let head = indent_text(n) + word + " = "@;
        lemma_list_names_all(head, parts, true);
        assert(ls[0] =~= head + bracketed(parts));
        assert(ls[0][head.len() as int] == '[');
    }
    if op.prepended_items@.len() > 0 {
        let parts = ref_texts(op.prepended_items@);
        let head = indent_text(n) + "prepend "@ + word + " = "@;
        lemma_list_names_all(head, parts, false);
        assert(ls[e.len() as int] =~= head + one_or_list(parts));
    }
    if op.appended_items@.len() > 0 {
        let parts = ref_texts(op.appended_items@);
        let head = indent_text(n) + "append "@ + word + " = "@;
        lemma_list_names_all(head, parts, false);
        assert(ls[(e.len() + pp.len()) as int] =~= head + one_or_list(parts));
    }
}

/// The angle-bracketed form of a path, spelled out.
pub open spec fn angle(t: String) -> Seq<char> {
    seq!['<'] + t@ + seq!['>']
}

proof fn lemma_target_list(ts: Seq<String>)
    requires
        ts.len() > 0,
    ensures
        forall|i: int| 0 <= i < ts.len() ==> occurs_in(angle(#[trigger] ts[i]), one_or_list(angled_paths(ts))),
        forall|i: int|
            0 <= i && i + 1 < ts.len() ==> occurs_in(
                angle(#[trigger] ts[i]) + ", "@ + angle(ts[i + 1]),
                one_or_list(angled_paths(ts)),
            ),
        ts.len() > 1 ==> one_or_list(angled_paths(ts))[0] == '[' && one_or_list(angled_paths(ts)).last() == ']',
{
    let parts = angled_paths(ts);
    let l = one_or_list(parts);
    assert forall|i: int| 0 <= i < ts.len() implies parts[i] == angle(#[trigger] ts[i]) by {}
    if ts.len() == 1 {
        assert(l.subrange(0, parts[0].len() as int) =~= parts[0]);
        assert(occurs_at(parts[0], l, 0));
    } else {
        lemma_join_sep_holds(parts, ", "@);
        let inner = join_sep(parts, ", "@);
        assert(l =~= seq!['['] + inner + seq![']']);
        assert forall|i: int| 0 <= i < ts.len() implies occurs_in(angle(#[trigger] ts[i]), l) by {
            assert(occurs_in(parts[i], inner));
            lemma_occurs_within(parts[i], inner, seq!['['], seq![']']);
        }
        assert forall|i: int|
            0 <= i && i + 1 < ts.len() implies occurs_in(angle(#[trigger] ts[i]) + ", "@ + angle(ts[i + 1]), l) by {
            let t = parts[i] + ", "@ + parts[i + 1];
            assert(occurs_in(t, inner));
            lemma_occurs_within(t, inner, seq!['['], seq![']']);
        }
    }
}

/// A relationship whose targets are given explicitly (nothing prepended or
/// appended) is written on one line, `rel` and its name, that names every
/// target in angle brackets, and every two neighbouring targets in order
/// with `", "` between them; several targets stand in square brackets.
pub proof fn law_relationship_names_every_target(s: PropertySpec, name: Seq<char>, n: nat)
    requires
        s.target_paths is Some,
        s.target_paths.unwrap().prepended_items@.len() == 0,
        s.target_paths.unwrap().appended_items@.len() == 0,
        s.target_paths.unwrap().explicit_items@.len() > 0,
    ensures
        ({
            let ts = s.target_paths.unwrap().explicit_items@;
            let ls = relationship_lines(s, name, n);
            let head = indent_text(n) + custom_prefix(s.custom) + "rel "@ + name + " = "@;
            &&& ls.len() == 1
            &&& ls[0].take(head.len() as int) == head
            &&& forall|i: int| 0 <= i < ts.len() ==> occurs_in(angle(#[trigger] ts[i]), ls[0])
            &&& forall|i: int|
                0 <= i && i + 1 < ts.len() ==> occurs_in(angle(#[trigger] ts[i]) + ", "@ + angle(ts[i + 1]), ls[0])
            &&& ts.len() > 1 ==> ls[0][head.len() as int] == '[' && ls[0].last() == ']'
        }),
{
    let ts = s.target_paths.unwrap().explicit_items@;
    let ls = relationship_lines(s, name, n);
    let head = indent_text(n) + custom_prefix(s.custom) + "rel "@ + name + " = "@;
    let x = one_or_list(angled_paths(ts));
    lemma_target_list(ts);
    let op = s.target_paths.unwrap();
    assert(ls == seq![at(n, custom_prefix(s.custom) + "rel "@ + name + " = "@ + x)]);
    assert(ls[0] =~= head + x);
    let l = ls[0];
    assert(l.take(head.len() as int) =~= head);
    assert forall|i: int| 0 <= i < ts.len() implies occurs_in(angle(#[trigger] ts[i]), l) by {
        lemma_occurs_within(angle(ts[i]), x, head, Seq::empty());
        assert(head + x + Seq::<char>::empty() =~= l);
    }
    assert forall|i: int|
        0 <= i && i + 1 < ts.len() implies occurs_in(angle(#[trigger] ts[i]) + ", "@ + angle(ts[i + 1]), l) by {
        lemma_occurs_within(angle(ts[i]) + ", "@ + angle(ts[i + 1]), x, head, Seq::empty());
        assert(head + x + Seq::<char>::empty() =~= l);
    }
    if ts.len() > 1 {
        assert(l[head.len() as int] == x[0]);
    }
}

pub open spec fn property_lines(p: PropertyRecord, n: nat) -> Seq<Seq<char>> {
    match p.spec {
        Some(s) => if s.is_relationship {
            relationship_lines(s, p.name@, n)
        } else {
            attribute_lines(s, p.name@, n)
        },
        None => Seq::empty(),
    }
}

pub open spec fn properties_lines(ps: Seq<PropertyRecord>, n: nat) -> Seq<Seq<char>>
    decreases ps.len(),
{
    if ps.len() == 0 {
        Seq::empty()
    } else {
        properties_lines(ps.drop_last(), n) + property_lines(ps.last(), n)
    }
}

/// The name of a prim: its path after the last `/`.
pub open spec fn prim_name(path: Seq<char>) -> Seq<char> {
    match last_index_of(path, '/') {
        Some(i) => path.skip(i + 1int),
        None => path,
    }
}

pub open spec fn specifier_word(s: Option<UsdValue>) -> Seq<char> {
    match s {
        Some(UsdValue::Specifier(x)) => specifier_keyword(x),
        _ => "def"@,
    }
}

pub open spec fn type_prefix(t: Option<UsdValue>) -> Seq<char> {
    match text_field(t) {
        Some(t) => t + seq![' '],
        None => Seq::empty(),
    }
}

/// The declaration line of a prim.
pub open spec fn prim_head(p: PrimRecord, n: nat) -> Seq<char> {
    at(n, specifier_word(p.specifier) + seq![' '] + type_prefix(p.prim_type) + quoted(prim_name(p.path@)) + " ("@)
}

/// The lines of a prim at indentation level `n`, its descendants included.
pub open spec fn prim_lines(p: PrimRecord, n: nat) -> Seq<Seq<char>>
    decreases p, 1nat,
{
    seq![Seq::empty(), prim_head(p, n)] + metadata_lines(p, n + 1) + seq![at(n, ")"@), at(n, "{"@)]
        + properties_lines(p.properties@, n + 1) + children_lines(p.children@, n + 1) + seq![at(n, "}"@)]
}

/// The lines of the prims among `cs`, in order.
pub open spec fn children_lines(cs: Seq<Option<PrimRecord>>, n: nat) -> Seq<Seq<char>>
    decreases cs, 0nat,
{
    if cs.len() == 0 {
        Seq::empty()
    } else {
        children_lines(cs.drop_last(), n) + match cs.last() {
            Some(p) => prim_lines(p, n),
            None => Seq::empty(),
        }
    }
}

/// A bound on the number of indentation levels that a prim's lines use
/// below its own level, nested dictionaries included.
pub open spec fn prim_depth(p: PrimRecord) -> nat
    decreases p, 1nat,
{
    2 + children_depth(p.children@)
}

pub open spec fn children_depth(cs: Seq<Option<PrimRecord>>) -> nat
    decreases cs, 0nat,
{
    if cs.len() == 0 {
        0
    } else {
        let a = children_depth(cs.drop_last());
        let b = match cs.last() {
            Some(p) => prim_depth(p),
            None => 0,
        };
        if a >= b {
            a
        } else {
            b
        }
    }
}

/// The default prim of the header: the layer's, else the settings'.
pub open spec fn header_default_prim<N>(layer: LayerRecord, s: SceneSettings<N>) -> Seq<char> {
    match text_field(layer.default_prim) {
        Some(d) => d,
        None => s.default_prim@,
    }
}

/// The meters per unit of the header: the layer's, else the settings'.
pub open spec fn header_meters_per_unit(layer: LayerRecord, t: HeaderNumbers) -> Seq<char> {
    match layer.meters_per_unit {
        Some(UsdValue::Rendered(RenderedKind::Double, x)) => x@,
        Some(UsdValue::Rendered(RenderedKind::Float, x)) => x@,
        _ => t.meters_per_unit@,
    }
}

/// The up axis of the header: the layer's, else the settings'.
pub open spec fn header_up_axis<N>(layer: LayerRecord, s: SceneSettings<N>) -> Seq<char> {
    match text_field(layer.up_axis) {
        Some(u) => u,
        None => up_axis_token(s.up_axis),
    }
}

pub open spec fn default_prim_lines(dp: Seq<char>) -> Seq<Seq<char>> {
    if dp.len() > 0 {
        seq!["    defaultPrim = "@ + quoted(dp)]
    } else {
        Seq::empty()
    }
}

pub open spec fn doc_lines(doc: Option<String>) -> Seq<Seq<char>> {
    match doc {
        Some(d) => seq!["    doc = "@ + quoted(d@)],
        None => Seq::empty(),
    }
}

pub open spec fn time_lines(t: HeaderNumbers) -> Seq<Seq<char>> {
    seq![
        "    startTimeCode = "@ + t.start_time_code@,
        "    endTimeCode = "@ + t.end_time_code@,
        "    framesPerSecond = "@ + t.frames_per_second@,
        "    timeCodesPerSecond = "@ + t.time_codes_per_second@,
        ")"@,
    ]
}

/// The header lines of the document.
pub open spec fn header_lines<N>(layer: LayerRecord, s: SceneSettings<N>, t: HeaderNumbers) -> Seq<Seq<char>> {
    seq!["#usda 1.0"@, "("@] + default_prim_lines(header_default_prim(layer, s)) + seq![
        "    metersPerUnit = "@ + header_meters_per_unit(layer, t),
        "    upAxis = "@ + quoted(header_up_axis(layer, s)),
    ] + doc_lines(s.doc) + time_lines(t)
}

/// Whether the root prims are wrapped in a prim named after the default prim.
pub open spec fn wraps_in_root<N>(s: SceneSettings<N>) -> bool {
    s.create_root_prim && s.default_prim@.len() > 0
}

/// The lines of the whole document.
pub open spec fn document_lines<N>(layer: LayerRecord, s: SceneSettings<N>, t: HeaderNumbers) -> Seq<Seq<char>> {
    if wraps_in_root(s) {
        header_lines(layer, s, t) + seq![
            Seq::empty(),
            "def Xform "@ + quoted(s.default_prim@) + " ("@,
            at(1, "kind = \"assembly\""@),
            ")"@,
            "{"@,
        ] + children_lines(layer.children@, 1) + seq!["}"@]
    } else {
        header_lines(layer, s, t) + children_lines(layer.children@, 0)
    }
}

// ---------------------------------------------------------------------------
// The writer
// ---------------------------------------------------------------------------

/// `head` followed by `s` in double quotes.
fn head_quoted(head: &str, s: &str) -> (r: String)
    ensures
        r@ == head@ + quoted(s@),
{
    let mut r = head.to_string();
    push_char(&mut r, '"');
    r.append(s);
    push_char(&mut r, '"');
    r
}

/// The name of a prim: its path after the last `/`.
pub(crate) fn prim_name_string(path: &str) -> (r: String)
    ensures
        r@ == prim_name(path@),
{
    let cs = chars_of(path);
    match last_index_exec(&cs, '/') {
        Some(i) => string_from(&cs, i + 1),
        None => path.to_string(),
    }
}

/// The text of a reference or payload.
fn format_reference(reference: &AssetRef) -> (r: String)
    ensures
        r@ == ref_text(*reference),
{
    if reference.asset_path.as_str().is_empty() {
        let mut r = String::new();
        push_char(&mut r, '<');
        r.append(reference.prim_path.as_str());
        push_char(&mut r, '>');
        r
    } else if reference.prim_path.as_str().is_empty() {
        let mut r = String::new();
        push_char(&mut r, '@');
        r.append(reference.asset_path.as_str());
        push_char(&mut r, '@');
        r
    } else {
        let mut r = String::new();
        push_char(&mut r, '@');
        r.append(reference.asset_path.as_str());
        push_char(&mut r, '@');
        push_char(&mut r, '<');
        r.append(reference.prim_path.as_str());
        push_char(&mut r, '>');
        r
    }
}

fn ref_strings(items: &Vec<AssetRef>) -> (r: Vec<String>)
    ensures
        views(r@) == ref_texts(items@),
{
    let mut parts: Vec<String> = Vec::new();
    let mut k: usize = 0;
    while k < items.len()
        invariant
            0 <= k <= items.len(),
            views(parts@) == ref_texts(items@).take(k as int),
        decreases items.len() - k,
    {
        let t = format_reference(&items[k]);
        proof {
            lemma_views_push(parts@, t);
        }
        parts.push(t);
        assert(views(parts@) =~= ref_texts(items@).take(k + 1));
        k += 1;
    }
    assert(ref_texts(items@).take(k as int) =~= ref_texts(items@));
    parts
}

fn angled_strings(items: &Vec<String>) -> (r: Vec<String>)
    ensures
        views(r@) == angled_paths(items@),
{
    let mut parts: Vec<String> = Vec::new();
    let mut k: usize = 0;
    while k < items.len()
        invariant
            0 <= k <= items.len(),
            views(parts@) == angled_paths(items@).take(k as int),
        decreases items.len() - k,
    {
        let mut t = String::new();
        push_char(&mut t, '<');
        t.append(items[k].as_str());
        push_char(&mut t, '>');
        assert(t@ =~= angled(items@[k as int]@));
        proof {
            lemma_views_push(parts@, t);
        }
        parts.push(t);
        assert(views(parts@) =~= angled_paths(items@).take(k + 1));
        k += 1;
    }
    assert(angled_paths(items@).take(k as int) =~= angled_paths(items@));
    parts
}

/// A single item bare, several in brackets.
fn one_or_list_string(parts: &Vec<String>) -> (r: String)
    ensures
        r@ == one_or_list(views(parts@)),
{
    if parts.len() == 1 {
        parts[0].clone()
    } else {
        enclose('[', parts, ']')
    }
}

/// USDA text file writer.
pub struct UsdaWriter {
    lines: Vec<String>,
    indent_level: usize,
}

impl UsdaWriter {
    /// The lines written so far.
    pub closed spec fn lines_view(&self) -> Seq<Seq<char>> {
        views(self.lines@)
    }

    /// The current indentation level.
    pub closed spec fn level(&self) -> nat {
        self.indent_level as nat
    }

    /// A writer with no lines, at indentation level 0.
    pub fn new() -> (w: Self)
        ensures
            w.lines_view() == Seq::<Seq<char>>::empty(),
            w.level() == 0,
    {
        let w = UsdaWriter { lines: Vec::new(), indent_level: 0 };
        assert(views(w.lines@) =~= Seq::<Seq<char>>::empty());
        w
    }

    /// The indentation of the current level.
    fn indent(&self) -> (r: String)
        ensures
            r@ == indent_text(self.level()),
    {
        let mut r = String::new();
        let mut i: usize = 0;
        while i < self.indent_level
            invariant
                i <= self.indent_level,
                r@ == indent_text(i as nat),
            decreases self.indent_level - i,
        {
            r.append("    ");
            i += 1;
        }
        r
    }

    /// Appends a line at the current indentation.
    fn push(&mut self, line: String)
        ensures
            final(self).lines_view() == old(self).lines_view().push(at(old(self).level(), line@)),
            final(self).level() == old(self).level(),
    {
        let mut l = self.indent();
        l.append(line.as_str());
        proof {
            lemma_views_push(self.lines@, l);
        }
        self.lines.push(l);
    }

    /// Appends a line as it is.
    fn push_raw(&mut self, line: String)
        ensures
            final(self).lines_view() == old(self).lines_view().push(line@),
            final(self).level() == old(self).level(),
    {
        proof {
            lemma_views_push(self.lines@, line);
        }
        self.lines.push(line);
    }
}

impl Default for UsdaWriter {
    fn default() -> (w: Self)
        ensures
            w.lines_view() == Seq::<Seq<char>>::empty(),
            w.level() == 0,
    {
        Self::new()
    }
}

impl UsdaWriter {
    /// Writes the lines of a reference or payload list operation.
    fn write_asset_list_op(&mut self, word: &str, op: &ListOpRecord<AssetRef>)
        ensures
            final(self).lines_view() == old(self).lines_view() + ref_list_op_lines(*op, word@, old(self).level()),
            final(self).level() == old(self).level(),
    {
        let ghost n = self.level();
        let ghost start = self.lines_view();
        if op.explicit && op.explicit_items.len() > 0 {
            let refs = ref_strings(&op.explicit_items);
            let mut l = word.to_string();
            l.append(" = ");
            let list = enclose('[', &refs, ']');
            l.append(list.as_str());
            self.push(l);
        }
        let ghost a = self.lines_view();
        if op.prepended_items.len() > 0 {
            let refs = ref_strings(&op.prepended_items);
            let mut l = "prepend ".to_string();
            l.append(word);
            l.append(" = ");
            let list = one_or_list_string(&refs);
            l.append(list.as_str());
            self.push(l);
        }
        let ghost b = self.lines_view();
        if op.appended_items.len() > 0 {
            let refs = ref_strings(&op.appended_items);
            let mut l = "append ".to_string();
            l.append(word);
            l.append(" = ");
            let list = one_or_list_string(&refs);
            l.append(list.as_str());
            self.push(l);
        }
        assert(self.lines_view() =~= start + ref_list_op_lines(*op, word@, n));
    }

    /// Writes the lines of a reference list operation.
    fn write_reference_list_op(&mut self, list_op: &ListOpRecord<AssetRef>)
        ensures
            final(self).lines_view() == old(self).lines_view() + ref_list_op_lines(
                *list_op,
                "references"@,
                old(self).level(),
            ),
            final(self).level() == old(self).level(),
    {
        self.write_asset_list_op("references", list_op);
    }

    /// Writes the lines of a payload field.
    fn write_payload(&mut self, value: &PayloadField)
        ensures
            final(self).lines_view() == old(self).lines_view() + payload_lines(Some(*value), old(self).level()),
            final(self).level() == old(self).level(),
    {
        match value {
            PayloadField::ListOp(op) => self.write_payload_list_op(op),
            PayloadField::Single(r) => {
                let mut l = "payload = ".to_string();
                let t = format_reference(r);
                l.append(t.as_str());
                self.push(l);
                assert(self.lines_view() =~= old(self).lines_view() + payload_lines(Some(*value), old(self).level()));
            },
        }
    }

    /// Writes the lines of a payload list operation.
    fn write_payload_list_op(&mut self, list_op: &ListOpRecord<AssetRef>)
        ensures
            final(self).lines_view() == old(self).lines_view() + ref_list_op_lines(
                *list_op,
                "payload"@,
                old(self).level(),
            ),
            final(self).level() == old(self).level(),
    {
        self.write_asset_list_op("payload", list_op);
    }

    /// Writes the lines of a path list operation (`inherits`, `specializes`).
    fn write_path_list_op(&mut self, name: &str, value: &Option<ListOpRecord<String>>)
        ensures
            final(self).lines_view() == old(self).lines_view() + path_list_op_lines(name@, *value, old(self).level()),
            final(self).level() == old(self).level(),
    {
        let ghost start = self.lines_view();
        if let Some(op) = value {
            if op.prepended_items.len() > 0 {
                let paths = angled_strings(&op.prepended_items);
                let mut l = "prepend ".to_string();
                l.append(name);
                l.append(" = ");
                let list = one_or_list_string(&paths);
                l.append(list.as_str());
                self.push(l);
            }
            if op.appended_items.len() > 0 {
                let paths = angled_strings(&op.appended_items);
                let mut l = "append ".to_string();
                l.append(name);
                l.append(" = ");
                let list = one_or_list_string(&paths);
                l.append(list.as_str());
                self.push(l);
            }
        }
        assert(self.lines_view() =~= start + path_list_op_lines(name@, *value, old(self).level()));
    }

    /// Writes the entries of a dictionary, one per line.
    fn write_dictionary(&mut self, dict: &Vec<(String, UsdValue)>)
        ensures
            final(self).lines_view() == old(self).lines_view() + all_at(old(self).level(), entry_texts(dict@)),
            final(self).level() == old(self).level(),
    {
        let ghost n = self.level();
        let ghost start = self.lines_view();
        let mut i: usize = 0;
        while i < dict.len()
            invariant
                0 <= i <= dict.len(),
                self.level() == n,
                self.lines_view() == start + all_at(n, entry_texts(dict@.take(i as int))),
            decreases dict.len() - i,
        {
            let e = &dict[i];
            let t = entry_string(&e.0, &e.1);
            self.push(t);
            assert(dict@.take(i + 1).drop_last() =~= dict@.take(i as int));
            assert(all_at(n, entry_texts(dict@.take(i + 1))) =~= all_at(n, entry_texts(dict@.take(i as int))).push(
                at(n, t@),
            ));
            i += 1;
        }
        assert(dict@.take(i as int) =~= dict@);
    }

    fn write_kind(&mut self, kind: &Option<UsdValue>)
        ensures
            final(self).lines_view() == old(self).lines_view() + kind_lines(*kind, old(self).level()),
            final(self).level() == old(self).level(),
    {
        if let Some(UsdValue::Token(k)) = kind {
            let l = head_quoted("kind = ", k.as_str());
            self.push(l);
        }
        assert(self.lines_view() =~= old(self).lines_view() + kind_lines(*kind, old(self).level()));
    }

    fn write_instanceable(&mut self, value: &Option<UsdValue>)
        ensures
            final(self).lines_view() == old(self).lines_view() + instanceable_lines(*value, old(self).level()),
            final(self).level() == old(self).level(),
    {
        if let Some(UsdValue::Bool(true)) = value {
            self.push("instanceable = true".to_string());
        }
        assert(self.lines_view() =~= old(self).lines_view() + instanceable_lines(*value, old(self).level()));
    }

    fn write_references(&mut self, value: &Option<ListOpRecord<AssetRef>>)
        ensures
            final(self).lines_view() == old(self).lines_view() + references_lines(*value, old(self).level()),
            final(self).level() == old(self).level(),
    {
        if let Some(op) = value {
            self.write_reference_list_op(op);
        }
        assert(self.lines_view() =~= old(self).lines_view() + references_lines(*value, old(self).level()));
    }

    fn write_payload_field(&mut self, value: &Option<PayloadField>)
        ensures
            final(self).lines_view() == old(self).lines_view() + payload_lines(*value, old(self).level()),
            final(self).level() == old(self).level(),
    {
        if let Some(p) = value {
            self.write_payload(p);
        }
        assert(self.lines_view() =~= old(self).lines_view() + payload_lines(*value, old(self).level()));
    }

    fn write_custom_data(&mut self, value: &Option<UsdValue>)
        requires
            old(self).level() < usize::MAX,
        ensures
            final(self).lines_view() == old(self).lines_view() + custom_data_lines(*value, old(self).level()),
            final(self).level() == old(self).level(),
    {
        let ghost n = self.level();
        if let Some(UsdValue::Dictionary(dict)) = value {
            if dict.len() > 0 {
                self.push("customData = {".to_string());
                self.indent_level += 1;
                self.write_dictionary(dict);
                self.indent_level -= 1;
                self.push("}".to_string());
            }
        }
        assert(self.lines_view() =~= old(self).lines_view() + custom_data_lines(*value, n));
    }

    /// Writes the metadata lines of a prim.
    #[verifier::rlimit(40)]
    fn write_prim_metadata(&mut self, spec: &PrimRecord)
        requires
            old(self).level() < usize::MAX,
        ensures
            final(self).lines_view() == old(self).lines_view() + metadata_lines(*spec, old(self).level()),
            final(self).level() == old(self).level(),
    {
        let ghost n = self.level();
        let ghost start = self.lines_view();
        let ghost p1 = kind_lines(spec.kind, n);
        let ghost p2 = p1 + instanceable_lines(spec.instanceable, n);
        let ghost p3 = p2 + references_lines(spec.references, n);
        let ghost p4 = p3 + payload_lines(spec.payload, n);
        let ghost p5 = p4 + path_list_op_lines("inherits"@, spec.inherits, n);
        let ghost p6 = p5 + path_list_op_lines("specializes"@, spec.specializes, n);
        let ghost p7 = p6 + custom_data_lines(spec.custom_data, n);
        self.write_kind(&spec.kind);
        assert(self.lines_view() =~= start + p1);
        self.write_instanceable(&spec.instanceable);
        assert(self.lines_view() =~= start + p2);
        self.write_references(&spec.references);
        assert(self.lines_view() =~= start + p3);
        self.write_payload_field(&spec.payload);
        assert(self.lines_view() =~= start + p4);
        self.write_path_list_op("inherits", &spec.inherits);
        assert(self.lines_view() =~= start + p5);
        self.write_path_list_op("specializes", &spec.specializes);
        assert(self.lines_view() =~= start + p6);
        self.write_custom_data(&spec.custom_data);
        assert(self.lines_view() =~= start + p7);
        assert(p7 == metadata_lines(*spec, n));
        assert(self.lines_view() =~= start + metadata_lines(*spec, n));
    }
}

/// The head of an attribute line: custom and uniform markers, type name and
/// attribute name.
pub open spec fn attribute_head(s: PropertySpec, name: Seq<char>) -> Seq<char> {
    custom_prefix(s.custom) + variability_prefix(s.variability) + match text_field(s.value_type) {
        Some(t) => t,
        None => "token"@,
    } + seq![' '] + name
}

fn custom_str(c: &Option<UsdValue>) -> (r: &'static str)
    ensures
        r@ == custom_prefix(*c),
{
    proof {
        reveal_strlit("");
    }
    match c {
        Some(UsdValue::Bool(true)) => "custom ",
        _ => "",
    }
}

fn attribute_head_string(s: &PropertySpec, name: &str) -> (r: String)
    ensures
        r@ == attribute_head(*s, name@),
{
    let mut r = custom_str(&s.custom).to_string();
    match &s.variability {
        Some(UsdValue::Variability(Variability::Uniform)) => r.append("uniform "),
        _ => {},
    }
    match &s.value_type {
        Some(UsdValue::Token(t)) => r.append(t.as_str()),
        Some(UsdValue::Str(t)) => r.append(t.as_str()),
        _ => r.append("token"),
    }
    push_char(&mut r, ' ');
    r.append(name);
    r
}

impl UsdaWriter {
    /// Writes time samples, one per line.
    fn write_samples(&mut self, samples: &Vec<(String, UsdValue)>)
        ensures
            final(self).lines_view() == old(self).lines_view() + sample_lines(samples@, old(self).level()),
            final(self).level() == old(self).level(),
    {
        let ghost n = self.level();
        let ghost start = self.lines_view();
        let mut i: usize = 0;
        while i < samples.len()
            invariant
                0 <= i <= samples.len(),
                self.level() == n,
                self.lines_view() == start + sample_lines(samples@.take(i as int), n),
            decreases samples.len() - i,
        {
            let e = &samples[i];
            let mut l = e.0.clone();
            l.append(": ");
            let v = format_value(&e.1);
            l.append(v.as_str());
            push_char(&mut l, ',');
            assert(l@ =~= samples@[i as int].0@ + ": "@ + value_text(samples@[i as int].1) + seq![',']);
            self.push(l);
            assert(sample_lines(samples@.take(i + 1), n) =~= sample_lines(samples@.take(i as int), n).push(at(n, l@)));
            i += 1;
        }
        assert(samples@.take(i as int) =~= samples@);
    }

    /// Writes an attribute.
    fn write_attribute(&mut self, spec: &PropertySpec, name: &str)
        requires
            old(self).level() < usize::MAX,
        ensures
            final(self).lines_view() == old(self).lines_view() + attribute_lines(*spec, name@, old(self).level()),
            final(self).level() == old(self).level(),
    {
        let ghost n = self.level();
        let head = attribute_head_string(spec, name);
        assert(head@ == attribute_head(*spec, name@));
        match &spec.default_value {
            Some(value) => {
                let mut l = head;
                l.append(" = ");
                let v = format_value(value);
                l.append(v.as_str());
                self.push(l);
            },
            None => match &spec.time_samples {
                Some(samples) => {
                    let mut l = head;
                    l.append(".timeSamples = {");
                    self.push(l);
                    self.indent_level += 1;
                    self.write_samples(samples);
                    self.indent_level -= 1;
                    self.push("}".to_string());
                },
                None => {
                    self.push(head);
                },
            },
        }
        assert(self.lines_view() =~= old(self).lines_view() + attribute_lines(*spec, name@, n));
    }

    /// Writes a relationship.
    fn write_relationship(&mut self, spec: &PropertySpec, name: &str)
        ensures
            final(self).lines_view() == old(self).lines_view() + relationship_lines(*spec, name@, old(self).level()),
            final(self).level() == old(self).level(),
    {
        let ghost n = self.level();
        let c = custom_str(&spec.custom);
        match &spec.target_paths {
            Some(op) => {
                if op.prepended_items.len() > 0 {
                    let targets = angled_strings(&op.prepended_items);
                    let mut l = c.to_string();
                    l.append("prepend rel ");
                    l.append(name);
                    l.append(" = ");
                    let list = enclose('[', &targets, ']');
                    l.append(list.as_str());
                    self.push(l);
                } else if op.appended_items.len() > 0 {
                    let targets = angled_strings(&op.appended_items);
                    let mut l = c.to_string();
                    l.append("append rel ");
                    l.append(name);
                    l.append(" = ");
                    let list = enclose('[', &targets, ']');
                    l.append(list.as_str());
                    self.push(l);
                } else if op.explicit_items.len() > 0 {
                    let targets = angled_strings(&op.explicit_items);
                    let mut l = c.to_string();
                    l.append("rel ");
                    l.append(name);
                    l.append(" = ");
                    let list = one_or_list_string(&targets);
                    l.append(list.as_str());
                    self.push(l);
                }
            },
            None => {
                let mut l = c.to_string();
                l.append("rel ");
                l.append(name);
                self.push(l);
            },
        }
        assert(self.lines_view() =~= old(self).lines_view() + relationship_lines(*spec, name@, n));
    }

    /// Writes a property: an attribute or a relationship, nothing where the
    /// layer has no spec for it.
    fn write_property(&mut self, property: &PropertyRecord)
        requires
            old(self).level() < usize::MAX,
        ensures
            final(self).lines_view() == old(self).lines_view() + property_lines(*property, old(self).level()),
            final(self).level() == old(self).level(),
    {
        match &property.spec {
            Some(spec) => {
                if spec.is_relationship {
                    self.write_relationship(spec, property.name.as_str());
                } else {
                    self.write_attribute(spec, property.name.as_str());
                }
            },
            None => {
                assert(self.lines_view() =~= old(self).lines_view() + property_lines(*property, old(self).level()));
            },
        }
    }

    /// Writes the properties of a prim in order.
    fn write_properties(&mut self, properties: &Vec<PropertyRecord>)
        requires
            old(self).level() < usize::MAX,
        ensures
            final(self).lines_view() == old(self).lines_view() + properties_lines(properties@, old(self).level()),
            final(self).level() == old(self).level(),
    {
        let ghost n = self.level();
        let ghost start = self.lines_view();
        let mut i: usize = 0;
        assert(properties@.take(0) =~= Seq::<PropertyRecord>::empty());
        assert(start =~= start + properties_lines(properties@.take(0), n));
        while i < properties.len()
            invariant
                0 <= i <= properties.len(),
                self.level() == n,
                n < usize::MAX,
                self.lines_view() == start + properties_lines(properties@.take(i as int), n),
            decreases properties.len() - i,
        {
            let ghost before = self.lines_view();
            self.write_property(&properties[i]);
            assert(properties@.take(i + 1).drop_last() =~= properties@.take(i as int));
            assert(self.lines_view() =~= start + properties_lines(properties@.take(i + 1), n));
            i += 1;
        }
        assert(properties@.take(i as int) =~= properties@);
    }
}

/// A prim's depth bounds that of each of its present children.
proof fn lemma_children_depth(cs: Seq<Option<PrimRecord>>, i: int)
    requires
        0 <= i < cs.len(),
    ensures
        cs[i] matches Some(p) ==> prim_depth(p) <= children_depth(cs),
        children_depth(cs.take(i)) <= children_depth(cs),
    decreases cs.len(),
{
    if i < cs.len() - 1 {
        lemma_children_depth(cs.drop_last(), i);
        assert(cs.drop_last().take(i) =~= cs.take(i));
    } else {
        assert(cs.take(i) =~= cs.drop_last());
    }
}

fn prim_head_string(p: &PrimRecord) -> (r: String)
    ensures
        r@ == specifier_word(p.specifier) + seq![' '] + type_prefix(p.prim_type) + quoted(prim_name(p.path@)) + " ("@,
{
    let word: &str = match &p.specifier {
        Some(UsdValue::Specifier(s)) => s.as_str(),
        _ => "def",
    };
    let mut r = word.to_string();
    push_char(&mut r, ' ');
    match &p.prim_type {
        Some(UsdValue::Token(t)) => {
            r.append(t.as_str());
            push_char(&mut r, ' ');
        },
        Some(UsdValue::Str(t)) => {
            r.append(t.as_str());
            push_char(&mut r, ' ');
        },
        _ => {},
    }
    let name = prim_name_string(p.path.as_str());
    let q = quoted_string(name.as_str());
    r.append(q.as_str());
    r.append(" (");
    r
}

impl UsdaWriter {
    /// Writes a prim with its metadata, properties and descendants.
    #[verifier::rlimit(30)]
    fn write_prim(&mut self, p: &PrimRecord)
        requires
            old(self).level() + prim_depth(*p) <= usize::MAX,
        ensures
            final(self).lines_view() == old(self).lines_view() + prim_lines(*p, old(self).level()),
            final(self).level() == old(self).level(),
        decreases p, 1nat,
    {
        let ghost n = self.level();
        let ghost start = self.lines_view();
        self.push_raw(String::new());
        let head = prim_head_string(p);
        self.push(head);
        let ghost a = self.lines_view();
        self.indent_level += 1;
        self.write_prim_metadata(p);
        self.indent_level -= 1;
        let ghost b = self.lines_view();
        self.push(")".to_string());
        self.push("{".to_string());
        self.indent_level += 1;
        self.write_properties(&p.properties);
        let ghost c = self.lines_view();
        proof {
            assert(decreases_to!(*p => p.children));
            assert(decreases_to!(p.children => p.children@));
        }
        self.write_children(&p.children);
        let ghost d = self.lines_view();
        self.indent_level -= 1;
        self.push("}".to_string());
        proof {
            let head = seq![Seq::<char>::empty(), prim_head(*p, n)];
            let meta = metadata_lines(*p, n + 1);
            let props = properties_lines(p.properties@, n + 1);
            let kids = children_lines(p.children@, n + 1);
            assert(a =~= start + head);
            assert(b == a + meta);
            assert(c =~= b + seq![at(n, ")"@), at(n, "{"@)] + props);
            assert(d == c + kids);
            assert(self.lines_view() == d.push(at(n, "}"@)));
            assert(prim_lines(*p, n) == head + meta + seq![at(n, ")"@), at(n, "{"@)] + props + kids + seq![at(n, "}"@)]);
            assert(self.lines_view() =~= start + prim_lines(*p, n));
        }
    }

    /// Writes the present prims among `children`, in order.
    fn write_children(&mut self, children: &Vec<Option<PrimRecord>>)
        requires
            old(self).level() + children_depth(children@) <= usize::MAX,
        ensures
            final(self).lines_view() == old(self).lines_view() + children_lines(children@, old(self).level()),
            final(self).level() == old(self).level(),
        decreases children@, 0nat,
    {
        let ghost n = self.level();
        let ghost start = self.lines_view();
        let mut i: usize = 0;
        assert(children@.take(0) =~= Seq::<Option<PrimRecord>>::empty());
        assert(start =~= start + children_lines(children@.take(0), n));
        while i < children.len()
            invariant
                0 <= i <= children.len(),
                self.level() == n,
                n + children_depth(children@) <= usize::MAX,
                self.lines_view() == start + children_lines(children@.take(i as int), n),
            decreases children.len() - i,
        {
            proof {
                lemma_children_depth(children@, i as int);
                assert(children@.take(i + 1).drop_last() =~= children@.take(i as int));
            }
            match &children[i] {
                Some(p) => {
                    proof {
                        assert(decreases_to!(children@ => children@[i as int]));
                    }
                    self.write_prim(p);
                },
                None => {},
            }
            assert(self.lines_view() =~= start + children_lines(children@.take(i + 1), n));
            i += 1;
        }
        assert(children@.take(i as int) =~= children@);
    }

    fn write_time_lines(&mut self, numbers: &HeaderNumbers)
        ensures
            final(self).lines_view() == old(self).lines_view() + time_lines(*numbers),
            final(self).level() == old(self).level(),
    {
        let mut l = "    startTimeCode = ".to_string();
        l.append(numbers.start_time_code.as_str());
        self.push_raw(l);
        let mut l = "    endTimeCode = ".to_string();
        l.append(numbers.end_time_code.as_str());
        self.push_raw(l);
        let mut l = "    framesPerSecond = ".to_string();
        l.append(numbers.frames_per_second.as_str());
        self.push_raw(l);
        let mut l = "    timeCodesPerSecond = ".to_string();
        l.append(numbers.time_codes_per_second.as_str());
        self.push_raw(l);
        self.push_raw(")".to_string());
        assert(self.lines_view() =~= old(self).lines_view() + time_lines(*numbers));
    }

    /// Writes the header of the document.
    fn write_header<N>(&mut self, layer: &LayerRecord, settings: &SceneSettings<N>, numbers: &HeaderNumbers)
        ensures
            final(self).lines_view() == old(self).lines_view() + header_lines(*layer, *settings, *numbers),
            final(self).level() == old(self).level(),
    {
        let ghost start = self.lines_view();
        self.push_raw("#usda 1.0".to_string());
        self.push_raw("(".to_string());
        let ghost a = self.lines_view();
        let default_prim: &str = match &layer.default_prim {
            Some(UsdValue::Token(s)) => s.as_str(),
            Some(UsdValue::Str(s)) => s.as_str(),
            _ => settings.default_prim.as_str(),
        };
        assert(default_prim@ == header_default_prim(*layer, *settings));
        if !default_prim.is_empty() {
            self.push_raw(head_quoted("    defaultPrim = ", default_prim));
        }
        let ghost b = self.lines_view();
        assert(b =~= a + default_prim_lines(default_prim@));
        let meters_per_unit: &str = match &layer.meters_per_unit {
            Some(UsdValue::Rendered(RenderedKind::Double, x)) => x.as_str(),
            Some(UsdValue::Rendered(RenderedKind::Float, x)) => x.as_str(),
            _ => numbers.meters_per_unit.as_str(),
        };
        assert(meters_per_unit@ == header_meters_per_unit(*layer, *numbers));
        let mut l = "    metersPerUnit = ".to_string();
        l.append(meters_per_unit);
        self.push_raw(l);
        let up_axis: &str = match &layer.up_axis {
            Some(UsdValue::Token(s)) => s.as_str(),
            Some(UsdValue::Str(s)) => s.as_str(),
            _ => settings.up_axis.as_str(),
        };
        assert(up_axis@ == header_up_axis(*layer, *settings));
        self.push_raw(head_quoted("    upAxis = ", up_axis));
        let ghost c = self.lines_view();
        if let Some(doc) = &settings.doc {
            self.push_raw(head_quoted("    doc = ", doc.as_str()));
        }
        let ghost d = self.lines_view();
        assert(d =~= c + doc_lines(settings.doc));
        self.write_time_lines(numbers);
        assert(self.lines_view() =~= start + header_lines(*layer, *settings, *numbers));
    }

    /// Generates the USDA text of a layer: the header, then each root prim
    /// with its descendants, wrapped in a prim named after the default prim
    /// when the settings ask for a root prim. The lines are kept in the
    /// writer and returned joined by newlines.
    pub fn generate<N>(&mut self, layer: &LayerRecord, settings: &SceneSettings<N>, numbers: &HeaderNumbers) -> (r: String)
        requires
            children_depth(layer.children@) < usize::MAX,
        ensures
            final(self).lines_view() == document_lines(*layer, *settings, *numbers),
            final(self).level() == 0,
            r@ == join_lines(document_lines(*layer, *settings, *numbers)),
    {
        self.lines = Vec::new();
        self.indent_level = 0;
        assert(self.lines_view() =~= Seq::<Seq<char>>::empty());
        self.write_header(layer, settings, numbers);
        let ghost h = self.lines_view();
        let wrap = settings.create_root_prim && !settings.default_prim.as_str().is_empty();
        if wrap {
            self.push_raw(String::new());
            let mut l = head_quoted("def Xform ", settings.default_prim.as_str());
            l.append(" (");
            self.push(l);
            self.indent_level += 1;
            self.push("kind = \"assembly\"".to_string());
            self.indent_level -= 1;
            self.push(")".to_string());
            self.push("{".to_string());
            self.indent_level += 1;
        }
        let ghost w = self.lines_view();
        self.write_children(&layer.children);
        let ghost c = self.lines_view();
        if wrap {
            self.indent_level -= 1;
            self.push("}".to_string());
        }
        proof {
            assert(indent_text(0) =~= Seq::<char>::empty());
            assert(indent_text(1) =~= "    "@);
            assert(self.lines_view() =~= document_lines(*layer, *settings, *numbers));
        }
        join_newline(&self.lines)
    }
}

/// Generates the USDA text of a layer with a new writer.
pub fn generate_usda<N>(layer: &LayerRecord, settings: &SceneSettings<N>, numbers: &HeaderNumbers) -> (r: String)
    requires
        children_depth(layer.children@) < usize::MAX,
    ensures
        r@ == join_lines(document_lines(*layer, *settings, *numbers)),
{
    let mut writer = UsdaWriter::new();
    writer.generate(layer, settings, numbers)
}

} // verus!
