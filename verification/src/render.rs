//! USDA text of an assembled stage.
//!
//! Numbers reach this module already spelled: the caller turns each asset's
//! transform into a `TransformText` and the numeric settings into a
//! `SettingsText`; everything else of the layout is decided here.

use vstd::prelude::*;

use crate::asset::{model, models, lemma_models, AssetModel, StagerAsset};
use crate::func::{apply, deterministic, result_of};
use crate::kinds::{
    reference_op_keyword, specifier_keyword, up_axis_token, kind_token, ReferenceType, Specifier,
};
use crate::paths::file_name_of;
use crate::stager::{settings_model, SettingsModel, StagerSceneSettings, Stager};
use crate::text::{chars_of, join_lines, push_char, string_of, views};

verus! {

/// A vector of three spelled numbers.
pub struct Vec3Text {
    pub x: String,
    pub y: String,
    pub z: String,
}

/// The spelled transform of an asset.
pub struct TransformText {
    /// The matrix literal written in matrix mode.
    pub matrix: String,
    pub translate: Vec3Text,
    pub rotate: Vec3Text,
    pub scale: Vec3Text,
}

/// The spelled numeric scene settings.
pub struct SettingsText {
    pub meters_per_unit: String,
    pub start_time_code: String,
    pub end_time_code: String,
    pub frames_per_second: String,
    pub time_codes_per_second: String,
}

// ---------------------------------------------------------------------------
// Specification of the text
// ---------------------------------------------------------------------------

pub open spec fn quoted(s: Seq<char>) -> Seq<char> {
    seq!['"'] + s + seq!['"']
}

/// Parts joined with a separator between each two.
pub open spec fn join_sep(parts: Seq<Seq<char>>, sep: Seq<char>) -> Seq<char>
    decreases parts.len(),
{
    if parts.len() == 0 {
        Seq::empty()
    } else if parts.len() == 1 {
        parts[0]
    } else {
        join_sep(parts.drop_last(), sep) + sep + parts.last()
    }
}

/// Whether `t` occurs in `s` at position `off`.
pub open spec fn occurs_at(t: Seq<char>, s: Seq<char>, off: int) -> bool {
    0 <= off && off + t.len() <= s.len() && s.subrange(off, off + t.len()) == t
}

/// Whether `t` occurs in `s`.
pub open spec fn occurs_in(t: Seq<char>, s: Seq<char>) -> bool {
    exists|off: int| occurs_at(t, s, off)
}

/// What occurs in a text occurs in any text that holds it.
pub proof fn lemma_occurs_within(t: Seq<char>, s: Seq<char>, a: Seq<char>, b: Seq<char>)
    requires
        occurs_in(t, s),
    ensures
        occurs_in(t, a + s + b),
{
    let off = choose|off: int| occurs_at(t, s, off);
    let big = a + s + b;
    assert(big.subrange(a.len() + off, a.len() + off + t.len()) =~= s.subrange(off, off + t.len()));
    assert(occurs_at(t, big, a.len() + off));
}

/// A joined list ends with its last part.
pub proof fn lemma_join_sep_ends(parts: Seq<Seq<char>>, sep: Seq<char>)
    requires
        parts.len() > 0,
    ensures
        join_sep(parts, sep).len() >= parts.last().len(),
        join_sep(parts, sep).skip(join_sep(parts, sep).len() - parts.last().len()) == parts.last(),
{
    let j = join_sep(parts, sep);
    if parts.len() == 1 {
        assert(j.skip(0) =~= j);
    } else {
        assert(j.skip(j.len() - parts.last().len()) =~= parts.last());
    }
}

/// A joined list holds every part, and every two neighbouring parts with
/// the separator between them, in order.
pub proof fn lemma_join_sep_holds(parts: Seq<Seq<char>>, sep: Seq<char>)
    ensures
        forall|i: int| 0 <= i < parts.len() ==> occurs_in(#[trigger] parts[i], join_sep(parts, sep)),
        forall|i: int|
            0 <= i && i + 1 < parts.len() ==> occurs_in(#[trigger] parts[i] + sep + parts[i + 1], join_sep(parts, sep)),
    decreases parts.len(),
{
    let j = join_sep(parts, sep);
    if parts.len() == 1 {
        assert(j.subrange(0, parts[0].len() as int) =~= parts[0]);
        assert(occurs_at(parts[0], j, 0));
    } else if parts.len() > 1 {
        let d = parts.drop_last();
        let jd = join_sep(d, sep);
        lemma_join_sep_holds(d, sep);
        lemma_join_sep_ends(d, sep);
        assert(j == jd + sep + parts.last());
        assert forall|i: int| 0 <= i < parts.len() implies occurs_in(#[trigger] parts[i], j) by {
            if i + 1 < parts.len() {
                assert(parts[i] == d[i]);
                lemma_occurs_within(parts[i], jd, Seq::empty(), sep + parts.last());
                assert(Seq::<char>::empty() + jd + (sep + parts.last()) =~= j);
            } else {
                let off: int = (jd.len() + sep.len()) as int;
                assert(j.subrange(off, off + parts.last().len()) =~= parts.last());
                assert(occurs_at(parts[i], j, off));
            }
        }
        assert forall|i: int| 0 <= i && i + 1 < parts.len() implies occurs_in(
            #[trigger] parts[i] + sep + parts[i + 1],
            j,
        ) by {
            if i + 2 < parts.len() {
                assert(parts[i] == d[i] && parts[i + 1] == d[i + 1]);
                lemma_occurs_within(parts[i] + sep + parts[i + 1], jd, Seq::empty(), sep + parts.last());
                assert(Seq::<char>::empty() + jd + (sep + parts.last()) =~= j);
            } else {
                let t = parts[i] + sep + parts[i + 1];
                assert(parts[i] == d.last());
                let off: int = jd.len() - d.last().len();
                assert(j.subrange(off, off + t.len()) =~= t);
                assert(occurs_at(t, j, off));
            }
        }
    }
}

/// Each line with `p` in front.
pub open spec fn prefixed(p: Seq<char>, lines: Seq<Seq<char>>) -> Seq<Seq<char>> {
    lines.map_values(|l: Seq<char>| p + l)
}

/// `s` without its trailing `c` characters.
pub open spec fn trim_trailing(s: Seq<char>, c: char) -> Seq<char>
    decreases s.len(),
{
    if s.len() > 0 && s.last() == c {
        trim_trailing(s.drop_last(), c)
    } else {
        s
    }
}

/// Whether a character has the Unicode `White_Space` property: U+0009 to
/// U+000D, U+0020, U+0085, U+00A0, U+1680, U+2000 to U+200A, U+2028,
/// U+2029, U+202F, U+205F and U+3000.
pub open spec fn is_whitespace_char(c: char) -> bool {
    let n = c as int;
    ||| 0x09 <= n <= 0x0D
    ||| n == 0x20
    ||| n == 0x85
    ||| n == 0xA0
    ||| n == 0x1680
    ||| 0x2000 <= n <= 0x200A
    ||| n == 0x2028
    ||| n == 0x2029
    ||| n == 0x202F
    ||| n == 0x205F
    ||| n == 0x3000
}

/// Whether a character is white space.
/// Calls `char::is_whitespace`, which std documents as the Unicode
/// `White_Space` property; the contract lists those code points.
#[verifier::external_body]
pub(crate) fn char_is_whitespace(c: char) -> (r: bool)
    ensures
        r == is_whitespace_char(c),
{
    c.is_whitespace()
}

/// `s` without trailing white space, as `str::trim_end` gives it.
pub open spec fn trim_end_ws(s: Seq<char>) -> Seq<char>
    decreases s.len(),
{
    if s.len() > 0 && is_whitespace_char(s.last()) {
        trim_end_ws(s.drop_last())
    } else {
        s
    }
}

/// The last position of `c` in `s`.
pub open spec fn last_index_of(s: Seq<char>, c: char) -> Option<nat>
    decreases s.len(),
{
    if s.len() == 0 {
        None
    } else if s.last() == c {
        Some((s.len() - 1) as nat)
    } else {
        last_index_of(s.drop_last(), c)
    }
}

/// Where `last_index_of` finds `c`: at `i`, holding `c`, with no `c` after
/// it; when it finds none, `c` is nowhere in `s`.
pub proof fn lemma_last_index_of(s: Seq<char>, c: char)
    ensures
        match last_index_of(s, c) {
            Some(i) => i < s.len() && s[i as int] == c && forall|j: int| i < j < s.len() ==> s[j] != c,
            None => forall|j: int| 0 <= j < s.len() ==> s[j] != c,
        },
    decreases s.len(),
{
    if s.len() > 0 && s.last() != c {
        lemma_last_index_of(s.drop_last(), c);
        assert forall|j: int| 0 <= j < s.len() - 1 implies s[j] == s.drop_last()[j] by {}
    }
}

/// The first empty line.
pub open spec fn first_empty(lines: Seq<Seq<char>>, k: nat) -> Option<nat>
    decreases lines.len() - k,
{
    if k >= lines.len() {
        None
    } else if lines[k as int].len() == 0 {
        Some(k)
    } else {
        first_empty(lines, k + 1)
    }
}

/// The header of the layer.
pub open spec fn header_lines<N>(s: SettingsModel<N>, t: SettingsText) -> Seq<Seq<char>> {
    seq!["#usda 1.0"@, "("@] + (if s.default_prim.len() > 0 {
        seq!["    defaultPrim = "@ + quoted(s.default_prim)]
    } else {
        Seq::empty()
    }) + seq![
        "    metersPerUnit = "@ + t.meters_per_unit@,
        "    upAxis = "@ + quoted(up_axis_token(s.up_axis)),
        "    doc = \"Generated by PowerUSD Assembler\""@,
        "    startTimeCode = "@ + t.start_time_code@,
        "    endTimeCode = "@ + t.end_time_code@,
        "    framesPerSecond = "@ + t.frames_per_second@,
        "    timeCodesPerSecond = "@ + t.time_codes_per_second@,
        ")"@,
        Seq::empty(),
    ]
}

/// The (key, prim path) entries recorded for internal references, in
/// pre-order: for each asset, its id and then its name.
pub open spec fn path_entries<T>(s: Seq<AssetModel<T>>, prefix: Seq<char>, k: nat) -> Seq<
    (Seq<char>, Seq<char>),
>
    decreases s, s.len() - k,
{
    if k >= s.len() {
        Seq::empty()
    } else {
        let a = s[k as int];
        let path = prefix + seq!['/'] + a.name;
        seq![(a.id, path), (a.name, path)] + path_entries(a.children, path, 0) + path_entries(
            s,
            prefix,
            k + 1,
        )
    }
}

/// The path recorded last for a key.
pub open spec fn lookup(entries: Seq<(Seq<char>, Seq<char>)>, key: Seq<char>) -> Option<Seq<char>>
    decreases entries.len(),
{
    if entries.len() == 0 {
        None
    } else if entries.last().0 == key {
        Some(entries.last().1)
    } else {
        lookup(entries.drop_last(), key)
    }
}

/// The reference line of an asset, if it has one.
pub open spec fn reference_lines<T>(
    a: AssetModel<T>,
    meta: Seq<char>,
    entries: Seq<(Seq<char>, Seq<char>)>,
    global_ref: Seq<char>,
) -> Seq<Seq<char>> {
    let op = reference_op_keyword(a.reference_op);
    match a.reference_type {
        Some(ReferenceType::Internal) => match a.reference_target {
            Some(target) => {
                let target_path = if target.len() > 0 && target[0] == '/' {
                    target
                } else {
                    match lookup(entries, target) {
                        Some(p) => p,
                        None => seq!['/'] + target,
                    }
                };
                seq![meta + op + " references = <"@ + target_path + ">"@]
            },
            None => Seq::empty(),
        },
        Some(ReferenceType::File) => {
            let ref_path = if global_ref.len() > 0 && a.filename.len() > 0 {
                let file_name = match file_name_of(a.filename) {
                    Some(n) => n,
                    None => a.filename,
                };
                trim_trailing(global_ref, '/') + seq!['/'] + file_name
            } else {
                a.filename
            };
            if ref_path.len() > 0 {
                seq![meta + op + " references = @"@ + ref_path + "@"@]
            } else {
                Seq::empty()
            }
        },
        None => Seq::empty(),
    }
}

/// The metadata lines between the parentheses of a prim.
pub open spec fn metadata_lines<T>(
    a: AssetModel<T>,
    meta: Seq<char>,
    entries: Seq<(Seq<char>, Seq<char>)>,
    global_ref: Seq<char>,
) -> Seq<Seq<char>> {
    (match a.kind {
        Some(k) => seq![meta + "kind = "@ + quoted(kind_token(k))],
        None => Seq::empty(),
    }) + (if a.instanceable {
        seq![meta + "instanceable = true"@]
    } else {
        Seq::empty()
    }) + reference_lines(a, meta, entries, global_ref) + prefixed(meta, a.metadata_lines)
}

/// The opening line of a prim.
pub open spec fn opening_line<T>(a: AssetModel<T>, indent: Seq<char>) -> Seq<char> {
    let prim_type = match a.prim_type {
        Some(t) => t,
        None => "Xform"@,
    };
    let type_str = if prim_type.len() == 0 {
        Seq::empty()
    } else {
        prim_type + seq![' ']
    };
    indent + specifier_keyword(a.specifier) + seq![' '] + type_str + quoted(a.name) + " ("@
}

/// The transform lines of a prim.
pub open spec fn transform_lines<T>(a: AssetModel<T>, body: Seq<char>, t: TransformText) -> Seq<
    Seq<char>,
> {
    if a.use_matrix {
        let prop = match a.transform_prop_name {
            Some(p) => p,
            None => "xformOp:transform"@,
        };
        seq![body + "matrix4d "@ + prop + " = "@ + t.matrix@] + match a.xform_op_order {
            Some(order) => seq![
                body + "uniform token[] xformOpOrder = ["@ + join_sep(
                    order.map_values(|o: Seq<char>| quoted(o)),
                    ", "@,
                ) + "]"@,
            ],
            None => Seq::empty(),
        }
    } else if a.has_explicit_transforms {
        seq![
            body + "double3 xformOp:translate = ("@ + t.translate.x@ + ", "@ + t.translate.y@
                + ", "@ + t.translate.z@ + ")"@,
            body + "float3 xformOp:rotateXYZ = ("@ + t.rotate.x@ + ", "@ + t.rotate.y@ + ", "@
                + t.rotate.z@ + ")"@,
            body + "float3 xformOp:scale = ("@ + t.scale.x@ + ", "@ + t.scale.y@ + ", "@
                + t.scale.z@ + ")"@,
            body
                + "uniform token[] xformOpOrder = [\"xformOp:translate\", \"xformOp:rotateXYZ\", \"xformOp:scale\"]"@,
        ]
    } else {
        Seq::empty()
    }
}

/// The lines of the body of a prim before its children.
pub open spec fn body_lines<T>(a: AssetModel<T>, body: Seq<char>, t: TransformText) -> Seq<Seq<char>> {
    (match a.visibility {
        Some(v) => seq![body + "token visibility = "@ + quoted(v)],
        None => Seq::empty(),
    }) + if a.specifier == Specifier::Over && a.raw_body_lines.len() > 0 {
        prefixed(body, a.raw_body_lines)
    } else {
        transform_lines(a, body, t) + prefixed(body, a.extra_body_lines)
    }
}

/// The block of a prim and its subtree.
pub open spec fn block_lines<T, F: Fn(&T) -> TransformText>(
    a: AssetModel<T>,
    indent: Seq<char>,
    entries: Seq<(Seq<char>, Seq<char>)>,
    global_ref: Seq<char>,
    f: F,
) -> Seq<Seq<char>>
    decreases a, 0nat,
{
    let inner = indent + "    "@;
    seq![Seq::empty(), opening_line(a, indent)] + metadata_lines(a, inner, entries, global_ref)
        + seq![indent + ")"@, indent + "{"@] + body_lines(a, inner, result_of(f, a.transform))
        + blocks_lines(a.children, inner, entries, global_ref, f, 0) + seq![indent + "}"@]
}

/// An op name in double quotes, spelled out.
pub open spec fn dq(o: Seq<char>) -> Seq<char> {
    seq!['"'] + o + seq!['"']
}

/// Whether `line` is an op-order line at `body` listing `order`: it starts
/// with `uniform token[] xformOpOrder = [`, ends with `]`, and names every
/// op in double quotes and every two neighbouring ops in order with `", "`
/// between them.
pub open spec fn lists_op_order(line: Seq<char>, body: Seq<char>, order: Seq<Seq<char>>) -> bool {
    let head = body + "uniform token[] xformOpOrder = ["@;
    &&& line.len() > head.len()
    &&& line.take(head.len() as int) == head
    &&& line.last() == ']'
    &&& forall|i: int| 0 <= i < order.len() ==> occurs_in(dq(#[trigger] order[i]), line)
    &&& forall|i: int| 0 <= i && i + 1 < order.len() ==> occurs_in(dq(#[trigger] order[i]) + ", "@ + dq(order[i + 1]), line)
}

proof fn lemma_op_order_line(body: Seq<char>, order: Seq<Seq<char>>)
    ensures
        lists_op_order(
            body + "uniform token[] xformOpOrder = ["@ + join_sep(order.map_values(|o: Seq<char>| quoted(o)), ", "@) + "]"@,
            body,
            order,
        ),
{
    let parts = order.map_values(|o: Seq<char>| quoted(o));
    let inner = join_sep(parts, ", "@);
    let head = body + "uniform token[] xformOpOrder = ["@;
    reveal_strlit("]");
    let line = head + inner + "]"@;
    assert(line =~= body + "uniform token[] xformOpOrder = ["@ + inner + "]"@);
    assert(line.take(head.len() as int) =~= head);
    lemma_join_sep_holds(parts, ", "@);
    assert forall|i: int| 0 <= i < order.len() implies occurs_in(dq(#[trigger] order[i]), line) by {
        assert(parts[i] == dq(order[i]));
        lemma_occurs_within(parts[i], inner, head, "]"@);
    }
    assert forall|i: int| 0 <= i && i + 1 < order.len() implies occurs_in(dq(#[trigger] order[i]) + ", "@ + dq(order[i + 1]), line) by {
        assert(parts[i] == dq(order[i]) && parts[i + 1] == dq(order[i + 1]));
        lemma_occurs_within(parts[i] + ", "@ + parts[i + 1], inner, head, "]"@);
    }
}

/// The block of a prim in matrix mode with an op order (and not a raw
/// override) holds its `matrix4d` line, and right after it the op-order line
/// listing every op of the order.
pub proof fn law_matrix_block_keeps_op_order<T, F: Fn(&T) -> TransformText>(
    a: AssetModel<T>,
    indent: Seq<char>,
    entries: Seq<(Seq<char>, Seq<char>)>,
    global_ref: Seq<char>,
    f: F,
)
    requires
        a.use_matrix,
        a.xform_op_order is Some,
        !(a.specifier == Specifier::Over && a.raw_body_lines.len() > 0),
    ensures
        ({
            let b = block_lines(a, indent, entries, global_ref, f);
            let inner = indent + "    "@;
            let prop = match a.transform_prop_name {
                Some(p) => p,
                None => "xformOp:transform"@,
            };
            exists|j: int|
                0 <= j && j + 1 < b.len() && #[trigger] b[j] == inner + "matrix4d "@ + prop + " = "@ + result_of(
                    f,
                    a.transform,
                ).matrix@ && lists_op_order(b[j + 1], inner, a.xform_op_order.unwrap())
        }),
{
    let b = block_lines(a, indent, entries, global_ref, f);
    let inner = indent + "    "@;
    let t = result_of(f, a.transform);
    let order = a.xform_op_order.unwrap();
    let tl = transform_lines(a, inner, t);
    let vis = match a.visibility {
        Some(v) => seq![inner + "token visibility = "@ + quoted(v)],
        None => Seq::<Seq<char>>::empty(),
    };
    let bl = body_lines(a, inner, t);
    assert(bl == vis + (tl + prefixed(inner, a.extra_body_lines)));
    let pre = seq![Seq::<char>::empty(), opening_line(a, indent)] + metadata_lines(a, inner, entries, global_ref)
        + seq![indent + ")"@, indent + "{"@];
    let j: int = (pre.len() + vis.len()) as int;
    assert(b == pre + bl + blocks_lines(a.children, inner, entries, global_ref, f, 0) + seq![indent + "}"@]);
    assert(b[j] == tl[0]);
    assert(b[j + 1] == tl[1]);
    lemma_op_order_line(inner, order);
}

/// The block of a prim with explicit transforms, not in matrix mode (and
/// not a raw override), holds, one after another, its translate, rotate and
/// scale lines with the spelled numbers and the op-order line naming the
/// three ops in that order.
pub proof fn law_explicit_block_has_trs<T, F: Fn(&T) -> TransformText>(
    a: AssetModel<T>,
    indent: Seq<char>,
    entries: Seq<(Seq<char>, Seq<char>)>,
    global_ref: Seq<char>,
    f: F,
)
    requires
        !a.use_matrix,
        a.has_explicit_transforms,
        !(a.specifier == Specifier::Over && a.raw_body_lines.len() > 0),
    ensures
        ({
            let b = block_lines(a, indent, entries, global_ref, f);
            let inner = indent + "    "@;
            let t = result_of(f, a.transform);
            exists|j: int|
                0 <= j && j + 3 < b.len() && #[trigger] b[j] == inner + "double3 xformOp:translate = ("@
                    + t.translate.x@ + ", "@ + t.translate.y@ + ", "@ + t.translate.z@ + ")"@ && b[j + 1]
                    == inner + "float3 xformOp:rotateXYZ = ("@ + t.rotate.x@ + ", "@ + t.rotate.y@ + ", "@
                    + t.rotate.z@ + ")"@ && b[j + 2] == inner + "float3 xformOp:scale = ("@ + t.scale.x@ + ", "@
                    + t.scale.y@ + ", "@ + t.scale.z@ + ")"@ && b[j + 3] == inner
                    + "uniform token[] xformOpOrder = [\"xformOp:translate\", \"xformOp:rotateXYZ\", \"xformOp:scale\"]"@
        }),
{
    let b = block_lines(a, indent, entries, global_ref, f);
    let inner = indent + "    "@;
    let t = result_of(f, a.transform);
    let tl = transform_lines(a, inner, t);
    let vis = match a.visibility {
        Some(v) => seq![inner + "token visibility = "@ + quoted(v)],
        None => Seq::<Seq<char>>::empty(),
    };
    let bl = body_lines(a, inner, t);
    assert(bl == vis + (tl + prefixed(inner, a.extra_body_lines)));
    let pre = seq![Seq::<char>::empty(), opening_line(a, indent)] + metadata_lines(a, inner, entries, global_ref)
        + seq![indent + ")"@, indent + "{"@];
    let j: int = (pre.len() + vis.len()) as int;
    assert(b == pre + bl + blocks_lines(a.children, inner, entries, global_ref, f, 0) + seq![indent + "}"@]);
    assert(b[j] == tl[0]);
    assert(b[j + 1] == tl[1]);
    assert(b[j + 2] == tl[2]);
    assert(b[j + 3] == tl[3]);
}

/// The blocks of the prims `s[k..]`.
pub open spec fn blocks_lines<T, F: Fn(&T) -> TransformText>(
    s: Seq<AssetModel<T>>,
    indent: Seq<char>,
    entries: Seq<(Seq<char>, Seq<char>)>,
    global_ref: Seq<char>,
    f: F,
    k: nat,
) -> Seq<Seq<char>>
    decreases s, s.len() - k,
{
    if k >= s.len() {
        Seq::empty()
    } else {
        block_lines(s[k as int], indent, entries, global_ref, f) + blocks_lines(
            s,
            indent,
            entries,
            global_ref,
            f,
            k + 1,
        )
    }
}

/// Whether the stage is wrapped in a root prim.
pub open spec fn wraps_root<N>(s: SettingsModel<N>) -> bool {
    s.create_root_prim && s.default_prim.len() > 0
}

/// The lines of the stage, without a base layer.
pub open spec fn stage_lines<T, N, F: Fn(&T) -> TransformText>(
    assets: Seq<AssetModel<T>>,
    s: SettingsModel<N>,
    t: SettingsText,
    global_ref: Seq<char>,
    f: F,
) -> Seq<Seq<char>> {
    let prefix = if s.create_root_prim {
        seq!['/'] + s.default_prim
    } else {
        Seq::empty()
    };
    let entries = path_entries(assets, prefix, 0);
    let indent = if wraps_root(s) {
        "    "@
    } else {
        Seq::empty()
    };
    header_lines(s, t) + (if wraps_root(s) {
        seq![
            "def Xform "@ + quoted(s.default_prim) + " ("@,
            "    kind = \"assembly\""@,
            ")"@,
            "{"@,
        ]
    } else {
        Seq::empty()
    }) + blocks_lines(assets, indent, entries, global_ref, f, 0) + (if wraps_root(s) {
        seq!["}"@]
    } else {
        Seq::empty()
    })
}

/// The text of the stage: its lines, or, with a base layer, the base layer
/// with the asset blocks injected.
pub open spec fn stage_text(lines: Seq<Seq<char>>, base: Option<Seq<char>>, create_root_prim: bool) -> Seq<char> {
    match base {
        None => join_lines(lines),
        Some(b) => {
            let start = match first_empty(lines, 0) {
                Some(k) => k as int,
                None => 0,
            };
            let block = join_lines(lines.subrange(start, lines.len() as int));
            match last_index_of(b, '}') {
                Some(i) if create_root_prim => trim_end_ws(b.take(i as int))
                    + "\n\n    // --- INJECTED ASSETS ---\n"@ + block + seq!['\n'] + b.skip(
                    i as int,
                ),
                _ => trim_end_ws(b) + "\n\n// --- INJECTED ASSETS ---\n"@ + block,
            }
        },
    }
}

// ---------------------------------------------------------------------------
// The text with and without a base layer
// ---------------------------------------------------------------------------

/// Joining lines split at `k`: the first `k`, a line break, the rest.
pub proof fn lemma_join_lines_split(lines: Seq<Seq<char>>, k: int)
    requires
        0 < k < lines.len(),
    ensures
        join_lines(lines) == join_lines(lines.take(k)) + seq!['\n'] + join_lines(lines.skip(k)),
    decreases lines.len(),
{
    if lines.len() == k + 1 {
        assert(lines.drop_last() =~= lines.take(k));
        assert(lines.skip(k) =~= seq![lines.last()]);
    } else {
        lemma_join_lines_split(lines.drop_last(), k);
        assert(lines.drop_last().take(k) =~= lines.take(k));
        assert(lines.drop_last().skip(k) =~= lines.skip(k).drop_last());
        assert(lines.skip(k).last() == lines.last());
        assert(join_lines(lines.skip(k)) == join_lines(lines.skip(k).drop_last()) + seq!['\n'] + lines.last());
    }
}

/// The first empty line from `j` is at `k` when the lines before it are not
/// empty.
pub proof fn lemma_first_empty_at(lines: Seq<Seq<char>>, j: nat, k: nat)
    requires
        j <= k < lines.len(),
        lines[k as int].len() == 0,
        forall|i: int| j <= i < k ==> #[trigger] lines[i].len() > 0,
    ensures
        first_empty(lines, j) == Some(k),
    decreases k - j,
{
    if j < k {
        lemma_first_empty_at(lines, j + 1, k);
    }
}

/// Every line of the header is non-empty but the last, which is empty.
proof fn lemma_header_shape<N>(s: SettingsModel<N>, t: SettingsText)
    ensures
        header_lines(s, t).len() >= 2,
        header_lines(s, t).last().len() == 0,
        forall|i: int| 0 <= i < header_lines(s, t).len() - 1 ==> #[trigger] header_lines(s, t)[i].len() > 0,
{
    reveal_strlit("#usda 1.0");
    reveal_strlit("(");
    reveal_strlit("    defaultPrim = ");
    reveal_strlit("    metersPerUnit = ");
    reveal_strlit("    upAxis = ");
    reveal_strlit("    doc = \"Generated by PowerUSD Assembler\"");
    reveal_strlit("    startTimeCode = ");
    reveal_strlit("    endTimeCode = ");
    reveal_strlit("    framesPerSecond = ");
    reveal_strlit("    timeCodesPerSecond = ");
    reveal_strlit(")");
}

/// The generated text with a base layer and without one share the asset
/// blocks: without a base layer the text is the header (its lines up to the
/// empty line that ends it), a line break and the blocks; with a base layer
/// (not wrapped in a root prim that it closes) it is the base layer without
/// trailing white space, the injection marker and the same blocks. The
/// header is not repeated in the injected text.
pub proof fn law_injection_keeps_blocks<T, N, F: Fn(&T) -> TransformText>(
    assets: Seq<AssetModel<T>>,
    s: SettingsModel<N>,
    t: SettingsText,
    global_ref: Seq<char>,
    f: F,
    base: Seq<char>,
)
    requires
        !(s.create_root_prim && last_index_of(base, '}') is Some),
    ensures
        ({
            let lines = stage_lines(assets, s, t, global_ref, f);
            let h = header_lines(s, t);
            let blocks = join_lines(lines.skip(h.len() - 1));
            &&& stage_text(lines, None, s.create_root_prim) == join_lines(h.drop_last()) + seq!['\n'] + blocks
            &&& stage_text(lines, Some(base), s.create_root_prim) == trim_end_ws(base)
                + "\n\n// --- INJECTED ASSETS ---\n"@ + blocks
        }),
{
    let lines = stage_lines(assets, s, t, global_ref, f);
    let h = header_lines(s, t);
    let k = (h.len() - 1) as nat;
    lemma_header_shape(s, t);
    assert(lines.take(h.len() as int) =~= h);
    assert forall|i: int| 0 <= i < k implies #[trigger] lines[i].len() > 0 by {
        assert(lines[i] == h[i]);
    }
    assert(lines[k as int] == h[k as int]);
    lemma_first_empty_at(lines, 0, k);
    lemma_join_lines_split(lines, k as int);
    assert(lines.take(k as int) =~= h.drop_last());
}

/// With a root prim and a default prim, the stage's assets are wrapped in
/// it: right after the header comes `def Xform "<default prim>" (` with kind
/// `assembly`, and the last line closes it.
pub proof fn law_root_prim_wraps_assets<T, N, F: Fn(&T) -> TransformText>(
    assets: Seq<AssetModel<T>>,
    s: SettingsModel<N>,
    t: SettingsText,
    global_ref: Seq<char>,
    f: F,
)
    requires
        s.create_root_prim,
        s.default_prim.len() > 0,
    ensures
        ({
            let lines = stage_lines(assets, s, t, global_ref, f);
            let h = header_lines(s, t).len() as int;
            &&& lines.len() >= h + 5
            &&& lines[h] == "def Xform \""@ + s.default_prim + "\" ("@
            &&& lines[h + 1] == "    kind = \"assembly\""@
            &&& lines[h + 2] == ")"@
            &&& lines[h + 3] == "{"@
            &&& lines.last() == "}"@
        }),
{
    let lines = stage_lines(assets, s, t, global_ref, f);
    let hd = header_lines(s, t);
    let h = hd.len() as int;
    reveal_strlit("def Xform ");
    reveal_strlit("def Xform \"");
    reveal_strlit(" (");
    reveal_strlit("\" (");
    let w = seq![
        "def Xform "@ + quoted(s.default_prim) + " ("@,
        "    kind = \"assembly\""@,
        ")"@,
        "{"@,
    ];
    let bl = blocks_lines(assets, "    "@, path_entries(assets, seq!['/'] + s.default_prim, 0), global_ref, f, 0);
    assert(lines == hd + w + bl + seq!["}"@]);
    assert(lines[h] == w[0]);
    assert(w[0] =~= "def Xform \""@ + s.default_prim + "\" ("@);
    assert(lines[h + 1] == w[1]);
    assert(lines[h + 2] == w[2]);
    assert(lines[h + 3] == w[3]);
}

/// The last `c` of `s` is at `i` when `s[i]` is `c` and none follows.
pub proof fn lemma_last_index_at(s: Seq<char>, c: char, i: int)
    requires
        0 <= i < s.len(),
        s[i] == c,
        forall|j: int| i < j < s.len() ==> s[j] != c,
    ensures
        last_index_of(s, c) == Some(i as nat),
    decreases s.len(),
{
    if i + 1 < s.len() {
        let d = s.drop_last();
        assert(s.last() != c);
        assert forall|j: int| i < j < d.len() implies d[j] != c by {
            assert(d[j] == s[j]);
        }
        lemma_last_index_at(d, c, i);
    }
}

/// With a root prim, the asset blocks go inside the base layer's root prim:
/// the text is the base layer up to its last `}` (without trailing white
/// space), then, right before that `}`, the asset blocks and a line break,
/// and it ends with the base layer from its last `}` on.
pub proof fn law_injection_inside_root<T, N, F: Fn(&T) -> TransformText>(
    assets: Seq<AssetModel<T>>,
    s: SettingsModel<N>,
    t: SettingsText,
    global_ref: Seq<char>,
    f: F,
    base: Seq<char>,
    i: int,
)
    requires
        s.create_root_prim,
        0 <= i < base.len(),
        base[i] == '}',
        forall|j: int| i < j < base.len() ==> base[j] != '}',
    ensures
        ({
            let lines = stage_lines(assets, s, t, global_ref, f);
            let blocks = join_lines(lines.skip(header_lines(s, t).len() - 1));
            let r = stage_text(lines, Some(base), true);
            let pre = trim_end_ws(base.take(i));
            let post = base.skip(i);
            &&& r.len() >= pre.len() + blocks.len() + 1 + post.len()
            &&& r.take(pre.len() as int) == pre
            &&& r.skip(r.len() - post.len()) == post
            &&& r.subrange(r.len() - post.len() - 1 - blocks.len(), r.len() - post.len()) == blocks + seq!['\n']
        }),
{
    let lines = stage_lines(assets, s, t, global_ref, f);
    let h = header_lines(s, t);
    let k = (h.len() - 1) as nat;
    lemma_header_shape(s, t);
    assert(lines.take(h.len() as int) =~= h);
    assert forall|j: int| 0 <= j < k implies #[trigger] lines[j].len() > 0 by {
        assert(lines[j] == h[j]);
    }
    assert(lines[k as int] == h[k as int]);
    lemma_first_empty_at(lines, 0, k);
    lemma_last_index_at(base, '}', i);
    let blocks = join_lines(lines.skip(k as int));
    let r = stage_text(lines, Some(base), true);
    let pre = trim_end_ws(base.take(i));
    let post = base.skip(i);
    let marker = "\n\n    // --- INJECTED ASSETS ---\n"@;
    assert(r == pre + marker + blocks + seq!['\n'] + post);
    assert(r.take(pre.len() as int) =~= pre);
    assert(r.skip(r.len() - post.len()) =~= post);
    assert(r.subrange(r.len() - post.len() - 1 - blocks.len(), r.len() - post.len()) =~= blocks + seq!['\n']);
}

// ---------------------------------------------------------------------------
// Building the text
// ---------------------------------------------------------------------------

fn push_line(lines: &mut Vec<String>, l: String)
    ensures
        views(final(lines)@) == views(old(lines)@).push(l@),
{
    lines.push(l);
    assert(views(lines@) =~= views(old(lines)@).push(l@));
}

fn cat(a: &str, b: &str) -> (r: String)
    ensures
        r@ == a@ + b@,
{
    let mut r = a.to_string();
    r.append(b);
    r
}

fn cat3(a: &str, b: &str, c: &str) -> (r: String)
    ensures
        r@ == a@ + b@ + c@,
{
    let mut r = a.to_string();
    r.append(b);
    r.append(c);
    r
}

/// The views of (key, path) pairs.
pub open spec fn pair_views(v: Seq<(String, String)>) -> Seq<(Seq<char>, Seq<char>)> {
    v.map_values(|p: (String, String)| (p.0@, p.1@))
}

fn push_header<N>(settings: &StagerSceneSettings<N>, t: &SettingsText, lines: &mut Vec<String>)
    ensures
        views(final(lines)@) == views(old(lines)@) + header_lines(settings_model(*settings), *t),
{
    let ghost start = views(lines@);
    push_line(lines, "#usda 1.0".to_string());
    push_line(lines, "(".to_string());
    let ghost mid = views(lines@);
    if !settings.default_prim.as_str().is_empty() {
        let mut l = "    defaultPrim = \"".to_string();
        l.append(settings.default_prim.as_str());
        push_char(&mut l, '"');
        push_line(lines, l);
    }
    let ghost after_dp = views(lines@);
    push_line(lines, cat("    metersPerUnit = ", t.meters_per_unit.as_str()));
    push_line(lines, cat3("    upAxis = \"", settings.up_axis.as_str(), "\""));
    push_line(lines, "    doc = \"Generated by PowerUSD Assembler\"".to_string());
    push_line(lines, cat("    startTimeCode = ", t.start_time_code.as_str()));
    push_line(lines, cat("    endTimeCode = ", t.end_time_code.as_str()));
    push_line(lines, cat("    framesPerSecond = ", t.frames_per_second.as_str()));
    push_line(lines, cat("    timeCodesPerSecond = ", t.time_codes_per_second.as_str()));
    push_line(lines, ")".to_string());
    push_line(lines, String::new());
    proof {
        reveal_strlit("\"");
        let s = settings_model(*settings);
        let dp: Seq<Seq<char>> = if s.default_prim.len() > 0 {
            seq!["    defaultPrim = "@ + quoted(s.default_prim)]
        } else {
            Seq::empty()
        };
        assert(mid =~= start + seq!["#usda 1.0"@, "("@]);
        if s.default_prim.len() > 0 {
            assert(("    defaultPrim = \""@ + s.default_prim).push('"') =~= "    defaultPrim = "@ + quoted(s.default_prim)) by {
                reveal_strlit("    defaultPrim = \"");
                reveal_strlit("    defaultPrim = ");
            }
        }
        assert(after_dp =~= mid + dp);
        assert("    upAxis = \""@ + up_axis_token(s.up_axis) + "\""@ =~= "    upAxis = "@ + quoted(up_axis_token(s.up_axis))) by {
            reveal_strlit("    upAxis = \"");
            reveal_strlit("    upAxis = ");
        }
        assert(views(lines@) =~= start + header_lines(s, *t));
    }
}

/// Records the (key, path) entries of `assets` under `prefix`.
fn push_entries<T>(assets: &Vec<StagerAsset<T>>, prefix: &str, entries: &mut Vec<(String, String)>)
    ensures
        pair_views(final(entries)@) == pair_views(old(entries)@) + path_entries(models(assets@), prefix@, 0),
    decreases assets@,
{
    let ghost m = models(assets@);
    proof {
        lemma_models(assets@);
    }
    let mut i: usize = 0;
    while i < assets.len()
        invariant
            0 <= i <= assets.len(),
            m == models(assets@),
            m.len() == assets@.len(),
            forall|j: int| 0 <= j < assets@.len() ==> #[trigger] m[j] == model(assets@[j]),
            pair_views(old(entries)@) + path_entries(m, prefix@, 0) == pair_views(entries@)
                + path_entries(m, prefix@, i as nat),
        decreases assets.len() - i,
    {
        let a = &assets[i];
        let mut path = prefix.to_string();
        push_char(&mut path, '/');
        path.append(a.name.as_str());
        let ghost before = pair_views(entries@);
        entries.push((a.id.clone(), path.clone()));
        entries.push((a.name.clone(), path.clone()));
        assert(pair_views(entries@) =~= before + seq![(a.id@, path@), (a.name@, path@)]);
        proof {
            assert(decreases_to!(assets@ => assets@[i as int]));
            assert(decreases_to!(assets@[i as int] => assets@[i as int].children));
            assert(decreases_to!(assets@[i as int].children => assets@[i as int].children@));
        }
        let ghost mid = pair_views(entries@);
        push_entries(&a.children, path.as_str(), entries);
        proof {
            assert(path@ == prefix@ + seq!['/'] + m[i as int].name);
            assert(path_entries(m, prefix@, i as nat) == seq![(a.id@, path@), (a.name@, path@)]
                + path_entries(m[i as int].children, path@, 0) + path_entries(m, prefix@, (i + 1) as nat));
            assert(pair_views(entries@) + path_entries(m, prefix@, (i + 1) as nat) =~= before
                + path_entries(m, prefix@, i as nat));
        }
        i += 1;
    }
    assert(pair_views(entries@) =~= pair_views(entries@) + path_entries(m, prefix@, i as nat));
}

/// The path recorded last for `key`.
fn lookup_path(entries: &Vec<(String, String)>, key: &str) -> (r: Option<String>)
    ensures
        match r {
            Some(p) => lookup(pair_views(entries@), key@) == Some(p@),
            None => lookup(pair_views(entries@), key@) is None,
        },
{
    let ghost all = pair_views(entries@);
    let mut i: usize = entries.len();
    assert(all.take(i as int) =~= all);
    while i > 0
        invariant
            0 <= i <= entries.len(),
            all == pair_views(entries@),
            lookup(all, key@) == lookup(all.take(i as int), key@),
        decreases i,
    {
        let e = &entries[i - 1];
        proof {
            assert(all.take(i as int).drop_last() =~= all.take(i - 1));
        }
        if crate::kinds::str_eq(e.0.as_str(), key) {
            return Some(e.1.clone());
        }
        i -= 1;
    }
    assert(all.take(0) =~= Seq::<(Seq<char>, Seq<char>)>::empty());
    None
}

/// Drops trailing `c` characters.
fn trim_trailing_exec(s: &str, c: char) -> (r: String)
    ensures
        r@ == trim_trailing(s@, c),
{
    let mut cs = chars_of(s);
    while cs.len() > 0 && cs[cs.len() - 1] == c
        invariant
            trim_trailing(s@, c) == trim_trailing(cs@, c),
        decreases cs.len(),
    {
        let ghost before = cs@;
        cs.pop();
        assert(cs@ =~= before.drop_last());
    }
    string_of(&cs)
}

/// Drops trailing white space.
fn trim_end_exec(cs: &Vec<char>, end: usize) -> (r: String)
    requires
        end <= cs.len(),
    ensures
        r@ == trim_end_ws(cs@.take(end as int)),
{
    let mut e = end;
    while e > 0 && char_is_whitespace(cs[e - 1])
        invariant
            e <= end <= cs.len(),
            trim_end_ws(cs@.take(end as int)) == trim_end_ws(cs@.take(e as int)),
        decreases e,
    {
        assert(cs@.take(e as int).drop_last() =~= cs@.take(e - 1));
        e -= 1;
    }
    let mut r = String::new();
    let mut i: usize = 0;
    while i < e
        invariant
            0 <= i <= e <= cs.len(),
            r@ == cs@.take(i as int),
        decreases e - i,
    {
        push_char(&mut r, cs[i]);
        assert(cs@.take(i + 1) =~= cs@.take(i as int).push(cs@[i as int]));
        i += 1;
    }
    proof {
        if e > 0 {
            assert(!is_whitespace_char(cs@.take(e as int).last()));
        }
    }
    r
}

/// The characters `cs[from..]` as a string.
pub(crate) fn string_from(cs: &Vec<char>, from: usize) -> (r: String)
    requires
        from <= cs.len(),
    ensures
        r@ == cs@.skip(from as int),
{
    let mut r = String::new();
    let mut i: usize = from;
    while i < cs.len()
        invariant
            from <= i <= cs.len(),
            r@ == cs@.subrange(from as int, i as int),
        decreases cs.len() - i,
    {
        push_char(&mut r, cs[i]);
        assert(cs@.subrange(from as int, i + 1) =~= cs@.subrange(from as int, i as int).push(cs@[i as int]));
        i += 1;
    }
    assert(cs@.subrange(from as int, i as int) =~= cs@.skip(from as int));
    r
}

/// The last position of `c`.
pub(crate) fn last_index_exec(cs: &Vec<char>, c: char) -> (r: Option<usize>)
    ensures
        match r {
            Some(i) => last_index_of(cs@, c) == Some(i as nat) && i < cs.len(),
            None => last_index_of(cs@, c) is None,
        },
{
    let mut i: usize = cs.len();
    assert(cs@.take(i as int) =~= cs@);
    while i > 0
        invariant
            0 <= i <= cs.len(),
            last_index_of(cs@, c) == last_index_of(cs@.take(i as int), c),
        decreases i,
    {
        assert(cs@.take(i as int).drop_last() =~= cs@.take(i - 1));
        if cs[i - 1] == c {
            return Some(i - 1);
        }
        i -= 1;
    }
    None
}

/// Appends each line of `src` with `p` in front.
fn push_prefixed(p: &str, src: &Vec<String>, lines: &mut Vec<String>)
    ensures
        views(final(lines)@) == views(old(lines)@) + prefixed(p@, views(src@)),
{
    let mut i: usize = 0;
    while i < src.len()
        invariant
            0 <= i <= src.len(),
            views(lines@) == views(old(lines)@) + prefixed(p@, views(src@)).take(i as int),
        decreases src.len() - i,
    {
        push_line(lines, cat(p, src[i].as_str()));
        assert(prefixed(p@, views(src@)).take(i + 1) =~= prefixed(p@, views(src@)).take(i as int).push(p@ + src@[i as int]@));
        i += 1;
    }
    assert(prefixed(p@, views(src@)).take(i as int) =~= prefixed(p@, views(src@)));
}

/// The op names, each quoted, joined with `", "`.
fn quoted_join(ops: &Vec<String>) -> (r: String)
    ensures
        r@ == join_sep(views(ops@).map_values(|o: Seq<char>| quoted(o)), ", "@),
{
    let ghost parts = views(ops@).map_values(|o: Seq<char>| quoted(o));
    let mut r = String::new();
    let mut i: usize = 0;
    while i < ops.len()
        invariant
            0 <= i <= ops.len(),
            parts == views(ops@).map_values(|o: Seq<char>| quoted(o)),
            r@ == join_sep(parts.take(i as int), ", "@),
        decreases ops.len() - i,
    {
        let ghost before = r@;
        if i != 0 {
            r.append(", ");
        }
        push_char(&mut r, '"');
        r.append(ops[i].as_str());
        push_char(&mut r, '"');
        proof {
            assert(parts.take(i + 1).drop_last() =~= parts.take(i as int));
            assert(parts[i as int] == quoted(ops@[i as int]@));
            if i == 0 {
                assert(r@ =~= quoted(ops@[i as int]@));
            } else {
                assert(r@ =~= before + ", "@ + quoted(ops@[i as int]@));
            }
        }
        i += 1;
    }
    assert(parts.take(i as int) =~= parts);
    r
}

fn starts_with_slash(s: &String) -> (r: bool)
    ensures
        r == (s@.len() > 0 && s@[0] == '/'),
{
    !s.as_str().is_empty() && s.as_str().get_char(0) == '/'
}

/// Appends the reference line of `a`, if it has one.
fn push_reference_line<T>(
    a: &StagerAsset<T>,
    meta: &str,
    entries: &Vec<(String, String)>,
    global_ref: &str,
    lines: &mut Vec<String>,
)
    ensures
        views(final(lines)@) == views(old(lines)@) + reference_lines(model(*a), meta@, pair_views(entries@), global_ref@),
{
    let op = a.reference_op.as_str();
    match a.reference_type {
        Some(ReferenceType::Internal) => {
            match &a.reference_target {
                Some(target) => {
                    let target_path = if starts_with_slash(target) {
                        target.clone()
                    } else {
                        match lookup_path(entries, target.as_str()) {
                            Some(p) => p,
                            None => {
                                let mut p = String::new();
                                push_char(&mut p, '/');
                                p.append(target.as_str());
                                p
                            },
                        }
                    };
                    let ghost tp = if target@.len() > 0 && target@[0] == '/' {
                        target@
                    } else {
                        match lookup(pair_views(entries@), target@) {
                            Some(p) => p,
                            None => seq!['/'] + target@,
                        }
                    };
                    assert(target_path@ == tp);
                    let mut l = cat3(meta, op, " references = <");
                    l.append(target_path.as_str());
                    push_char(&mut l, '>');
                    proof {
                        reveal_strlit(">");
                        assert(l@ =~= meta@ + op@ + " references = <"@ + target_path@ + ">"@);
                    }
                    push_line(lines, l);
                    assert(reference_lines(model(*a), meta@, pair_views(entries@), global_ref@) == seq![meta@ + op@ + " references = <"@ + tp + ">"@]);
                    assert(views(lines@) =~= views(old(lines)@) + reference_lines(model(*a), meta@, pair_views(entries@), global_ref@));
                },
                None => {
                    assert(views(lines@) =~= views(old(lines)@) + Seq::<Seq<char>>::empty());
                },
            }
        },
        Some(ReferenceType::File) => {
            let ref_path = if !global_ref.is_empty() && !a.filename.as_str().is_empty() {
                let clean_global = trim_trailing_exec(global_ref, '/');
                let file_name = match crate::paths::path_file_name(a.filename.as_str()) {
                    Some(n) => n,
                    None => a.filename.clone(),
                };
                let mut p = clean_global;
                push_char(&mut p, '/');
                p.append(file_name.as_str());
                p
            } else {
                a.filename.clone()
            };
            let ghost rp = if global_ref@.len() > 0 && a.filename@.len() > 0 {
                let file_name = match file_name_of(a.filename@) {
                    Some(n) => n,
                    None => a.filename@,
                };
                trim_trailing(global_ref@, '/') + seq!['/'] + file_name
            } else {
                a.filename@
            };
            assert(ref_path@ == rp);
            if !ref_path.as_str().is_empty() {
                let mut l = cat3(meta, op, " references = @");
                l.append(ref_path.as_str());
                push_char(&mut l, '@');
                proof {
                    reveal_strlit("@");
                    assert(l@ =~= meta@ + op@ + " references = @"@ + ref_path@ + "@"@);
                }
                push_line(lines, l);
                assert(views(lines@) =~= views(old(lines)@) + reference_lines(model(*a), meta@, pair_views(entries@), global_ref@));
            } else {
                assert(views(lines@) =~= views(old(lines)@) + Seq::<Seq<char>>::empty());
            }
        },
        None => {
            assert(views(lines@) =~= views(old(lines)@) + Seq::<Seq<char>>::empty());
        },
    }
}

fn vec3_line(body: &str, head: &str, v: &Vec3Text) -> (r: String)
    ensures
        r@ == body@ + head@ + v.x@ + ", "@ + v.y@ + ", "@ + v.z@ + ")"@,
{
    let mut l = cat(body, head);
    l.append(v.x.as_str());
    l.append(", ");
    l.append(v.y.as_str());
    l.append(", ");
    l.append(v.z.as_str());
    l.append(")");
    l
}

/// Appends the transform lines of `a`.
fn push_transform_lines<T>(a: &StagerAsset<T>, body: &str, t: &TransformText, lines: &mut Vec<String>)
    ensures
        views(final(lines)@) == views(old(lines)@) + transform_lines(model(*a), body@, *t),
{
    if a.use_matrix {
        let prop: &str = match &a.transform_prop_name {
            Some(p) => p.as_str(),
            None => "xformOp:transform",
        };
        let mut l = cat3(body, "matrix4d ", prop);
        l.append(" = ");
        l.append(t.matrix.as_str());
        push_line(lines, l);
        let ghost mid = views(lines@);
        match &a.xform_op_order {
            Some(order) => {
                let mut l2 = cat(body, "uniform token[] xformOpOrder = [");
                let joined = quoted_join(order);
                l2.append(joined.as_str());
                l2.append("]");
                push_line(lines, l2);
            },
            None => {},
        }
        assert(views(lines@) =~= views(old(lines)@) + transform_lines(model(*a), body@, *t));
    } else if a.has_explicit_transforms {
        push_line(lines, vec3_line(body, "double3 xformOp:translate = (", &t.translate));
        push_line(lines, vec3_line(body, "float3 xformOp:rotateXYZ = (", &t.rotate));
        push_line(lines, vec3_line(body, "float3 xformOp:scale = (", &t.scale));
        push_line(
            lines,
            cat(
                body,
                "uniform token[] xformOpOrder = [\"xformOp:translate\", \"xformOp:rotateXYZ\", \"xformOp:scale\"]",
            ),
        );
        assert(views(lines@) =~= views(old(lines)@) + transform_lines(model(*a), body@, *t));
    } else {
        assert(views(lines@) =~= views(old(lines)@) + transform_lines(model(*a), body@, *t));
    }
}

fn opening_exec<T>(a: &StagerAsset<T>, indent: &str) -> (r: String)
    ensures
        r@ == opening_line(model(*a), indent@),
{
    let prim_type: &str = match &a.prim_type {
        Some(t) => t.as_str(),
        None => "Xform",
    };
    let mut l = cat3(indent, a.specifier.as_str(), " ");
    let ghost l0 = l@;
    if !prim_type.is_empty() {
        l.append(prim_type);
        push_char(&mut l, ' ');
    }
    let ghost l1 = l@;
    push_char(&mut l, '"');
    l.append(a.name.as_str());
    let ghost l2 = l@;
    l.append("\" (");
    proof {
        reveal_strlit("\" (");
        reveal_strlit(" (");
        reveal_strlit(" ");
        assert("\" ("@ =~= seq!['"'] + " ("@);
        assert(" "@ =~= seq![' ']);
        let pt = prim_type@;
        let type_str = if pt.len() == 0 { Seq::<char>::empty() } else { pt + seq![' '] };
        assert(l1 =~= l0 + type_str);
        assert(l@ =~= l0 + type_str + quoted(a.name@) + " ("@);
    }
    l
}

fn push_metadata<T>(
    a: &StagerAsset<T>,
    meta: &str,
    entries: &Vec<(String, String)>,
    global_ref: &str,
    lines: &mut Vec<String>,
)
    ensures
        views(final(lines)@) == views(old(lines)@) + metadata_lines(model(*a), meta@, pair_views(entries@), global_ref@),
{
    match a.kind {
        Some(k) => {
            let mut kl = cat(meta, "kind = \"");
            kl.append(k.as_str());
            push_char(&mut kl, '"');
            proof {
                reveal_strlit("kind = \"");
                reveal_strlit("kind = ");
                assert(kl@ =~= meta@ + "kind = "@ + quoted(kind_token(k)));
            }
            push_line(lines, kl);
        },
        None => {},
    }
    if a.instanceable {
        push_line(lines, cat(meta, "instanceable = true"));
    }
    let ghost mid = views(lines@);
    push_reference_line(a, meta, entries, global_ref, lines);
    push_prefixed(meta, &a.metadata_lines, lines);
    assert(views(lines@) =~= views(old(lines)@) + metadata_lines(model(*a), meta@, pair_views(entries@), global_ref@));
}

fn push_body<T>(a: &StagerAsset<T>, body: &str, t: &TransformText, lines: &mut Vec<String>)
    ensures
        views(final(lines)@) == views(old(lines)@) + body_lines(model(*a), body@, *t),
{
    match &a.visibility {
        Some(v) => {
            let mut vl = cat(body, "token visibility = \"");
            vl.append(v.as_str());
            push_char(&mut vl, '"');
            proof {
                reveal_strlit("token visibility = \"");
                reveal_strlit("token visibility = ");
                assert(vl@ =~= body@ + "token visibility = "@ + quoted(v@));
            }
            push_line(lines, vl);
        },
        None => {},
    }
    let ghost mid = views(lines@);
    let is_over = match a.specifier {
        Specifier::Over => true,
        _ => false,
    };
    if is_over && a.raw_body_lines.len() > 0 {
        push_prefixed(body, &a.raw_body_lines, lines);
    } else {
        push_transform_lines(a, body, t, lines);
        push_prefixed(body, &a.extra_body_lines, lines);
    }
    assert(views(lines@) =~= views(old(lines)@) + body_lines(model(*a), body@, *t));
}

/// Appends the block of `a` and its subtree.
fn push_block<T, F: Fn(&T) -> TransformText>(
    a: &StagerAsset<T>,
    indent: &str,
    entries: &Vec<(String, String)>,
    global_ref: &str,
    f: &F,
    lines: &mut Vec<String>,
)
    requires
        deterministic(*f),
    ensures
        views(final(lines)@) == views(old(lines)@) + block_lines(model(*a), indent@, pair_views(entries@), global_ref@, *f),
    decreases *a,
{
    let ghost m = model(*a);
    let ghost es = pair_views(entries@);
    let ghost start = views(lines@);
    push_line(lines, String::new());
    push_line(lines, opening_exec(a, indent));
    let meta = cat(indent, "    ");
    push_metadata(a, meta.as_str(), entries, global_ref, lines);
    push_line(lines, cat(indent, ")"));
    push_line(lines, cat(indent, "{"));
    let t = apply(f, &a.transform);
    push_body(a, meta.as_str(), &t, lines);
    let ghost before_children = views(lines@);
    let ghost cm = models(a.children@);
    proof {
        lemma_models(a.children@);
    }
    let mut i: usize = 0;
    while i < a.children.len()
        invariant
            0 <= i <= a.children.len(),
            deterministic(*f),
            es == pair_views(entries@),
            cm == models(a.children@),
            cm.len() == a.children@.len(),
            forall|j: int| 0 <= j < a.children@.len() ==> #[trigger] cm[j] == model(a.children@[j]),
            before_children + blocks_lines(cm, meta@, es, global_ref@, *f, 0) == views(lines@)
                + blocks_lines(cm, meta@, es, global_ref@, *f, i as nat),
        decreases a.children.len() - i,
    {
        proof {
            assert(decreases_to!(*a => a.children));
            assert(decreases_to!(a.children => a.children@));
            assert(decreases_to!(a.children@ => a.children@[i as int]));
        }
        let ghost before = views(lines@);
        push_block(&a.children[i], meta.as_str(), entries, global_ref, f, lines);
        proof {
            assert(views(lines@) + blocks_lines(cm, meta@, es, global_ref@, *f, (i + 1) as nat) =~= before
                + blocks_lines(cm, meta@, es, global_ref@, *f, i as nat));
        }
        i += 1;
    }
    assert(views(lines@) =~= views(lines@) + blocks_lines(cm, meta@, es, global_ref@, *f, i as nat));
    let ghost before_close = views(lines@);
    push_line(lines, cat(indent, "}"));
    proof {
        assert(before_close =~= before_children + blocks_lines(cm, meta@, es, global_ref@, *f, 0));
        assert(views(lines@) =~= start + block_lines(m, indent@, es, global_ref@, *f));
    }
}

fn first_empty_exec(lines: &Vec<String>) -> (r: Option<usize>)
    ensures
        match r {
            Some(k) => first_empty(views(lines@), 0) == Some(k as nat) && k < lines.len(),
            None => first_empty(views(lines@), 0) is None,
        },
{
    let ghost vs = views(lines@);
    let mut k: usize = 0;
    while k < lines.len()
        invariant
            0 <= k <= lines.len(),
            vs == views(lines@),
            first_empty(vs, 0) == first_empty(vs, k as nat),
        decreases lines.len() - k,
    {
        if lines[k].as_str().is_empty() {
            return Some(k);
        }
        k += 1;
    }
    None
}

/// The base layer with the asset blocks (the lines from the first empty one
/// on) injected.
fn inject(base: &String, lines: &Vec<String>, create_root_prim: bool) -> (r: String)
    ensures
        r@ == stage_text(views(lines@), Some(base@), create_root_prim),
{
    let start = match first_empty_exec(lines) {
        Some(k) => k,
        None => 0,
    };
    let mut tail: Vec<String> = Vec::new();
    let mut i: usize = start;
    while i < lines.len()
        invariant
            start <= i <= lines.len(),
            views(tail@) == views(lines@).subrange(start as int, i as int),
        decreases lines.len() - i,
    {
        let ghost bt = views(tail@);
        let c = lines[i].clone();
        tail.push(c);
        assert(views(tail@) =~= bt.push(lines@[i as int]@));
        assert(views(tail@) =~= views(lines@).subrange(start as int, i + 1));
        i += 1;
    }
    let block = crate::text::join_newline(&tail);
    let cs = chars_of(base.as_str());
    if create_root_prim {
        match last_index_exec(&cs, '}') {
            Some(i) => {
                let mut r = trim_end_exec(&cs, i);
                r.append("\n\n    // --- INJECTED ASSETS ---\n");
                r.append(block.as_str());
                push_char(&mut r, '\n');
                let after = string_from(&cs, i);
                r.append(after.as_str());
                return r;
            },
            None => {},
        }
    }
    let mut r = trim_end_exec(&cs, cs.len());
    assert(cs@.take(cs@.len() as int) =~= cs@);
    r.append("\n\n// --- INJECTED ASSETS ---\n");
    r.append(block.as_str());
    r
}

/// The USDA text of a stage made of `assets` and `settings`.
pub fn render_stage<T, N, F: Fn(&T) -> TransformText>(
    assets: &Vec<StagerAsset<T>>,
    settings: &StagerSceneSettings<N>,
    settings_text: &SettingsText,
    global_ref_path: &str,
    base_content: &Option<String>,
    transform_text: &F,
) -> (r: String)
    requires
        deterministic(*transform_text),
    ensures
        r@ == stage_text(
            stage_lines(models(assets@), settings_model(*settings), *settings_text, global_ref_path@, *transform_text),
            crate::asset::opt_view(*base_content),
            settings.create_root_prim,
        ),
{
    let ghost sm = settings_model(*settings);
    let ghost m = models(assets@);
    let mut lines: Vec<String> = Vec::new();
    push_header(settings, settings_text, &mut lines);
    let prefix = if settings.create_root_prim {
        let mut p = String::new();
        push_char(&mut p, '/');
        p.append(settings.default_prim.as_str());
        p
    } else {
        String::new()
    };
    let mut entries: Vec<(String, String)> = Vec::new();
    push_entries(assets, prefix.as_str(), &mut entries);
    assert(pair_views(entries@) =~= path_entries(m, prefix@, 0));
    let wrap = settings.create_root_prim && !settings.default_prim.as_str().is_empty();
    let ghost before_root = views(lines@);
    if wrap {
        let mut l = "def Xform \"".to_string();
        l.append(settings.default_prim.as_str());
        l.append("\" (");
        proof {
            reveal_strlit("def Xform \"");
            reveal_strlit("def Xform ");
            reveal_strlit("\" (");
            reveal_strlit(" (");
            assert(l@ =~= "def Xform "@ + quoted(sm.default_prim) + " ("@);
        }
        push_line(&mut lines, l);
        push_line(&mut lines, "    kind = \"assembly\"".to_string());
        push_line(&mut lines, ")".to_string());
        push_line(&mut lines, "{".to_string());
    }
    let indent: &str = if wrap { "    " } else { "" };
    proof {
        reveal_strlit("");
        assert(""@ =~= Seq::<char>::empty());
    }
    let ghost es = pair_views(entries@);
    let ghost before_blocks = views(lines@);
    proof {
        lemma_models(assets@);
    }
    let mut i: usize = 0;
    while i < assets.len()
        invariant
            0 <= i <= assets.len(),
            deterministic(*transform_text),
            es == pair_views(entries@),
            m == models(assets@),
            m.len() == assets@.len(),
            forall|j: int| 0 <= j < assets@.len() ==> #[trigger] m[j] == model(assets@[j]),
            before_blocks + blocks_lines(m, indent@, es, global_ref_path@, *transform_text, 0) == views(lines@)
                + blocks_lines(m, indent@, es, global_ref_path@, *transform_text, i as nat),
        decreases assets.len() - i,
    {
        let ghost before = views(lines@);
        push_block(&assets[i], indent, &entries, global_ref_path, transform_text, &mut lines);
        proof {
            assert(views(lines@) + blocks_lines(m, indent@, es, global_ref_path@, *transform_text, (i + 1) as nat) =~= before
                + blocks_lines(m, indent@, es, global_ref_path@, *transform_text, i as nat));
        }
        i += 1;
    }
    assert(views(lines@) =~= views(lines@) + blocks_lines(m, indent@, es, global_ref_path@, *transform_text, i as nat));
    let ghost after_blocks = views(lines@);
    if wrap {
        push_line(&mut lines, "}".to_string());
    }
    proof {
        let root_lines: Seq<Seq<char>> = if wraps_root(sm) {
            seq!["def Xform "@ + quoted(sm.default_prim) + " ("@, "    kind = \"assembly\""@, ")"@, "{"@]
        } else {
            Seq::empty()
        };
        assert(before_blocks =~= before_root + root_lines);
        assert(after_blocks =~= before_blocks + blocks_lines(m, indent@, es, global_ref_path@, *transform_text, 0));
        assert(views(lines@) =~= stage_lines(m, sm, *settings_text, global_ref_path@, *transform_text));
    }
    match base_content {
        Some(base) => inject(base, &lines, settings.create_root_prim),
        None => crate::text::join_newline(&lines),
    }
}

impl<T, N> Stager<T, N> {
    /// The USDA text of the stage. `transform_text` spells each asset's
    /// transform and `settings_text` the numeric settings.
    pub fn generate_usda_content<F: Fn(&T) -> TransformText>(
        &self,
        transform_text: &F,
        settings_text: &SettingsText,
    ) -> (r: String)
        requires
            deterministic(*transform_text),
        ensures
            r@ == stage_text(
                stage_lines(
                    models(self.assets@),
                    settings_model(self.settings),
                    *settings_text,
                    self.global_ref_path@,
                    *transform_text,
                ),
                crate::asset::opt_view(self.base_content),
                self.settings.create_root_prim,
            ),
    {
        render_stage(
            &self.assets,
            &self.settings,
            settings_text,
            self.global_ref_path.as_str(),
            &self.base_content,
            transform_text,
        )
    }
}

} // verus!
