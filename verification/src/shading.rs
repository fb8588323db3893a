//! Material bindings and surface shaders: which target a binding or a
//! connection names, which shader an `info:id` identifies, and which
//! MaterialX material a bound material takes.

use vstd::prelude::*;

use crate::kinds::str_eq;
use crate::library::{chars_contain, contains_seq};
use crate::render::{last_index_exec, last_index_of, string_from};
use crate::text::{chars_of, views};
use crate::writer::{prim_name, ListOpRecord};

verus! {

/// The kind of surface shader a prim is.
#[derive(Debug, Clone, Copy, PartialEq, Eq, Structural)]
pub enum ShaderType {
    UsdPreviewSurface,
    MaterialXStandardSurface,
}

/// The shader kind that an `info:id` token identifies: `UsdPreviewSurface`
/// itself, or any MaterialX node definition whose id holds
/// `standard_surface`.
pub open spec fn shader_kind_of(id: Seq<char>) -> Option<ShaderType> {
    if id == "UsdPreviewSurface"@ {
        Some(ShaderType::UsdPreviewSurface)
    } else if contains_seq(id, "standard_surface"@) {
        Some(ShaderType::MaterialXStandardSurface)
    } else {
        None
    }
}

/// The shader kind that an `info:id` token identifies.
pub fn shader_kind(info_id: &str) -> (r: Option<ShaderType>)
    ensures
        r == shader_kind_of(info_id@),
{
    if str_eq(info_id, "UsdPreviewSurface") {
        Some(ShaderType::UsdPreviewSurface)
    } else {
        let id = chars_of(info_id);
        let pat = chars_of("standard_surface");
        if chars_contain(&id, &pat) {
            Some(ShaderType::MaterialXStandardSurface)
        } else {
            None
        }
    }
}

/// The target that a binding or a connection uses: the first explicit item,
/// else the first prepended one.
pub open spec fn first_target_of(op: ListOpRecord<String>) -> Option<Seq<char>> {
    if op.explicit_items@.len() > 0 {
        Some(op.explicit_items@[0]@)
    } else if op.prepended_items@.len() > 0 {
        Some(op.prepended_items@[0]@)
    } else {
        None
    }
}

/// The target that a binding or a connection uses.
pub fn first_target(op: &ListOpRecord<String>) -> (r: Option<String>)
    ensures
        match r {
            Some(t) => first_target_of(*op) == Some(t@),
            None => first_target_of(*op) is None,
        },
{
    if op.explicit_items.len() > 0 {
        Some(op.explicit_items[0].clone())
    } else if op.prepended_items.len() > 0 {
        Some(op.prepended_items[0].clone())
    } else {
        None
    }
}

/// The prim that a connection path points into: the path before its last
/// `.` (the attribute part).
pub open spec fn connected_prim_of(conn: Seq<char>) -> Option<Seq<char>> {
    match last_index_of(conn, '.') {
        Some(i) => Some(conn.take(i as int)),
        None => None,
    }
}

/// The prim that a connection path points into.
pub fn connected_prim_path(conn: &str) -> (r: Option<String>)
    ensures
        match r {
            Some(p) => connected_prim_of(conn@) == Some(p@),
            None => connected_prim_of(conn@) is None,
        },
{
    let cs = chars_of(conn);
    match last_index_exec(&cs, '.') {
        Some(i) => {
            let mut p = String::new();
            let mut k: usize = 0;
            while k < i
                invariant
                    0 <= k <= i,
                    i < cs.len(),
                    p@ == cs@.take(k as int),
                decreases i - k,
            {
                crate::text::push_char(&mut p, cs[k]);
                assert(cs@.take(k + 1) =~= cs@.take(k as int).push(cs@[k as int]));
                k += 1;
            }
            Some(p)
        },
        None => None,
    }
}

/// Whether `s` ends with `suffix`.
pub open spec fn ends_with_seq(s: Seq<char>, suffix: Seq<char>) -> bool {
    suffix.len() <= s.len() && s.skip(s.len() - suffix.len()) == suffix
}

fn chars_end_with(s: &Vec<char>, suffix: &Vec<char>) -> (r: bool)
    ensures
        r == ends_with_seq(s@, suffix@),
{
    if suffix.len() > s.len() {
        return false;
    }
    let off = s.len() - suffix.len();
    let mut j: usize = 0;
    while j < suffix.len()
        invariant
            off == s.len() - suffix.len(),
            0 <= j <= suffix.len(),
            forall|t: int| 0 <= t < j ==> s@[off + t] == suffix@[t],
        decreases suffix.len() - j,
    {
        if s[off + j] != suffix[j] {
            assert(s@.skip(off as int)[j as int] != suffix@[j as int]);
            return false;
        }
        j += 1;
    }
    assert(s@.skip(off as int) =~= suffix@);
    true
}

/// The first index at which `pred` holds.
pub open spec fn first_index(n: nat, pred: spec_fn(int) -> bool) -> Option<nat>
    decreases n,
{
    if n == 0 {
        None
    } else {
        match first_index((n - 1) as nat, pred) {
            Some(i) => Some(i),
            None => if pred(n - 1) {
                Some((n - 1) as nat)
            } else {
                None
            },
        }
    }
}

/// The MaterialX material that a bound material takes, among `names` (in the
/// order in which they are looked through): the one of the same name, else
/// the one named with an `m_` prefix, else the first whose name ends with
/// the material's or with which the material's name ends.
pub open spec fn materialx_choice(name: Seq<char>, names: Seq<Seq<char>>) -> Option<nat> {
    match first_index(names.len(), |i: int| names[i] == name) {
        Some(i) => Some(i),
        None => match first_index(names.len(), |i: int| names[i] == "m_"@ + name) {
            Some(i) => Some(i),
            None => first_index(
                names.len(),
                |i: int| ends_with_seq(names[i], name) || ends_with_seq(name, names[i]),
            ),
        },
    }
}

proof fn lemma_first_index_ext(n: nat, p: spec_fn(int) -> bool, q: spec_fn(int) -> bool)
    requires
        forall|k: int| 0 <= k < n ==> #[trigger] p(k) == q(k),
    ensures
        first_index(n, p) == first_index(n, q),
    decreases n,
{
    if n > 0 {
        lemma_first_index_ext((n - 1) as nat, p, q);
    }
}

/// The first position whose flag is set.
fn first_true(flags: &Vec<bool>) -> (r: Option<usize>)
    ensures
        match r {
            Some(i) => first_index(flags@.len(), |k: int| flags@[k]) == Some(i as nat),
            None => first_index(flags@.len(), |k: int| flags@[k]) is None,
        },
{
    let ghost pred = |k: int| flags@[k];
    let mut i: usize = 0;
    while i < flags.len()
        invariant
            0 <= i <= flags.len(),
            pred == (|k: int| flags@[k]),
            first_index(i as nat, pred) is None,
        decreases flags.len() - i,
    {
        if flags[i] {
            assert(first_index((i + 1) as nat, pred) == Some(i as nat));
            proof {
                lemma_first_index_prefix(flags@.len(), (i + 1) as nat, pred);
            }
            return Some(i);
        }
        i += 1;
    }
    None
}

/// The first index found within a prefix stays the first index.
proof fn lemma_first_index_prefix(n: nat, m: nat, pred: spec_fn(int) -> bool)
    requires
        m <= n,
        first_index(m, pred) is Some,
    ensures
        first_index(n, pred) == first_index(m, pred),
    decreases n - m,
{
    if n > m {
        lemma_first_index_prefix((n - 1) as nat, m, pred);
    }
}

/// The MaterialX material that a bound material takes: its index among
/// `names`, by the rules of `materialx_choice`.
pub fn match_materialx(name: &str, names: &Vec<String>) -> (r: Option<usize>)
    ensures
        match r {
            Some(i) => materialx_choice(name@, views(names@)) == Some(i as nat),
            None => materialx_choice(name@, views(names@)) is None,
        },
{
    let ghost vs = views(names@);
    let mut prefixed = "m_".to_string();
    prefixed.append(name);
    let name_chars = chars_of(name);
    let mut exact: Vec<bool> = Vec::new();
    let mut with_prefix: Vec<bool> = Vec::new();
    let mut by_suffix: Vec<bool> = Vec::new();
    let mut k: usize = 0;
    while k < names.len()
        invariant
            0 <= k <= names.len(),
            vs == views(names@),
            prefixed@ == "m_"@ + name@,
            name_chars@ == name@,
            exact.len() == k,
            with_prefix.len() == k,
            by_suffix.len() == k,
            forall|j: int| 0 <= j < k ==> #[trigger] exact@[j] == (vs[j] == name@),
            forall|j: int| 0 <= j < k ==> #[trigger] with_prefix@[j] == (vs[j] == "m_"@ + name@),
            forall|j: int| 0 <= j < k ==> #[trigger] by_suffix@[j] == (ends_with_seq(vs[j], name@) || ends_with_seq(name@, vs[j])),
        decreases names.len() - k,
    {
        let n = names[k].as_str();
        exact.push(str_eq(n, name));
        with_prefix.push(str_eq(n, prefixed.as_str()));
        let nc = chars_of(n);
        let s = chars_end_with(&nc, &name_chars) || chars_end_with(&name_chars, &nc);
        by_suffix.push(s);
        k += 1;
    }
    proof {
        lemma_first_index_ext(vs.len(), |i: int| exact@[i], |i: int| vs[i] == name@);
        lemma_first_index_ext(vs.len(), |i: int| with_prefix@[i], |i: int| vs[i] == "m_"@ + name@);
        lemma_first_index_ext(
            vs.len(),
            |i: int| by_suffix@[i],
            |i: int| ends_with_seq(vs[i], name@) || ends_with_seq(name@, vs[i]),
        );
    }
    match first_true(&exact) {
        Some(i) => Some(i),
        None => match first_true(&with_prefix) {
            Some(i) => Some(i),
            None => first_true(&by_suffix),
        },
    }
}

/// The name of a bound material: its path after the last `/`.
pub fn material_name(binding: &str) -> (r: String)
    ensures
        r@ == prim_name(binding@),
{
    let cs = chars_of(binding);
    match last_index_exec(&cs, '/') {
        Some(i) => string_from(&cs, i + 1),
        None => binding.to_string(),
    }
}

} // verus!
