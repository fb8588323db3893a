//! Small enumerations of the USD data model and their USDA spellings.

use vstd::prelude::*;

verus! {

/// Compares two string slices.
/// Calls `<str as PartialEq>::eq`; the contract claims what std documents:
/// the result is true exactly when both slices hold the same characters.
#[verifier::external_body]
pub(crate) fn str_eq(a: &str, b: &str) -> (r: bool)
    ensures
        r == (a@ == b@),
{
    a == b
}

/// Reference type for assets.
#[derive(Debug, Clone, Copy, PartialEq, Eq, Structural)]
pub enum ReferenceType {
    /// External file reference (`@path@`).
    File,
    /// Internal scene reference (`<path>`).
    Internal,
}

/// USD `kind` metadata.
#[derive(Debug, Clone, Copy, PartialEq, Eq, Structural)]
pub enum UsdKind {
    Component,
    Group,
    Assembly,
    Subcomponent,
    Model,
}

/// The token that spells a kind in USDA.
pub open spec fn kind_token(k: UsdKind) -> Seq<char> {
    match k {
        UsdKind::Component => "component"@,
        UsdKind::Group => "group"@,
        UsdKind::Assembly => "assembly"@,
        UsdKind::Subcomponent => "subcomponent"@,
        UsdKind::Model => "model"@,
    }
}

/// The kind a token names, if any.
pub open spec fn kind_of_token(s: Seq<char>) -> Option<UsdKind> {
    if s == "component"@ {
        Some(UsdKind::Component)
    } else if s == "group"@ {
        Some(UsdKind::Group)
    } else if s == "assembly"@ {
        Some(UsdKind::Assembly)
    } else if s == "subcomponent"@ {
        Some(UsdKind::Subcomponent)
    } else if s == "model"@ {
        Some(UsdKind::Model)
    } else {
        None
    }
}

impl UsdKind {
    pub fn as_str(&self) -> (r: &'static str)
        ensures
            r@ == kind_token(*self),
    {
        match self {
            UsdKind::Component => "component",
            UsdKind::Group => "group",
            UsdKind::Assembly => "assembly",
            UsdKind::Subcomponent => "subcomponent",
            UsdKind::Model => "model",
        }
    }

    pub fn from_str(s: &str) -> (r: Option<Self>)
        ensures
            r == kind_of_token(s@),
    {
        if str_eq(s, "component") {
            Some(UsdKind::Component)
        } else if str_eq(s, "group") {
            Some(UsdKind::Group)
        } else if str_eq(s, "assembly") {
            Some(UsdKind::Assembly)
        } else if str_eq(s, "subcomponent") {
            Some(UsdKind::Subcomponent)
        } else if str_eq(s, "model") {
            Some(UsdKind::Model)
        } else {
            None
        }
    }
}

/// Reading back the token of a kind gives that kind.
pub proof fn lemma_kind_token_roundtrip(k: UsdKind)
    ensures
        kind_of_token(kind_token(k)) == Some(k),
{
    broadcast use vstd::string::group_string_axioms;
    reveal_strlit("component");
    reveal_strlit("group");
    reveal_strlit("assembly");
    reveal_strlit("subcomponent");
    reveal_strlit("model");
    assert("component"@.len() == 9);
    assert("group"@.len() == 5);
    assert("assembly"@.len() == 8);
    assert("subcomponent"@.len() == 12);
    assert("model"@.len() == 5);
    assert("group"@[0] == 'g');
    assert("model"@[0] == 'm');
}

/// A token names a kind only when it is that kind's token.
pub proof fn lemma_kind_of_token_exact(s: Seq<char>, k: UsdKind)
    ensures
        kind_of_token(s) == Some(k) <==> s == kind_token(k),
{
    lemma_kind_token_roundtrip(k);
}

/// Specifier for a prim definition.
#[derive(Debug, Clone, Copy, PartialEq, Eq, Structural)]
pub enum Specifier {
    Def,
    Over,
    Class,
}

pub open spec fn specifier_keyword(s: Specifier) -> Seq<char> {
    match s {
        Specifier::Def => "def"@,
        Specifier::Over => "over"@,
        Specifier::Class => "class"@,
    }
}

impl Specifier {
    pub fn as_str(&self) -> (r: &'static str)
        ensures
            r@ == specifier_keyword(*self),
    {
        match self {
            Specifier::Def => "def",
            Specifier::Over => "over",
            Specifier::Class => "class",
        }
    }
}

impl Default for Specifier {
    fn default() -> (r: Self)
        ensures
            r == Specifier::Def,
    {
        Specifier::Def
    }
}

/// The three specifier keywords are distinct.
pub proof fn lemma_specifier_keyword_injective(a: Specifier, b: Specifier)
    ensures
        specifier_keyword(a) == specifier_keyword(b) ==> a == b,
{
    broadcast use vstd::string::group_string_axioms;
    reveal_strlit("def");
    reveal_strlit("over");
    reveal_strlit("class");
    assert("def"@.len() == 3);
    assert("over"@.len() == 4);
    assert("class"@.len() == 5);
}

/// Reference list operation.
#[derive(Debug, Clone, Copy, PartialEq, Eq, Structural)]
pub enum ReferenceOp {
    Prepend,
    Append,
}

pub open spec fn reference_op_keyword(op: ReferenceOp) -> Seq<char> {
    match op {
        ReferenceOp::Prepend => "prepend"@,
        ReferenceOp::Append => "append"@,
    }
}

impl ReferenceOp {
    pub fn as_str(&self) -> (r: &'static str)
        ensures
            r@ == reference_op_keyword(*self),
    {
        match self {
            ReferenceOp::Prepend => "prepend",
            ReferenceOp::Append => "append",
        }
    }
}

impl Default for ReferenceOp {
    fn default() -> (r: Self)
        ensures
            r == ReferenceOp::Prepend,
    {
        ReferenceOp::Prepend
    }
}

/// Up axis of a written stage.
#[derive(Debug, Clone, Copy, PartialEq, Eq, Structural)]
pub enum UpAxis {
    X,
    Y,
    Z,
}

pub open spec fn up_axis_token(a: UpAxis) -> Seq<char> {
    match a {
        UpAxis::X => "X"@,
        UpAxis::Y => "Y"@,
        UpAxis::Z => "Z"@,
    }
}

impl UpAxis {
    /// The USDA token of the axis (what the axis displays as).
    pub fn as_str(&self) -> (r: &'static str)
        ensures
            r@ == up_axis_token(*self),
    {
        match self {
            UpAxis::X => "X",
            UpAxis::Y => "Y",
            UpAxis::Z => "Z",
        }
    }
}

/// Tabs of the stager panel.
#[derive(Debug, Clone, Copy, PartialEq, Eq, Structural)]
pub enum StagerTab {
    Assets,
    Preview,
    Settings,
}

impl Default for StagerTab {
    fn default() -> (r: Self)
        ensures
            r == StagerTab::Assets,
    {
        StagerTab::Assets
    }
}

/// View mode of the asset library.
#[derive(Debug, Clone, Copy, PartialEq, Eq, Structural)]
pub enum AssetViewMode {
    Grid,
    List,
    Cover,
}

impl Default for AssetViewMode {
    fn default() -> (r: Self)
        ensures
            r == AssetViewMode::Grid,
    {
        AssetViewMode::Grid
    }
}

} // verus!
