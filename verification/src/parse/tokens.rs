//! The token model the parsers work on.
//!
//! The host front end tokenizes the raw attribute text into these shapes
//! before any validation runs: an identifier, a literal bit-range expression,
//! a path with angle-bracketed arguments, or something unrecognizable. The
//! validating passes then classify and count tokens per category.

use vstd::prelude::*;

verus! {

/// The backing integer widths a container may choose from.
#[derive(Clone, Copy, Debug, PartialEq, Eq, Structural)]
pub enum Width {
    U8,
    U16,
    U32,
    U64,
    U128,
}

/// A declared visibility, or the export policy of the wrapped backing value:
/// inherited (no elevated visibility), fully public, or public within a named
/// scope path.
#[derive(Clone, Debug, PartialEq, Eq)]
pub enum Vis {
    Inherited,
    Public,
    Scoped(String),
}

/// One literal bit-range expression: `start..end` when `closed` is false,
/// `start..=end` when it is true.
#[derive(Clone, Copy, Debug, PartialEq, Eq, Structural)]
pub struct BitRange {
    pub start: u64,
    pub end: u64,
    pub closed: bool,
}

/// One token of a `field(...)` attribute.
#[derive(Clone, Debug, PartialEq, Eq)]
pub enum FieldToken {
    /// A bare identifier, recognized or not.
    Ident(String),
    /// A literal bit-range expression.
    Range(BitRange),
    /// Anything else; always rejected.
    Other,
}

/// One argument of a parameterized container token such as `export::<path>`.
#[derive(Clone, Debug, PartialEq, Eq)]
pub enum ExportArg {
    /// A plain scope path, carried as its source text.
    Path(String),
    /// An argument of any other shape; always rejected.
    NotPath,
}

/// One token of the container attribute: a bare path-like identifier, or an
/// identifier carrying angle-bracketed arguments.
#[derive(Clone, Debug, PartialEq, Eq)]
pub enum ContainerToken {
    Ident(String),
    WithArgs(String, Vec<ExportArg>),
}

/// One attribute on the struct-like item or on one of its fields: a
/// documentation attribute carrying its text, a `field(...)` attribute
/// carrying its tokenized content, or any other attribute, carried by name.
#[derive(Clone, Debug, PartialEq, Eq)]
pub enum RawAttr {
    Doc(String),
    Field(Vec<FieldToken>),
    Other(String),
}

/// One field of the struct-like item, as the host front end hands it over:
/// name (absent for tuple-style fields), target type text, visibility, and
/// the attributes in declaration order.
#[derive(Clone, Debug, PartialEq, Eq)]
pub struct RawField {
    pub name: Option<String>,
    pub target_ty: String,
    pub vis: Vis,
    pub attrs: Vec<RawAttr>,
}

/// The kind of the annotated item.
#[derive(Clone, Copy, Debug, PartialEq, Eq, Structural)]
pub enum ItemKind {
    Struct,
    Enum,
    Union,
}

/// The struct-like item the transformation was attached to, as the host
/// front end hands it over.
#[derive(Clone, Debug, PartialEq, Eq)]
pub struct RawItem {
    pub kind: ItemKind,
    pub has_generics: bool,
    pub vis: Vis,
    pub name: String,
    pub attrs: Vec<RawAttr>,
    pub fields: Vec<RawField>,
}

/// The documentation strings among a list of attributes, in order.
pub open spec fn doc_strings(attrs: Seq<RawAttr>) -> Seq<String>
    decreases attrs.len(),
{
    if attrs.len() == 0 {
        Seq::empty()
    } else {
        doc_strings(attrs.drop_last()) + (match attrs.last() {
            RawAttr::Doc(s) => seq![s],
            _ => Seq::empty(),
        })
    }
}

/// Collects the documentation strings of an attribute list, in order.
pub fn collect_docs(attrs: &Vec<RawAttr>) -> (r: Vec<String>)
    ensures
        r@ == doc_strings(attrs@),
{
    let mut r: Vec<String> = Vec::new();
    let mut i: usize = 0;
    while i < attrs.len()
        invariant
            0 <= i <= attrs@.len(),
            r@ == doc_strings(attrs@.take(i as int)),
        decreases attrs@.len() - i,
    {
        let ghost prefix = attrs@.take(i as int);
        let ghost prefix1 = attrs@.take(i + 1 as int);
        proof {
            assert(prefix1 =~= prefix.push(attrs@[i as int]));
            assert(prefix1.last() == attrs@[i as int]);
            assert(prefix1.drop_last() =~= prefix);
        }
        match &attrs[i] {
            RawAttr::Doc(s) => {
                r.push(s.clone());
                proof {
                    assert(r@ =~= doc_strings(prefix1));
                }
            },
            _ => {
                proof {
                    assert(r@ =~= doc_strings(prefix1));
                }
            },
        }
        i = i + 1;
    }
    proof {
        assert(attrs@.take(attrs@.len() as int) =~= attrs@);
    }
    r
}

/// The source text of a backing-width token.
pub open spec fn width_text(w: Width) -> Seq<char> {
    match w {
        Width::U8 => "u8"@,
        Width::U16 => "u16"@,
        Width::U32 => "u32"@,
        Width::U64 => "u64"@,
        Width::U128 => "u128"@,
    }
}

/// Whether an identifier names one of the recognized backing widths.
pub open spec fn spec_width_of(s: Seq<char>) -> Option<Width> {
    if s == "u8"@ {
        Some(Width::U8)
    } else if s == "u16"@ {
        Some(Width::U16)
    } else if s == "u32"@ {
        Some(Width::U32)
    } else if s == "u64"@ {
        Some(Width::U64)
    } else if s == "u128"@ {
        Some(Width::U128)
    } else {
        None
    }
}

/// Equality of a string against a literal, usable wherever identifiers are
/// classified.
pub fn str_eq(s: &String, lit: &str) -> (r: bool)
    ensures
        r == (s@ == lit@),
{
    let other: String = lit.to_owned();
    *s == other
}

/// Classifies an identifier as a backing-width token.
pub fn width_of(s: &String) -> (r: Option<Width>)
    ensures
        r == spec_width_of(s@),
{
    if str_eq(s, "u8") {
        Some(Width::U8)
    } else if str_eq(s, "u16") {
        Some(Width::U16)
    } else if str_eq(s, "u32") {
        Some(Width::U32)
    } else if str_eq(s, "u64") {
        Some(Width::U64)
    } else if str_eq(s, "u128") {
        Some(Width::U128)
    } else {
        None
    }
}

} // verus!
