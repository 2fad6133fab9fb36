//! Validation of one field: its `field(...)` attribute tokens and the field's
//! own shape (name, attributes, documentation).

use vstd::prelude::*;

use crate::error::BitsError;
use crate::parse::tokens::{
    collect_docs, doc_strings, BitRange, FieldToken, RawAttr, RawField, Vis,
};

verus! {

/// The permission a field grants: read, write, or both.
#[derive(Clone, Copy, Debug, PartialEq, Eq, Structural)]
pub enum BitFieldPerm {
    R,
    W,
    RW,
}

impl Default for BitFieldPerm {
    /// A field that names no permission is readable and nothing more.
    fn default() -> (r: Self)
        ensures
            r == BitFieldPerm::R,
    {
        BitFieldPerm::R
    }
}

/// The validated content of one `field(...)` attribute: exactly one
/// permission (defaulted to read), one fallible-read marker, and exactly one
/// bit range.
#[derive(Clone, Debug, PartialEq, Eq)]
pub struct BitFieldAttr {
    pub need_try: bool,
    pub perm: BitFieldPerm,
    pub expr_range: BitRange,
}

/// One fully validated field: the attribute triple plus the field's declared
/// name, target type, visibility and documentation.
#[derive(Clone, Debug, PartialEq, Eq)]
pub struct BitStructFieldInfo {
    pub target_ty: String,
    pub name: String,
    pub attr: BitFieldAttr,
    pub vis: Vis,
    pub doc: Vec<String>,
}

/// Whether an identifier names a permission.
pub open spec fn is_perm_ident(s: Seq<char>) -> bool {
    s == "R"@ || s == "W"@ || s == "RW"@
}

/// Whether an identifier is recognized at all inside `field(...)`.
pub open spec fn is_known_ident(s: Seq<char>) -> bool {
    is_perm_ident(s) || s == "Try"@
}

/// Whether a token is a permission token.
pub open spec fn tok_is_perm(t: FieldToken) -> bool {
    match t {
        FieldToken::Ident(s) => is_perm_ident(s@),
        _ => false,
    }
}

/// Whether a token is a range token.
pub open spec fn tok_is_range(t: FieldToken) -> bool {
    match t {
        FieldToken::Range(_) => true,
        _ => false,
    }
}

/// Whether a token is the fallible-read marker.
pub open spec fn tok_is_try(t: FieldToken) -> bool {
    match t {
        FieldToken::Ident(s) => s@ == "Try"@,
        _ => false,
    }
}

/// Whether a token is rejected outright: an unrecognized identifier, or a
/// token of no recognizable shape.
pub open spec fn tok_is_bad(t: FieldToken) -> bool {
    match t {
        FieldToken::Ident(s) => !is_known_ident(s@),
        FieldToken::Range(_) => false,
        FieldToken::Other => true,
    }
}

/// The permission a permission token names.
pub open spec fn perm_of(t: FieldToken) -> BitFieldPerm {
    match t {
        FieldToken::Ident(s) => if s@ == "R"@ {
            BitFieldPerm::R
        } else if s@ == "W"@ {
            BitFieldPerm::W
        } else {
            BitFieldPerm::RW
        },
        _ => BitFieldPerm::R,
    }
}

/// No two distinct positions both hold permission tokens.
pub open spec fn at_most_one_perm(toks: Seq<FieldToken>) -> bool {
    forall|i: int, j: int|
        0 <= i < j < toks.len() ==> !(tok_is_perm(toks[i]) && tok_is_perm(toks[j]))
}

/// No two distinct positions both hold range tokens.
pub open spec fn at_most_one_range(toks: Seq<FieldToken>) -> bool {
    forall|i: int, j: int|
        0 <= i < j < toks.len() ==> !(tok_is_range(toks[i]) && tok_is_range(toks[j]))
}

pub open spec fn has_range(toks: Seq<FieldToken>) -> bool {
    exists|i: int| 0 <= i < toks.len() && tok_is_range(toks[i])
}

pub open spec fn has_try(toks: Seq<FieldToken>) -> bool {
    exists|i: int| 0 <= i < toks.len() && tok_is_try(toks[i])
}

pub open spec fn has_bad(toks: Seq<FieldToken>) -> bool {
    exists|i: int| 0 <= i < toks.len() && tok_is_bad(toks[i])
}

/// The leftmost rejected token.
pub open spec fn first_bad(toks: Seq<FieldToken>) -> FieldToken
    decreases toks.len(),
{
    if toks.len() == 0 {
        FieldToken::Other
    } else if tok_is_bad(toks[0]) {
        toks[0]
    } else {
        first_bad(toks.drop_first())
    }
}

/// The permission in force: the rightmost permission token, or read when
/// none is present.
pub open spec fn effective_perm(toks: Seq<FieldToken>) -> BitFieldPerm
    decreases toks.len(),
{
    if toks.len() == 0 {
        BitFieldPerm::R
    } else if tok_is_perm(toks.last()) {
        perm_of(toks.last())
    } else {
        effective_perm(toks.drop_last())
    }
}

/// The range in force: the rightmost range token's range.
pub open spec fn last_range(toks: Seq<FieldToken>) -> BitRange
    decreases toks.len(),
{
    if toks.len() == 0 {
        BitRange { start: 0, end: 0, closed: false }
    } else {
        match toks.last() {
            FieldToken::Range(r) => r,
            _ => last_range(toks.drop_last()),
        }
    }
}

/// The diagnostic for the leftmost rejected token.
pub open spec fn first_bad_error(toks: Seq<FieldToken>) -> BitsError {
    match first_bad(toks) {
        FieldToken::Ident(s) => BitsError::UnknownFieldArg(s),
        _ => BitsError::UnparsableFieldToken,
    }
}

/// What parsing one `field(...)` attribute returns: a hard error for an
/// empty list, a duplicated permission or range, an unrecognized token, or a
/// missing range; otherwise the validated triple.
pub open spec fn field_attr_spec(toks: Seq<FieldToken>) -> Result<BitFieldAttr, BitsError> {
    if toks.len() == 0 {
        Err(BitsError::EmptyFieldAttr)
    } else if !at_most_one_perm(toks) {
        Err(BitsError::MultiplePermTokens)
    } else if !at_most_one_range(toks) {
        Err(BitsError::MultipleRangeTokens)
    } else if has_bad(toks) {
        Err(first_bad_error(toks))
    } else if !has_range(toks) {
        Err(BitsError::MissingRange)
    } else {
        Ok(
            BitFieldAttr {
                need_try: has_try(toks),
                perm: effective_perm(toks),
                expr_range: last_range(toks),
            },
        )
    }
}

/// If the tokens up to `i` are all accepted and the token at `i` is not,
/// the token at `i` is the leftmost rejected one.
proof fn lemma_first_bad_at(toks: Seq<FieldToken>, i: int)
    requires
        0 <= i < toks.len(),
        tok_is_bad(toks[i]),
        forall|j: int| 0 <= j < i ==> !tok_is_bad(toks[j]),
    ensures
        first_bad(toks) == toks[i],
    decreases i,
{
    if i == 0 {
    } else {
        assert(toks.drop_first()[i - 1] == toks[i]);
        assert(forall|j: int| 0 <= j < i - 1 ==> toks.drop_first()[j] == toks[j + 1]);
        lemma_first_bad_at(toks.drop_first(), i - 1);
    }
}

/// A field attribute with no permission token is granted permission Read.
///
/// Law: for all field attributes lacking a permission token, the resulting
/// descriptor's permission is Read.
pub proof fn lemma_perm_defaults_to_read(toks: Seq<FieldToken>)
    requires
        forall|i: int| 0 <= i < toks.len() ==> !tok_is_perm(toks[i]),
    ensures
        effective_perm(toks) == BitFieldPerm::R,
        field_attr_spec(toks) matches Ok(a) ==> a.perm == BitFieldPerm::R,
    decreases toks.len(),
{
    if toks.len() == 0 {
    } else {
        assert(toks.last() == toks[toks.len() - 1]);
        assert(forall|i: int| 0 <= i < toks.len() - 1 ==> toks.drop_last()[i] == toks[i]);
        lemma_perm_defaults_to_read(toks.drop_last());
    }
}

/// Whether an attribute is a `field(...)` attribute.
pub open spec fn attr_is_field(a: RawAttr) -> bool {
    match a {
        RawAttr::Field(_) => true,
        _ => false,
    }
}

/// Whether an attribute is neither `field(...)` nor documentation.
pub open spec fn attr_is_other(a: RawAttr) -> bool {
    match a {
        RawAttr::Other(_) => true,
        _ => false,
    }
}

/// Whether some attribute of the list is disallowed on a field.
pub open spec fn has_other_attr(attrs: Seq<RawAttr>) -> bool {
    exists|i: int| 0 <= i < attrs.len() && attr_is_other(attrs[i])
}

/// Whether some attribute of the list is a `field(...)` attribute.
pub open spec fn has_field_attr(attrs: Seq<RawAttr>) -> bool {
    exists|i: int| 0 <= i < attrs.len() && attr_is_field(attrs[i])
}

/// No two distinct positions both hold `field(...)` attributes.
pub open spec fn at_most_one_field_attr(attrs: Seq<RawAttr>) -> bool {
    forall|i: int, j: int|
        0 <= i < j < attrs.len() ==> !(attr_is_field(attrs[i]) && attr_is_field(attrs[j]))
}

/// The token list of the leftmost `field(...)` attribute.
pub open spec fn first_field_tokens(attrs: Seq<RawAttr>) -> Seq<FieldToken>
    decreases attrs.len(),
{
    if attrs.len() == 0 {
        Seq::empty()
    } else {
        match attrs[0] {
            RawAttr::Field(toks) => toks@,
            _ => first_field_tokens(attrs.drop_first()),
        }
    }
}

/// If the attributes before `i` are not `field(...)` attributes and the one
/// at `i` is, its tokens are the leftmost ones.
proof fn lemma_first_field_tokens_at(attrs: Seq<RawAttr>, i: int)
    requires
        0 <= i < attrs.len(),
        attr_is_field(attrs[i]),
        forall|j: int| 0 <= j < i ==> !attr_is_field(attrs[j]),
    ensures
        attrs[i] matches RawAttr::Field(toks) && first_field_tokens(attrs) == toks@,
    decreases i,
{
    if i == 0 {
    } else {
        assert(attrs.drop_first()[i - 1] == attrs[i]);
        assert(forall|j: int| 0 <= j < i - 1 ==> attrs.drop_first()[j] == attrs[j + 1]);
        lemma_first_field_tokens_at(attrs.drop_first(), i - 1);
    }
}

/// The validation a field runs through, and the diagnostic it stops at: a
/// disallowed attribute, a missing or duplicated `field(...)` attribute, a
/// missing name, or a failure inside the `field(...)` tokens.
pub open spec fn field_info_check(f: RawField) -> Option<BitsError> {
    if has_other_attr(f.attrs@) {
        Some(BitsError::DisallowedAttr)
    } else if !has_field_attr(f.attrs@) {
        Some(BitsError::MissingFieldAttr)
    } else if !at_most_one_field_attr(f.attrs@) {
        Some(BitsError::MultipleFieldAttrs)
    } else if f.name is None {
        Some(BitsError::UnnamedField)
    } else {
        match field_attr_spec(first_field_tokens(f.attrs@)) {
            Err(e) => Some(e),
            Ok(_) => None,
        }
    }
}

/// How a validated field relates to the raw field it came from: validation
/// passed, the name, type and visibility are the declared ones, the
/// documentation is carried over in order, and the attribute triple is the
/// parse of the single `field(...)` attribute.
pub open spec fn field_info_matches(f: RawField, info: BitStructFieldInfo) -> bool {
    &&& field_info_check(f) is None
    &&& f.name matches Some(n) && info.name == n
    &&& info.target_ty == f.target_ty
    &&& info.vis == f.vis
    &&& info.doc@ == doc_strings(f.attrs@)
    &&& field_attr_spec(first_field_tokens(f.attrs@)) == Ok::<BitFieldAttr, BitsError>(info.attr)
}

impl BitStructFieldInfo {
    /// Validates one raw field: only `field(...)` and documentation
    /// attributes are allowed, exactly one `field(...)` among them, the field
    /// must be named, and the attribute tokens must parse; the resulting
    /// descriptor carries name, type, visibility and documentation through.
    pub fn try_from(field: RawField) -> (r: Result<BitStructFieldInfo, BitsError>)
        ensures
            match r {
                Ok(info) => field_info_matches(field, info),
                Err(e) => field_info_check(field) == Some(e),
            },
    {
        let RawField { name, target_ty, vis, attrs } = field;
        let n = attrs.len();
        let mut i: usize = 0;
        let mut field_count: usize = 0;
        let mut first_idx: usize = 0;
        while i < n
            invariant
                0 <= i <= n,
                n == attrs@.len(),
                attrs@ == field.attrs@,
                field_count <= i,
                forall|j: int| 0 <= j < i ==> !attr_is_other(attrs@[j]),
                field_count == 0 ==> forall|j: int| 0 <= j < i ==> !attr_is_field(attrs@[j]),
                field_count > 0 ==> 0 <= first_idx < i && attr_is_field(attrs@[first_idx as int])
                    && forall|j: int| 0 <= j < first_idx ==> !attr_is_field(attrs@[j]),
                field_count == 1 ==> forall|j: int|
                    0 <= j < i && j != first_idx ==> !attr_is_field(attrs@[j]),
                field_count >= 2 ==> !at_most_one_field_attr(attrs@),
            decreases n - i,
        {
            match &attrs[i] {
                RawAttr::Other(_) => {
                    return Err(BitsError::DisallowedAttr);
                },
                RawAttr::Field(_) => {
                    if field_count == 0 {
                        first_idx = i;
                    } else {
                        proof {
                            assert(attr_is_field(attrs@[first_idx as int]) && attr_is_field(
                                attrs@[i as int],
                            ));
                        }
                    }
                    field_count = field_count + 1;
                },
                RawAttr::Doc(_) => {},
            }
            i = i + 1;
        }
        if field_count == 0 {
            return Err(BitsError::MissingFieldAttr);
        }
        if field_count >= 2 {
            return Err(BitsError::MultipleFieldAttrs);
        }
        assert(at_most_one_field_attr(attrs@));
        let name = match name {
            Some(nm) => nm,
            None => {
                return Err(BitsError::UnnamedField);
            },
        };
        let doc = collect_docs(&attrs);
        proof {
            lemma_first_field_tokens_at(attrs@, first_idx as int);
        }
        let mut attrs = attrs;
        let taken = attrs.remove(first_idx);
        let toks = match taken {
            RawAttr::Field(t) => t,
            _ => {
                return Err(BitsError::MissingFieldAttr);
            },
        };
        match BitFieldAttr::parse(&toks) {
            Ok(attr) => Ok(BitStructFieldInfo { target_ty, name, attr, vis, doc }),
            Err(e) => Err(e),
        }
    }
}

impl BitFieldAttr {
    /// Parses the comma-separated token list of one `field(...)` attribute:
    /// at most one permission token (default Read), at most one fallible
    /// marker, exactly one bit range; anything else is rejected with the
    /// diagnostic `field_attr_spec` assigns.
    pub fn parse(tokens: &Vec<FieldToken>) -> (r: Result<BitFieldAttr, BitsError>)
        ensures
            r == field_attr_spec(tokens@),
    {
        let n = tokens.len();
        if n == 0 {
            return Err(BitsError::EmptyFieldAttr);
        }
        // First pass: reject a second permission token.
        let mut i: usize = 0;
        let mut seen_perm: bool = false;
        let ghost mut perm_at: int = 0;
        while i < n
            invariant
                0 <= i <= n,
                n == tokens@.len(),
                seen_perm ==> 0 <= perm_at < i && tok_is_perm(tokens@[perm_at]),
                !seen_perm ==> forall|j: int| 0 <= j < i ==> !tok_is_perm(tokens@[j]),
                forall|a: int, b: int|
                    0 <= a < b < i ==> !(tok_is_perm(tokens@[a]) && tok_is_perm(tokens@[b])),
            decreases n - i,
        {
            let is_perm = match &tokens[i] {
                FieldToken::Ident(s) => {
                    crate::parse::tokens::str_eq(s, "R") || crate::parse::tokens::str_eq(s, "W")
                        || crate::parse::tokens::str_eq(s, "RW")
                },
                _ => false,
            };
            if is_perm {
                if seen_perm {
                    assert(!at_most_one_perm(tokens@)) by {
                        assert(tok_is_perm(tokens@[perm_at]) && tok_is_perm(tokens@[i as int]));
                    }
                    return Err(BitsError::MultiplePermTokens);
                }
                seen_perm = true;
                proof {
                    perm_at = i as int;
                }
            }
            i = i + 1;
        }
        assert(at_most_one_perm(tokens@));
        // Second pass: reject a second range token.
        let mut i: usize = 0;
        let mut seen_range: bool = false;
        let ghost mut range_at: int = 0;
        while i < n
            invariant
                0 <= i <= n,
                n == tokens@.len(),
                at_most_one_perm(tokens@),
                seen_range ==> 0 <= range_at < i && tok_is_range(tokens@[range_at]),
                !seen_range ==> forall|j: int| 0 <= j < i ==> !tok_is_range(tokens@[j]),
                forall|a: int, b: int|
                    0 <= a < b < i ==> !(tok_is_range(tokens@[a]) && tok_is_range(tokens@[b])),
            decreases n - i,
        {
            let is_range = match &tokens[i] {
                FieldToken::Range(_) => true,
                _ => false,
            };
            if is_range {
                if seen_range {
                    assert(!at_most_one_range(tokens@)) by {
                        assert(tok_is_range(tokens@[range_at]) && tok_is_range(
                            tokens@[i as int],
                        ));
                    }
                    return Err(BitsError::MultipleRangeTokens);
                }
                seen_range = true;
                proof {
                    range_at = i as int;
                }
            }
            i = i + 1;
        }
        assert(at_most_one_range(tokens@));
        // Main pass, in token order: classify each token, rejecting the first
        // unrecognized one; track the permission, fallible marker and range.
        let mut i: usize = 0;
        let mut perm: BitFieldPerm = BitFieldPerm::R;
        let mut need_try: bool = false;
        let mut range: Option<BitRange> = None;
        while i < n
            invariant
                0 <= i <= n,
                n == tokens@.len(),
                n > 0,
                at_most_one_perm(tokens@),
                at_most_one_range(tokens@),
                forall|j: int| 0 <= j < i ==> !tok_is_bad(tokens@[j]),
                perm == effective_perm(tokens@.take(i as int)),
                need_try == has_try(tokens@.take(i as int)),
                match range {
                    Some(rg) => has_range(tokens@.take(i as int)) && rg == last_range(
                        tokens@.take(i as int),
                    ),
                    None => !has_range(tokens@.take(i as int)),
                },
            decreases n - i,
        {
            let ghost prefix = tokens@.take(i as int);
            let ghost prefix1 = tokens@.take(i + 1 as int);
            proof {
                assert("R"@.len() == 1 && "W"@.len() == 1 && "RW"@.len() == 2 && "Try"@.len()
                    == 3) by {
                    reveal_strlit("R");
                    reveal_strlit("W");
                    reveal_strlit("RW");
                    reveal_strlit("Try");
                }
                assert(prefix1 =~= prefix.push(tokens@[i as int]));
                assert(prefix1.last() == tokens@[i as int]);
                assert(prefix1.drop_last() =~= prefix);
            }
            match &tokens[i] {
                FieldToken::Ident(s) => {
                    if crate::parse::tokens::str_eq(s, "R") {
                        perm = BitFieldPerm::R;
                    } else if crate::parse::tokens::str_eq(s, "W") {
                        perm = BitFieldPerm::W;
                    } else if crate::parse::tokens::str_eq(s, "RW") {
                        perm = BitFieldPerm::RW;
                    } else if crate::parse::tokens::str_eq(s, "Try") {
                        need_try = true;
                        proof {
                            assert(tok_is_try(prefix1.last()));
                        }
                    } else {
                        proof {
                            assert(tok_is_bad(tokens@[i as int]));
                            lemma_first_bad_at(tokens@, i as int);
                        }
                        return Err(BitsError::UnknownFieldArg(s.clone()));
                    }
                },
                FieldToken::Range(r) => {
                    range = Some(*r);
                },
                FieldToken::Other => {
                    proof {
                        assert(tok_is_bad(tokens@[i as int]));
                        lemma_first_bad_at(tokens@, i as int);
                    }
                    return Err(BitsError::UnparsableFieldToken);
                },
            }
            proof {
                let t = tokens@[i as int];
                if has_try(prefix) {
                    let w = choose|k: int| 0 <= k < prefix.len() && tok_is_try(prefix[k]);
                    assert(tok_is_try(prefix1[w]));
                } else if !tok_is_try(t) {
                    assert forall|k: int| 0 <= k < prefix1.len() implies !tok_is_try(
                        prefix1[k],
                    ) by {
                        if k < prefix.len() {
                            assert(prefix1[k] == prefix[k]);
                        } else {
                            assert(prefix1[k] == t);
                        }
                    }
                }
                if has_range(prefix) {
                    let w = choose|k: int| 0 <= k < prefix.len() && tok_is_range(prefix[k]);
                    assert(tok_is_range(prefix1[w]));
                } else if !tok_is_range(t) {
                    assert forall|k: int| 0 <= k < prefix1.len() implies !tok_is_range(
                        prefix1[k],
                    ) by {
                        if k < prefix.len() {
                            assert(prefix1[k] == prefix[k]);
                        } else {
                            assert(prefix1[k] == t);
                        }
                    }
                }
                assert(has_try(prefix1) == (has_try(prefix) || tok_is_try(t)));
            }
            i = i + 1;
        }
        proof {
            assert(tokens@.take(n as int) =~= tokens@);
        }
        match range {
            Some(rg) => Ok(BitFieldAttr { need_try, perm, expr_range: rg }),
            None => Err(BitsError::MissingRange),
        }
    }
}

} // verus!
