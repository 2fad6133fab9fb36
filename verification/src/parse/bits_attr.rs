//! Validation of the container attribute in its structured-export form: a
//! backing width plus an optional `export` marker, bare (fully public) or
//! carrying one scope path (public within that scope).

use vstd::prelude::*;

use crate::error::BitsError;
use crate::parse::tokens::{spec_width_of, width_of, ContainerToken, ExportArg, Vis, Width};

verus! {

/// The validated container attribute: the backing width, and the visibility
/// of the wrapped backing value.
#[derive(Clone, Debug, PartialEq, Eq)]
pub struct BitStructAttr {
    pub base_ty: Width,
    pub export: Vis,
}

/// The backing width a token names, if any.
pub open spec fn ctok_width(t: ContainerToken) -> Option<Width> {
    match t {
        ContainerToken::Ident(s) => spec_width_of(s@),
        ContainerToken::WithArgs(_, _) => None,
    }
}

/// The diagnostic one token raises while scanning, given whether a width
/// token was already seen.
pub open spec fn stok_err(t: ContainerToken, width_seen: bool) -> Option<BitsError> {
    match t {
        ContainerToken::Ident(s) => if spec_width_of(s@) is Some {
            if width_seen {
                Some(BitsError::DuplicatedContainerType)
            } else {
                None
            }
        } else if s@ == "export"@ {
            None
        } else {
            Some(BitsError::UnknownContainerAttr)
        },
        ContainerToken::WithArgs(s, args) => if s@ == "export"@ {
            if args@.len() != 1 {
                Some(BitsError::TooManyExportArgs)
            } else if args@[0] is NotPath {
                Some(BitsError::ExportArgNotPath)
            } else {
                None
            }
        } else {
            Some(BitsError::UnknownContainerAttr)
        },
    }
}

/// The left-to-right scan of the remaining tokens: the first diagnostic
/// raised, or, when none is and no width token was seen, the missing-width
/// diagnostic.
pub open spec fn scan_tokens(toks: Seq<ContainerToken>, width_seen: bool) -> Option<BitsError>
    decreases toks.len(),
{
    if toks.len() == 0 {
        if width_seen {
            None
        } else {
            Some(BitsError::MissingContainerType)
        }
    } else {
        match stok_err(toks[0], width_seen) {
            Some(e) => Some(e),
            None => scan_tokens(toks.drop_first(), width_seen || ctok_width(toks[0]) is Some),
        }
    }
}

/// The validation the container attribute runs through, and the diagnostic
/// it stops at.
pub open spec fn struct_attr_check(toks: Seq<ContainerToken>) -> Option<BitsError> {
    scan_tokens(toks, false)
}

/// The backing width of the leftmost width token.
pub open spec fn first_width(toks: Seq<ContainerToken>) -> Width
    decreases toks.len(),
{
    if toks.len() == 0 {
        Width::U8
    } else {
        match ctok_width(toks[0]) {
            Some(w) => w,
            None => first_width(toks.drop_first()),
        }
    }
}

/// Whether a position holds a width token.
pub open spec fn has_width(toks: Seq<ContainerToken>) -> bool {
    exists|i: int| 0 <= i < toks.len() && ctok_width(toks[i]) is Some
}

/// The visibility an export token grants, if it is a well-formed one.
pub open spec fn ctok_export_vis(t: ContainerToken) -> Option<Vis> {
    match t {
        ContainerToken::Ident(s) => if s@ == "export"@ && spec_width_of(s@) is None {
            Some(Vis::Public)
        } else {
            None
        },
        ContainerToken::WithArgs(s, args) => if s@ == "export"@ && args@.len() == 1 {
            match args@[0] {
                ExportArg::Path(p) => Some(Vis::Scoped(p)),
                ExportArg::NotPath => None,
            }
        } else {
            None
        },
    }
}

/// The export policy in force: the rightmost well-formed export token's
/// visibility, or inherited visibility when none is present.
pub open spec fn effective_export(toks: Seq<ContainerToken>) -> Vis
    decreases toks.len(),
{
    if toks.len() == 0 {
        Vis::Inherited
    } else {
        match ctok_export_vis(toks.last()) {
            Some(v) => v,
            None => effective_export(toks.drop_last()),
        }
    }
}

/// If the tokens before `i` hold no width and the one at `i` does, that
/// width is the leftmost one.
pub proof fn lemma_first_width_at(toks: Seq<ContainerToken>, i: int)
    requires
        0 <= i < toks.len(),
        ctok_width(toks[i]) is Some,
        forall|j: int| 0 <= j < i ==> ctok_width(toks[j]) is None,
    ensures
        Some(first_width(toks)) == ctok_width(toks[i]),
    decreases i,
{
    if i == 0 {
    } else {
        assert(toks.drop_first()[i - 1] == toks[i]);
        assert(forall|j: int| 0 <= j < i - 1 ==> toks.drop_first()[j] == toks[j + 1]);
        lemma_first_width_at(toks.drop_first(), i - 1);
    }
}

/// What the scan knows about width tokens when it accepts the rest of the
/// list: after a width was seen none follows, before one was seen exactly one
/// is still to come, and no two positions both hold one.
proof fn lemma_scan_widths(toks: Seq<ContainerToken>, ws: bool)
    requires
        scan_tokens(toks, ws) is None,
    ensures
        ws ==> forall|k: int| 0 <= k < toks.len() ==> ctok_width(toks[k]) is None,
        !ws ==> exists|k: int| 0 <= k < toks.len() && ctok_width(toks[k]) is Some,
        forall|i: int, j: int|
            0 <= i < j < toks.len() && ctok_width(toks[i]) is Some ==> ctok_width(toks[j]) is None,
    decreases toks.len(),
{
    if toks.len() > 0 {
        let rest = toks.drop_first();
        let ws2 = ws || ctok_width(toks[0]) is Some;
        lemma_scan_widths(rest, ws2);
        assert(forall|k: int| 0 <= k < rest.len() ==> rest[k] == toks[k + 1]);
        if ws {
            assert forall|k: int| 0 <= k < toks.len() implies ctok_width(toks[k]) is None by {
                if k == 0 {
                    assert(stok_err(toks[0], true) is None);
                } else {
                    assert(toks[k] == rest[k - 1]);
                }
            }
        }
        if !ws {
            if ctok_width(toks[0]) is Some {
                assert(ctok_width(toks[0]) is Some);
            } else {
                let w = choose|k: int| 0 <= k < rest.len() && ctok_width(rest[k]) is Some;
                assert(ctok_width(toks[w + 1]) is Some);
            }
        }
        assert forall|i: int, j: int|
            0 <= i < j < toks.len() && ctok_width(toks[i]) is Some implies ctok_width(
            toks[j],
        ) is None by {
            if i == 0 {
                assert(ws2);
                assert(toks[j] == rest[j - 1]);
            } else {
                assert(toks[i] == rest[i - 1] && toks[j] == rest[j - 1]);
            }
        }
    }
}

/// A valid container attribute holds a width token, no second one, and the
/// width the parse recognizes is that token's width.
///
/// Law: for all valid container attributes, exactly one backing width is
/// recognized and it matches the requested width.
pub proof fn lemma_one_width_token(toks: Seq<ContainerToken>)
    requires
        struct_attr_check(toks) is None,
    ensures
        has_width(toks),
        forall|i: int, j: int|
            0 <= i < j < toks.len() && ctok_width(toks[i]) is Some ==> ctok_width(toks[j]) is None,
        forall|i: int|
            0 <= i < toks.len() && ctok_width(toks[i]) is Some ==> ctok_width(toks[i]) == Some(
                first_width(toks),
            ),
{
    lemma_scan_widths(toks, false);
    assert forall|i: int|
        0 <= i < toks.len() && ctok_width(toks[i]) is Some implies ctok_width(toks[i]) == Some(
        first_width(toks),
    ) by {
        assert forall|j: int| 0 <= j < i implies ctok_width(toks[j]) is None by {
            if ctok_width(toks[j]) is Some {
                assert(ctok_width(toks[i]) is None);
            }
        }
        lemma_first_width_at(toks, i);
    }
}

/// Two width tokens always reject the attribute.
///
/// Law: supplying two width tokens always errors.
pub proof fn lemma_duplicate_width_rejected(toks: Seq<ContainerToken>, i: int, j: int)
    requires
        0 <= i < j < toks.len(),
        ctok_width(toks[i]) is Some,
        ctok_width(toks[j]) is Some,
    ensures
        struct_attr_check(toks) is Some,
{
    if struct_attr_check(toks) is None {
        lemma_scan_widths(toks, false);
    }
}

/// Once a width was seen, the scan stops at the next width token with the
/// duplication diagnostic, provided everything before it is accepted.
proof fn lemma_scan_seen_width(toks: Seq<ContainerToken>, j: int)
    requires
        0 <= j < toks.len(),
        ctok_width(toks[j]) is Some,
        forall|k: int|
            0 <= k < j ==> ctok_width(toks[k]) is None && stok_err(toks[k], false) is None,
    ensures
        scan_tokens(toks, true) == Some(BitsError::DuplicatedContainerType),
    decreases j,
{
    if j == 0 {
    } else {
        assert(stok_err(toks[0], true) == stok_err(toks[0], false));
        assert(forall|k: int| 0 <= k < j - 1 ==> toks.drop_first()[k] == toks[k + 1]);
        assert(toks.drop_first()[j - 1] == toks[j]);
        lemma_scan_seen_width(toks.drop_first(), j - 1);
    }
}

/// Two width tokens in an otherwise accepted prefix always reject the
/// attribute with the duplication diagnostic.
///
/// Law: supplying two width tokens errors with a duplication diagnostic.
pub proof fn lemma_duplicate_width_diagnostic(toks: Seq<ContainerToken>, i: int, j: int)
    requires
        0 <= i < j < toks.len(),
        ctok_width(toks[i]) is Some,
        ctok_width(toks[j]) is Some,
        forall|k: int|
            0 <= k < j && k != i ==> ctok_width(toks[k]) is None && stok_err(toks[k], false)
                is None,
    ensures
        struct_attr_check(toks) == Some(BitsError::DuplicatedContainerType),
    decreases i,
{
    let rest = toks.drop_first();
    assert(forall|k: int| 0 <= k < rest.len() ==> rest[k] == toks[k + 1]);
    if i == 0 {
        lemma_scan_seen_width(rest, j - 1);
    } else {
        lemma_duplicate_width_diagnostic(rest, i - 1, j - 1);
    }
}

impl BitStructAttr {
    /// Parses the container attribute: exactly one backing-width token, an
    /// optional `export` marker (bare, or carrying exactly one scope path),
    /// and nothing else.
    pub fn parse(tokens: &Vec<ContainerToken>) -> (r: Result<BitStructAttr, BitsError>)
        ensures
            match r {
                Ok(a) => struct_attr_check(tokens@) is None && a.base_ty == first_width(tokens@)
                    && a.export == effective_export(tokens@),
                Err(e) => struct_attr_check(tokens@) == Some(e),
            },
    {
        let n = tokens.len();
        let mut i: usize = 0;
        let mut width: Option<Width> = None;
        let mut export: Vis = Vis::Inherited;
        proof {
            assert(tokens@.skip(0) =~= tokens@);
        }
        while i < n
            invariant
                0 <= i <= n,
                n == tokens@.len(),
                struct_attr_check(tokens@) == scan_tokens(
                    tokens@.skip(i as int),
                    width is Some,
                ),
                match width {
                    Some(w) => w == first_width(tokens@),
                    None => forall|j: int| 0 <= j < i ==> ctok_width(tokens@[j]) is None,
                },
                export == effective_export(tokens@.take(i as int)),
            decreases n - i,
        {
            let ghost prefix = tokens@.take(i as int);
            let ghost prefix1 = tokens@.take(i + 1 as int);
            let ghost suffix = tokens@.skip(i as int);
            proof {
                assert("u8"@.len() == 2 && "u16"@.len() == 3 && "u32"@.len() == 3 && "u64"@.len()
                    == 3 && "u128"@.len() == 4 && "export"@.len() == 6) by {
                    reveal_strlit("u8");
                    reveal_strlit("u16");
                    reveal_strlit("u32");
                    reveal_strlit("u64");
                    reveal_strlit("u128");
                    reveal_strlit("export");
                }
                assert(prefix1 =~= prefix.push(tokens@[i as int]));
                assert(prefix1.last() == tokens@[i as int]);
                assert(prefix1.drop_last() =~= prefix);
                assert(suffix[0] == tokens@[i as int]);
                assert(suffix.drop_first() =~= tokens@.skip(i + 1 as int));
            }
            let seen = match width {
                Some(_) => true,
                None => false,
            };
            match &tokens[i] {
                ContainerToken::Ident(s) => {
                    match crate::parse::tokens::width_of(s) {
                        Some(w) => {
                            if seen {
                                return Err(BitsError::DuplicatedContainerType);
                            }
                            proof {
                                lemma_first_width_at(tokens@, i as int);
                            }
                            width = Some(w);
                        },
                        None => {
                            if crate::parse::tokens::str_eq(s, "export") {
                                export = Vis::Public;
                            } else {
                                return Err(BitsError::UnknownContainerAttr);
                            }
                        },
                    }
                },
                ContainerToken::WithArgs(s, args) => {
                    if crate::parse::tokens::str_eq(s, "export") {
                        if args.len() != 1 {
                            return Err(BitsError::TooManyExportArgs);
                        }
                        match &args[0] {
                            ExportArg::Path(p) => {
                                export = Vis::Scoped(p.clone());
                            },
                            ExportArg::NotPath => {
                                return Err(BitsError::ExportArgNotPath);
                            },
                        }
                    } else {
                        return Err(BitsError::UnknownContainerAttr);
                    }
                },
            }
            i = i + 1;
        }
        proof {
            assert(tokens@.take(n as int) =~= tokens@);
            assert(tokens@.skip(n as int) =~= Seq::<ContainerToken>::empty());
        }
        match width {
            Some(w) => Ok(BitStructAttr { base_ty: w, export }),
            None => Err(BitsError::MissingContainerType),
        }
    }
}

} // verus!
