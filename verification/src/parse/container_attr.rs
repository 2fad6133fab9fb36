//! Validation of the container attribute in its flag form: a backing width,
//! an optional bare `export` flag, and an optional `allow_overlap` flag. The
//! overlap flag is parsed as an extension point; no overlap computation is
//! performed.

use vstd::prelude::*;

use crate::error::BitsError;
use crate::parse::bits_attr::{ctok_width, first_width};
use crate::parse::tokens::{spec_width_of, ContainerToken, Width};

verus! {

/// The validated container attribute: the backing width and the two flags.
#[derive(Clone, Copy, Debug, PartialEq, Eq, Structural)]
pub struct BitContainerAttr {
    pub base_ty: Width,
    pub allow_overlap: bool,
    pub export: bool,
}

/// Whether a token is the bare `allow_overlap` flag.
pub open spec fn ctok_is_overlap(t: ContainerToken) -> bool {
    match t {
        ContainerToken::Ident(s) => s@ == "allow_overlap"@,
        ContainerToken::WithArgs(_, _) => false,
    }
}

/// Whether a token is the bare `export` flag.
pub open spec fn ctok_is_export_flag(t: ContainerToken) -> bool {
    match t {
        ContainerToken::Ident(s) => s@ == "export"@,
        ContainerToken::WithArgs(_, _) => false,
    }
}

/// The diagnostic one token raises while scanning, given whether a width
/// token was already seen. Only bare identifiers are accepted in this form.
pub open spec fn ctok_err(t: ContainerToken, width_seen: bool) -> Option<BitsError> {
    match t {
        ContainerToken::Ident(s) => if spec_width_of(s@) is Some {
            if width_seen {
                Some(BitsError::DuplicatedContainerType)
            } else {
                None
            }
        } else if s@ == "allow_overlap"@ || s@ == "export"@ {
            None
        } else {
            Some(BitsError::UnknownContainerAttr)
        },
        ContainerToken::WithArgs(_, _) => Some(BitsError::UnknownContainerAttr),
    }
}

/// The left-to-right scan of the remaining tokens: the first diagnostic
/// raised, or, when none is and no width token was seen, the missing-width
/// diagnostic.
pub open spec fn scan_flag_tokens(toks: Seq<ContainerToken>, width_seen: bool) -> Option<
    BitsError,
>
    decreases toks.len(),
{
    if toks.len() == 0 {
        if width_seen {
            None
        } else {
            Some(BitsError::MissingContainerType)
        }
    } else {
        match ctok_err(toks[0], width_seen) {
            Some(e) => Some(e),
            None => scan_flag_tokens(toks.drop_first(), width_seen || ctok_width(toks[0]) is Some),
        }
    }
}

/// The validation this attribute form runs through, and the diagnostic it
/// stops at.
pub open spec fn container_attr_check(toks: Seq<ContainerToken>) -> Option<BitsError> {
    scan_flag_tokens(toks, false)
}

pub open spec fn has_overlap_flag(toks: Seq<ContainerToken>) -> bool {
    exists|i: int| 0 <= i < toks.len() && ctok_is_overlap(toks[i])
}

pub open spec fn has_export_flag(toks: Seq<ContainerToken>) -> bool {
    exists|i: int| 0 <= i < toks.len() && ctok_is_export_flag(toks[i])
}

/// What the flag-form scan knows about width tokens when it accepts the
/// rest of the list: after a width was seen none follows, before one was
/// seen one is still to come, and no two positions both hold one.
proof fn lemma_flag_scan_widths(toks: Seq<ContainerToken>, ws: bool)
    requires
        scan_flag_tokens(toks, ws) is None,
    ensures
        ws ==> forall|k: int| 0 <= k < toks.len() ==> ctok_width(toks[k]) is None,
        !ws ==> exists|k: int| 0 <= k < toks.len() && ctok_width(toks[k]) is Some,
        forall|i: int, j: int|
            0 <= i < j < toks.len() && ctok_width(toks[i]) is Some ==> ctok_width(toks[j]) is None,
    decreases toks.len(),
{
    if toks.len() > 0 {
        let rest = toks.drop_first();
        let ws2 = ws || ctok_width(toks[0]) is Some;
        lemma_flag_scan_widths(rest, ws2);
        assert(forall|k: int| 0 <= k < rest.len() ==> rest[k] == toks[k + 1]);
        if ws {
            assert forall|k: int| 0 <= k < toks.len() implies ctok_width(toks[k]) is None by {
                if k == 0 {
                    assert(ctok_err(toks[0], true) is None);
                } else {
                    assert(toks[k] == rest[k - 1]);
                }
            }
        }
        if !ws {
            if ctok_width(toks[0]) is Some {
                assert(ctok_width(toks[0]) is Some);
            } else {
                let w = choose|k: int| 0 <= k < rest.len() && ctok_width(rest[k]) is Some;
                assert(ctok_width(toks[w + 1]) is Some);
            }
        }
        assert forall|i: int, j: int|
            0 <= i < j < toks.len() && ctok_width(toks[i]) is Some implies ctok_width(
            toks[j],
        ) is None by {
            if i == 0 {
                assert(ws2);
                assert(toks[j] == rest[j - 1]);
            } else {
                assert(toks[i] == rest[i - 1] && toks[j] == rest[j - 1]);
            }
        }
    }
}

/// A valid flag-form attribute holds a width token, no second one, and the
/// width the parse recognizes is that token's width.
///
/// Law: for all valid container attributes, exactly one backing width is
/// recognized and it matches the requested width.
pub proof fn lemma_flag_one_width_token(toks: Seq<ContainerToken>)
    requires
        container_attr_check(toks) is None,
    ensures
        crate::parse::bits_attr::has_width(toks),
        forall|i: int, j: int|
            0 <= i < j < toks.len() && ctok_width(toks[i]) is Some ==> ctok_width(toks[j]) is None,
        forall|i: int|
            0 <= i < toks.len() && ctok_width(toks[i]) is Some ==> ctok_width(toks[i]) == Some(
                first_width(toks),
            ),
{
    lemma_flag_scan_widths(toks, false);
    assert forall|i: int|
        0 <= i < toks.len() && ctok_width(toks[i]) is Some implies ctok_width(toks[i]) == Some(
        first_width(toks),
    ) by {
        assert forall|j: int| 0 <= j < i implies ctok_width(toks[j]) is None by {
            if ctok_width(toks[j]) is Some {
                assert(ctok_width(toks[i]) is None);
            }
        }
        crate::parse::bits_attr::lemma_first_width_at(toks, i);
    }
}

/// Two width tokens always reject the flag-form attribute.
///
/// Law: supplying two width tokens always errors.
pub proof fn lemma_flag_duplicate_width_rejected(toks: Seq<ContainerToken>, i: int, j: int)
    requires
        0 <= i < j < toks.len(),
        ctok_width(toks[i]) is Some,
        ctok_width(toks[j]) is Some,
    ensures
        container_attr_check(toks) is Some,
{
    if container_attr_check(toks) is None {
        lemma_flag_scan_widths(toks, false);
    }
}

impl BitContainerAttr {
    /// Parses the flag form of the container attribute: exactly one
    /// backing-width token, optional bare `allow_overlap` and `export` flags,
    /// and nothing else.
    pub fn parse(tokens: &Vec<ContainerToken>) -> (r: Result<BitContainerAttr, BitsError>)
        ensures
            match r {
                Ok(a) => container_attr_check(tokens@) is None && a.base_ty == first_width(tokens@)
                    && a.allow_overlap == has_overlap_flag(tokens@) && a.export == has_export_flag(
                    tokens@,
                ),
                Err(e) => container_attr_check(tokens@) == Some(e),
            },
    {
        let n = tokens.len();
        let mut i: usize = 0;
        let mut width: Option<Width> = None;
        let mut allow_overlap: bool = false;
        let mut export: bool = false;
        proof {
            assert(tokens@.skip(0) =~= tokens@);
        }
        while i < n
            invariant
                0 <= i <= n,
                n == tokens@.len(),
                container_attr_check(tokens@) == scan_flag_tokens(
                    tokens@.skip(i as int),
                    width is Some,
                ),
                match width {
                    Some(w) => w == first_width(tokens@),
                    None => forall|j: int| 0 <= j < i ==> ctok_width(tokens@[j]) is None,
                },
                allow_overlap == has_overlap_flag(tokens@.take(i as int)),
                export == has_export_flag(tokens@.take(i as int)),
            decreases n - i,
        {
            let ghost prefix = tokens@.take(i as int);
            let ghost prefix1 = tokens@.take(i + 1 as int);
            let ghost suffix = tokens@.skip(i as int);
            let ghost t = tokens@[i as int];
            proof {
                assert("u8"@.len() == 2 && "u16"@.len() == 3 && "u32"@.len() == 3 && "u64"@.len()
                    == 3 && "u128"@.len() == 4 && "export"@.len() == 6 && "allow_overlap"@.len()
                    == 13) by {
                    reveal_strlit("u8");
                    reveal_strlit("u16");
                    reveal_strlit("u32");
                    reveal_strlit("u64");
                    reveal_strlit("u128");
                    reveal_strlit("export");
                    reveal_strlit("allow_overlap");
                }
                assert(prefix1 =~= prefix.push(t));
                assert(prefix1.last() == t);
                assert(prefix1.drop_last() =~= prefix);
                assert(suffix[0] == t);
                assert(suffix.drop_first() =~= tokens@.skip(i + 1 as int));
                if has_overlap_flag(prefix) {
                    let w = choose|k: int| 0 <= k < prefix.len() && ctok_is_overlap(prefix[k]);
                    assert(ctok_is_overlap(prefix1[w]));
                } else if !ctok_is_overlap(t) {
                    assert forall|k: int| 0 <= k < prefix1.len() implies !ctok_is_overlap(
                        prefix1[k],
                    ) by {
                        if k < prefix.len() {
                            assert(prefix1[k] == prefix[k]);
                        } else {
                            assert(prefix1[k] == t);
                        }
                    }
                }
                if has_export_flag(prefix) {
                    let w = choose|k: int| 0 <= k < prefix.len() && ctok_is_export_flag(prefix[k]);
                    assert(ctok_is_export_flag(prefix1[w]));
                } else if !ctok_is_export_flag(t) {
                    assert forall|k: int| 0 <= k < prefix1.len() implies !ctok_is_export_flag(
                        prefix1[k],
                    ) by {
                        if k < prefix.len() {
                            assert(prefix1[k] == prefix[k]);
                        } else {
                            assert(prefix1[k] == t);
                        }
                    }
                }
            }
            let seen = match width {
                Some(_) => true,
                None => false,
            };
            match &tokens[i] {
                ContainerToken::Ident(s) => {
                    match crate::parse::tokens::width_of(s) {
                        Some(w) => {
                            if seen {
                                return Err(BitsError::DuplicatedContainerType);
                            }
                            proof {
                                crate::parse::bits_attr::lemma_first_width_at(tokens@, i as int);
                            }
                            width = Some(w);
                        },
                        None => {
                            if crate::parse::tokens::str_eq(s, "allow_overlap") {
                                allow_overlap = true;
                                proof {
                                    assert(ctok_is_overlap(prefix1.last()));
                                }
                            } else if crate::parse::tokens::str_eq(s, "export") {
                                export = true;
                                proof {
                                    assert(ctok_is_export_flag(prefix1.last()));
                                }
                            } else {
                                return Err(BitsError::UnknownContainerAttr);
                            }
                        },
                    }
                },
                ContainerToken::WithArgs(_, _) => {
                    return Err(BitsError::UnknownContainerAttr);
                },
            }
            i = i + 1;
        }
        proof {
            assert(tokens@.take(n as int) =~= tokens@);
            assert(tokens@.skip(n as int) =~= Seq::<ContainerToken>::empty());
        }
        match width {
            Some(w) => Ok(BitContainerAttr { base_ty: w, allow_overlap, export }),
            None => Err(BitsError::MissingContainerType),
        }
    }
}

} // verus!
