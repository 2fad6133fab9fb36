//! Parsing and validation of the struct-like item a transformation receives,
//! and the model that merges it with the parsed container attribute.

use vstd::prelude::*;

pub mod bits_attr;
pub mod container_attr;
pub mod field_info;
pub mod tokens;

use crate::error::BitsError;
use crate::parse::bits_attr::BitStructAttr;
use crate::parse::field_info::{field_info_check, field_info_matches, BitStructFieldInfo};
use crate::parse::tokens::{collect_docs, doc_strings, ItemKind, RawField, RawItem, Vis};

verus! {

/// The validated struct-like item: its visibility, name, documentation, and
/// the validated fields in declaration order.
#[derive(Clone, Debug, PartialEq, Eq)]
pub struct BitStructItem {
    pub vis: Vis,
    pub name: String,
    pub fields: Vec<BitStructFieldInfo>,
    pub doc: Vec<String>,
}

/// The diagnostic of the leftmost field that fails validation.
pub open spec fn first_field_err(fields: Seq<RawField>) -> Option<BitsError>
    decreases fields.len(),
{
    if fields.len() == 0 {
        None
    } else {
        match field_info_check(fields[0]) {
            Some(e) => Some(e),
            None => first_field_err(fields.drop_first()),
        }
    }
}

/// If the fields before `i` validate and the one at `i` does not, its
/// diagnostic is the one the collection stops at.
proof fn lemma_first_field_err_at(fields: Seq<RawField>, i: int)
    requires
        0 <= i < fields.len(),
        field_info_check(fields[i]) is Some,
        forall|j: int| 0 <= j < i ==> field_info_check(fields[j]) is None,
    ensures
        first_field_err(fields) == field_info_check(fields[i]),
    decreases i,
{
    if i == 0 {
    } else {
        assert(fields.drop_first()[i - 1] == fields[i]);
        assert(forall|j: int| 0 <= j < i - 1 ==> fields.drop_first()[j] == fields[j + 1]);
        lemma_first_field_err_at(fields.drop_first(), i - 1);
    }
}

/// If every field validates, the collection raises no diagnostic.
proof fn lemma_first_field_err_none(fields: Seq<RawField>)
    requires
        forall|j: int| 0 <= j < fields.len() ==> field_info_check(fields[j]) is None,
    ensures
        first_field_err(fields) is None,
    decreases fields.len(),
{
    if fields.len() == 0 {
    } else {
        assert(forall|j: int|
            0 <= j < fields.len() - 1 ==> fields.drop_first()[j] == fields[j + 1]);
        lemma_first_field_err_none(fields.drop_first());
    }
}

/// The validation an item runs through, and the diagnostic it stops at:
/// generic parameters, a non-struct item, an empty field list, or the first
/// field that fails validation.
pub open spec fn item_check(it: RawItem) -> Option<BitsError> {
    if it.has_generics {
        Some(BitsError::GenericNotAllowed)
    } else if !(it.kind is Struct) {
        Some(BitsError::OnlyStructAllowed)
    } else if it.fields@.len() == 0 {
        Some(BitsError::EmptyFields)
    } else {
        first_field_err(it.fields@)
    }
}

/// How a validated item relates to the raw item: validation passed, name,
/// visibility and documentation are carried over, and each field validates to
/// the descriptor at the same position.
pub open spec fn item_matches(it: RawItem, item: BitStructItem) -> bool {
    &&& item_check(it) is None
    &&& item.name == it.name
    &&& item.vis == it.vis
    &&& item.doc@ == doc_strings(it.attrs@)
    &&& item.fields@.len() == it.fields@.len()
    &&& forall|i: int|
        0 <= i < it.fields@.len() ==> field_info_matches(it.fields@[i], #[trigger] item.fields@[i])
}

impl BitStructItem {
    /// Validates the struct-like item: no generic parameters, a struct with
    /// at least one field, and every field valid; declaration order is
    /// preserved and the item's documentation is carried over.
    pub fn parse(item: RawItem) -> (r: Result<BitStructItem, BitsError>)
        ensures
            match r {
                Ok(bi) => item_matches(item, bi),
                Err(e) => item_check(item) == Some(e),
            },
    {
        let RawItem { kind, has_generics, vis, name, attrs, fields } = item;
        if has_generics {
            return Err(BitsError::GenericNotAllowed);
        }
        match kind {
            ItemKind::Struct => {},
            _ => {
                return Err(BitsError::OnlyStructAllowed);
            },
        }
        if fields.len() == 0 {
            return Err(BitsError::EmptyFields);
        }
        let doc = collect_docs(&attrs);
        let total = fields.len();
        let mut fields = fields;
        let mut infos: Vec<BitStructFieldInfo> = Vec::new();
        let mut k: usize = 0;
        while k < total
            invariant
                0 <= k <= total,
                total == item.fields@.len(),
                !item.has_generics,
                item.kind is Struct,
                total > 0,
                fields@ =~= item.fields@.skip(k as int),
                infos@.len() == k,
                forall|j: int|
                    0 <= j < k ==> field_info_matches(item.fields@[j], #[trigger] infos@[j]),
            decreases total - k,
        {
            let f = fields.remove(0);
            proof {
                assert(f == item.fields@[k as int]);
                assert(fields@ =~= item.fields@.skip(k + 1 as int));
            }
            match BitStructFieldInfo::try_from(f) {
                Ok(info) => {
                    infos.push(info);
                },
                Err(e) => {
                    proof {
                        assert forall|j: int| 0 <= j < k implies field_info_check(
                            item.fields@[j],
                        ) is None by {
                            assert(field_info_matches(item.fields@[j], infos@[j]));
                        }
                        lemma_first_field_err_at(item.fields@, k as int);
                    }
                    return Err(e);
                },
            }
            k = k + 1;
        }
        proof {
            assert forall|j: int| 0 <= j < item.fields@.len() implies field_info_check(
                item.fields@[j],
            ) is None by {
                assert(field_info_matches(item.fields@[j], infos@[j]));
            }
            lemma_first_field_err_none(item.fields@);
        }
        Ok(BitStructItem { vis, name, fields: infos, doc })
    }
}

/// The full in-memory model of one transformation: the validated item merged
/// with the validated container attribute. Built once, consumed by the
/// emitter.
#[derive(Clone, Debug, PartialEq, Eq)]
pub struct BitStruct {
    pub item: BitStructItem,
    pub attr: BitStructAttr,
}

impl BitStruct {
    /// Pure merge of the two validated halves; cannot fail.
    pub fn new(attr: BitStructAttr, item: BitStructItem) -> (r: BitStruct)
        ensures
            r.attr == attr,
            r.item == item,
    {
        BitStruct { attr, item }
    }
}

} // verus!
