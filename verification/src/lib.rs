//! Compile-time generator of accessor code for fixed-width bit-packed
//! structures.
//!
//! A container attribute names a backing integer width and an export policy;
//! each field of a struct-like item carries a `field(...)` attribute naming a
//! permission, an optional fallible-conversion marker, and one bit range. The
//! parsers validate both descriptions, a model builder merges them, and the
//! emitter renders one wrapper type, one marker type per field, and the
//! accessor implementations that each field's permission selects.
//!
//! Two container-attribute forms exist; the pipeline uses the structured
//! export form (`export` bare, or `export::<scope>`), and the flag form with
//! its `allow_overlap` extension point is kept alongside it.

use vstd::prelude::*;

pub mod emit;
pub mod error;
pub mod parse;

use crate::emit::{container_text, field_text, fields_text_upto, info_text, render};
use crate::error::BitsError;
use crate::parse::bits_attr::{effective_export, first_width, struct_attr_check, BitStructAttr};
use crate::parse::field_info::{
    field_attr_spec, field_info_matches, first_field_tokens, BitFieldAttr, BitFieldPerm,
    BitStructFieldInfo,
};
use crate::parse::tokens::{doc_strings, BitRange, ContainerToken, RawField, RawItem};
use crate::parse::{item_check, BitStruct, BitStructItem};

verus! {

/// The attribute triple a raw field validates to, read off the raw field
/// alone; meaningful only where its validation passes.
pub open spec fn raw_field_attr(f: RawField) -> BitFieldAttr {
    match field_attr_spec(first_field_tokens(f.attrs@)) {
        Ok(a) => a,
        Err(_) => BitFieldAttr {
            need_try: false,
            perm: BitFieldPerm::R,
            expr_range: BitRange { start: 0, end: 0, closed: false },
        },
    }
}

/// The name a raw field declares; meaningful only where one is present.
pub open spec fn raw_field_name(f: RawField) -> Seq<char> {
    match f.name {
        Some(n) => n@,
        None => Seq::empty(),
    }
}

/// The text emitted for one raw field, read off the raw field alone.
pub open spec fn raw_field_text(cname: Seq<char>, f: RawField) -> Seq<char> {
    field_text(
        cname,
        doc_strings(f.attrs@),
        f.vis,
        raw_field_name(f),
        f.target_ty@,
        raw_field_attr(f),
    )
}

/// The concatenated texts of the raw fields up to `k`, in declaration order.
pub open spec fn raw_fields_text_upto(cname: Seq<char>, fields: Seq<RawField>, k: int) -> Seq<char>
    decreases k,
{
    if k <= 0 || k > fields.len() {
        Seq::empty()
    } else {
        raw_fields_text_upto(cname, fields, k - 1) + raw_field_text(cname, fields[k - 1])
    }
}

/// The full output of one transformation, read off the two inputs alone;
/// meaningful only where both validations pass.
pub open spec fn render_raw(attr: Seq<ContainerToken>, it: RawItem) -> Seq<char> {
    container_text(doc_strings(it.attrs@), it.vis, it.name@, effective_export(attr), first_width(
        attr,
    )) + raw_fields_text_upto(it.name@, it.fields@, it.fields@.len() as int)
}

/// What the whole transformation returns for the two input token streams:
/// the first diagnostic of the container attribute, else the first diagnostic
/// of the item, else the rendered output text.
pub open spec fn bits_spec(attr: Seq<ContainerToken>, it: RawItem) -> Result<Seq<char>, BitsError> {
    match struct_attr_check(attr) {
        Some(e) => Err(e),
        None => match item_check(it) {
            Some(e) => Err(e),
            None => Ok(render_raw(attr, it)),
        },
    }
}

/// A field that validates renders the same text whether read off the raw
/// field or off its validated descriptor.
proof fn lemma_field_text_matches(cname: Seq<char>, f: RawField, info: BitStructFieldInfo)
    requires
        field_info_matches(f, info),
    ensures
        info_text(cname, info) == raw_field_text(cname, f),
{
}

/// Fields that validate pointwise render the same concatenated text whether
/// read off the raw fields or off their validated descriptors.
proof fn lemma_fields_text_matches(
    cname: Seq<char>,
    raws: Seq<RawField>,
    infos: Seq<BitStructFieldInfo>,
    k: int,
)
    requires
        k <= raws.len(),
        infos.len() == raws.len(),
        forall|i: int| 0 <= i < raws.len() ==> field_info_matches(raws[i], #[trigger] infos[i]),
    ensures
        fields_text_upto(cname, infos, k) == raw_fields_text_upto(cname, raws, k),
    decreases k,
{
    if k > 0 {
        lemma_fields_text_matches(cname, raws, infos, k - 1);
        lemma_field_text_matches(cname, raws[k - 1], infos[k - 1]);
    }
}

/// The transformation is a pure function of its two token streams: equal
/// inputs produce identical output, diagnostics included.
///
/// Law: re-running the transformation on the same token stream produces
/// byte-identical output.
pub proof fn lemma_bits_deterministic(
    attr1: Seq<ContainerToken>,
    item1: RawItem,
    attr2: Seq<ContainerToken>,
    item2: RawItem,
)
    requires
        attr1 == attr2,
        item1 == item2,
    ensures
        bits_spec(attr1, item1) == bits_spec(attr2, item2),
{
}

/// The whole transformation: validate the container attribute, validate the
/// item, merge, and render. The first diagnostic raised anywhere replaces the
/// output entirely.
pub fn bits(attr: &Vec<ContainerToken>, item: RawItem) -> (r: Result<String, BitsError>)
    ensures
        match r {
            Ok(s) => bits_spec(attr@, item) == Ok::<Seq<char>, BitsError>(s@),
            Err(e) => bits_spec(attr@, item) == Err::<Seq<char>, BitsError>(e),
        },
{
    let c_info = match BitStructAttr::parse(attr) {
        Ok(a) => a,
        Err(e) => {
            return Err(e);
        },
    };
    let b_info = match BitStructItem::parse(item) {
        Ok(it) => it,
        Err(e) => {
            return Err(e);
        },
    };
    let bit_field = BitStruct::new(c_info, b_info);
    proof {
        lemma_fields_text_matches(
            bit_field.item.name@,
            item.fields@,
            bit_field.item.fields@,
            item.fields@.len() as int,
        );
        assert(render(bit_field) == render_raw(attr@, item));
    }
    let mut out = String::new();
    bit_field.to_tokens(&mut out);
    Ok(out)
}

} // verus!
