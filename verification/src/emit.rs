//! Deterministic rendering of a validated model into accessor source text:
//! one wrapper type over the backing integer, one marker type per field, and
//! the accessor implementations each field's permission and fallibility
//! select. Emission covers every field, in declaration order.

use vstd::prelude::*;
use vstd::string::StringExecFns;

use crate::parse::field_info::{BitFieldAttr, BitFieldPerm, BitStructFieldInfo};
use crate::parse::tokens::{width_text, BitRange, Vis, Width};
use crate::parse::BitStruct;

verus! {

/// Whether an infallible read accessor is emitted for a field.
pub open spec fn emits_plain_read(a: BitFieldAttr) -> bool {
    (a.perm == BitFieldPerm::R || a.perm == BitFieldPerm::RW) && !a.need_try
}

/// Whether a write accessor is emitted for a field.
pub open spec fn emits_write(a: BitFieldAttr) -> bool {
    a.perm == BitFieldPerm::W || a.perm == BitFieldPerm::RW
}

/// Whether a fallible read accessor is emitted for a field.
pub open spec fn emits_try_read(a: BitFieldAttr) -> bool {
    a.need_try
}

/// The text of a visibility qualifier, trailing space included.
pub open spec fn vis_text(v: Vis) -> Seq<char> {
    match v {
        Vis::Inherited => Seq::empty(),
        Vis::Public => "pub "@,
        Vis::Scoped(p) => "pub(in "@ + p@ + ") "@,
    }
}

/// The text of a list of documentation lines.
pub open spec fn docs_text(docs: Seq<String>) -> Seq<char>
    decreases docs.len(),
{
    if docs.len() == 0 {
        Seq::empty()
    } else {
        docs_text(docs.drop_last()) + "///"@ + docs.last()@ + "\n"@
    }
}

/// The decimal digit character for one digit value.
pub open spec fn digit_char(d: nat) -> char {
    if d == 0 {
        '0'
    } else if d == 1 {
        '1'
    } else if d == 2 {
        '2'
    } else if d == 3 {
        '3'
    } else if d == 4 {
        '4'
    } else if d == 5 {
        '5'
    } else if d == 6 {
        '6'
    } else if d == 7 {
        '7'
    } else if d == 8 {
        '8'
    } else {
        '9'
    }
}

/// The decimal rendering of a number, most significant digit first.
pub open spec fn dec_digits(n: nat) -> Seq<char>
    decreases n,
{
    if n < 10 {
        seq![digit_char(n)]
    } else {
        dec_digits(n / 10) + seq![digit_char(n % 10)]
    }
}

/// The text of a bit-range expression.
pub open spec fn range_text(r: BitRange) -> Seq<char> {
    dec_digits(r.start as nat) + (if r.closed {
        "..="@
    } else {
        ".."@
    }) + dec_digits(r.end as nat)
}

/// The text of the wrapper type and its backing-type association.
pub open spec fn container_text(
    doc: Seq<String>,
    vis: Vis,
    name: Seq<char>,
    export: Vis,
    w: Width,
) -> Seq<char> {
    docs_text(doc) + vis_text(vis) + "struct "@ + name + "("@ + vis_text(export) + width_text(w)
        + ");\nimpl ::bits::Bitalized for "@ + name + " {\n    type BaseType = "@ + width_text(w)
        + ";\n}\n"@
}

/// The text of one field's marker type and its value-type association.
pub open spec fn marker_text(doc: Seq<String>, vis: Vis, fname: Seq<char>, ty: Seq<char>) -> Seq<
    char,
> {
    docs_text(doc) + vis_text(vis) + "struct "@ + fname + ";\nimpl ::bits::Field for "@ + fname
        + " {\n    type CacheType = "@ + ty + ";\n}\n"@
}

/// The text of one field's infallible read accessor.
pub open spec fn read_impl_text(
    cname: Seq<char>,
    fname: Seq<char>,
    ty: Seq<char>,
    r: BitRange,
) -> Seq<char> {
    "impl ::bits::ReadField<"@ + fname + "> for "@ + cname + " {\n    fn read(&self, field: "@
        + fname + ") -> "@ + ty + " {\n        ::bits::Bits(self.0).read("@ + range_text(r)
        + ")\n    }\n}\n"@
}

/// The text of one field's write accessor.
pub open spec fn write_impl_text(
    cname: Seq<char>,
    fname: Seq<char>,
    ty: Seq<char>,
    r: BitRange,
) -> Seq<char> {
    "impl ::bits::WriteField<"@ + fname + "> for "@ + cname + " {\n    fn write(&mut self, field: "@
        + fname + ", v: "@ + ty + ") {\n        ::bits::BitsMut(&mut self.0).write("@ + range_text(
        r,
    ) + ", v.into());\n    }\n}\n"@
}

/// The text of one field's fallible read accessor; its error type is the one
/// the target type's fallible conversion from the backing type produces.
pub open spec fn try_read_impl_text(
    cname: Seq<char>,
    fname: Seq<char>,
    ty: Seq<char>,
    r: BitRange,
) -> Seq<char> {
    "impl ::bits::TryReadField<"@ + fname + "> for "@ + cname + " {\n    type Error = <"@ + ty
        + " as TryFrom<Self::BaseType>>::Error;\n    fn try_read(&self, field: "@ + fname
        + ") -> Result<"@ + ty + ", Self::Error> {\n        ::bits::Bits(self.0).read("@
        + range_text(r) + ").try_into()\n    }\n}\n"@
}

/// The full text emitted for one field: the marker type, then exactly the
/// accessors its permission and fallibility select.
pub open spec fn field_text(
    cname: Seq<char>,
    doc: Seq<String>,
    vis: Vis,
    fname: Seq<char>,
    ty: Seq<char>,
    a: BitFieldAttr,
) -> Seq<char> {
    marker_text(doc, vis, fname, ty) + (if emits_plain_read(a) {
        read_impl_text(cname, fname, ty, a.expr_range)
    } else {
        Seq::empty()
    }) + (if emits_write(a) {
        write_impl_text(cname, fname, ty, a.expr_range)
    } else {
        Seq::empty()
    }) + (if emits_try_read(a) {
        try_read_impl_text(cname, fname, ty, a.expr_range)
    } else {
        Seq::empty()
    })
}

/// The text emitted for one validated field descriptor.
pub open spec fn info_text(cname: Seq<char>, info: BitStructFieldInfo) -> Seq<char> {
    field_text(cname, info.doc@, info.vis, info.name@, info.target_ty@, info.attr)
}

/// The concatenated texts of the fields up to `k`, in declaration order.
pub open spec fn fields_text_upto(
    cname: Seq<char>,
    fields: Seq<BitStructFieldInfo>,
    k: int,
) -> Seq<char>
    decreases k,
{
    if k <= 0 || k > fields.len() {
        Seq::empty()
    } else {
        fields_text_upto(cname, fields, k - 1) + info_text(cname, fields[k - 1])
    }
}

/// The concatenated texts of all fields, in declaration order.
pub open spec fn fields_text(cname: Seq<char>, fields: Seq<BitStructFieldInfo>) -> Seq<char> {
    fields_text_upto(cname, fields, fields.len() as int)
}

/// The full rendering of one model: the container part, then every field's
/// part in declaration order.
pub open spec fn render(b: BitStruct) -> Seq<char> {
    container_text(b.item.doc@, b.item.vis, b.item.name@, b.attr.export, b.attr.base_ty)
        + fields_text(b.item.name@, b.item.fields@)
}

/// A field's permission selects exactly its accessors.
///
/// Law: permission ReadWrite emits both a read and a write accessor; Read
/// emits only a read accessor; Write emits only a write accessor. The
/// fallible marker replaces the plain read (see the fallible-read law).
pub proof fn lemma_perm_selects_accessors(a: BitFieldAttr)
    requires
        !a.need_try,
    ensures
        a.perm == BitFieldPerm::RW ==> emits_plain_read(a) && emits_write(a),
        a.perm == BitFieldPerm::R ==> emits_plain_read(a) && !emits_write(a),
        a.perm == BitFieldPerm::W ==> !emits_plain_read(a) && emits_write(a),
        field_text(Seq::empty(), Seq::empty(), Vis::Inherited, Seq::empty(), Seq::empty(), a)
            == marker_text(Seq::empty(), Vis::Inherited, Seq::empty(), Seq::empty()) + (if
        emits_plain_read(a) {
            read_impl_text(Seq::empty(), Seq::empty(), Seq::empty(), a.expr_range)
        } else {
            Seq::empty()
        }) + (if emits_write(a) {
            write_impl_text(Seq::empty(), Seq::empty(), Seq::empty(), a.expr_range)
        } else {
            Seq::empty()
        }),
{
    assert(field_text(Seq::empty(), Seq::empty(), Vis::Inherited, Seq::empty(), Seq::empty(), a)
        =~= marker_text(Seq::empty(), Vis::Inherited, Seq::empty(), Seq::empty()) + (if
    emits_plain_read(a) {
        read_impl_text(Seq::empty(), Seq::empty(), Seq::empty(), a.expr_range)
    } else {
        Seq::empty()
    }) + (if emits_write(a) {
        write_impl_text(Seq::empty(), Seq::empty(), Seq::empty(), a.expr_range)
    } else {
        Seq::empty()
    }));
}

/// The fallible marker selects the fallible read accessor and suppresses the
/// plain one.
///
/// Law: with the fallible marker set, a fallible read accessor is emitted —
/// whose error type the rendered text derives from the target type's fallible
/// conversion from the backing type — and no infallible read accessor is.
pub proof fn lemma_try_selects_fallible_read(a: BitFieldAttr)
    requires
        a.need_try,
    ensures
        emits_try_read(a),
        !emits_plain_read(a),
{
}

/// The concatenated texts of the fields in positions `a` up to `b`.
pub open spec fn fields_text_between(
    cname: Seq<char>,
    fields: Seq<BitStructFieldInfo>,
    a: int,
    b: int,
) -> Seq<char>
    decreases b - a,
{
    if a < 0 || b > fields.len() || a >= b {
        Seq::empty()
    } else {
        info_text(cname, fields[a]) + fields_text_between(cname, fields, a + 1, b)
    }
}

/// Concatenation over a range of fields splits at any point inside it.
proof fn lemma_between_split(
    cname: Seq<char>,
    fields: Seq<BitStructFieldInfo>,
    a: int,
    b: int,
    c: int,
)
    requires
        0 <= a <= b <= c <= fields.len(),
    ensures
        fields_text_between(cname, fields, a, c) == fields_text_between(cname, fields, a, b)
            + fields_text_between(cname, fields, b, c),
    decreases b - a,
{
    if a == b {
        assert(fields_text_between(cname, fields, a, c) =~= fields_text_between(
            cname,
            fields,
            a,
            b,
        ) + fields_text_between(cname, fields, b, c));
    } else {
        lemma_between_split(cname, fields, a + 1, b, c);
        assert(fields_text_between(cname, fields, a, c) =~= fields_text_between(
            cname,
            fields,
            a,
            b,
        ) + fields_text_between(cname, fields, b, c));
    }
}

/// The prefix form of the concatenation agrees with the range form.
proof fn lemma_upto_is_between(cname: Seq<char>, fields: Seq<BitStructFieldInfo>, k: int)
    requires
        0 <= k <= fields.len(),
    ensures
        fields_text_upto(cname, fields, k) == fields_text_between(cname, fields, 0, k),
    decreases k,
{
    if k > 0 {
        lemma_upto_is_between(cname, fields, k - 1);
        lemma_between_split(cname, fields, 0, k - 1, k);
        assert(fields_text_between(cname, fields, k, k) == Seq::<char>::empty());
        assert(fields_text_between(cname, fields, k - 1, k) =~= info_text(cname, fields[k - 1]));
    }
}

/// Emission preserves declaration order: in the rendered text of the fields,
/// everything emitted for an earlier field stands before everything emitted
/// for a later one.
///
/// Law: for fields declared in some order, the emitted marker types and
/// implementations appear in that order.
pub proof fn lemma_emission_order(
    cname: Seq<char>,
    fields: Seq<BitStructFieldInfo>,
    i: int,
    j: int,
)
    requires
        0 <= i < j < fields.len(),
    ensures
        fields_text(cname, fields) == fields_text_between(cname, fields, 0, i) + (info_text(
            cname,
            fields[i],
        ) + (fields_text_between(cname, fields, i + 1, j) + (info_text(cname, fields[j])
            + fields_text_between(cname, fields, j + 1, fields.len() as int)))),
{
    let n = fields.len() as int;
    lemma_upto_is_between(cname, fields, n);
    lemma_between_split(cname, fields, 0, i, n);
    lemma_between_split(cname, fields, i + 1, j, n);
    assert(fields_text_between(cname, fields, i, n) == info_text(cname, fields[i])
        + fields_text_between(cname, fields, i + 1, n));
    assert(fields_text_between(cname, fields, j, n) == info_text(cname, fields[j])
        + fields_text_between(cname, fields, j + 1, n));
}

/// The source text of a backing width.
pub fn width_str(w: Width) -> (r: &'static str)
    ensures
        r@ == width_text(w),
{
    match w {
        Width::U8 => "u8",
        Width::U16 => "u16",
        Width::U32 => "u32",
        Width::U64 => "u64",
        Width::U128 => "u128",
    }
}

/// Appends a visibility qualifier.
pub fn push_vis(out: &mut String, v: &Vis)
    ensures
        final(out)@ == old(out)@ + vis_text(*v),
{
    match v {
        Vis::Inherited => {
            proof {
                assert(old(out)@ + vis_text(*v) =~= old(out)@);
            }
        },
        Vis::Public => {
            out.append("pub ");
        },
        Vis::Scoped(p) => {
            out.append("pub(in ");
            out.append(p.as_str());
            out.append(") ");
            proof {
                assert(out@ =~= old(out)@ + vis_text(*v));
            }
        },
    }
}

/// Appends documentation lines, in order.
pub fn push_docs(out: &mut String, docs: &Vec<String>)
    ensures
        final(out)@ == old(out)@ + docs_text(docs@),
{
    let mut i: usize = 0;
    while i < docs.len()
        invariant
            0 <= i <= docs@.len(),
            out@ == old(out)@ + docs_text(docs@.take(i as int)),
        decreases docs@.len() - i,
    {
        let ghost prefix = docs@.take(i as int);
        let ghost prefix1 = docs@.take(i + 1 as int);
        proof {
            assert(prefix1.drop_last() =~= prefix);
            assert(prefix1.last() == docs@[i as int]);
        }
        out.append("///");
        out.append(docs[i].as_str());
        out.append("\n");
        proof {
            assert(out@ =~= old(out)@ + docs_text(prefix1));
        }
        i = i + 1;
    }
    proof {
        assert(docs@.take(docs@.len() as int) =~= docs@);
    }
}

/// The decimal character of one digit.
fn digit_str(d: u64) -> (r: &'static str)
    requires
        d < 10,
    ensures
        r@ == seq![digit_char(d as nat)],
{
    if d == 0 {
        proof {
            reveal_strlit("0");
            assert("0"@ =~= seq![digit_char(0)]);
        }
        "0"
    } else if d == 1 {
        proof {
            reveal_strlit("1");
            assert("1"@ =~= seq![digit_char(1)]);
        }
        "1"
    } else if d == 2 {
        proof {
            reveal_strlit("2");
            assert("2"@ =~= seq![digit_char(2)]);
        }
        "2"
    } else if d == 3 {
        proof {
            reveal_strlit("3");
            assert("3"@ =~= seq![digit_char(3)]);
        }
        "3"
    } else if d == 4 {
        proof {
            reveal_strlit("4");
            assert("4"@ =~= seq![digit_char(4)]);
        }
        "4"
    } else if d == 5 {
        proof {
            reveal_strlit("5");
            assert("5"@ =~= seq![digit_char(5)]);
        }
        "5"
    } else if d == 6 {
        proof {
            reveal_strlit("6");
            assert("6"@ =~= seq![digit_char(6)]);
        }
        "6"
    } else if d == 7 {
        proof {
            reveal_strlit("7");
            assert("7"@ =~= seq![digit_char(7)]);
        }
        "7"
    } else if d == 8 {
        proof {
            reveal_strlit("8");
            assert("8"@ =~= seq![digit_char(8)]);
        }
        "8"
    } else {
        proof {
            reveal_strlit("9");
            assert("9"@ =~= seq![digit_char(9)]);
        }
        "9"
    }
}

/// Appends the decimal rendering of a number.
pub fn push_decimal(out: &mut String, n: u64)
    ensures
        final(out)@ == old(out)@ + dec_digits(n as nat),
    decreases n,
{
    if n < 10 {
        out.append(digit_str(n));
    } else {
        push_decimal(out, n / 10);
        out.append(digit_str(n % 10));
        proof {
            assert(out@ =~= old(out)@ + dec_digits(n as nat));
        }
    }
}

/// Appends a bit-range expression.
pub fn push_range(out: &mut String, r: &BitRange)
    ensures
        final(out)@ == old(out)@ + range_text(*r),
{
    push_decimal(out, r.start);
    if r.closed {
        out.append("..=");
    } else {
        out.append("..");
    }
    push_decimal(out, r.end);
    proof {
        assert(out@ =~= old(out)@ + range_text(*r));
    }
}

/// Appends one field's marker type declaration and value-type association.
fn push_marker(out: &mut String, info: &BitStructFieldInfo)
    ensures
        final(out)@ == old(out)@ + marker_text(info.doc@, info.vis, info.name@, info.target_ty@),
{
    push_docs(out, &info.doc);
    push_vis(out, &info.vis);
    out.append("struct ");
    out.append(info.name.as_str());
    out.append(";\nimpl ::bits::Field for ");
    out.append(info.name.as_str());
    out.append(" {\n    type CacheType = ");
    out.append(info.target_ty.as_str());
    out.append(";\n}\n");
    proof {
        assert(out@ =~= old(out)@ + marker_text(
            info.doc@,
            info.vis,
            info.name@,
            info.target_ty@,
        ));
    }
}

/// Appends one field's infallible read accessor.
fn push_read_impl(out: &mut String, cname: &String, info: &BitStructFieldInfo)
    ensures
        final(out)@ == old(out)@ + read_impl_text(
            cname@,
            info.name@,
            info.target_ty@,
            info.attr.expr_range,
        ),
{
    out.append("impl ::bits::ReadField<");
    out.append(info.name.as_str());
    out.append("> for ");
    out.append(cname.as_str());
    out.append(" {\n    fn read(&self, field: ");
    out.append(info.name.as_str());
    out.append(") -> ");
    out.append(info.target_ty.as_str());
    out.append(" {\n        ::bits::Bits(self.0).read(");
    push_range(out, &info.attr.expr_range);
    out.append(")\n    }\n}\n");
    proof {
        assert(out@ =~= old(out)@ + read_impl_text(
            cname@,
            info.name@,
            info.target_ty@,
            info.attr.expr_range,
        ));
    }
}

/// Appends one field's write accessor.
fn push_write_impl(out: &mut String, cname: &String, info: &BitStructFieldInfo)
    ensures
        final(out)@ == old(out)@ + write_impl_text(
            cname@,
            info.name@,
            info.target_ty@,
            info.attr.expr_range,
        ),
{
    out.append("impl ::bits::WriteField<");
    out.append(info.name.as_str());
    out.append("> for ");
    out.append(cname.as_str());
    out.append(" {\n    fn write(&mut self, field: ");
    out.append(info.name.as_str());
    out.append(", v: ");
    out.append(info.target_ty.as_str());
    out.append(") {\n        ::bits::BitsMut(&mut self.0).write(");
    push_range(out, &info.attr.expr_range);
    out.append(", v.into());\n    }\n}\n");
    proof {
        assert(out@ =~= old(out)@ + write_impl_text(
            cname@,
            info.name@,
            info.target_ty@,
            info.attr.expr_range,
        ));
    }
}

/// Appends one field's fallible read accessor.
fn push_try_read_impl(out: &mut String, cname: &String, info: &BitStructFieldInfo)
    ensures
        final(out)@ == old(out)@ + try_read_impl_text(
            cname@,
            info.name@,
            info.target_ty@,
            info.attr.expr_range,
        ),
{
    out.append("impl ::bits::TryReadField<");
    out.append(info.name.as_str());
    out.append("> for ");
    out.append(cname.as_str());
    out.append(" {\n    type Error = <");
    out.append(info.target_ty.as_str());
    out.append(" as TryFrom<Self::BaseType>>::Error;\n    fn try_read(&self, field: ");
    out.append(info.name.as_str());
    out.append(") -> Result<");
    out.append(info.target_ty.as_str());
    out.append(", Self::Error> {\n        ::bits::Bits(self.0).read(");
    push_range(out, &info.attr.expr_range);
    out.append(").try_into()\n    }\n}\n");
    proof {
        assert(out@ =~= old(out)@ + try_read_impl_text(
            cname@,
            info.name@,
            info.target_ty@,
            info.attr.expr_range,
        ));
    }
}

/// Appends everything emitted for one field: its marker type and the
/// accessors its permission and fallibility select.
pub fn push_field(out: &mut String, cname: &String, info: &BitStructFieldInfo)
    ensures
        final(out)@ == old(out)@ + info_text(cname@, *info),
{
    push_marker(out, info);
    if (info.attr.perm == BitFieldPerm::R || info.attr.perm == BitFieldPerm::RW)
        && !info.attr.need_try {
        push_read_impl(out, cname, info);
    }
    if info.attr.perm == BitFieldPerm::W || info.attr.perm == BitFieldPerm::RW {
        push_write_impl(out, cname, info);
    }
    if info.attr.need_try {
        push_try_read_impl(out, cname, info);
    }
    proof {
        assert(out@ =~= old(out)@ + info_text(cname@, *info));
    }
}

impl BitStruct {
    /// Renders the whole model: the wrapper type and its backing-type
    /// association, then, for each field in declaration order, its marker
    /// type and accessors. Emission is total: no field is dropped.
    pub fn to_tokens(&self, out: &mut String)
        ensures
            final(out)@ == old(out)@ + render(*self),
    {
        push_docs(out, &self.item.doc);
        push_vis(out, &self.item.vis);
        out.append("struct ");
        out.append(self.item.name.as_str());
        out.append("(");
        push_vis(out, &self.attr.export);
        out.append(width_str(self.attr.base_ty));
        out.append(");\nimpl ::bits::Bitalized for ");
        out.append(self.item.name.as_str());
        out.append(" {\n    type BaseType = ");
        out.append(width_str(self.attr.base_ty));
        out.append(";\n}\n");
        let ghost header = old(out)@ + container_text(
            self.item.doc@,
            self.item.vis,
            self.item.name@,
            self.attr.export,
            self.attr.base_ty,
        );
        proof {
            assert(out@ =~= header);
        }
        let n = self.item.fields.len();
        let mut i: usize = 0;
        while i < n
            invariant
                0 <= i <= n,
                n == self.item.fields@.len(),
                out@ == header + fields_text_upto(self.item.name@, self.item.fields@, i as int),
            decreases n - i,
        {
            push_field(out, &self.item.name, &self.item.fields[i]);
            i = i + 1;
        }
        proof {
            assert(out@ =~= old(out)@ + render(*self));
        }
    }
}

} // verus!
