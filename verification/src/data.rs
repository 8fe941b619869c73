//! Vertex record descriptions and the attribute-layout generator.
//!
//! A vertex record is a packed aggregate of fields, each field a small tuple
//! of identically typed components.  From the ordered field list the layout
//! generator derives one attribute descriptor per field: the location is the
//! field's ordinal index, the offset is the summed size of the preceding
//! fields, and the stride is the total record size.

use vstd::prelude::*;

use crate::gl::Gl;

verus! {

/// Scalar type of one vertex-attribute component.
#[derive(Clone, Copy, PartialEq, Eq, Structural, Debug)]
pub enum ComponentType {
    /// A 32-bit floating-point component, four bytes wide.
    Float,
}

/// Byte width of one component of the given scalar type.
pub open spec fn spec_component_size(t: ComponentType) -> nat {
    match t {
        ComponentType::Float => 4,
    }
}

/// Returns the byte width of one component of the given scalar type.
pub fn component_size(t: ComponentType) -> (n: usize)
    ensures
        n == spec_component_size(t),
{
    match t {
        ComponentType::Float => 4,
    }
}

/// One field of a vertex record: how many components it has and of what type.
#[derive(Clone, Copy, PartialEq, Eq, Structural, Debug)]
pub struct FieldDesc {
    pub components: usize,
    pub ty: ComponentType,
}

/// A field holds between one and four components.
pub open spec fn field_valid(f: FieldDesc) -> bool {
    1 <= f.components <= 4
}

pub open spec fn fields_valid(fields: Seq<FieldDesc>) -> bool {
    forall|i: int| 0 <= i < fields.len() ==> field_valid(#[trigger] fields[i])
}

/// Byte size of one field: component count times component width.
pub open spec fn spec_field_size(f: FieldDesc) -> nat {
    f.components as nat * spec_component_size(f.ty)
}

/// Returns the byte size of one field.
pub fn field_size(f: &FieldDesc) -> (n: usize)
    requires
        field_valid(*f),
    ensures
        n == spec_field_size(*f),
{
    f.components * component_size(f.ty)
}

/// Byte offset of field `i`: the summed sizes of the fields declared before it.
pub open spec fn spec_offset(fields: Seq<FieldDesc>, i: int) -> nat
    decreases i,
{
    if i <= 0 {
        0
    } else {
        spec_offset(fields, i - 1) + spec_field_size(fields[i - 1])
    }
}

/// Stride: the byte distance between consecutive records, i.e. the total
/// record size.
pub open spec fn spec_stride(fields: Seq<FieldDesc>) -> nat {
    spec_offset(fields, fields.len() as int)
}

pub proof fn lemma_offset_monotone(fields: Seq<FieldDesc>, i: int, j: int)
    requires
        0 <= i <= j,
    ensures
        spec_offset(fields, i) <= spec_offset(fields, j),
    decreases j,
{
    if i < j {
        lemma_offset_monotone(fields, i, j - 1);
    }
}

/// Offsets of valid fields grow strictly with the field index, and the last
/// field ends exactly at the stride: the generated layout is packed, with no
/// gap and no overlap.
pub proof fn lemma_layout_packed(fields: Seq<FieldDesc>)
    requires
        fields_valid(fields),
    ensures
        forall|i: int, j: int|
            0 <= i < j < fields.len() ==> spec_offset(fields, i) < spec_offset(fields, j),
        fields.len() > 0 ==> spec_offset(fields, fields.len() - 1) + spec_field_size(
            fields[fields.len() - 1],
        ) == spec_stride(fields),
{
    assert forall|i: int, j: int|
        0 <= i < j < fields.len() implies spec_offset(fields, i) < spec_offset(fields, j) by {
        assert(spec_offset(fields, i + 1) == spec_offset(fields, i) + spec_field_size(fields[i]));
        assert(spec_field_size(fields[i]) >= 4);
        lemma_offset_monotone(fields, i + 1, j);
    }
}

/// What one attribute-registration call carries: the slot, the shape of the
/// field, and where its bytes sit within each record.
#[derive(Clone, Copy, PartialEq, Eq, Structural, Debug)]
pub struct AttributeDescriptor {
    pub location: usize,
    pub components: usize,
    pub ty: ComponentType,
    pub normalized: bool,
    pub stride: usize,
    pub offset: usize,
}

/// The descriptor generated for field `i` of the record.
pub open spec fn spec_attribute(fields: Seq<FieldDesc>, i: int) -> AttributeDescriptor {
    AttributeDescriptor {
        location: i as usize,
        components: fields[i].components,
        ty: fields[i].ty,
        normalized: false,
        stride: spec_stride(fields) as usize,
        offset: spec_offset(fields, i) as usize,
    }
}

/// The full layout of the record: one descriptor per field, in field order.
pub open spec fn spec_layout(fields: Seq<FieldDesc>) -> Seq<AttributeDescriptor> {
    Seq::new(fields.len(), |i: int| spec_attribute(fields, i))
}

/// Returns the total byte size of one record.
pub fn record_size(fields: &Vec<FieldDesc>) -> (n: usize)
    requires
        fields_valid(fields@),
        spec_stride(fields@) <= usize::MAX,
    ensures
        n == spec_stride(fields@),
{
    let mut n: usize = 0;
    let mut i: usize = 0;
    while i < fields.len()
        invariant
            fields_valid(fields@),
            spec_stride(fields@) <= usize::MAX,
            i <= fields@.len(),
            n == spec_offset(fields@, i as int),
        decreases fields@.len() - i,
    {
        proof {
            lemma_offset_monotone(fields@, i + 1, fields@.len() as int);
        }
        n = n + field_size(&fields[i]);
        i = i + 1;
    }
    n
}

/// Generates the attribute layout of a record: for each field, in declared
/// order, a descriptor with its ordinal location, its byte offset and the
/// common stride.
pub fn layout_of(fields: &Vec<FieldDesc>) -> (descs: Vec<AttributeDescriptor>)
    requires
        fields_valid(fields@),
        spec_stride(fields@) <= usize::MAX,
    ensures
        descs@ == spec_layout(fields@),
{
    let stride = record_size(fields);
    let mut descs: Vec<AttributeDescriptor> = Vec::new();
    let mut offset: usize = 0;
    let mut i: usize = 0;
    while i < fields.len()
        invariant
            fields_valid(fields@),
            spec_stride(fields@) <= usize::MAX,
            stride == spec_stride(fields@),
            i <= fields@.len(),
            offset == spec_offset(fields@, i as int),
            descs@.len() == i,
            forall|k: int| 0 <= k < i ==> descs@[k] == spec_attribute(fields@, k),
        decreases fields@.len() - i,
    {
        let f = fields[i];
        descs.push(
            AttributeDescriptor {
                location: i,
                components: f.components,
                ty: f.ty,
                normalized: false,
                stride,
                offset,
            },
        );
        proof {
            lemma_offset_monotone(fields@, i + 1, fields@.len() as int);
        }
        offset = offset + field_size(&f);
        i = i + 1;
    }
    proof {
        assert(descs@ =~= spec_layout(fields@));
    }
    descs
}

/// Registers the full layout of a record on the bound vertex array: for
/// each field in declared order, enables the attribute slot at the field's
/// ordinal location and captures its pointer.  The target vertex array and
/// the source array buffer must both be bound.
pub fn vertex_attrib_pointers(gl: &mut Gl, fields: &Vec<FieldDesc>)
    requires
        old(gl).vao_live(old(gl).bound_vertex_array),
        old(gl).buffer_live(old(gl).bound_array_buffer),
        fields_valid(fields@),
        spec_stride(fields@) <= usize::MAX,
    ensures
        final(gl).vaos@.len() == old(gl).vaos@.len(),
        forall|k: int|
            0 <= k < old(gl).vaos@.len() && k != old(gl).bound_vertex_array - 1 ==> final(gl).vaos@[k] == old(gl).vaos@[k],
        final(gl).vao_live(old(gl).bound_vertex_array),
        final(gl).vao(old(gl).bound_vertex_array).attribs@ == old(gl).vao(
            old(gl).bound_vertex_array,
        ).attribs@ + spec_layout(fields@),
        final(gl).vao(old(gl).bound_vertex_array).enabled@.len() == old(gl).vao(
            old(gl).bound_vertex_array,
        ).enabled@.len() + fields@.len(),
        forall|m: int|
            0 <= m < old(gl).vao(old(gl).bound_vertex_array).enabled@.len() ==> final(gl).vao(
                old(gl).bound_vertex_array,
            ).enabled@[m] == old(gl).vao(old(gl).bound_vertex_array).enabled@[m],
        forall|m: int|
            0 <= m < fields@.len() ==> #[trigger] final(gl).vao(
                old(gl).bound_vertex_array,
            ).enabled@[old(gl).vao(old(gl).bound_vertex_array).enabled@.len() + m] == m,
        final(gl).same_but_vaos(*old(gl)),
{
    let descs = layout_of(fields);
    let ghost va = old(gl).bound_vertex_array;
    let ghost pre_attribs = old(gl).vao(va).attribs@;
    let ghost pre_enabled = old(gl).vao(va).enabled@;
    let mut i: usize = 0;
    while i < descs.len()
        invariant
            i <= descs@.len(),
            descs@ == spec_layout(fields@),
            descs@.len() == fields@.len(),
            va == old(gl).bound_vertex_array,
            gl.bound_vertex_array == va,
            gl.bound_array_buffer == old(gl).bound_array_buffer,
            gl.vao_live(va),
            gl.buffer_live(gl.bound_array_buffer),
            gl.vaos@.len() == old(gl).vaos@.len(),
            forall|k: int|
                0 <= k < old(gl).vaos@.len() && k != va - 1 ==> gl.vaos@[k] == old(gl).vaos@[k],
            gl.vao(va).attribs@ == pre_attribs + descs@.take(i as int),
            gl.vao(va).enabled@.len() == pre_enabled.len() + i,
            forall|m: int| 0 <= m < pre_enabled.len() ==> gl.vao(va).enabled@[m] == pre_enabled[m],
            forall|m: int|
                0 <= m < i ==> #[trigger] gl.vao(va).enabled@[pre_enabled.len() + m] == m,
            gl.same_but_vaos(*old(gl)),
        decreases descs@.len() - i,
    {
        let d = descs[i];
        proof {
            assert(d.location == i);
        }
        gl.enable_vertex_attrib_array(d.location);
        gl.vertex_attrib_pointer(d.location, d.components, d.ty, d.normalized, d.stride, d.offset);
        proof {
            assert(gl.vao(va).attribs@ =~= pre_attribs + descs@.take(i + 1));
        }
        i = i + 1;
    }
    proof {
        assert(descs@.take(descs@.len() as int) =~= descs@);
        assert(gl.vao(va).attribs@ == pre_attribs + descs@);
    }
}

} // verus!
