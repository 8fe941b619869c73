//! The triangle drawable: the usage pattern every drawable follows.
//!
//! Construction builds the program from the material's two stage resources,
//! uploads the vertex bytes into an array buffer, and captures the record's
//! attribute layout on a vertex array - binding each object immediately
//! before the operation that needs it and unbinding it immediately after.
//! Rendering then only activates the program, binds the vertex array and
//! issues the draw call.

use vstd::prelude::*;

use crate::buffer::ArrayBuffer;
use crate::buffer::VertexArray;
use crate::data;
use crate::data::ComponentType;
use crate::data::FieldDesc;
use crate::gl::DrawCall;
use crate::gl::DrawMode;
use crate::gl::Gl;
use crate::resources::Resources;
use crate::shader;
use crate::shader::Error;
use crate::shader::Program;

verus! {

/// Bit pattern of the coordinate value zero.
pub const BITS_ZERO: u32 = 0x0000_0000;

/// Bit pattern of the coordinate value one.
pub const BITS_ONE: u32 = 0x3F80_0000;

/// Bit pattern of the coordinate value one half.
pub const BITS_HALF: u32 = 0x3F00_0000;

/// Bit pattern of the coordinate value minus one half.
pub const BITS_NEG_HALF: u32 = 0xBF00_0000;

/// The little-endian byte image of one 32-bit component.
pub open spec fn spec_le_bytes(bits: u32) -> Seq<u8> {
    seq![
        (bits & 0xff) as u8,
        ((bits >> 8) & 0xff) as u8,
        ((bits >> 16) & 0xff) as u8,
        ((bits >> 24) & 0xff) as u8,
    ]
}

/// Appends the little-endian image of one 32-bit component.
fn push_component(data: &mut Vec<u8>, bits: u32)
    ensures
        final(data)@ == old(data)@ + spec_le_bytes(bits),
{
    proof {
        assert(bits & 0xff < 256) by (bit_vector);
        assert((bits >> 8) & 0xff < 256) by (bit_vector);
        assert((bits >> 16) & 0xff < 256) by (bit_vector);
        assert((bits >> 24) & 0xff < 256) by (bit_vector);
    }
    data.push((bits & 0xff) as u8);
    data.push(((bits >> 8) & 0xff) as u8);
    data.push(((bits >> 16) & 0xff) as u8);
    data.push(((bits >> 24) & 0xff) as u8);
    proof {
        assert(data@ =~= old(data)@ + spec_le_bytes(bits));
    }
}

/// The triangle's vertex record: a position triple, then a color triple.
pub open spec fn spec_triangle_fields() -> Seq<FieldDesc> {
    seq![
        FieldDesc { components: 3, ty: ComponentType::Float },
        FieldDesc { components: 3, ty: ComponentType::Float },
    ]
}

/// Returns the triangle's vertex-record description.
pub fn triangle_fields() -> (fields: Vec<FieldDesc>)
    ensures
        fields@ == spec_triangle_fields(),
{
    let mut fields: Vec<FieldDesc> = Vec::new();
    fields.push(FieldDesc { components: 3, ty: ComponentType::Float });
    fields.push(FieldDesc { components: 3, ty: ComponentType::Float });
    proof {
        assert(fields@ =~= spec_triangle_fields());
    }
    fields
}

/// The byte image of one vertex record.
pub open spec fn spec_vertex_bytes(
    px: u32,
    py: u32,
    pz: u32,
    cr: u32,
    cg: u32,
    cb: u32,
) -> Seq<u8> {
    spec_le_bytes(px) + spec_le_bytes(py) + spec_le_bytes(pz) + spec_le_bytes(cr) + spec_le_bytes(
        cg,
    ) + spec_le_bytes(cb)
}

/// The byte image of the triangle's three vertex records: bottom right in
/// red, bottom left in green, top in blue.
pub open spec fn spec_triangle_vertices() -> Seq<u8> {
    spec_vertex_bytes(BITS_HALF, BITS_NEG_HALF, BITS_ZERO, BITS_ONE, BITS_ZERO, BITS_ZERO)
        + spec_vertex_bytes(BITS_NEG_HALF, BITS_NEG_HALF, BITS_ZERO, BITS_ZERO, BITS_ONE, BITS_ZERO)
        + spec_vertex_bytes(BITS_ZERO, BITS_HALF, BITS_ZERO, BITS_ZERO, BITS_ZERO, BITS_ONE)
}

/// Builds the byte image of the triangle's vertex data.
pub fn triangle_vertices() -> (data: Vec<u8>)
    ensures
        data@ == spec_triangle_vertices(),
{
    let mut data: Vec<u8> = Vec::new();
    push_component(&mut data, BITS_HALF);
    push_component(&mut data, BITS_NEG_HALF);
    push_component(&mut data, BITS_ZERO);
    push_component(&mut data, BITS_ONE);
    push_component(&mut data, BITS_ZERO);
    push_component(&mut data, BITS_ZERO);
    push_component(&mut data, BITS_NEG_HALF);
    push_component(&mut data, BITS_NEG_HALF);
    push_component(&mut data, BITS_ZERO);
    push_component(&mut data, BITS_ZERO);
    push_component(&mut data, BITS_ONE);
    push_component(&mut data, BITS_ZERO);
    push_component(&mut data, BITS_ZERO);
    push_component(&mut data, BITS_HALF);
    push_component(&mut data, BITS_ZERO);
    push_component(&mut data, BITS_ZERO);
    push_component(&mut data, BITS_ZERO);
    push_component(&mut data, BITS_ONE);
    proof {
        assert(data@ =~= spec_triangle_vertices());
    }
    data
}

/// The logical resource name of the triangle's material; the two stage
/// names derive from it by suffix.
pub open spec fn spec_material_name() -> Seq<char> {
    "shaders/triangle"@
}

/// A drawable triangle: a linked program, the buffer holding its vertex
/// bytes, and the vertex array that captured the attribute layout.
#[derive(Debug)]
pub struct Triangle {
    pub program: Program,
    pub _vbo: ArrayBuffer,
    pub vao: VertexArray,
}

impl Triangle {
    /// All three driver objects are live and the program linked.
    pub open spec fn valid(self, gl: Gl) -> bool {
        &&& self.program.valid(gl)
        &&& self._vbo.valid(gl)
        &&& self.vao.valid(gl)
    }

    /// Builds the triangle: program from the material's resources, vertex
    /// bytes uploaded once, attribute layout captured once.  All bindings
    /// are cleared again before returning; a failure releases everything
    /// that was created.
    pub fn new(res: &Resources, gl: &mut Gl) -> (r: Result<Triangle, Error>)
        requires
            old(gl).shaders@.len() + 2 <= usize::MAX,
            old(gl).programs@.len() < usize::MAX,
            old(gl).buffers@.len() < usize::MAX,
            old(gl).vaos@.len() < usize::MAX,
        ensures
            match r {
                Ok(t) => {
                    &&& shader::spec_stage_ready(
                        *res,
                        shader::spec_vert_name(spec_material_name()),
                    )
                    &&& shader::spec_stage_ready(
                        *res,
                        shader::spec_frag_name(spec_material_name()),
                    )
                    &&& shader::spec_sources_matched(*res, spec_material_name())
                    &&& t.valid(*final(gl))
                    &&& t.program.id == old(gl).programs@.len() + 1
                    &&& t._vbo.id == old(gl).buffers@.len() + 1
                    &&& t.vao.id == old(gl).vaos@.len() + 1
                    &&& final(gl).shaders@ == old(gl).shaders@.push(None).push(None)
                    &&& final(gl).programs@ == old(gl).programs@.push(
                        Some(final(gl).program(t.program.id)),
                    )
                    &&& final(gl).program(t.program.id).attached@ == Seq::<usize>::empty()
                    &&& final(gl).buffers@ == old(gl).buffers@.push(
                        Some(final(gl).buffer(t._vbo.id)),
                    )
                    &&& final(gl).buffer(t._vbo.id).data@ == spec_triangle_vertices()
                    &&& final(gl).vaos@ == old(gl).vaos@.push(Some(final(gl).vao(t.vao.id)))
                    &&& final(gl).vao(t.vao.id).attribs@ == data::spec_layout(
                        spec_triangle_fields(),
                    )
                    &&& final(gl).bound_array_buffer == 0
                    &&& final(gl).bound_vertex_array == 0
                    &&& final(gl).active_program == old(gl).active_program
                    &&& final(gl).draws == old(gl).draws
                },
                Err(e) => shader::spec_from_res_failure(
                    *old(gl),
                    *final(gl),
                    *res,
                    spec_material_name(),
                    e,
                ),
            },
    {
        let program = match Program::from_res(gl, res, "shaders/triangle") {
            Ok(p) => p,
            Err(e) => {
                return Err(e);
            },
        };
        let vertices = triangle_vertices();

        let vbo = ArrayBuffer::new(gl);
        vbo.bind(gl);
        vbo.static_draw_data(gl, &vertices);
        vbo.unbind(gl);

        let vao = VertexArray::new(gl);
        vao.bind(gl);
        vbo.bind(gl);
        let fields = triangle_fields();
        proof {
            let fs = spec_triangle_fields();
            assert(data::spec_field_size(fs[0]) == 12);
            assert(data::spec_field_size(fs[1]) == 12);
            assert(data::spec_offset(fs, 0) == 0);
            assert(data::spec_offset(fs, 1) == 12);
            assert(data::spec_stride(fs) == 24);
        }
        data::vertex_attrib_pointers(gl, &fields);
        vbo.unbind(gl);
        vao.unbind(gl);
        proof {
            assert(gl.vao(vao.id).attribs@ =~= data::spec_layout(spec_triangle_fields()));
        }
        Ok(Triangle { program, _vbo: vbo, vao })
    }

    /// Renders the triangle: makes its program active, binds its vertex
    /// array and issues one three-vertex draw call.
    pub fn render(&self, gl: &mut Gl)
        requires
            self.valid(*old(gl)),
        ensures
            final(gl).program_is_active(self.program.id),
            forall|q: usize| final(gl).program_is_active(q) <==> q == self.program.id,
            final(gl).bound_vertex_array == self.vao.id,
            final(gl).bound_array_buffer == old(gl).bound_array_buffer,
            final(gl).same_tables(*old(gl)),
            final(gl).draws@ == old(gl).draws@.push(
                DrawCall {
                    mode: DrawMode::Triangles,
                    first: 0,
                    count: 3,
                    program: self.program.id,
                    vertex_array: self.vao.id,
                },
            ),
    {
        self.program.set_used(gl);
        self.vao.bind(gl);
        gl.draw_arrays(DrawMode::Triangles, 0, 3);
    }

    /// Releases the triangle's three driver objects, each exactly once.
    pub fn release(self, gl: &mut Gl)
        requires
            old(gl).program_live(self.program.id),
            old(gl).buffer_live(self._vbo.id),
            old(gl).vao_live(self.vao.id),
        ensures
            final(gl).programs@ == old(gl).programs@.update(
                self.program.id - 1,
                None::<crate::gl::ProgramObj>,
            ),
            final(gl).buffers@ == old(gl).buffers@.update(
                self._vbo.id - 1,
                None::<crate::gl::BufferObj>,
            ),
            final(gl).vaos@ == old(gl).vaos@.update(self.vao.id - 1, None::<crate::gl::VaoObj>),
            final(gl).shaders == old(gl).shaders,
            final(gl).bound_array_buffer == old(gl).bound_array_buffer,
            final(gl).bound_vertex_array == old(gl).bound_vertex_array,
            final(gl).active_program == old(gl).active_program,
            final(gl).draws == old(gl).draws,
    {
        let Triangle { program, _vbo, vao } = self;
        program.release(gl);
        _vbo.release(gl);
        vao.release(gl);
    }
}

} // verus!
