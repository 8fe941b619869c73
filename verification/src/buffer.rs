//! Buffer-object wrappers: the array buffer holding vertex bytes and the
//! vertex array capturing attribute registrations.
//!
//! Both wrappers own exactly one driver-side object and follow the binding
//! discipline: bind immediately before the operation that needs the
//! binding, unbind immediately after.  Like `Shader` and `Program` they are
//! move-only and released by a consuming `release` call.

use vstd::prelude::*;

use crate::gl::BufferObj;
use crate::gl::Gl;
use crate::gl::VaoObj;

verus! {

/// Wraps one driver-side buffer object used as the array buffer.
#[derive(Debug)]
pub struct ArrayBuffer {
    pub id: usize,
}

impl ArrayBuffer {
    /// The wrapped handle names a live buffer object.
    pub open spec fn valid(self, gl: Gl) -> bool {
        gl.buffer_live(self.id)
    }

    /// Allocates one driver-side buffer object.
    pub fn new(gl: &mut Gl) -> (b: ArrayBuffer)
        requires
            old(gl).buffers@.len() < usize::MAX,
        ensures
            b.id == old(gl).buffers@.len() + 1,
            b.valid(*final(gl)),
            final(gl).buffer(b.id).data@ == Seq::<u8>::empty(),
            final(gl).buffers@ == old(gl).buffers@.push(Some(final(gl).buffer(b.id))),
            final(gl).same_but_buffers(*old(gl)),
    {
        let id = gl.gen_buffer();
        proof {
            assert(gl.buffers@ =~= old(gl).buffers@.push(Some(gl.buffer(id))));
        }
        ArrayBuffer { id }
    }

    /// Makes this buffer the bound array buffer.
    pub fn bind(&self, gl: &mut Gl)
        requires
            self.valid(*old(gl)),
        ensures
            final(gl).bound_array_buffer == self.id,
            final(gl).same_tables(*old(gl)),
            final(gl).bound_vertex_array == old(gl).bound_vertex_array,
            final(gl).active_program == old(gl).active_program,
            final(gl).draws == old(gl).draws,
    {
        gl.bind_array_buffer(self.id);
    }

    /// Clears the array-buffer binding.
    pub fn unbind(&self, gl: &mut Gl)
        ensures
            final(gl).bound_array_buffer == 0,
            final(gl).same_tables(*old(gl)),
            final(gl).bound_vertex_array == old(gl).bound_vertex_array,
            final(gl).active_program == old(gl).active_program,
            final(gl).draws == old(gl).draws,
    {
        gl.unbind_array_buffer();
    }

    /// Uploads the byte image of the vertex data wholesale, with a static,
    /// draw-optimized usage hint.  This buffer must be the bound one.
    pub fn static_draw_data(&self, gl: &mut Gl, data: &Vec<u8>)
        requires
            self.valid(*old(gl)),
            old(gl).bound_array_buffer == self.id,
        ensures
            final(gl).buffers@.len() == old(gl).buffers@.len(),
            forall|k: int|
                0 <= k < old(gl).buffers@.len() && k != self.id - 1 ==> final(gl).buffers@[k]
                    == old(gl).buffers@[k],
            final(gl).buffer_live(self.id),
            final(gl).buffer(self.id).data@ == data@,
            final(gl).same_but_buffers(*old(gl)),
    {
        gl.buffer_data_static(data);
    }

    /// Releases the wrapped buffer object.
    pub fn release(self, gl: &mut Gl)
        requires
            old(gl).buffer_live(self.id),
        ensures
            final(gl).buffers@ == old(gl).buffers@.update(self.id - 1, None::<BufferObj>),
            final(gl).same_but_buffers(*old(gl)),
    {
        gl.delete_buffer(self.id);
    }
}

/// Wraps one driver-side vertex-array object.
#[derive(Debug)]
pub struct VertexArray {
    pub id: usize,
}

impl VertexArray {
    /// The wrapped handle names a live vertex-array object.
    pub open spec fn valid(self, gl: Gl) -> bool {
        gl.vao_live(self.id)
    }

    /// Allocates one driver-side vertex-array object.
    pub fn new(gl: &mut Gl) -> (v: VertexArray)
        requires
            old(gl).vaos@.len() < usize::MAX,
        ensures
            v.id == old(gl).vaos@.len() + 1,
            v.valid(*final(gl)),
            final(gl).vao(v.id).enabled@ == Seq::<usize>::empty(),
            final(gl).vao(v.id).attribs@ == Seq::<crate::data::AttributeDescriptor>::empty(),
            final(gl).vaos@ == old(gl).vaos@.push(Some(final(gl).vao(v.id))),
            final(gl).same_but_vaos(*old(gl)),
    {
        let id = gl.gen_vertex_array();
        proof {
            assert(gl.vaos@ =~= old(gl).vaos@.push(Some(gl.vao(id))));
        }
        VertexArray { id }
    }

    /// Makes this vertex array the bound one.
    pub fn bind(&self, gl: &mut Gl)
        requires
            self.valid(*old(gl)),
        ensures
            final(gl).bound_vertex_array == self.id,
            final(gl).same_tables(*old(gl)),
            final(gl).bound_array_buffer == old(gl).bound_array_buffer,
            final(gl).active_program == old(gl).active_program,
            final(gl).draws == old(gl).draws,
    {
        gl.bind_vertex_array(self.id);
    }

    /// Clears the vertex-array binding.
    pub fn unbind(&self, gl: &mut Gl)
        ensures
            final(gl).bound_vertex_array == 0,
            final(gl).same_tables(*old(gl)),
            final(gl).bound_array_buffer == old(gl).bound_array_buffer,
            final(gl).active_program == old(gl).active_program,
            final(gl).draws == old(gl).draws,
    {
        gl.unbind_vertex_array();
    }

    /// Releases the wrapped vertex-array object.
    pub fn release(self, gl: &mut Gl)
        requires
            old(gl).vao_live(self.id),
        ensures
            final(gl).vaos@ == old(gl).vaos@.update(self.id - 1, None::<VaoObj>),
            final(gl).same_but_vaos(*old(gl)),
    {
        gl.delete_vertex_array(self.id);
    }
}

} // verus!
