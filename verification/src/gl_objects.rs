use vstd::prelude::*;
use crate::wavefront_parser::Vertex;

verus! {

/// Types of vertex primitives a draw call can assemble.
#[derive(Debug, Clone, Copy, PartialEq, Eq, Structural)]
pub enum Primitive {
    Points,
    Lines,
    LineStrip,
    Triangles,
    TriangleStrip,
    TriangleFan,
}

/// Possible binding targets of a buffer.
#[derive(Debug, Clone, Copy, PartialEq, Eq, Structural)]
pub enum BufferType {
    /// Vertex data array.
    Array,
    /// Array of indices into the vertices, forming shapes.
    ElementArray,
}

/// Wrapper for a general-purpose buffer object handle.  A handle of
/// zero means "no object"; a well-formed `Buffer` holds a nonzero
/// handle.
#[derive(Debug, Clone, Copy, PartialEq, Eq, Structural)]
pub struct Buffer(pub u32);

impl Buffer {
    pub open spec fn wf(self) -> bool {
        self.0 != 0
    }

    /// Wraps a raw handle freshly generated by the driver; a zero
    /// handle signals an allocation failure and yields `None`.
    pub fn from_raw(id: u32) -> (r: Option<Buffer>)
        ensures
            r is Some <==> id != 0,
            r is Some ==> r->0 == Buffer(id) && (r->0).wf(),
    {
        if id != 0 {
            Some(Buffer(id))
        } else {
            None
        }
    }
}

/// Wrapper for a vertex array object handle, together with the buffer
/// and the vertex data attached to it, if any.
pub struct VertexArray(pub u32, pub Option<Buffer>, pub Option<Vec<Vertex>>);

impl VertexArray {
    /// The handle is live, and a buffer is attached exactly when
    /// vertex data is.
    pub open spec fn wf(self) -> bool {
        self.0 != 0 && (self.1 is Some <==> self.2 is Some)
    }

    /// Wraps a raw handle freshly generated by the driver, with
    /// nothing attached; a zero handle signals an allocation failure
    /// and yields `None`.
    pub fn from_raw(id: u32) -> (r: Option<VertexArray>)
        ensures
            r is Some <==> id != 0,
            r is Some ==> (r->0).0 == id && (r->0).1 is None && (r->0).2 is None && (r->0).wf(),
    {
        if id != 0 {
            Some(VertexArray(id, None, None))
        } else {
            None
        }
    }

    /// Records the buffer and the vertex data that were attached to
    /// this vertex array.
    pub fn set_vertex_data(&mut self, buffer: Buffer, vertices: Vec<Vertex>)
        ensures
            final(self).0 == old(self).0,
            final(self).1 == Some(buffer),
            final(self).2 matches Some(v) && v@ == vertices@,
            old(self).0 != 0 ==> final(self).wf(),
    {
        self.1 = Some(buffer);
        self.2 = Some(vertices);
    }

    /// How many vertices a draw of this vertex array covers: the
    /// length of the attached data, or `None` where no buffer was
    /// attached and the draw is refused.
    pub fn draw_count(&self) -> (r: Option<usize>)
        requires
            self.1 is Some ==> self.2 is Some,
        ensures
            r is Some <==> self.1 is Some,
            r matches Some(c) ==> c == self.2->0@.len(),
    {
        match &self.1 {
            None => None,
            Some(_) => match &self.2 {
                Some(v) => Some(v.len()),
                None => None,
            },
        }
    }
}

/// One vertex attribute as the vertex array declares it to the
/// driver: its index, its number of single-precision components, and
/// its byte offset inside a record.
#[derive(Debug, Clone, Copy, PartialEq, Eq, Structural)]
pub struct VertexAttribute {
    pub index: u32,
    pub components: u32,
    pub byte_offset: u32,
}

/// The byte stride of one interleaved vertex record: eight
/// single-precision components.
pub const VERTEX_STRIDE_BYTES: u32 = 32;

/// The standard interleaved layout: position at the start, texture
/// coordinates after its three components, the normal after the five.
pub open spec fn spec_vertex_layout() -> Seq<VertexAttribute> {
    seq![
        VertexAttribute { index: 0, components: 3, byte_offset: 0 },
        VertexAttribute { index: 1, components: 2, byte_offset: 12 },
        VertexAttribute { index: 2, components: 3, byte_offset: 20 },
    ]
}

/// The attributes a vertex array declares for the standard
/// position-texture-normal record, in declaration order.
pub fn vertex_layout() -> (r: Vec<VertexAttribute>)
    ensures
        r@ == spec_vertex_layout(),
{
    let mut r: Vec<VertexAttribute> = Vec::new();
    r.push(VertexAttribute { index: 0, components: 3, byte_offset: 0 });
    r.push(VertexAttribute { index: 1, components: 2, byte_offset: 12 });
    r.push(VertexAttribute { index: 2, components: 3, byte_offset: 20 });
    proof {
        assert(r@ =~= spec_vertex_layout());
    }
    r
}

/// The components of one vertex record, in buffer order.
pub open spec fn word_seq(v: Vertex) -> Seq<u32> {
    seq![v.px, v.py, v.pz, v.tu, v.tv, v.nx, v.ny, v.nz]
}

/// The components of a vertex list, flattened in buffer order.
pub open spec fn words_of(vs: Seq<Vertex>) -> Seq<u32>
    decreases vs.len(),
{
    if vs.len() == 0 {
        seq![]
    } else {
        words_of(vs.drop_last()) + word_seq(vs.last())
    }
}

pub proof fn lemma_words_of_len(vs: Seq<Vertex>)
    ensures
        words_of(vs).len() == 8 * vs.len(),
    decreases vs.len(),
{
    if vs.len() > 0 {
        lemma_words_of_len(vs.drop_last());
    }
}

/// Flattens vertex records into their components in buffer order.
pub fn vertex_words(vs: &Vec<Vertex>) -> (r: Vec<u32>)
    ensures
        r@ == words_of(vs@),
{
    let mut r: Vec<u32> = Vec::new();
    proof {
        assert(vs@.take(0) =~= Seq::<Vertex>::empty());
        assert(r@ =~= words_of(vs@.take(0)));
    }
    let mut i: usize = 0;
    while i < vs.len()
        invariant
            i <= vs@.len(),
            r@ == words_of(vs@.take(i as int)),
        decreases vs@.len() - i,
    {
        let v = vs[i];
        r.push(v.px);
        r.push(v.py);
        r.push(v.pz);
        r.push(v.tu);
        r.push(v.tv);
        r.push(v.nx);
        r.push(v.ny);
        r.push(v.nz);
        proof {
            assert(vs@.take(i + 1).drop_last() =~= vs@.take(i as int));
            assert(vs@.take(i + 1).last() == vs@[i as int]);
            assert(r@ =~= words_of(vs@.take(i as int)) + word_seq(vs@[i as int]));
        }
        i = i + 1;
    }
    proof {
        assert(vs@.take(vs@.len() as int) =~= vs@);
    }
    r
}

/// Relies on `bytemuck::cast_slice::<u32, u8>`: reinterpreting a
/// slice of 32-bit words as bytes keeps the storage, so the result
/// holds four bytes per word; on these types the cast cannot fail.
#[verifier::external_body]
fn word_bytes(words: &Vec<u32>) -> (r: Vec<u8>)
    ensures
        r@.len() == 4 * words@.len(),
{
    bytemuck::cast_slice::<u32, u8>(words.as_slice()).to_vec()
}

/// The raw bytes a vertex list occupies in a buffer: one record of
/// `VERTEX_STRIDE_BYTES` bytes per vertex.
pub fn vertex_buffer_bytes(vs: &Vec<Vertex>) -> (r: Vec<u8>)
    ensures
        r@.len() == 32 * vs@.len(),
{
    let words = vertex_words(vs);
    proof {
        lemma_words_of_len(vs@);
    }
    word_bytes(&words)
}

} // verus!
