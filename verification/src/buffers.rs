use vstd::prelude::*;
use crate::geometry::Color;

verus! {

/// A position as the tessellator produced it: two 32-bit words, normally the
/// bit patterns of single-precision drawing-space coordinates. The pipeline
/// copies positions and never looks inside them.
#[derive(Clone, Copy, Debug, PartialEq, Eq, Structural)]
pub struct Position {
    pub x: u32,
    pub y: u32,
}

/// One corner of the output: a position and the colour of its primitive.
#[derive(Clone, Copy, Debug, PartialEq, Eq, Structural)]
pub struct Vertex {
    pub pos: Position,
    pub color: Color,
}

/// The triangles that tessellating one path produced. Every three indices
/// name the corners of one triangle among `positions`.
#[derive(Clone, Debug)]
pub struct Triangles {
    pub positions: Vec<Position>,
    pub indices: Vec<u32>,
}

/// The mathematical content of a [`Triangles`].
pub struct TrianglesView {
    pub positions: Seq<Position>,
    pub indices: Seq<u32>,
}

impl View for Triangles {
    type V = TrianglesView;

    open spec fn view(&self) -> TrianglesView {
        TrianglesView { positions: self.positions@, indices: self.indices@ }
    }
}

impl TrianglesView {
    /// Every index names one of the positions.
    pub open spec fn indices_in_range(&self) -> bool {
        forall|i: int| 0 <= i < self.indices.len() ==> self.indices[i] < self.positions.len()
    }

    /// The triangles are usable: there is at least one, the indices come in
    /// whole triangles, and each names one of the positions.
    pub open spec fn wf(&self) -> bool {
        &&& self.indices.len() > 0
        &&& self.indices.len() % 3 == 0
        &&& self.indices_in_range()
    }
}

/// The mathematical content of a [`VertexBuffers`].
pub struct BuffersView {
    pub vertices: Seq<Vertex>,
    pub indices: Seq<u32>,
}

impl BuffersView {
    pub open spec fn empty() -> BuffersView {
        BuffersView { vertices: Seq::empty(), indices: Seq::empty() }
    }

    /// The indices come in whole triangles, each names a vertex of the
    /// array, and every vertex can be named by a 32-bit index.
    pub open spec fn wf(&self) -> bool {
        &&& self.vertices.len() <= u32::MAX
        &&& self.indices.len() % 3 == 0
        &&& forall|i: int| 0 <= i < self.indices.len() ==> self.indices[i] < self.vertices.len()
    }

    /// Whether the triangles of one primitive can be added: they are usable
    /// and the vertex array stays within reach of a 32-bit index.
    pub open spec fn accepts(&self, mesh: TrianglesView) -> bool {
        mesh.wf() && self.vertices.len() + mesh.positions.len() <= u32::MAX
    }

    /// These buffers followed by `later`: the vertices of both in turn, and
    /// the indices of both in turn, those of `later` raised by the number of
    /// vertices here.
    pub open spec fn followed_by(&self, later: BuffersView) -> BuffersView {
        BuffersView {
            vertices: self.vertices + later.vertices,
            indices: self.indices + Seq::new(
                later.indices.len(),
                |i: int| (later.indices[i] + self.vertices.len()) as u32,
            ),
        }
    }

    /// The buffers after the triangles of one primitive are added: its
    /// positions, each in the primitive's colour, follow the vertices, and its
    /// indices, each raised by the number of vertices there were before,
    /// follow the indices.
    pub open spec fn appended(&self, mesh: TrianglesView, color: Color) -> BuffersView {
        BuffersView {
            vertices: self.vertices + Seq::new(
                mesh.positions.len(),
                |i: int| Vertex { pos: mesh.positions[i], color },
            ),
            indices: self.indices + Seq::new(
                mesh.indices.len(),
                |i: int| (mesh.indices[i] + self.vertices.len()) as u32,
            ),
        }
    }
}

/// Adding usable triangles keeps the buffers well formed, adds whole
/// triangles, and leaves everything that was there in place.
pub proof fn lemma_appended_wf(buffers: BuffersView, mesh: TrianglesView, color: Color)
    requires
        buffers.wf(),
        buffers.accepts(mesh),
    ensures
        buffers.appended(mesh, color).wf(),
        buffers.appended(mesh, color).vertices.len() == buffers.vertices.len()
            + mesh.positions.len(),
        buffers.appended(mesh, color).indices.len() == buffers.indices.len() + mesh.indices.len(),
        buffers.appended(mesh, color).vertices.take(buffers.vertices.len() as int)
            == buffers.vertices,
        buffers.appended(mesh, color).indices.take(buffers.indices.len() as int)
            == buffers.indices,
{
    let after = buffers.appended(mesh, color);
    assert forall|i: int| 0 <= i < after.indices.len() implies after.indices[i]
        < after.vertices.len() by {
        if i >= buffers.indices.len() {
            let k = i - buffers.indices.len();
            assert(mesh.indices[k] < mesh.positions.len());
        }
    }
    assert(after.vertices.take(buffers.vertices.len() as int) =~= buffers.vertices);
    assert(after.indices.take(buffers.indices.len() as int) =~= buffers.indices);
}

/// The vertex array and the index array that all primitives are gathered in.
#[derive(Debug)]
pub struct VertexBuffers {
    vertices: Vec<Vertex>,
    indices: Vec<u32>,
}

impl View for VertexBuffers {
    type V = BuffersView;

    closed spec fn view(&self) -> BuffersView {
        BuffersView { vertices: self.vertices@, indices: self.indices@ }
    }
}

impl VertexBuffers {
    pub open spec fn wf(&self) -> bool {
        self@.wf()
    }

    /// Empty buffers.
    pub fn new() -> (buffers: VertexBuffers)
        ensures
            buffers@ == BuffersView::empty(),
            buffers.wf(),
    {
        let buffers = VertexBuffers { vertices: Vec::new(), indices: Vec::new() };
        assert(buffers@.vertices =~= Seq::empty());
        assert(buffers@.indices =~= Seq::empty());
        buffers
    }

    pub fn vertices(&self) -> (v: &Vec<Vertex>)
        ensures
            v@ == self@.vertices,
    {
        &self.vertices
    }

    pub fn indices(&self) -> (v: &Vec<u32>)
        ensures
            v@ == self@.indices,
    {
        &self.indices
    }

    /// Gives up the two arrays.
    pub fn into_parts(self) -> (parts: (Vec<Vertex>, Vec<u32>))
        ensures
            parts.0@ == self@.vertices,
            parts.1@ == self@.indices,
    {
        (self.vertices, self.indices)
    }

    /// Whether the triangles of one primitive can be added.
    pub fn accepts(&self, mesh: &Triangles) -> (b: bool)
        requires
            self.wf(),
        ensures
            b == self@.accepts(mesh@),
    {
        let n = mesh.indices.len();
        if n == 0 || n % 3 != 0 {
            return false;
        }
        let count = mesh.positions.len();
        let mut i: usize = 0;
        while i < n
            invariant
                n == mesh.indices.len(),
                count == mesh.positions.len(),
                i <= n,
                forall|k: int| 0 <= k < i ==> mesh.indices[k] < count,
            decreases n - i,
        {
            if mesh.indices[i] as usize >= count {
                return false;
            }
            i = i + 1;
        }
        count <= u32::MAX as usize - self.vertices.len()
    }

    /// Adds the triangles of one primitive, in its colour, if they can be
    /// added; otherwise the buffers stay as they were.
    pub fn append(&mut self, mesh: &Triangles, color: Color) -> (added: bool)
        requires
            old(self).wf(),
        ensures
            added == old(self)@.accepts(mesh@),
            added ==> final(self)@ == old(self)@.appended(mesh@, color),
            !added ==> final(self)@ == old(self)@,
            final(self).wf(),
    {
        if !self.accepts(mesh) {
            return false;
        }
        let offset: u32 = self.vertices.len() as u32;
        let ghost before = self@;
        let mut i: usize = 0;
        while i < mesh.positions.len()
            invariant
                i <= mesh.positions.len(),
                self.indices@ == before.indices,
                self.vertices@ == before.vertices + Seq::new(
                    i as nat,
                    |k: int| Vertex { pos: mesh.positions[k], color },
                ),
            decreases mesh.positions.len() - i,
        {
            self.vertices.push(Vertex { pos: mesh.positions[i], color });
            i = i + 1;
        }
        let mut j: usize = 0;
        while j < mesh.indices.len()
            invariant
                j <= mesh.indices.len(),
                before.accepts(mesh@),
                offset == before.vertices.len(),
                self.vertices@ == before.appended(mesh@, color).vertices,
                self.indices@ == before.indices + Seq::new(
                    j as nat,
                    |k: int| (mesh.indices[k] + before.vertices.len()) as u32,
                ),
            decreases mesh.indices.len() - j,
        {
            self.indices.push(mesh.indices[j] + offset);
            j = j + 1;
        }
        proof {
            lemma_appended_wf(before, mesh@, color);
        }
        true
    }
}

} // verus!
