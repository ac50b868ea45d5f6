//! Meshes: vertices and the indices that join them into triangles.
use vstd::prelude::*;

verus! {

/// A vertex layout that can be copied into a vertex buffer.
pub trait Vertex: Sized + Copy {

}

/// A mesh: its vertices, and the indices of the vertices of each triangle.
#[derive(Clone, Debug)]
pub struct Mesh<V: Vertex> {
    pub vertices: Vec<V>,
    pub indices: Vec<u32>,
}

} // verus!
