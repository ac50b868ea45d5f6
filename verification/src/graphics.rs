//! The graphics systems: what is shared by the backends, and the decisions
//! of each backend, made on plain values that the backend reads from its
//! driver.
use vstd::prelude::*;

/// Vulkan graphics backend
pub mod vulkan_backend;
pub mod wgpu_backend;

verus! {

/// A backend's graphics system: it can be shared between threads.
pub trait GraphicsSystemImpl: Send + Sync {

}

/// The graphics system of the backend `T`.
pub struct GraphicsSystem<T: GraphicsSystemImpl>(T);

impl<T: GraphicsSystemImpl> GraphicsSystem<T> {
    /// The backend's system that this one holds.
    pub closed spec fn inner_spec(&self) -> T {
        self.0
    }

    /// Wraps a backend's system.
    pub fn new(value: T) -> (system: Self)
        ensures
            system.inner_spec() == value,
    {
        GraphicsSystem(value)
    }

    /// The backend's system.
    pub fn inner(&self) -> (inner: &T)
        ensures
            *inner == self.inner_spec(),
    {
        &self.0
    }

    /// The backend's system, to change.
    pub fn inner_mut(&mut self) -> (inner: &mut T)
        ensures
            *inner == old(self).inner_spec(),
            final(self).inner_spec() == *final(inner),
    {
        &mut self.0
    }
}

} // verus!
