//! Choosing the device's queue family, and the queues a device holds.
use vstd::prelude::*;

verus! {

/// The kinds of queue that the engine asks a device for.
#[derive(Clone, Copy, Debug, PartialEq, Eq, Structural)]
pub enum QueueType {
    Graphics,
    Presentation,
    Transfer,
}

/// What a queue family offers: whether it runs graphics work, and whether
/// it can present to the surface (`None` where the driver could not say).
#[derive(Clone, Copy, Debug, PartialEq, Eq, Structural)]
pub struct QueueFamilySupport {
    pub graphics: bool,
    pub present: Option<bool>,
}

impl QueueFamilySupport {
    /// A family that both runs graphics work and presents.
    pub open spec fn usable(self) -> bool {
        self.graphics && self.present == Some(true)
    }
}

/// Picks the first queue family that both runs graphics work and can
/// present to the surface.
pub fn select_queue_family(families: &[QueueFamilySupport]) -> (index: Option<u32>)
    requires
        families@.len() <= u32::MAX,
    ensures
        match index {
            Some(i) => {
                &&& i < families@.len()
                &&& families@[i as int].usable()
                &&& forall|j: int| 0 <= j < i ==> !families@[j].usable()
            },
            None => forall|j: int| 0 <= j < families@.len() ==> !families@[j].usable(),
        },
{
    let mut i: usize = 0;
    while i < families.len()
        invariant
            0 <= i <= families@.len(),
            families@.len() <= u32::MAX,
            forall|j: int| 0 <= j < i ==> !families@[j].usable(),
        decreases families@.len() - i,
    {
        let family = families[i];
        if family.graphics && family.present == Some(true) {
            return Some(i as u32);
        }
        i += 1;
    }
    None
}

/// The queues that a device was created with: the family index and the
/// raw handle of its graphics queue and of its presentation queue.
#[derive(Clone, Copy, Debug, PartialEq, Eq, Structural)]
pub struct DeviceQueues {
    pub present_index: u32,
    pub present_queue: u64,
    pub graphics_index: u32,
    pub graphics_queue: u64,
}

impl DeviceQueues {
    /// The queues of a device created with one queue of the family `index`,
    /// used both for graphics work and for presenting.
    pub fn shared(index: u32, queue: u64) -> (queues: DeviceQueues)
        ensures
            queues == (DeviceQueues {
                present_index: index,
                present_queue: queue,
                graphics_index: index,
                graphics_queue: queue,
            }),
    {
        DeviceQueues { present_index: index, present_queue: queue, graphics_index: index, graphics_queue: queue }
    }

    /// The raw handle of the queue of the given kind. Transfer queues are
    /// not created.
    pub fn get_queue_handle(&self, queue_type: QueueType) -> (queue: u64)
        requires
            queue_type != QueueType::Transfer,
        ensures
            queue == match queue_type {
                QueueType::Graphics => self.graphics_queue,
                _ => self.present_queue,
            },
    {
        match queue_type {
            QueueType::Graphics => self.graphics_queue,
            _ => self.present_queue,
        }
    }

    /// The family index of the queue of the given kind. Transfer queues
    /// are not created.
    pub fn get_queue_family_index(&self, queue_type: QueueType) -> (index: u32)
        requires
            queue_type != QueueType::Transfer,
        ensures
            index == match queue_type {
                QueueType::Graphics => self.graphics_index,
                _ => self.present_index,
            },
    {
        match queue_type {
            QueueType::Graphics => self.graphics_index,
            _ => self.present_index,
        }
    }
}

} // verus!
