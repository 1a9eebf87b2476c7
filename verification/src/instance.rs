//! Snapshots of a node's value.
use jiff::Zoned;
use vstd::prelude::*;

use crate::provider::now;

verus! {

/// What happened to the node when a snapshot was taken.
#[derive(Clone, Copy, Debug, PartialEq, Eq, Structural)]
pub enum InstanceType {
    Created,
    Deleted,
    Restored,
    Updated,
}

/// The value of a node at one point of its life.  A snapshot never changes
/// once it has been taken.
pub struct Instance {
    saved_at: Zoned,
    instance_type: InstanceType,
    value: String,
}

/// What a snapshot holds.
pub struct InstanceView {
    /// When the snapshot was taken.
    pub saved_at: Zoned,
    pub instance_type: InstanceType,
    pub value: Seq<char>,
}

impl View for Instance {
    type V = InstanceView;

    closed spec fn view(&self) -> InstanceView {
        InstanceView {
            saved_at: self.saved_at,
            instance_type: self.instance_type,
            value: self.value@,
        }
    }
}

impl InstanceView {
    /// The snapshot taken at `saved_at` that records the removal of the
    /// node this one belongs to: the same value under the kind `Deleted`.
    pub open spec fn deleted_child(self, saved_at: Zoned) -> InstanceView {
        InstanceView { saved_at, instance_type: InstanceType::Deleted, value: self.value }
    }

    /// The snapshot taken at `saved_at` that records the return of the node
    /// this one belongs to: the same value under the kind `Restored`.
    pub open spec fn restored_child(self, saved_at: Zoned) -> InstanceView {
        InstanceView { saved_at, instance_type: InstanceType::Restored, value: self.value }
    }
}

impl Instance {
    /// The first snapshot of a node, taken now.
    pub fn new_created(value: String) -> (instance: Instance)
        ensures
            instance@ == (InstanceView {
                saved_at: instance@.saved_at,
                instance_type: InstanceType::Created,
                value: value@,
            }),
    {
        Instance { saved_at: now(), instance_type: InstanceType::Created, value }
    }

    /// A snapshot of a new value, taken now.
    pub fn new_updated(value: String) -> (instance: Instance)
        ensures
            instance@ == (InstanceView {
                saved_at: instance@.saved_at,
                instance_type: InstanceType::Updated,
                value: value@,
            }),
    {
        Instance { saved_at: now(), instance_type: InstanceType::Updated, value }
    }

    /// A snapshot, taken now, that carries this one's value forward under
    /// the kind `Deleted`.
    pub fn deleted_child(&self) -> (instance: Instance)
        ensures
            instance@ == self@.deleted_child(instance@.saved_at),
    {
        Instance {
            saved_at: now(),
            instance_type: InstanceType::Deleted,
            value: self.value.clone(),
        }
    }

    /// A snapshot, taken now, that carries this one's value forward under
    /// the kind `Restored`.
    pub fn restored_child(&self) -> (instance: Instance)
        ensures
            instance@ == self@.restored_child(instance@.saved_at),
    {
        Instance {
            saved_at: now(),
            instance_type: InstanceType::Restored,
            value: self.value.clone(),
        }
    }

    /// The value this snapshot holds.
    pub fn value(&self) -> (value: &str)
        ensures
            value@ == self@.value,
    {
        self.value.as_str()
    }

    /// The kind of this snapshot.
    pub fn instance_type(&self) -> (kind: InstanceType)
        ensures
            kind == self@.instance_type,
    {
        self.instance_type
    }

    /// When this snapshot was taken.
    pub fn saved_at(&self) -> (saved_at: &Zoned)
        ensures
            *saved_at == self@.saved_at,
    {
        &self.saved_at
    }
}

} // verus!
