//! The kinds of inbound telemetry, and the consumer that reports them.

use vstd::prelude::*;

verus! {

/// The variant of an inbound record's payload.
#[derive(Clone, Copy, Debug, PartialEq, Eq, Structural)]
pub enum DataKind {
    /// A range-scan matrix.
    Lidar,
    /// A volumetric image tensor.
    Image3D,
    /// A discrete command code.
    GameCommand,
}

/// The word that reports each kind of record.
pub open spec fn kind_label(kind: DataKind) -> Seq<char> {
    match kind {
        DataKind::Lidar => "lidar"@,
        DataKind::Image3D => "3d Image"@,
        DataKind::GameCommand => "Command"@,
    }
}

/// A consumer that reports each record's kind and timestamp.
pub struct CustomHandler;

impl CustomHandler {
    /// The word under which a record of this kind is reported.
    pub fn describe(&self, kind: DataKind) -> (r: &'static str)
        ensures
            r@ == kind_label(kind),
    {
        match kind {
            DataKind::Lidar => "lidar",
            DataKind::Image3D => "3d Image",
            DataKind::GameCommand => "Command",
        }
    }
}

} // verus!
