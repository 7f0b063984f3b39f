//! The failures that the engine reports.

use vstd::prelude::*;

verus! {

/// A channel refused an operation.
#[derive(Clone, Copy, PartialEq, Eq, Structural, Debug)]
pub enum ChannelError {
    /// The channel holds nothing to read.
    EmptyChannelRead,
    /// A single-writer channel was given several values in one superstep.
    MultipleValues,
    /// The operation exists only on a concrete kind of channel.
    NotImplemented,
    /// The version counter of a channel that changed cannot advance any further.
    VersionExhausted,
}

/// A graph descriptor that cannot be run.
#[derive(Clone, Copy, PartialEq, Eq, Structural, Debug)]
pub enum ConfigError {
    /// An edge names a node that the graph does not have.
    DanglingEdge,
    /// Two nodes, or two channels, share an id.
    DuplicateId,
    /// An input or output channel, or a channel that a node names, is not declared.
    MissingChannel,
}

} // verus!
