//! A simulator for networks of spiking point neurons joined by plastic,
//! delayed synapses.
//!
//! Neurons accumulate input, integrate their membrane state once per tick,
//! and fire when they cross a threshold.  Synapses carry a weight, a
//! transmission delay measured in whole ticks, and a plasticity rule that
//! adjusts the weight whenever either endpoint fires.  A network owns dense
//! arenas of neurons and synapses, adjacency lists in both directions, and a
//! wheel scheduler that delivers each spike exactly once, after its synapse's
//! delay.
//!
//! Every scalar quantity (potentials, weights, times) is an [`fixed::Fx`]
//! fixed-point value with six decimal places, so the whole update rule is
//! expressible — and verified — in integer arithmetic.

pub mod fastexp;
pub mod fixed;
pub mod identifier;
pub mod izhikevich;
pub mod network;
pub mod neuron;
pub mod scheduler;
pub mod stdp;
pub mod sym;
pub mod synapse;
pub mod trace;
pub mod traces;

pub use crate::network::Network;
pub use crate::neuron::Neuron;
pub use crate::synapse::Synapse;
pub use crate::trace::Trace;
