//! The structured pieces of a decoded blueprint library that carry plain
//! data: snapping, circuit connections, signals and the per-entity control
//! behaviors. The print containers around them hold floating-point entity
//! positions and timestamps, which Verus refuses, so they live with the
//! decoder that fills them.

use vstd::prelude::*;

verus! {

/// An empty placeholder for a book of prints; its content is not decoded.
#[derive(Debug)]
pub struct BlueprintBook {}

/// An empty placeholder for an upgrade plan; its content is not decoded.
#[derive(Debug)]
pub struct UpgradePlan {}

/// An empty placeholder for a deconstruction plan; its content is not
/// decoded.
#[derive(Debug)]
pub struct DeconstructionPlan {}

/// Grid snapping of a print: the grid size, and the absolute anchor when
/// absolute snapping is on — both zero otherwise.
#[derive(Debug, PartialEq, Eq, Clone, Copy)]
pub struct SnapToGrid {
    pub size: (u32, u32),
    pub absolute: (u32, u32),
}

/// The circuit wires of an entity: (entity id, circuit id) pairs per color.
#[derive(Debug)]
pub struct CircuitConnections {
    pub red: Vec<(usize, usize)>,
    pub green: Vec<(usize, usize)>,
}

/// Which namespace a signal's name lives in.
#[derive(Debug, PartialEq, Eq, Structural, Clone, Copy)]
pub enum SignalKind {
    Item,
    Fluid,
    Virtual,
}

/// One signal: its kind and its name, borrowed from the decoded buffer.
#[derive(Debug)]
pub struct Signal<'a> {
    pub kind: SignalKind,
    pub name: &'a str,
}

/// The decoded control behaviors of a roboport.
#[derive(Debug)]
pub struct Roboport<'a> {
    pub circuit_connections: Option<CircuitConnections>,
    pub read_logistics: bool,
    pub read_robot_stats: bool,
    pub available_logistic_output_signal: Option<Signal<'a>>,
    pub total_logistic_output_signal: Option<Signal<'a>>,
    pub available_construction_output_signal: Option<Signal<'a>>,
    pub total_construction_output_signal: Option<Signal<'a>>,
    pub roboport_count_output_signal: Option<Signal<'a>>,
}

/// The decoded shape of an underground belt.
#[derive(Debug, PartialEq, Eq, Structural, Clone, Copy)]
pub struct UndergroundBelt {
    pub direction: usize,
    pub output: bool,
}

/// The kinds of entity the decoder understands.
#[derive(Debug)]
pub enum EntityKind<'a> {
    Roboport(Roboport<'a>),
    ExpressUndergroundBelt(UndergroundBelt),
}

/// Whether the entity kind's name is the roboport's.
pub open spec fn kind_name(k: EntityKind) -> Seq<char> {
    match k {
        EntityKind::Roboport(_) => "roboport"@,
        EntityKind::ExpressUndergroundBelt(_) => "express-underground-belt"@,
    }
}

impl<'a> EntityKind<'a> {
    /// The prototype name of the entity kind.
    pub fn name(&self) -> (r: &'static str)
        ensures
            r@ == kind_name(*self),
    {
        match self {
            Self::Roboport(_) => "roboport",
            Self::ExpressUndergroundBelt(_) => "express-underground-belt",
        }
    }
}

} // verus!
