//! The resources of the service, as the client holds them.

use vstd::prelude::*;

verus! {

/// How the records of an entity or a system are written down.
#[derive(Clone, Copy, Debug, PartialEq, Eq, Structural)]
pub enum FormatType {
    /// Each record is a statement, written as it is.
    Sql,
    /// Each record is a JSON value, written in compact form.
    Json,
}

impl FormatType {
    /// The extension of a file that holds records in this format.
    pub open spec fn extension_text(self) -> Seq<char> {
        match self {
            FormatType::Sql => "sql"@,
            FormatType::Json => "jsonl"@,
        }
    }

    /// The extension of a file that holds records in this format.
    pub fn extension(self) -> (r: &'static str)
        ensures
            r@ == self.extension_text(),
    {
        match self {
            FormatType::Sql => "sql",
            FormatType::Json => "jsonl",
        }
    }
}

/// The format of an entity or of a system.
#[derive(Clone, Debug)]
pub struct Format {
    pub otype: FormatType,
}

/// How the records destined for a system get into it.
#[derive(Clone, Debug)]
pub struct SystemImport {
    /// A command line; the process it starts reads the records on its
    /// standard input.
    pub command: String,
}

/// What a system tells about itself to whoever infers entities for it.
#[derive(Clone, Debug)]
pub struct SystemInferContext {
    pub description: Option<String>,
    /// A command line whose output describes the system.
    pub command: Option<String>,
}

/// The inference settings of a system.
#[derive(Clone, Debug)]
pub struct SystemInfer {
    pub context: Option<SystemInferContext>,
}

/// A named destination that entities can share.
#[derive(Clone, Debug)]
pub struct System {
    pub key: String,
    pub format: Format,
    pub import: SystemImport,
    pub infer: Option<SystemInfer>,
}

/// The reference of an entity to a system, by the system's key.
#[derive(Clone, Debug)]
pub struct EntitySystem {
    pub stype: String,
}

/// A named stream of records.
///
/// Where `system` is given it decides where and how the records are written,
/// and `format` is not looked at.
#[derive(Clone, Debug)]
pub struct Entity {
    pub key: String,
    pub format: Option<Format>,
    pub system: Option<EntitySystem>,
}

/// A simulation, as the service created it.
#[derive(Clone, Debug)]
pub struct Simulation {
    pub key: String,
    pub id: String,
    pub seed: u64,
    /// The simulation that this one descends from.
    pub parent: Option<String>,
}

/// One execution of a simulation.
#[derive(Clone, Debug)]
pub struct SimulationRun {
    pub id: String,
}

/// A run with the entities and systems that the service resolved for it.
#[derive(Clone, Debug)]
pub struct SimulationRunData {
    pub id: String,
    pub entities: Vec<Entity>,
    pub systems: Vec<System>,
}

} // verus!
