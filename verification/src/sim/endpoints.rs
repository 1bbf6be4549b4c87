//! The addresses of the service's resources, and where a run is kept on disk.

use vstd::prelude::*;

verus! {

/// The address of the collection of simulations.
pub open spec fn simulations_address(api_url: Seq<char>) -> Seq<char> {
    api_url + "/simulations"@
}

/// The address of the simulation `key`.
pub open spec fn simulation_address(api_url: Seq<char>, key: Seq<char>) -> Seq<char> {
    api_url + "/simulations/"@ + key
}

/// The address of the collection of runs.
pub open spec fn runs_address(api_url: Seq<char>) -> Seq<char> {
    api_url + "/simulationRuns"@
}

/// The address of the resource `part` of the run `id`.
pub open spec fn run_part_address(api_url: Seq<char>, id: Seq<char>, part: Seq<char>) -> Seq<char> {
    api_url + "/simulationRuns/"@ + id + "/"@ + part
}

/// How a simulation is pushed to the service.
#[derive(Debug)]
pub enum PushRequest {
    /// The document has no key: a simulation is created by a POST to `url`.
    Create { url: String },
    /// The document has a key: the simulation of that key is created or
    /// replaced by a PUT to `url`.
    Replace { url: String },
}

/// The request that pushes a simulation whose document has the key `key`, or
/// none.
pub fn push_request(api_url: &str, key: Option<&str>) -> (r: PushRequest)
    ensures
        match key {
            Some(key) => r matches PushRequest::Replace { url } && url@ == simulation_address(
                api_url@,
                key@,
            ),
            None => r matches PushRequest::Create { url } && url@ == simulations_address(api_url@),
        },
{
    match key {
        Some(key) => PushRequest::Replace {
            url: api_url.to_owned().concat("/simulations/").concat(key),
        },
        None => PushRequest::Create { url: api_url.to_owned().concat("/simulations") },
    }
}

/// The address at which runs are created.
pub fn runs_url(api_url: &str) -> (r: String)
    ensures
        r@ == runs_address(api_url@),
{
    api_url.to_owned().concat("/simulationRuns")
}

fn run_part_url(api_url: &str, id: &str, part: &str) -> (r: String)
    ensures
        r@ == run_part_address(api_url@, id@, part@),
{
    api_url.to_owned().concat("/simulationRuns/").concat(id).concat("/").concat(part)
}

/// The address of the entities that the service resolved for the run `id`.
pub fn run_entities_url(api_url: &str, id: &str) -> (r: String)
    ensures
        r@ == run_part_address(api_url@, id@, "entities"@),
{
    run_part_url(api_url, id, "entities")
}

/// The address of the systems that the service resolved for the run `id`.
pub fn run_systems_url(api_url: &str, id: &str) -> (r: String)
    ensures
        r@ == run_part_address(api_url@, id@, "systems"@),
{
    run_part_url(api_url, id, "systems")
}

/// The address of the record stream of the run `id`.
pub fn run_stream_url(api_url: &str, id: &str) -> (r: String)
    ensures
        r@ == run_part_address(api_url@, id@, "stream"@),
{
    run_part_url(api_url, id, "stream")
}

/// The directory that holds what the run `id` leaves on disk.
pub fn run_directory(id: &str) -> (r: String)
    ensures
        r@ == ".rngo/runs/"@ + id@,
{
    ".rngo/runs/".to_owned().concat(id)
}

/// What is printed once a run has been drained to disk: four lines, which
/// name the run's directory and the pages of the simulation and of the run.
pub fn run_summary(simulation_key: &str, run_id: &str) -> (r: Vec<String>)
    ensures
        r@.len() == 4,
        r@[0]@ == "Created and ran simulation"@,
        r@[1]@ == "  fs:  .rngo/runs/"@ + run_id@,
        r@[2]@ == "  sim: https://rngo.dev/simulations/"@ + simulation_key@,
        r@[3]@ == "  run: https://rngo.dev/simulationRuns/"@ + run_id@,
{
    let mut lines: Vec<String> = Vec::new();
    lines.push("Created and ran simulation".to_owned());
    lines.push("  fs:  .rngo/runs/".to_owned().concat(run_id));
    lines.push("  sim: https://rngo.dev/simulations/".to_owned().concat(simulation_key));
    lines.push("  run: https://rngo.dev/simulationRuns/".to_owned().concat(run_id));
    lines
}

} // verus!
