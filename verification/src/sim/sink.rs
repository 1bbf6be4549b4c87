//! Where the records of a run go.
//!
//! A sink is planned once per run from the entities and systems that the
//! service resolved: which processes to start, which files to open, and which
//! of them the records of each entity are written to. Routing an event then
//! decides what is to be written where; the writing itself is left to the
//! owner of the processes and files.

use crate::sim::{decode_json_string, json_string_value, EventData};
use crate::util::model::{Entity, FormatType, SimulationRunData, System};
use crate::util::text::{split_whitespace, str_eq, string_views, words};
use vstd::prelude::*;

verus! {

/// What tells one destination from another: the system's key for a process,
/// which the entities of that system share; the format and the entity's key
/// for a file, which belongs to one entity.
pub enum SinkKey {
    System(Seq<char>),
    File(FormatType, Seq<char>),
}

/// The key of the system `name`, where `format` is `None`, or of the file of
/// the entity `name` in `format`.
pub open spec fn key_of(format: Option<FormatType>, name: Seq<char>) -> SinkKey {
    match format {
        Some(f) => SinkKey::File(f, name),
        None => SinkKey::System(name),
    }
}

/// A destination to open before the first record arrives.
#[derive(Debug)]
pub enum SinkTarget {
    /// The import command of a system: `program` is started with `args`, and
    /// reads the records on its standard input.
    Process { system: String, command: String, program: String, args: Vec<String> },
    /// The file of an entity that has a format and no system: records are
    /// appended to `file_name` in the run's directory.
    File { entity: String, format: FormatType, file_name: String },
}

/// A destination, as contracts see it.
pub enum TargetView {
    Process { system: Seq<char>, command: Seq<char>, program: Seq<char>, args: Seq<Seq<char>> },
    File { entity: Seq<char>, format: FormatType, file_name: Seq<char> },
}

impl TargetView {
    /// The key under which the destination is held.
    pub open spec fn key(self) -> SinkKey {
        match self {
            TargetView::Process { system, .. } => SinkKey::System(system),
            TargetView::File { entity, format, .. } => SinkKey::File(format, entity),
        }
    }
}

impl View for SinkTarget {
    type V = TargetView;

    open spec fn view(&self) -> TargetView {
        match self {
            SinkTarget::Process { system, command, program, args } => TargetView::Process {
                system: system@,
                command: command@,
                program: program@,
                args: string_views(args@),
            },
            SinkTarget::File { entity, format, file_name } => TargetView::File {
                entity: entity@,
                format: *format,
                file_name: file_name@,
            },
        }
    }
}

/// The destinations that `sinks` hold.
pub open spec fn target_views(sinks: Seq<SinkTarget>) -> Seq<TargetView> {
    sinks.map_values(|sink: SinkTarget| sink@)
}

/// Why no sink can be planned for a run.
#[derive(Debug)]
pub enum SinkError {
    /// `entity` refers to a system that the run does not have.
    UnknownSystem { entity: String, system: String },
    /// The import command of `system` names no program.
    EmptyCommand { system: String, command: String },
}

/// An error, as contracts see it.
pub enum SinkErrorView {
    UnknownSystem { entity: Seq<char>, system: Seq<char> },
    EmptyCommand { system: Seq<char>, command: Seq<char> },
}

impl View for SinkError {
    type V = SinkErrorView;

    open spec fn view(&self) -> SinkErrorView {
        match self {
            SinkError::UnknownSystem { entity, system } => SinkErrorView::UnknownSystem {
                entity: entity@,
                system: system@,
            },
            SinkError::EmptyCommand { system, command } => SinkErrorView::EmptyCommand {
                system: system@,
                command: command@,
            },
        }
    }
}

impl SinkError {
    /// The text of the error.
    pub open spec fn text(&self) -> Seq<char> {
        match self {
            SinkError::UnknownSystem { system, .. } => "Could not resolve system type "@ + system@,
            SinkError::EmptyCommand { system, command } => spawn_failure_text(system@, command@),
        }
    }

    /// Renders the error.
    pub fn to_string(&self) -> (r: String)
        ensures
            r@ == self.text(),
    {
        match self {
            SinkError::UnknownSystem { system, .. } => "Could not resolve system type ".to_owned().concat(
                system.as_str(),
            ),
            SinkError::EmptyCommand { system, command } => spawn_failure(
                system.as_str(),
                command.as_str(),
            ),
        }
    }
}

/// What is said when the import command of `system` cannot be run.
pub open spec fn spawn_failure_text(system: Seq<char>, command: Seq<char>) -> Seq<char> {
    "Could not run import command for system "@ + system + ":\n\n"@ + command
}

/// What is said when the import command of `system` cannot be run.
pub fn spawn_failure(system: &str, command: &str) -> (r: String)
    ensures
        r@ == spawn_failure_text(system@, command@),
{
    "Could not run import command for system ".to_owned().concat(system).concat(":\n\n").concat(
        command,
    )
}

/// The system with key `key` among `systems`; the last one, should several
/// have that key.
pub open spec fn system_named(systems: Seq<System>, key: Seq<char>) -> Option<System>
    decreases systems.len(),
{
    if systems.len() == 0 {
        None
    } else if systems.last().key@ == key {
        Some(systems.last())
    } else {
        system_named(systems.drop_last(), key)
    }
}

/// The name of the file that holds the records of the entity `key` in
/// `format`.
pub open spec fn file_name_of(key: Seq<char>, format: FormatType) -> Seq<char> {
    key + "."@ + format.extension_text()
}

/// Where the records of `entity` go: to the import command of its system, split
/// on whitespace into a program and its arguments; without a system, to a
/// file named after the entity and its format; nowhere, without either. There
/// is no destination either where there is an error.
pub open spec fn target_of(entity: Entity, systems: Seq<System>) -> Option<TargetView> {
    match entity.system {
        Some(reference) => match system_named(systems, reference.stype@) {
            Some(system) => {
                let parts = words(system.import.command@);
                if parts.len() > 0 {
                    Some(
                        TargetView::Process {
                            system: reference.stype@,
                            command: system.import.command@,
                            program: parts[0],
                            args: parts.skip(1),
                        },
                    )
                } else {
                    None
                }
            },
            None => None,
        },
        None => match entity.format {
            Some(format) => Some(
                TargetView::File {
                    entity: entity.key@,
                    format: format.otype,
                    file_name: file_name_of(entity.key@, format.otype),
                },
            ),
            None => None,
        },
    }
}

/// The format in which the records of `entity` are written: that of its
/// system, which takes precedence, or else its own.
pub open spec fn format_of(entity: Entity, systems: Seq<System>) -> Option<FormatType> {
    match entity.system {
        Some(reference) => match system_named(systems, reference.stype@) {
            Some(system) => Some(system.format.otype),
            None => None,
        },
        None => match entity.format {
            Some(format) => Some(format.otype),
            None => None,
        },
    }
}

/// What is wrong with `entity`, if anything: its system is not among
/// `systems`, or that system's import command is blank.
pub open spec fn error_of(entity: Entity, systems: Seq<System>) -> Option<SinkErrorView> {
    match entity.system {
        Some(reference) => match system_named(systems, reference.stype@) {
            Some(system) => if words(system.import.command@).len() > 0 {
                None
            } else {
                Some(
                    SinkErrorView::EmptyCommand {
                        system: reference.stype@,
                        command: system.import.command@,
                    },
                )
            },
            None => Some(
                SinkErrorView::UnknownSystem { entity: entity.key@, system: reference.stype@ },
            ),
        },
        None => None,
    }
}

/// The keys of `targets`, in order.
pub open spec fn keys_of(targets: Seq<TargetView>) -> Seq<SinkKey> {
    targets.map_values(|target: TargetView| target.key())
}

/// The destinations to open for `entities`, in the order in which the entities
/// first need them: one for each key, however many entities share it.
pub open spec fn plan(entities: Seq<Entity>, systems: Seq<System>) -> Seq<TargetView>
    decreases entities.len(),
{
    if entities.len() == 0 {
        Seq::empty()
    } else {
        let before = plan(entities.drop_last(), systems);
        match target_of(entities.last(), systems) {
            Some(target) => if keys_of(before).contains(target.key()) {
                before
            } else {
                before.push(target)
            },
            None => before,
        }
    }
}

/// Where and how the records of the entity `key` are written: as the last of
/// `entities` with that key and a destination has it.
pub open spec fn route_of(entities: Seq<Entity>, systems: Seq<System>, key: Seq<char>) -> Option<
    (TargetView, FormatType),
>
    decreases entities.len(),
{
    if entities.len() == 0 {
        None
    } else {
        let entity = entities.last();
        if entity.key@ == key && target_of(entity, systems) is Some {
            Some((target_of(entity, systems).unwrap(), format_of(entity, systems).unwrap()))
        } else {
            route_of(entities.drop_last(), systems, key)
        }
    }
}

/// Finds the system with key `key`.
fn find_system(systems: &Vec<System>, key: &str) -> (r: Option<usize>)
    ensures
        match r {
            Some(k) => k < systems.len() && system_named(systems@, key@) == Some(systems@[k as int]),
            None => system_named(systems@, key@) is None,
        },
{
    let mut i: usize = systems.len();
    assert(systems@.take(i as int) =~= systems@);
    while i > 0
        invariant
            i <= systems.len(),
            system_named(systems@, key@) == system_named(systems@.take(i as int), key@),
        decreases i,
    {
        assert(systems@.take(i as int).drop_last() =~= systems@.take(i - 1));
        if str_eq(systems[i - 1].key.as_str(), key) {
            return Some(i - 1);
        }
        i -= 1;
    }
    None
}

/// Finds the destination of the system `name`, where `format` is `None`, or
/// the file of the entity `name` in `format`.
fn find_sink(sinks: &Vec<SinkTarget>, format: Option<FormatType>, name: &str) -> (r: Option<usize>)
    ensures
        match r {
            Some(k) => k < sinks.len() && sinks@[k as int]@.key() == key_of(format, name@),
            None => !keys_of(target_views(sinks@)).contains(key_of(format, name@)),
        },
{
    let mut i: usize = 0;
    while i < sinks.len()
        invariant
            i <= sinks.len(),
            forall|k: int| 0 <= k < i ==> sinks@[k]@.key() != key_of(format, name@),
        decreases sinks.len() - i,
    {
        let same = match (&sinks[i], format) {
            (SinkTarget::Process { system, .. }, None) => str_eq(system.as_str(), name),
            (SinkTarget::File { entity, format: held, .. }, Some(f)) => *held == f && str_eq(
                entity.as_str(),
                name,
            ),
            _ => false,
        };
        if same {
            return Some(i);
        }
        i += 1;
    }
    None
}

/// The first error among `entities`, in their order.
pub open spec fn first_error(entities: Seq<Entity>, systems: Seq<System>) -> Option<SinkErrorView>
    decreases entities.len(),
{
    if entities.len() == 0 {
        None
    } else {
        match error_of(entities[0], systems) {
            Some(error) => Some(error),
            None => first_error(entities.drop_first(), systems),
        }
    }
}

/// The first error is that of the first entity that has one.
proof fn lemma_first_error(entities: Seq<Entity>, systems: Seq<System>, n: int)
    requires
        0 <= n <= entities.len(),
        forall|k: int| 0 <= k < n ==> error_of(entities[k], systems) is None,
    ensures
        n < entities.len() && error_of(entities[n], systems) is Some ==> first_error(
            entities,
            systems,
        ) == error_of(entities[n], systems),
        n == entities.len() ==> first_error(entities, systems) is None,
    decreases n,
{
    if n > 0 {
        lemma_first_error(entities.drop_first(), systems, n - 1);
    }
}

/// Whether `target` is what its key stands for among `systems`: the import
/// command of the system of that key, or the file named after the entity and
/// the format.
pub open spec fn is_target_for_key(target: TargetView, systems: Seq<System>) -> bool {
    match target {
        TargetView::Process { system, command, program, args } => {
            &&& system_named(systems, system) matches Some(found)
            &&& command == found.import.command@
            &&& words(command).len() > 0
            &&& program == words(command)[0]
            &&& args == words(command).skip(1)
        },
        TargetView::File { entity, format, file_name } => file_name == file_name_of(entity, format),
    }
}

/// Every destination in a plan is what its key stands for, and no key occurs
/// twice: the entities of one system share one process, and every entity
/// without a system has a file of its own.
pub proof fn lemma_plan_keys(entities: Seq<Entity>, systems: Seq<System>)
    ensures
        forall|k: int|
            0 <= k < plan(entities, systems).len() ==> is_target_for_key(
                #[trigger] plan(entities, systems)[k],
                systems,
            ),
        forall|a: int, b: int|
            0 <= a < b < plan(entities, systems).len() ==> plan(entities, systems)[a].key()
                != plan(entities, systems)[b].key(),
    decreases entities.len(),
{
    if entities.len() > 0 {
        let before = plan(entities.drop_last(), systems);
        lemma_plan_keys(entities.drop_last(), systems);
        match target_of(entities.last(), systems) {
            Some(target) => {
                if !keys_of(before).contains(target.key()) {
                    let now = before.push(target);
                    assert forall|a: int, b: int| 0 <= a < b < now.len() implies now[a].key()
                        != now[b].key() by {
                        if b == before.len() {
                            assert(keys_of(before)[a] == before[a].key());
                        }
                    }
                }
            },
            None => {},
        }
    }
}

/// One entry of the routing table.
struct Route {
    entity: String,
    sink: usize,
    format: FormatType,
}

/// Where the records of one entity go: the position of the destination among
/// the sink's destinations, and the format in which they are written.
#[derive(Clone, Copy, Debug, PartialEq, Eq, Structural)]
pub struct RouteView {
    pub sink: usize,
    pub format: FormatType,
}

/// The routing table that `routes` stand for: a later entry for an entity
/// replaces an earlier one.
spec fn route_map(routes: Seq<Route>) -> Map<Seq<char>, RouteView>
    decreases routes.len(),
{
    if routes.len() == 0 {
        Map::empty()
    } else {
        route_map(routes.drop_last()).insert(
            routes.last().entity@,
            RouteView { sink: routes.last().sink, format: routes.last().format },
        )
    }
}

/// A sink, as contracts see it.
pub struct SinkView {
    /// Whether every event is echoed to standard output, and nothing is
    /// written anywhere else.
    pub stream: bool,
    /// The destinations, in the order in which they are to be opened.
    pub sinks: Seq<TargetView>,
    /// The destination and the format for each entity that has them.
    pub routes: Map<Seq<char>, RouteView>,
}

/// The sink of a run: the destinations of its records and the routing table.
///
/// Both are lists, the routing table searched from its end so that it reads
/// as a map from entity keys: vstd has no key model for `String`, and nothing
/// could be proved of a hash map keyed by it.
pub struct SimulationSink {
    routes: Vec<Route>,
    sinks: Vec<SinkTarget>,
    stream: bool,
}

impl View for SimulationSink {
    type V = SinkView;

    closed spec fn view(&self) -> SinkView {
        SinkView {
            stream: self.stream,
            sinks: target_views(self.sinks@),
            routes: route_map(self.routes@),
        }
    }
}

/// What is to be done with an event.
#[derive(Debug)]
pub enum SinkAction {
    /// Nothing: the event is dropped.
    Skip,
    /// The event's JSON encoding goes to the error channel.
    Report,
    /// The event's JSON encoding goes to standard output.
    Echo,
    /// `text`, which is one line with the newline that ends it, goes to the
    /// destination at position `sink`, which is then flushed.
    Write { sink: usize, text: String },
}

/// An action, as contracts see it.
pub enum ActionView {
    Skip,
    Report,
    Echo,
    Write { sink: usize, text: Seq<char> },
}

impl View for SinkAction {
    type V = ActionView;

    open spec fn view(&self) -> ActionView {
        match self {
            SinkAction::Skip => ActionView::Skip,
            SinkAction::Report => ActionView::Report,
            SinkAction::Echo => ActionView::Echo,
            SinkAction::Write { sink, text } => ActionView::Write { sink: *sink, text: text@ },
        }
    }
}

/// The line that a value makes in `format`: its JSON text for `Json`; for
/// `Sql` the string that it is, taken as it stands, and none where it is not
/// a string.
pub open spec fn line_of(format: FormatType, json: Seq<char>, string: Option<Seq<char>>) -> Option<
    Seq<char>,
> {
    match format {
        FormatType::Json => Some(json),
        FormatType::Sql => string,
    }
}

/// The line that a value makes in `format`, given its JSON text and, where it
/// is a string, that string.
pub fn serialize(format: FormatType, json: String, string: Option<String>) -> (r: Option<String>)
    ensures
        match r {
            Some(line) => line_of(
                format,
                json@,
                match string {
                    Some(s) => Some(s@),
                    None => None,
                },
            ) == Some(line@),
            None => format == FormatType::Sql && string is None,
        },
{
    match format {
        FormatType::Json => Some(json),
        FormatType::Sql => string,
    }
}

impl SinkView {
    /// What is to be done with `event`. In stream mode every event is echoed.
    /// Otherwise an error event is reported, and a record is written to the
    /// destination of its entity, as one line in that destination's format; it
    /// is dropped where its entity has no destination, or where the format
    /// asks for a string and the value is none.
    pub open spec fn action_for(self, event: EventData) -> ActionView {
        if self.stream {
            ActionView::Echo
        } else {
            match event {
                EventData::Error { .. } => ActionView::Report,
                EventData::Create { entity, value, .. } => if self.routes.contains_key(entity@) {
                    let route = self.routes[entity@];
                    match line_of(route.format, value.text@, json_string_value(value.text@)) {
                        Some(line) => ActionView::Write { sink: route.sink, text: line + "\n"@ },
                        None => ActionView::Skip,
                    }
                } else {
                    ActionView::Skip
                },
            }
        }
    }

    /// Every route leads to one of the destinations.
    pub open spec fn wf(self) -> bool {
        forall|key: Seq<char>| #[trigger]
            self.routes.contains_key(key) ==> self.routes[key].sink < self.sinks.len()
    }

    /// Whether the sink was planned for `entities` and `systems`: it has the
    /// destinations of their plan, and routes every entity as they say.
    pub open spec fn serves(self, entities: Seq<Entity>, systems: Seq<System>) -> bool {
        &&& !self.stream
        &&& self.sinks == plan(entities, systems)
        &&& forall|key: Seq<char>|
            match #[trigger] route_of(entities, systems, key) {
                Some((target, format)) => {
                    &&& self.routes.contains_key(key)
                    &&& self.routes[key].sink < self.sinks.len()
                    &&& self.sinks[self.routes[key].sink as int] == target
                    &&& self.routes[key].format == format
                },
                None => !self.routes.contains_key(key),
            }
    }
}

/// Two destinations that are what their keys stand for, under one key, are
/// one destination.
pub proof fn lemma_key_fixes_target(a: TargetView, b: TargetView, systems: Seq<System>)
    requires
        is_target_for_key(a, systems),
        is_target_for_key(b, systems),
        a.key() == b.key(),
    ensures
        a == b,
{
}

/// An entry added to the routing table replaces the entry of its entity and
/// leaves the others as they were.
proof fn lemma_route_map_push(routes: Seq<Route>, route: Route)
    ensures
        route_map(routes.push(route)) == route_map(routes).insert(
            route.entity@,
            RouteView { sink: route.sink, format: route.format },
        ),
{
    assert(routes.push(route).drop_last() =~= routes);
}

impl SimulationSink {
    #[verifier::type_invariant]
    spec fn routes_lead_to_sinks(self) -> bool {
        forall|i: int|
            0 <= i < self.routes@.len() ==> (#[trigger] self.routes@[i]).sink < self.sinks@.len()
    }

    proof fn lemma_routes_in_range(routes: Seq<Route>, bound: nat)
        requires
            forall|i: int| 0 <= i < routes.len() ==> (#[trigger] routes[i]).sink < bound,
        ensures
            forall|key: Seq<char>| #[trigger]
                route_map(routes).contains_key(key) ==> route_map(routes)[key].sink < bound,
        decreases routes.len(),
    {
        if routes.len() > 0 {
            Self::lemma_routes_in_range(routes.drop_last(), bound);
        }
    }

    /// The sink that echoes every event to standard output: it has no
    /// destinations and routes nothing.
    pub fn stream() -> (r: SimulationSink)
        ensures
            r@.stream,
            r@.sinks == Seq::<TargetView>::empty(),
            r@.routes == Map::<Seq<char>, RouteView>::empty(),
            r@.wf(),
    {
        let r = SimulationSink { routes: Vec::new(), sinks: Vec::new(), stream: true };
        r
    }

    /// Whether every event is echoed to standard output.
    pub fn is_stream(&self) -> (r: bool)
        ensures
            r == self@.stream,
    {
        self.stream
    }

    /// The destinations to open, in order. The position of a destination is
    /// what `write_event` names it by.
    pub fn sinks(&self) -> (r: &Vec<SinkTarget>)
        ensures
            target_views(r@) == self@.sinks,
    {
        &self.sinks
    }

    /// Where the records of `entity` go, if anywhere.
    pub fn route(&self, entity: &str) -> (r: Option<RouteView>)
        ensures
            r == if self@.routes.contains_key(entity@) {
                Some(self@.routes[entity@])
            } else {
                None
            },
            r matches Some(route) ==> route.sink < self@.sinks.len(),
    {
        proof {
            use_type_invariant(self);
        }
        let mut i: usize = self.routes.len();
        assert(self.routes@.take(i as int) =~= self.routes@);
        while i > 0
            invariant
                i <= self.routes.len(),
                self.routes_lead_to_sinks(),
                !route_map(self.routes@).contains_key(entity@) ==> !route_map(
                    self.routes@.take(i as int),
                ).contains_key(entity@),
                route_map(self.routes@).contains_key(entity@) ==> route_map(
                    self.routes@.take(i as int),
                ).contains_key(entity@) && route_map(self.routes@.take(i as int))[entity@]
                    == route_map(self.routes@)[entity@],
            decreases i,
        {
            assert(self.routes@.take(i as int).drop_last() =~= self.routes@.take(i - 1));
            let route = &self.routes[i - 1];
            if str_eq(route.entity.as_str(), entity) {
                return Some(RouteView { sink: route.sink, format: route.format });
            }
            i -= 1;
        }
        None
    }

    /// Decides what is to be done with an event.
    pub fn write_event(&self, event_data: EventData) -> (r: SinkAction)
        ensures
            r@ == self@.action_for(event_data),
            r matches SinkAction::Write { sink, .. } ==> sink < self@.sinks.len(),
    {
        if self.stream {
            return SinkAction::Echo;
        }
        match event_data {
            EventData::Error { .. } => SinkAction::Report,
            EventData::Create { entity, value, .. } => {
                match self.route(entity.as_str()) {
                    None => SinkAction::Skip,
                    Some(route) => {
                        let string = match route.format {
                            FormatType::Sql => decode_json_string(value.text.as_str()),
                            FormatType::Json => None,
                        };
                        match serialize(route.format, value.text, string) {
                            Some(line) => SinkAction::Write {
                                sink: route.sink,
                                text: line.concat("\n"),
                            },
                            None => SinkAction::Skip,
                        }
                    },
                }
            },
        }
    }

    /// Plans the sink of a run.
    ///
    /// Fails with the first error among the entities: a reference to a system
    /// that the run does not have, or a system whose import command is blank.
    /// Otherwise the sink has one destination for each system that an entity
    /// refers to and one for each entity that has a format and no system, and
    /// routes the records of each entity to its destination.
    pub fn try_from(run: SimulationRunData) -> (r: Result<SimulationSink, SinkError>)
        ensures
            match r {
                Ok(sink) => {
                    &&& first_error(run.entities@, run.systems@) is None
                    &&& sink@.serves(run.entities@, run.systems@)
                    &&& sink@.wf()
                },
                Err(error) => first_error(run.entities@, run.systems@) == Some(error@),
            },
    {
        let ghost entities = run.entities@;
        let ghost systems = run.systems@;
        let mut routes: Vec<Route> = Vec::new();
        let mut sinks: Vec<SinkTarget> = Vec::new();
        let mut i: usize = 0;
        while i < run.entities.len()
            invariant
                i <= run.entities.len(),
                entities == run.entities@,
                systems == run.systems@,
                forall|k: int| 0 <= k < i ==> error_of(entities[k], systems) is None,
                target_views(sinks@) == plan(entities.take(i as int), systems),
                forall|k: int| 0 <= k < routes@.len() ==> (#[trigger] routes@[k]).sink < sinks@.len(),
                forall|key: Seq<char>|
                    match #[trigger] route_of(entities.take(i as int), systems, key) {
                        Some((target, format)) => {
                            &&& route_map(routes@).contains_key(key)
                            &&& route_map(routes@)[key].sink < sinks@.len()
                            &&& sinks@[route_map(routes@)[key].sink as int]@ == target
                            &&& route_map(routes@)[key].format == format
                        },
                        None => !route_map(routes@).contains_key(key),
                    },
            decreases run.entities.len() - i,
        {
            let entity = &run.entities[i];
            let ghost seen = entities.take(i as int);
            let ghost now = entities.take(i + 1);
            let ghost old_routes = routes@;
            proof {
                assert(now.drop_last() =~= seen);
                lemma_plan_keys(seen, systems);
            }
            let found: Option<(SinkTarget, FormatType)> = match &entity.system {
                Some(reference) => {
                    match find_system(&run.systems, reference.stype.as_str()) {
                        None => {
                            proof {
                                lemma_first_error(entities, systems, i as int);
                            }
                            return Err(
                                SinkError::UnknownSystem {
                                    entity: entity.key.clone(),
                                    system: reference.stype.clone(),
                                },
                            );
                        },
                        Some(k) => {
                            let system = &run.systems[k];
                            let mut parts = split_whitespace(system.import.command.as_str());
                            if parts.len() == 0 {
                                proof {
                                    lemma_first_error(entities, systems, i as int);
                                }
                                return Err(
                                    SinkError::EmptyCommand {
                                        system: reference.stype.clone(),
                                        command: system.import.command.clone(),
                                    },
                                );
                            }
                            let ghost all = string_views(parts@);
                            let program = parts.remove(0);
                            assert(string_views(parts@) =~= all.skip(1));
                            Some(
                                (
                                    SinkTarget::Process {
                                        system: reference.stype.clone(),
                                        command: system.import.command.clone(),
                                        program,
                                        args: parts,
                                    },
                                    system.format.otype,
                                ),
                            )
                        },
                    }
                },
                None => match &entity.format {
                    Some(format) => {
                        let file_name = entity.key.clone().concat(".").concat(
                            format.otype.extension(),
                        );
                        Some(
                            (
                                SinkTarget::File {
                                    entity: entity.key.clone(),
                                    format: format.otype,
                                    file_name,
                                },
                                format.otype,
                            ),
                        )
                    },
                    None => None,
                },
            };
            match found {
                Some((target, format)) => {
                    let ghost wanted = target@;
                    let index = match Self::position(&sinks, &target) {
                        Some(index) => {
                            proof {
                                assert(keys_of(plan(seen, systems))[index as int]
                                    == plan(seen, systems)[index as int].key());
                                lemma_key_fixes_target(sinks@[index as int]@, wanted, systems);
                            }
                            index
                        },
                        None => {
                            sinks.push(target);
                            sinks.len() - 1
                        },
                    };
                    let route = Route { entity: entity.key.clone(), sink: index, format };
                    proof {
                        lemma_route_map_push(old_routes, route);
                    }
                    routes.push(route);
                    assert forall|key: Seq<char>|
                        match #[trigger] route_of(now, systems, key) {
                            Some((target, format)) => {
                                &&& route_map(routes@).contains_key(key)
                                &&& route_map(routes@)[key].sink < sinks@.len()
                                &&& sinks@[route_map(routes@)[key].sink as int]@ == target
                                &&& route_map(routes@)[key].format == format
                            },
                            None => !route_map(routes@).contains_key(key),
                        } by {
                        if key != entity.key@ && route_of(seen, systems, key) is Some {
                            assert(route_map(routes@)[key] == route_map(old_routes)[key]);
                        }
                    }
                },
                None => {
                    assert forall|key: Seq<char>|
                        route_of(now, systems, key) == route_of(seen, systems, key) by {}
                },
            }
            i += 1;
        }
        proof {
            assert(entities.take(i as int) =~= entities);
            lemma_first_error(entities, systems, i as int);
            Self::lemma_routes_in_range(routes@, sinks@.len() as nat);
        }
        Ok(SimulationSink { routes, sinks, stream: false })
    }

    /// The position among `sinks` of the destination that has the key of
    /// `target`.
    fn position(sinks: &Vec<SinkTarget>, target: &SinkTarget) -> (r: Option<usize>)
        ensures
            match r {
                Some(k) => k < sinks.len() && sinks@[k as int]@.key() == target@.key(),
                None => !keys_of(target_views(sinks@)).contains(target@.key()),
            },
    {
        match target {
            SinkTarget::Process { system, .. } => find_sink(sinks, None, system.as_str()),
            SinkTarget::File { entity, format, .. } => find_sink(
                sinks,
                Some(*format),
                entity.as_str(),
            ),
        }
    }
}

/// An entity none of whose entries has a destination has no route.
pub proof fn lemma_no_target_no_route(entities: Seq<Entity>, systems: Seq<System>, key: Seq<char>)
    requires
        forall|i: int|
            0 <= i < entities.len() && entities[i].key@ == key ==> target_of(entities[i], systems)
                is None,
    ensures
        route_of(entities, systems, key) is None,
    decreases entities.len(),
{
    if entities.len() > 0 {
        lemma_no_target_no_route(entities.drop_last(), systems, key);
    }
}

/// A record of an entity that the run does not have, or that has neither a
/// system nor a format, is dropped: nothing is written and nothing fails.
pub proof fn lemma_unrouted_record_is_dropped(
    sink: SinkView,
    entities: Seq<Entity>,
    systems: Seq<System>,
    event: EventData,
)
    requires
        sink.serves(entities, systems),
        event matches EventData::Create { entity, .. } && forall|i: int|
            0 <= i < entities.len() && entities[i].key@ == entity@ ==> target_of(
                entities[i],
                systems,
            ) is None,
    ensures
        sink.action_for(event) == ActionView::Skip,
{
    match event {
        EventData::Create { entity, .. } => {
            lemma_no_target_no_route(entities, systems, entity@);
        },
        _ => {},
    }
}

/// An entity that has a destination, and whose key no later entity has, is
/// routed to that destination, in its format.
pub proof fn lemma_route_of_entity(entities: Seq<Entity>, systems: Seq<System>, n: int)
    requires
        0 <= n < entities.len(),
        forall|j: int| n < j < entities.len() ==> entities[j].key@ != entities[n].key@,
        target_of(entities[n], systems) is Some,
    ensures
        route_of(entities, systems, entities[n].key@) == Some(
            (target_of(entities[n], systems).unwrap(), format_of(entities[n], systems).unwrap()),
        ),
    decreases entities.len(),
{
    if n < entities.len() - 1 {
        lemma_route_of_entity(entities.drop_last(), systems, n);
    }
}

/// The destination of an entity is in the plan.
pub proof fn lemma_plan_has_target(entities: Seq<Entity>, systems: Seq<System>, n: int)
    requires
        0 <= n < entities.len(),
        target_of(entities[n], systems) is Some,
    ensures
        plan(entities, systems).contains(target_of(entities[n], systems).unwrap()),
    decreases entities.len(),
{
    let before = entities.drop_last();
    let target = target_of(entities[n], systems).unwrap();
    if n < entities.len() - 1 {
        lemma_plan_has_target(before, systems, n);
        let k = choose|k: int| 0 <= k < plan(before, systems).len() && plan(before, systems)[k] == target;
        assert(plan(entities, systems)[k] == target);
    } else {
        let held = plan(before, systems);
        if keys_of(held).contains(target.key()) {
            let k = choose|k: int| 0 <= k < keys_of(held).len() && keys_of(held)[k] == target.key();
            lemma_plan_keys(before, systems);
            lemma_key_fixes_target(held[k], target, systems);
        } else {
            assert(plan(entities, systems)[held.len() as int] == target);
        }
    }
}

/// Two entities of one system share one process: both are routed to the same
/// destination, which is the import command of that system, and the sink has
/// no other destination for that system. An entity is routed as the last
/// entry of its key says, so neither key may occur again further on.
pub proof fn lemma_shared_system_shares_process(
    sink: SinkView,
    entities: Seq<Entity>,
    systems: Seq<System>,
    a: int,
    b: int,
)
    requires
        sink.serves(entities, systems),
        0 <= a < entities.len(),
        0 <= b < entities.len(),
        forall|j: int| a < j < entities.len() ==> entities[j].key@ != entities[a].key@,
        forall|j: int| b < j < entities.len() ==> entities[j].key@ != entities[b].key@,
        entities[a].system is Some,
        entities[b].system is Some,
        entities[a].system.unwrap().stype@ == entities[b].system.unwrap().stype@,
        target_of(entities[a], systems) is Some,
    ensures
        sink.routes.contains_key(entities[a].key@),
        sink.routes.contains_key(entities[b].key@),
        sink.routes[entities[a].key@].sink == sink.routes[entities[b].key@].sink,
        sink.routes[entities[a].key@].sink < sink.sinks.len(),
        sink.sinks[sink.routes[entities[a].key@].sink as int].key() == SinkKey::System(
            entities[a].system.unwrap().stype@,
        ),
        forall|k: int|
            0 <= k < sink.sinks.len() && sink.sinks[k].key() == SinkKey::System(
                entities[a].system.unwrap().stype@,
            ) ==> k == sink.routes[entities[a].key@].sink,
{
    lemma_route_of_entity(entities, systems, a);
    lemma_route_of_entity(entities, systems, b);
    lemma_plan_keys(entities, systems);
}

/// Two entities of different keys that have a format and no system never
/// share a destination: each is routed to a file of its own.
pub proof fn lemma_files_do_not_collide(
    sink: SinkView,
    entities: Seq<Entity>,
    systems: Seq<System>,
    a: int,
    b: int,
)
    requires
        sink.serves(entities, systems),
        0 <= a < entities.len(),
        0 <= b < entities.len(),
        entities[a].key@ != entities[b].key@,
        forall|j: int| a < j < entities.len() ==> entities[j].key@ != entities[a].key@,
        forall|j: int| b < j < entities.len() ==> entities[j].key@ != entities[b].key@,
        entities[a].system is None && entities[a].format is Some,
        entities[b].system is None && entities[b].format is Some,
    ensures
        sink.routes.contains_key(entities[a].key@),
        sink.routes.contains_key(entities[b].key@),
        sink.routes[entities[a].key@].sink != sink.routes[entities[b].key@].sink,
        sink.sinks[sink.routes[entities[a].key@].sink as int] == target_of(
            entities[a],
            systems,
        ).unwrap(),
{
    lemma_route_of_entity(entities, systems, a);
    lemma_route_of_entity(entities, systems, b);
}

} // verus!
