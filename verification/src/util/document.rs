//! The simulation document of a project: which members it is put together
//! from.
//!
//! A project keeps its entities and systems in files of their own, and may
//! keep the rest of the document in a base file. What each file holds is read
//! elsewhere; here it is decided what the document is made of.

use vstd::prelude::*;

verus! {

/// One member that the document gets, on top of what the base file holds.
#[derive(Debug)]
pub enum Member {
    /// `seed`, with this number.
    Seed(u64),
    /// `key`, with this text.
    Key(String),
    /// `systems`, with the systems of the project under their names.
    Systems,
    /// `entities`, with the entities of the project under their names.
    Entities,
}

/// A member, as contracts see it.
pub enum MemberView {
    Seed(u64),
    Key(Seq<char>),
    Systems,
    Entities,
}

impl View for Member {
    type V = MemberView;

    open spec fn view(&self) -> MemberView {
        match self {
            Member::Seed(seed) => MemberView::Seed(*seed),
            Member::Key(key) => MemberView::Key(key@),
            Member::Systems => MemberView::Systems,
            Member::Entities => MemberView::Entities,
        }
    }
}

impl Member {
    /// The name of the member in the document.
    pub open spec fn name_text(&self) -> Seq<char> {
        match self {
            Member::Seed(_) => "seed"@,
            Member::Key(_) => "key"@,
            Member::Systems => "systems"@,
            Member::Entities => "entities"@,
        }
    }

    /// The name of the member in the document.
    pub fn name(&self) -> (r: &'static str)
        ensures
            r@ == self.name_text(),
    {
        match self {
            Member::Seed(_) => "seed",
            Member::Key(_) => "key",
            Member::Systems => "systems",
            Member::Entities => "entities",
        }
    }
}

/// Why no document can be put together.
#[derive(Clone, Copy, Debug, PartialEq, Eq, Structural)]
pub enum DocumentError {
    /// The project has no entities.
    NoEntities,
}

/// The seed of a project that has no base file.
pub const DEFAULT_SEED: u64 = 1;

/// The members of a document without base file: the default seed, and the
/// name of the project's directory as key, where that name is known.
pub open spec fn default_members(directory: Option<Seq<char>>) -> Seq<MemberView> {
    match directory {
        Some(name) => seq![MemberView::Seed(DEFAULT_SEED), MemberView::Key(name)],
        None => seq![MemberView::Seed(DEFAULT_SEED)],
    }
}

/// The members that the document gets, in order: the defaults where there is
/// no base file; then the systems, where the project has any; then the
/// entities.
pub open spec fn members_of(has_base: bool, directory: Option<Seq<char>>, systems: nat) -> Seq<
    MemberView,
> {
    (if has_base {
        Seq::empty()
    } else {
        default_members(directory)
    }) + (if systems > 0 {
        seq![MemberView::Systems]
    } else {
        Seq::empty()
    }) + seq![MemberView::Entities]
}

/// The members of `members`, as contracts see them.
pub open spec fn member_views(members: Seq<Member>) -> Seq<MemberView> {
    members.map_values(|member: Member| member@)
}

/// A project without entities has no document.
pub fn check_entities(entities: usize) -> (r: Result<(), DocumentError>)
    ensures
        r is Ok <==> entities > 0,
        r is Err ==> r == Err::<(), DocumentError>(DocumentError::NoEntities),
{
    if entities == 0 {
        Err(DocumentError::NoEntities)
    } else {
        Ok(())
    }
}

/// Decides what the document of a project is put together from, given
/// whether the project has a base file, the name of its directory where it
/// is known, and how many systems were found.
pub fn members(has_base: bool, directory: Option<String>, systems: usize) -> (r: Vec<Member>)
    ensures
        member_views(r@) == members_of(
            has_base,
            match directory {
                Some(name) => Some(name@),
                None => None,
            },
            systems as nat,
        ),
{
    let ghost name = match &directory {
        Some(name) => Some(name@),
        None => None,
    };
    let mut members: Vec<Member> = Vec::new();
    if !has_base {
        members.push(Member::Seed(DEFAULT_SEED));
        match directory {
            Some(name) => {
                members.push(Member::Key(name));
            },
            None => {},
        }
    }
    if systems > 0 {
        members.push(Member::Systems);
    }
    members.push(Member::Entities);
    members
}

/// The name of the member that says how a simulation hands out its records.
pub const OUTPUT_MEMBER: &'static str = "output";

/// The value of that member for a simulation whose records are streamed.
pub const STREAMED_OUTPUT: &'static str = "stream";

} // verus!
