use vstd::prelude::*;

verus! {

/// The closed set of roles a player may hold for the whole game.
#[derive(Clone, Copy, Debug, PartialEq, Eq, Structural, Hash, PartialOrd, Ord)]
pub enum Role {
    Patient0,
    Physician,
    Psychologist,
    ITEngineer,
    Spy,
    Geneticist,
    Hacker,
    Traitor,
    Astronaut,
}

/// Display label of each role.
pub open spec fn role_label(r: Role) -> Seq<char> {
    match r {
        Role::Patient0 => "Patient·e 0"@,
        Role::Psychologist => "Psychologue"@,
        Role::Physician => "Médecin"@,
        Role::Geneticist => "Geneticien·ne"@,
        Role::ITEngineer => "Informaticien·ne"@,
        Role::Spy => "Espion·ne"@,
        Role::Hacker => "Hacker·euse"@,
        Role::Traitor => "Traitre·sse"@,
        Role::Astronaut => "Astronaute"@,
    }
}

impl Role {
    /// The role's display label.
    pub fn to_string(&self) -> (r: String)
        ensures
            r@ == role_label(*self),
    {
        let s = match self {
            Role::Patient0 => "Patient·e 0",
            Role::Psychologist => "Psychologue",
            Role::Physician => "Médecin",
            Role::Geneticist => "Geneticien·ne",
            Role::ITEngineer => "Informaticien·ne",
            Role::Spy => "Espion·ne",
            Role::Hacker => "Hacker·euse",
            Role::Traitor => "Traitre·sse",
            Role::Astronaut => "Astronaute",
        };
        s.to_string()
    }
}

} // verus!
