use vstd::prelude::*;

verus! {

/// The kinds of target selection a player can register for the day or night.
#[derive(Clone, Copy, Debug, PartialEq, Eq, Structural, Hash)]
pub enum ActionType {
    Eliminate,
    Infect,
    Paralyze,
    Spy,
    Cure,
    Psychoanalyze,
    Genomyze,
}

/// Menu label of each kind of action.
pub open spec fn menu_text(a: ActionType) -> Seq<char> {
    match a {
        ActionType::Eliminate => "Voter pour éliminer un·e de vos ami·e·s"@,
        ActionType::Infect => "Voter pour infecter un·e de ces sales humain·e·s"@,
        ActionType::Paralyze => "Voter pour paralyser un·e de ces sales humain·e·s"@,
        ActionType::Spy => "Surveiller un·e individu·e"@,
        ActionType::Cure => "Choisir un·e humain·e à soigner"@,
        ActionType::Psychoanalyze => "Choisir un·e client·e à psychanalyser"@,
        ActionType::Genomyze => "Choisir un génome à inspecter"@,
    }
}

/// Header shown above the target list of each kind of action.
pub open spec fn header_text(a: ActionType) -> Seq<char> {
    match a {
        ActionType::Eliminate => "Choisissez un·e camarade à éliminer:"@,
        ActionType::Infect => "Choisissez un·e humain·e à infecter:"@,
        ActionType::Paralyze => "Choisissez un·e humain·e à paralyser:"@,
        ActionType::Spy => "Choisissez qui vous allez stalker cette nuit:"@,
        ActionType::Cure => "Choisissez un·e humain·e à soigner:"@,
        ActionType::Psychoanalyze => "Choisissez votre client:"@,
        ActionType::Genomyze => "Choisissez votre cobaye:"@,
    }
}

/// The menu label of `action`.
pub fn get_menu_text(action: ActionType) -> (r: String)
    ensures
        r@ == menu_text(action),
{
    let s = match action {
        ActionType::Eliminate => "Voter pour éliminer un·e de vos ami·e·s",
        ActionType::Infect => "Voter pour infecter un·e de ces sales humain·e·s",
        ActionType::Paralyze => "Voter pour paralyser un·e de ces sales humain·e·s",
        ActionType::Spy => "Surveiller un·e individu·e",
        ActionType::Cure => "Choisir un·e humain·e à soigner",
        ActionType::Psychoanalyze => "Choisir un·e client·e à psychanalyser",
        ActionType::Genomyze => "Choisir un génome à inspecter",
    };
    s.to_string()
}

/// The header shown when picking a target for `action`.
pub fn get_header_text(action: ActionType) -> (r: String)
    ensures
        r@ == header_text(action),
{
    let s = match action {
        ActionType::Eliminate => "Choisissez un·e camarade à éliminer:",
        ActionType::Infect => "Choisissez un·e humain·e à infecter:",
        ActionType::Paralyze => "Choisissez un·e humain·e à paralyser:",
        ActionType::Spy => "Choisissez qui vous allez stalker cette nuit:",
        ActionType::Cure => "Choisissez un·e humain·e à soigner:",
        ActionType::Psychoanalyze => "Choisissez votre client:",
        ActionType::Genomyze => "Choisissez votre cobaye:",
    };
    s.to_string()
}

} // verus!
