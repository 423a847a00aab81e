//! How a round ends: the guess that ends it and the resolution it gives.

use vstd::prelude::*;
use vstd::string::*;

verus! {

/// The side that won a round.
#[derive(Clone, Copy, Debug, PartialEq, Eq, Structural)]
pub enum RoundWinner {
    Crew,
    Imposter,
}

/// The move that ends a round.
#[derive(Clone, Copy, Debug, PartialEq, Eq, Structural)]
pub enum GuessAction {
    /// A civilian names a player as the impostor.
    AccusePlayer { accused_id: u128 },
    /// The impostor names the secret location.
    GuessLocation { location_id: u32 },
}

/// What happened at the end of a round.
#[derive(Debug, PartialEq, Eq)]
pub enum RoundOutcome {
    CrewIdentifiedImposter { accuser: u128, impostor: u128 },
    CrewMisdirected { accuser: u128, accused: u128, impostor: u128 },
    ImposterIdentifiedLocation { impostor: u128, location_id: u32, location_name: String },
    ImposterFailedLocationGuess {
        impostor: u128,
        guessed_location_id: u32,
        actual_location_id: u32,
        actual_location_name: String,
    },
}

/// An outcome as mathematical values.
pub enum OutcomeModel {
    CrewIdentifiedImposter { accuser: u128, impostor: u128 },
    CrewMisdirected { accuser: u128, accused: u128, impostor: u128 },
    ImposterIdentifiedLocation { impostor: u128, location_id: u32, location_name: Seq<char> },
    ImposterFailedLocationGuess {
        impostor: u128,
        guessed_location_id: u32,
        actual_location_id: u32,
        actual_location_name: Seq<char>,
    },
}

impl DeepView for RoundOutcome {
    type V = OutcomeModel;

    open spec fn deep_view(&self) -> OutcomeModel {
        match self {
            RoundOutcome::CrewIdentifiedImposter { accuser, impostor } => {
                OutcomeModel::CrewIdentifiedImposter { accuser: *accuser, impostor: *impostor }
            },
            RoundOutcome::CrewMisdirected { accuser, accused, impostor } => {
                OutcomeModel::CrewMisdirected {
                    accuser: *accuser,
                    accused: *accused,
                    impostor: *impostor,
                }
            },
            RoundOutcome::ImposterIdentifiedLocation { impostor, location_id, location_name } => {
                OutcomeModel::ImposterIdentifiedLocation {
                    impostor: *impostor,
                    location_id: *location_id,
                    location_name: location_name@,
                }
            },
            RoundOutcome::ImposterFailedLocationGuess {
                impostor,
                guessed_location_id,
                actual_location_id,
                actual_location_name,
            } => OutcomeModel::ImposterFailedLocationGuess {
                impostor: *impostor,
                guessed_location_id: *guessed_location_id,
                actual_location_id: *actual_location_id,
                actual_location_name: actual_location_name@,
            },
        }
    }
}

impl Clone for RoundOutcome {
    fn clone(&self) -> (r: Self)
        ensures
            r.deep_view() == self.deep_view(),
    {
        match self {
            RoundOutcome::CrewIdentifiedImposter { accuser, impostor } => {
                RoundOutcome::CrewIdentifiedImposter { accuser: *accuser, impostor: *impostor }
            },
            RoundOutcome::CrewMisdirected { accuser, accused, impostor } => {
                RoundOutcome::CrewMisdirected {
                    accuser: *accuser,
                    accused: *accused,
                    impostor: *impostor,
                }
            },
            RoundOutcome::ImposterIdentifiedLocation { impostor, location_id, location_name } => {
                RoundOutcome::ImposterIdentifiedLocation {
                    impostor: *impostor,
                    location_id: *location_id,
                    location_name: location_name.clone(),
                }
            },
            RoundOutcome::ImposterFailedLocationGuess {
                impostor,
                guessed_location_id,
                actual_location_id,
                actual_location_name,
            } => RoundOutcome::ImposterFailedLocationGuess {
                impostor: *impostor,
                guessed_location_id: *guessed_location_id,
                actual_location_id: *actual_location_id,
                actual_location_name: actual_location_name.clone(),
            },
        }
    }
}

/// The end of a round: who won, how, and when.
#[derive(Debug, PartialEq, Eq)]
pub struct RoundResolution {
    pub winner: RoundWinner,
    pub outcome: RoundOutcome,
    pub ended_at_ms: u64,
}

/// A resolution as mathematical values.
pub struct ResolutionModel {
    pub winner: RoundWinner,
    pub outcome: OutcomeModel,
    pub ended_at_ms: u64,
}

impl DeepView for RoundResolution {
    type V = ResolutionModel;

    open spec fn deep_view(&self) -> ResolutionModel {
        ResolutionModel {
            winner: self.winner,
            outcome: self.outcome.deep_view(),
            ended_at_ms: self.ended_at_ms,
        }
    }
}

impl Clone for RoundResolution {
    fn clone(&self) -> (r: Self)
        ensures
            r.deep_view() == self.deep_view(),
    {
        RoundResolution {
            winner: self.winner,
            outcome: self.outcome.clone(),
            ended_at_ms: self.ended_at_ms,
        }
    }
}

/// A finished round as the room remembers it.
#[derive(Debug, PartialEq, Eq)]
pub struct RoundSummary {
    pub round_number: u32,
    pub resolution: RoundResolution,
}

/// A summary as mathematical values.
pub struct SummaryModel {
    pub round_number: u32,
    pub resolution: ResolutionModel,
}

impl DeepView for RoundSummary {
    type V = SummaryModel;

    open spec fn deep_view(&self) -> SummaryModel {
        SummaryModel {
            round_number: self.round_number,
            resolution: self.resolution.deep_view(),
        }
    }
}

impl Clone for RoundSummary {
    fn clone(&self) -> (r: Self)
        ensures
            r.deep_view() == self.deep_view(),
    {
        RoundSummary { round_number: self.round_number, resolution: self.resolution.clone() }
    }
}

/// A copy of an optional resolution.
pub fn copy_resolution(value: &Option<RoundResolution>) -> (r: Option<RoundResolution>)
    ensures
        r.deep_view() == value.deep_view(),
{
    match value {
        Some(resolution) => Some(resolution.clone()),
        None => None,
    }
}

/// A copy of an optional summary.
pub fn copy_summary(value: &Option<RoundSummary>) -> (r: Option<RoundSummary>)
    ensures
        r.deep_view() == value.deep_view(),
{
    match value {
        Some(summary) => Some(summary.clone()),
        None => None,
    }
}

/// A copy of a list of summaries.
pub fn copy_history(list: &Vec<RoundSummary>) -> (r: Vec<RoundSummary>)
    ensures
        r.deep_view() == list.deep_view(),
{
    let mut out: Vec<RoundSummary> = Vec::new();
    let mut i: usize = 0;
    while i < list.len()
        invariant
            i <= list.len(),
            out.len() == i,
            forall|k: int| 0 <= k < i ==> out[k].deep_view() == list[k].deep_view(),
        decreases list.len() - i,
    {
        out.push(list[i].clone());
        i += 1;
    }
    assert(out.deep_view() =~= list.deep_view());
    out
}

} // verus!
