//! The phases of the dragon.

use vstd::prelude::*;

verus! {

/// What the dragon is up to.
#[derive(Clone, Copy, Debug, PartialEq, Eq, Structural)]
pub enum EnderDragonPhase {
    HoldingPattern,
    StrafePlayer,
    LandingApproach,
    Landing,
    Takeoff,
    SittingFlaming,
    SittingScanning,
    SittingAttacking,
    ChargingPlayer,
    Dying,
    Hovering,
}

impl EnderDragonPhase {
    /// The number a phase goes by, on the wire and in saves.
    pub open spec fn number(self) -> int {
        match self {
            EnderDragonPhase::HoldingPattern => 0,
            EnderDragonPhase::StrafePlayer => 1,
            EnderDragonPhase::LandingApproach => 2,
            EnderDragonPhase::Landing => 3,
            EnderDragonPhase::Takeoff => 4,
            EnderDragonPhase::SittingFlaming => 5,
            EnderDragonPhase::SittingScanning => 6,
            EnderDragonPhase::SittingAttacking => 7,
            EnderDragonPhase::ChargingPlayer => 8,
            EnderDragonPhase::Dying => 9,
            EnderDragonPhase::Hovering => 10,
        }
    }

    /// The phase that goes by a number; an unknown number is the holding pattern.
    pub open spec fn numbered(id: int) -> EnderDragonPhase {
        if id == 1 {
            EnderDragonPhase::StrafePlayer
        } else if id == 2 {
            EnderDragonPhase::LandingApproach
        } else if id == 3 {
            EnderDragonPhase::Landing
        } else if id == 4 {
            EnderDragonPhase::Takeoff
        } else if id == 5 {
            EnderDragonPhase::SittingFlaming
        } else if id == 6 {
            EnderDragonPhase::SittingScanning
        } else if id == 7 {
            EnderDragonPhase::SittingAttacking
        } else if id == 8 {
            EnderDragonPhase::ChargingPlayer
        } else if id == 9 {
            EnderDragonPhase::Dying
        } else if id == 10 {
            EnderDragonPhase::Hovering
        } else {
            EnderDragonPhase::HoldingPattern
        }
    }

    /// Whether the phase is one of those in which the dragon is perched.
    pub open spec fn sits(self) -> bool {
        ||| self == EnderDragonPhase::SittingFlaming
        ||| self == EnderDragonPhase::SittingScanning
        ||| self == EnderDragonPhase::SittingAttacking
        ||| self == EnderDragonPhase::Hovering
    }

    /// The number the phase goes by.
    pub fn id(self) -> (r: i32)
        ensures
            r == self.number(),
    {
        match self {
            EnderDragonPhase::HoldingPattern => 0,
            EnderDragonPhase::StrafePlayer => 1,
            EnderDragonPhase::LandingApproach => 2,
            EnderDragonPhase::Landing => 3,
            EnderDragonPhase::Takeoff => 4,
            EnderDragonPhase::SittingFlaming => 5,
            EnderDragonPhase::SittingScanning => 6,
            EnderDragonPhase::SittingAttacking => 7,
            EnderDragonPhase::ChargingPlayer => 8,
            EnderDragonPhase::Dying => 9,
            EnderDragonPhase::Hovering => 10,
        }
    }

    /// The phase that goes by a number; an unknown number is the holding pattern.
    pub fn by_id(id: i32) -> (r: EnderDragonPhase)
        ensures
            r == EnderDragonPhase::numbered(id as int),
    {
        match id {
            1 => EnderDragonPhase::StrafePlayer,
            2 => EnderDragonPhase::LandingApproach,
            3 => EnderDragonPhase::Landing,
            4 => EnderDragonPhase::Takeoff,
            5 => EnderDragonPhase::SittingFlaming,
            6 => EnderDragonPhase::SittingScanning,
            7 => EnderDragonPhase::SittingAttacking,
            8 => EnderDragonPhase::ChargingPlayer,
            9 => EnderDragonPhase::Dying,
            10 => EnderDragonPhase::Hovering,
            _ => EnderDragonPhase::HoldingPattern,
        }
    }

    /// Whether the dragon is perched in this phase.
    pub fn is_sitting(self) -> (r: bool)
        ensures
            r == self.sits(),
    {
        match self {
            EnderDragonPhase::SittingFlaming
            | EnderDragonPhase::SittingScanning
            | EnderDragonPhase::SittingAttacking
            | EnderDragonPhase::Hovering => true,
            _ => false,
        }
    }
}

/// A phase is found again by its number, and no other number finds it but those
/// that stand for no phase at all.
pub proof fn phases_go_by_their_numbers(phase: EnderDragonPhase, id: int)
    ensures
        EnderDragonPhase::numbered(phase.number()) == phase,
        0 <= id <= 10 ==> EnderDragonPhase::numbered(id).number() == id,
        !(0 <= id <= 10) ==> EnderDragonPhase::numbered(id) == EnderDragonPhase::HoldingPattern,
{
}

} // verus!
