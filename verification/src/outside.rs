//! Types of other crates that decisions carry along.

use vstd::prelude::*;

verus! {

/// A sparse set of DMX universes in which single channels are owned.
#[verifier::external_type_specification]
#[verifier::external_body]
pub struct ExMaskedFrame(rustjay_lighting::MaskedFrame);

/// The normalised state of one fixture.
#[verifier::external_type_specification]
#[verifier::external_body]
pub struct ExFixtureLook(rustjay_lighting::FixtureLook);

/// The playhead over a recorded DMX show.
#[verifier::external_type_specification]
#[verifier::external_body]
pub struct ExShowPlayer(rustjay_lighting::ShowPlayer);

} // verus!
