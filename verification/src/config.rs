//! Classification of a cubic cell by which of its corners lie inside the
//! isosurface.

use vstd::prelude::*;

verus! {

/// Contribution of one corner flag to the configuration index: the corner's
/// bit weight when the corner is inside, zero otherwise.
pub open spec fn bit_value(inside: bool, weight: int) -> int {
    if inside {
        weight
    } else {
        0
    }
}

/// The configuration index encoded by eight corner flags: bit `i` is set
/// exactly when corner `i` is inside the surface.
pub open spec fn config_index(inside: Seq<bool>) -> int
    recommends
        inside.len() == 8,
{
    bit_value(inside[0], 1) + bit_value(inside[1], 2) + bit_value(inside[2], 4) + bit_value(
        inside[3],
        8,
    ) + bit_value(inside[4], 16) + bit_value(inside[5], 32) + bit_value(inside[6], 64) + bit_value(
        inside[7],
        128,
    )
}

/// Map the eight corner flags of a cell to its configuration index.
///
/// The caller derives `inside[i]` from the density sampled at corner `i`:
/// a corner is inside exactly when its density is at or below zero (closed
/// boundary convention, so a density of exactly zero counts as inside).
pub fn classify(inside: &[bool; 8]) -> (config: u8)
    ensures
        config as int == config_index(inside@),
{
    let mut config: u8 = 0;
    if inside[0] {
        config = config + 1;
    }
    if inside[1] {
        config = config + 2;
    }
    if inside[2] {
        config = config + 4;
    }
    if inside[3] {
        config = config + 8;
    }
    if inside[4] {
        config = config + 16;
    }
    if inside[5] {
        config = config + 32;
    }
    if inside[6] {
        config = config + 64;
    }
    if inside[7] {
        config = config + 128;
    }
    config
}

/// Flipping every corner flag complements the configuration index: a cell
/// whose inside and outside corners are swapped everywhere classifies as
/// `255 - k` where the original cell classifies as `k`.
pub proof fn lemma_complement_config(a: Seq<bool>, b: Seq<bool>)
    requires
        a.len() == 8,
        b.len() == 8,
        forall|i: int| 0 <= i < 8 ==> b[i] == !a[i],
    ensures
        config_index(b) == 255 - config_index(a),
{
}

/// A cell with every corner inside has configuration 255; one with every
/// corner outside has configuration 0.
pub proof fn lemma_uniform_config(a: Seq<bool>)
    requires
        a.len() == 8,
    ensures
        (forall|i: int| 0 <= i < 8 ==> a[i]) ==> config_index(a) == 255,
        (forall|i: int| 0 <= i < 8 ==> !a[i]) ==> config_index(a) == 0,
{
}

/// The configuration index always fits in eight bits.
pub proof fn lemma_config_index_range(a: Seq<bool>)
    requires
        a.len() == 8,
    ensures
        0 <= config_index(a) <= 255,
{
}

} // verus!
