//! What the scatter view can plot: its axes and the models that have both
//! values. The plotting itself works on the scores' floating-point values.

use vstd::prelude::*;
use crate::benchmarks::schema::{metric_cell, metric_score, SourceFile};

verus! {

/// Whether and what the scatter view plots.
#[derive(Debug, Clone, PartialEq, Eq)]
pub enum ScatterState {
    /// No source is loaded.
    NoFile,
    /// The source has fewer than two metrics.
    NeedTwoMetrics,
    /// The source has no models.
    NoModels,
    /// No model has both values.
    NoData,
    /// The axes (metric indices) and the models with both values, in order.
    Plot { x: usize, y: usize, points: Vec<usize> },
}

/// An axis index clamped to the last metric.
pub open spec fn clamp_axis(i: usize, metrics: nat) -> usize {
    if i < metrics - 1 { i } else { (metrics - 1) as usize }
}

/// Models among the first `n` with a score for both metrics.
pub open spec fn both_upto(file: SourceFile, x: int, y: int, n: nat) -> Seq<usize>
    decreases n,
{
    if n == 0 || n > file.models@.len() {
        Seq::empty()
    } else {
        let prev = both_upto(file, x, y, (n - 1) as nat);
        let m = file.models@[n - 1];
        if metric_cell(file, m, x) is Some && metric_cell(file, m, y) is Some { prev.push((n - 1) as usize) } else { prev }
    }
}

/// The scatter state of `file` with the chosen axes.
pub open spec fn spec_scatter_state_ok(r: ScatterState, file: Option<SourceFile>, sx: usize, sy: usize) -> bool {
    match file {
        None => r == ScatterState::NoFile,
        Some(f) => if f.metrics@.len() < 2 {
            r == ScatterState::NeedTwoMetrics
        } else if f.models@.len() == 0 {
            r == ScatterState::NoModels
        } else {
            let x = clamp_axis(sx, f.metrics@.len());
            let y = clamp_axis(sy, f.metrics@.len());
            let pts = both_upto(f, x as int, y as int, f.models@.len());
            if pts.len() == 0 {
                r == ScatterState::NoData
            } else {
                r matches ScatterState::Plot { x: rx, y: ry, points } && rx == x && ry == y && points@ == pts
            }
        },
    }
}

/// The scatter state of the active source with axes `scatter_x` and
/// `scatter_y`.
pub fn scatter_state(file: Option<&SourceFile>, scatter_x: usize, scatter_y: usize) -> (r: ScatterState)
    ensures
        spec_scatter_state_ok(r, match file { Some(f) => Some(*f), None => None }, scatter_x, scatter_y),
{
    let f = match file {
        None => return ScatterState::NoFile,
        Some(f) => f,
    };
    if f.metrics.len() < 2 {
        return ScatterState::NeedTwoMetrics;
    }
    if f.models.len() == 0 {
        return ScatterState::NoModels;
    }
    let last = f.metrics.len() - 1;
    let x = if scatter_x < last { scatter_x } else { last };
    let y = if scatter_y < last { scatter_y } else { last };
    let mut points: Vec<usize> = Vec::new();
    let mut i: usize = 0;
    while i < f.models.len()
        invariant
            i <= f.models@.len(),
            points@ == both_upto(*f, x as int, y as int, i as nat),
        decreases f.models.len() - i,
    {
        let m = &f.models[i];
        if metric_score(f, m, x).is_some() && metric_score(f, m, y).is_some() {
            points.push(i);
        }
        i = i + 1;
    }
    if points.len() == 0 {
        ScatterState::NoData
    } else {
        ScatterState::Plot { x, y, points }
    }
}

} // verus!
