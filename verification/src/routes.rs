//! Decisions of the HTTP handlers: which requests are accepted and when a result can be
//! downloaded.
use vstd::prelude::*;

use crate::jobs::Job;

verus! {

/// Largest grid side that the service accepts, in elements.
pub const MAX_GRID_SIDE: usize = 200;

/// Why a job request is refused.
#[derive(Debug, Clone, Copy, PartialEq, Eq)]
pub enum RequestRejection {
    /// `nelx` or `nely` is zero.
    EmptyGrid,
    /// `nelx` or `nely` exceeds `MAX_GRID_SIDE`.
    GridTooLarge,
}

/// Checks the grid size of a job request: both sides must be positive, then both at most
/// `MAX_GRID_SIDE`.
pub fn check_grid_request(nelx: usize, nely: usize) -> (r: Result<(), RequestRejection>)
    ensures
        (nelx == 0 || nely == 0) ==> r == Err::<(), RequestRejection>(RequestRejection::EmptyGrid),
        (nelx != 0 && nely != 0 && (nelx > MAX_GRID_SIDE || nely > MAX_GRID_SIDE)) ==> r == Err::<
            (),
            RequestRejection,
        >(RequestRejection::GridTooLarge),
        r is Ok <==> (0 < nelx <= MAX_GRID_SIDE && 0 < nely <= MAX_GRID_SIDE),
        r is Ok <==> (0 < nelx <= 200 && 0 < nely <= 200),
        r == Err::<(), RequestRejection>(RequestRejection::EmptyGrid) <==> (nelx == 0 || nely == 0),
{
    if nelx == 0 || nely == 0 {
        return Err(RequestRejection::EmptyGrid);
    }
    if nelx > MAX_GRID_SIDE || nely > MAX_GRID_SIDE {
        return Err(RequestRejection::GridTooLarge);
    }
    Ok(())
}

/// Why a result cannot be downloaded.
#[derive(Debug, Clone, Copy, PartialEq, Eq)]
pub enum ExportRefusal {
    /// No job has this id.
    NotFound,
    /// The job has no result yet.
    NotFinished,
}

/// The result of a looked-up job, when there is one to export.
pub fn finished_result<'a, Q, P, R>(job: Option<&'a Job<Q, P, R>>) -> (r: Result<&'a R, ExportRefusal>)
    ensures
        job is None ==> r == Err::<&R, ExportRefusal>(ExportRefusal::NotFound),
        job matches Some(j) ==> match j.result {
            Some(res) => r == Ok::<&R, ExportRefusal>(&res),
            None => r == Err::<&R, ExportRefusal>(ExportRefusal::NotFinished),
        },
{
    match job {
        None => Err(ExportRefusal::NotFound),
        Some(j) => match &j.result {
            Some(res) => Ok(res),
            None => Err(ExportRefusal::NotFinished),
        },
    }
}

} // verus!
