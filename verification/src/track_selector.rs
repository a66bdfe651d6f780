//! The track selector: first a cup is chosen, then a track of that cup.

use crate::stateful_list::StatefulScrollingList;
use vstd::prelude::*;

verus! {

/// The step at which the track selector stands.
#[derive(Debug, Clone, Copy, PartialEq, Eq, Structural)]
pub enum TrackSelectorState {
    Unselected,
    SelectCup,
    SelectTrack,
}

/// The track selector with its two lists.
pub struct TrackSelector {
    pub state: TrackSelectorState,
    pub cups: StatefulScrollingList<String>,
    pub tracks: StatefulScrollingList<String>,
}

} // verus!
