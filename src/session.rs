//! Modes and detector status of a tracking session as the application shows
//! them.
use vstd::prelude::*;

verus! {

#[derive(Clone, Copy, Debug, PartialEq, Eq, Structural)]
pub enum AppMode {
    Live,
    VideoFile,
    Gallery,
}

#[derive(Clone, Copy, Debug, PartialEq, Eq, Structural)]
pub enum ViewMode {
    SingleCamera,
    DualView,
}

#[derive(Clone, Copy, Debug, PartialEq, Eq, Structural)]
pub enum MediaPipeStatus {
    NotInitialized,
    Initializing,
    Ready,
    Failed,
    SimulationMode,
}

pub open spec fn status_for(detector_ready: bool, initializing: bool, has_source: bool) -> MediaPipeStatus {
    if detector_ready {
        MediaPipeStatus::Ready
    } else if initializing {
        MediaPipeStatus::Initializing
    } else if !has_source {
        MediaPipeStatus::NotInitialized
    } else {
        MediaPipeStatus::SimulationMode
    }
}

impl MediaPipeStatus {
    /// The status to show: `Ready` when the detector is ready, else
    /// `Initializing` while it starts; with neither, `NotInitialized` without
    /// a video source and `SimulationMode` with one.
    pub fn current(detector_ready: bool, initializing: bool, has_source: bool) -> (r: MediaPipeStatus)
        ensures
            r == status_for(detector_ready, initializing, has_source),
    {
        if detector_ready {
            MediaPipeStatus::Ready
        } else if initializing {
            MediaPipeStatus::Initializing
        } else if !has_source {
            MediaPipeStatus::NotInitialized
        } else {
            MediaPipeStatus::SimulationMode
        }
    }

    pub fn label(&self) -> (r: &'static str)
        ensures
            r@ == match *self {
                MediaPipeStatus::NotInitialized => "Not Initialized"@,
                MediaPipeStatus::Initializing => "Initializing..."@,
                MediaPipeStatus::Ready => "MediaPipe Ready"@,
                MediaPipeStatus::Failed => "Failed (Simulation Mode)"@,
                MediaPipeStatus::SimulationMode => "Simulation Mode"@,
            },
    {
        match self {
            MediaPipeStatus::NotInitialized => "Not Initialized",
            MediaPipeStatus::Initializing => "Initializing...",
            MediaPipeStatus::Ready => "MediaPipe Ready",
            MediaPipeStatus::Failed => "Failed (Simulation Mode)",
            MediaPipeStatus::SimulationMode => "Simulation Mode",
        }
    }
}

} // verus!
