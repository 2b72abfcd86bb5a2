//! Which backend serves each detected desktop. The library only decides the
//! backend; the adapter that actually drives it lives with the application.

use vstd::prelude::*;

use crate::models::Desktop;

verus! {

/// The monitor-discovery backend for a desktop.
#[derive(PartialEq, Eq, Structural, Clone, Copy, Debug)]
pub enum MonitorProvider {
    Hyprctl,
}

impl MonitorProvider {
    /// The backend that can list monitors under the given desktop, if any.
    pub fn from(desktop: &Desktop) -> (r: Option<MonitorProvider>)
        ensures
            r == (match desktop {
                Desktop::Hyprland => Some(MonitorProvider::Hyprctl),
                Desktop::Unknown => None::<MonitorProvider>,
            }),
    {
        match desktop {
            Desktop::Hyprland => Some(MonitorProvider::Hyprctl),
            Desktop::Unknown => None,
        }
    }
}

/// The wallpaper-setting backend for a desktop.
#[derive(PartialEq, Eq, Structural, Clone, Copy, Debug)]
pub enum WallpaperService {
    Hyprctl,
}

impl WallpaperService {
    /// The backend that can set wallpapers under the given desktop, if any.
    pub fn from(desktop: &Desktop) -> (r: Option<WallpaperService>)
        ensures
            r == (match desktop {
                Desktop::Hyprland => Some(WallpaperService::Hyprctl),
                Desktop::Unknown => None::<WallpaperService>,
            }),
    {
        match desktop {
            Desktop::Hyprland => Some(WallpaperService::Hyprctl),
            Desktop::Unknown => None,
        }
    }
}

} // verus!
