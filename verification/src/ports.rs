//! The narrow interfaces to the library's collaborators: compositor control,
//! monitor discovery, and directory listing. The adapters that talk to the
//! real system implement these traits outside the library.

use vstd::prelude::*;

use crate::models::ImageFile;
use crate::models::Wallpaper;

verus! {

/// A failure reported by a collaborator behind one of the ports.
#[derive(Debug)]
pub struct PortError {
    pub message: String,
}

impl PortError {
    pub fn new(message: String) -> (e: PortError)
        ensures
            e.message@ == message@,
    {
        PortError { message }
    }
}

/// Applies a wallpaper to a named monitor.
pub trait WallpaperServicePort {
    fn set_wallpaper(&self, monitor_name: &str, path: &str) -> Result<(), PortError>;
}

/// Applies a wallpaper without naming a monitor.
pub trait WallpaperPort {
    fn set_wallpaper(path: &str) -> Result<(), PortError>;
}

/// Lists the names of the attached monitors.
pub trait MonitorProviderPort {
    fn get_monitors(&self) -> Result<Vec<String>, PortError>;
}

/// Lists the image files of a directory.
pub trait ImageRepository {
    fn list_images(&self, path: &str) -> Result<Vec<ImageFile>, PortError>;
}

/// Lists the wallpaper candidates of a directory.
pub trait WallpaperRepository {
    fn list_wallpapers(&self, path: &str) -> Result<Vec<Wallpaper>, PortError>;
}

} // verus!
