//! The domain service that hands wallpaper listings to the user interface.

use vstd::prelude::*;

use crate::models::Wallpaper;
use crate::ports::PortError;
use crate::ports::WallpaperRepository;

verus! {

/// Serves wallpaper listings from whatever repository it was built over.
pub struct WallpaperService<R> {
    repository: R,
}

impl<R: WallpaperRepository> WallpaperService<R> {
    pub fn new(repository: R) -> WallpaperService<R> {
        WallpaperService { repository }
    }

    /// The wallpapers found under `path`, as the repository reports them.
    pub fn get_wallpapers(&self, path: &str) -> Result<Vec<Wallpaper>, PortError> {
        self.repository.list_wallpapers(path)
    }
}

} // verus!
