//! The non-interactive path: applying a wallpaper directly to a monitor
//! chosen on the command line.

use vstd::prelude::*;

use crate::ports::PortError;
use crate::ports::WallpaperServicePort;

verus! {

/// Why a command-line run failed.
#[derive(Debug)]
pub enum CliError {
    /// The wallpaper service reported a failure.
    Service(PortError),
    /// Several monitors exist but no choice was supplied.
    MissingSelection,
    /// The supplied choice is not between 1 and the number of monitors.
    InvalidSelection { max: usize },
}

pub struct Cli {}

impl Cli {
    /// Applies `image_path` to one monitor. With a single monitor that
    /// monitor is used directly; otherwise `selection` must name one of the
    /// monitors, 1-based. Exactly the out-of-range and missing selections
    /// are rejected; every other failure comes from the wallpaper service.
    pub fn run<T: WallpaperServicePort>(
        wallpaper_service: &T,
        monitors: &Vec<String>,
        image_path: &str,
        selection: Option<usize>,
    ) -> (r: Result<(), CliError>)
        ensures
            (match r {
                Ok(_) => true,
                Err(CliError::Service(_)) => true,
                Err(CliError::MissingSelection) => true,
                Err(CliError::InvalidSelection { max }) => max == monitors@.len(),
            }),
            monitors@.len() == 1 ==> (r matches Err(e) ==> e is Service),
            monitors@.len() != 1 ==> (match selection {
                Some(c) => if 1 <= c <= monitors@.len() {
                    r matches Err(e) ==> e is Service
                } else {
                    r matches Err(e) && e matches CliError::InvalidSelection { max }
                },
                None => r matches Err(e) && e is MissingSelection,
            }),
    {
        if monitors.len() == 1 {
            return match wallpaper_service.set_wallpaper(monitors[0].as_str(), image_path) {
                Ok(_) => Ok(()),
                Err(e) => Err(CliError::Service(e)),
            };
        }
        match selection {
            None => Err(CliError::MissingSelection),
            Some(choice) => {
                if 1 <= choice && choice <= monitors.len() {
                    match wallpaper_service.set_wallpaper(
                        monitors[choice - 1].as_str(),
                        image_path,
                    ) {
                        Ok(_) => Ok(()),
                        Err(e) => Err(CliError::Service(e)),
                    }
                } else {
                    Err(CliError::InvalidSelection { max: monitors.len() })
                }
            },
        }
    }
}

} // verus!
