//! The wallpaper list: the selectable directory listing and the key table
//! that drives it.
//!
//! The component owns the listing, the selection index, and the two
//! collaborators it needs: the repository that lists a directory's images
//! and the service that applies a chosen wallpaper to the monitor it was
//! created for. Selection moves are clamped to the listing: `Next` stops at
//! the last entry, `Previous` at the first; with nothing selected, `Next`
//! selects the first entry and `Previous` the last.

use vstd::prelude::*;

use crate::actions::Action;
use crate::actions::ActionState;
use crate::actions::Key;
use crate::models::ImageFile;
use crate::ports::ImageRepository;
use crate::ports::PortError;
use crate::ports::WallpaperServicePort;

verus! {

/// The selectable listing of a directory's images, bound to one monitor.
pub struct WallpaperListComponent<S, R> {
    images: Vec<ImageFile>,
    selected: Option<usize>,
    wallpaper_service: S,
    image_repo: R,
    monitor: String,
    path: String,
}

impl<S: WallpaperServicePort, R: ImageRepository> WallpaperListComponent<S, R> {
    /// The listed image files.
    pub closed spec fn images_spec(&self) -> Seq<ImageFile> {
        self.images@
    }

    /// The selection index, if any.
    pub closed spec fn selected_spec(&self) -> Option<int> {
        match self.selected {
            Some(i) => Some(i as int),
            None => None,
        }
    }

    /// The monitor the component applies wallpapers to.
    pub closed spec fn monitor_spec(&self) -> Seq<char> {
        self.monitor@
    }

    /// The directory the listing comes from.
    pub closed spec fn path_spec(&self) -> Seq<char> {
        self.path@
    }

    /// A selection, when present, points into the listing.
    pub open spec fn wf(&self) -> bool {
        match self.selected_spec() {
            Some(i) => 0 <= i < self.images_spec().len(),
            None => true,
        }
    }

    /// Creates an empty, unselected listing for `path`, bound to `monitor`.
    pub fn new(monitor: String, path: String, image_repo: R, wallpaper_service: S) -> (c:
        WallpaperListComponent<S, R>)
        ensures
            c.wf(),
            c.images_spec() == Seq::<ImageFile>::empty(),
            c.selected_spec() == None::<int>,
            c.monitor_spec() == monitor@,
            c.path_spec() == path@,
    {
        WallpaperListComponent {
            images: Vec::new(),
            selected: None,
            wallpaper_service,
            image_repo,
            monitor,
            path,
        }
    }

    /// Selects the first entry; with an empty listing nothing is selected.
    fn select_first(&mut self)
        ensures
            final(self).images_spec() == old(self).images_spec(),
            final(self).monitor_spec() == old(self).monitor_spec(),
            final(self).path_spec() == old(self).path_spec(),
            final(self).selected_spec() == (if old(self).images_spec().len() == 0 {
                None::<int>
            } else {
                Some(0int)
            }),
            final(self).wf(),
    {
        if self.images.len() == 0 {
            self.selected = None;
        } else {
            self.selected = Some(0);
        }
    }

    /// Moves the selection one entry down, stopping at the last entry; with
    /// nothing selected, selects the first entry.
    pub fn select_next(&mut self)
        requires
            old(self).wf(),
        ensures
            final(self).wf(),
            final(self).images_spec() == old(self).images_spec(),
            final(self).monitor_spec() == old(self).monitor_spec(),
            final(self).path_spec() == old(self).path_spec(),
            final(self).selected_spec() == (match old(self).selected_spec() {
                Some(i) => if i + 1 < old(self).images_spec().len() {
                    Some(i + 1)
                } else {
                    Some(i)
                },
                None => if old(self).images_spec().len() == 0 {
                    None::<int>
                } else {
                    Some(0int)
                },
            }),
    {
        match self.selected {
            Some(i) => {
                let n = self.images.len();
                if i < n - 1 {
                    self.selected = Some(i + 1);
                }
            },
            None => self.select_first(),
        }
    }

    /// Moves the selection one entry up, stopping at the first entry; with
    /// nothing selected, selects the last entry.
    pub fn select_previous(&mut self)
        requires
            old(self).wf(),
        ensures
            final(self).wf(),
            final(self).images_spec() == old(self).images_spec(),
            final(self).monitor_spec() == old(self).monitor_spec(),
            final(self).path_spec() == old(self).path_spec(),
            final(self).selected_spec() == (match old(self).selected_spec() {
                Some(i) => if i > 0 {
                    Some(i - 1)
                } else {
                    Some(0int)
                },
                None => if old(self).images_spec().len() == 0 {
                    None::<int>
                } else {
                    Some(old(self).images_spec().len() - 1)
                },
            }),
    {
        match self.selected {
            Some(i) => {
                if i > 0 {
                    self.selected = Some(i - 1);
                }
            },
            None => {
                if self.images.len() == 0 {
                    self.selected = None;
                } else {
                    self.selected = Some(self.images.len() - 1);
                }
            },
        }
    }

    /// The listed image files, for display.
    pub fn images(&self) -> (r: &Vec<ImageFile>)
        ensures
            r@ == self.images_spec(),
    {
        &self.images
    }

    /// The selected image file, if any.
    pub fn selected_image(&self) -> (r: Option<&ImageFile>)
        requires
            self.wf(),
        ensures
            r == (match self.selected_spec() {
                Some(i) => Some(&self.images_spec()[i]),
                None => None::<&ImageFile>,
            }),
    {
        match self.selected {
            Some(i) => Some(&self.images[i]),
            None => None,
        }
    }

    /// The selection index, if any.
    pub fn selected_index(&self) -> (r: Option<usize>)
        ensures
            r == (match self.selected_spec() {
                Some(i) => Some(i as usize),
                None => None::<usize>,
            }),
    {
        self.selected
    }

    /// Applies `image` to the component's monitor through the wallpaper
    /// service.
    pub fn change_wallpaper(&self, image: &str) -> Result<(), PortError> {
        self.wallpaper_service.set_wallpaper(self.monitor.as_str(), image)
    }

    /// The key table: `Enter` asks to apply the selected wallpaper (or
    /// nothing when unselected), `Up`/`k` and `Down`/`j` move the selection,
    /// everything else is ignored.
    pub fn handle_key(&self, key: &Key) -> (r: Option<Action>)
        requires
            self.wf(),
        ensures
            r == (match *key {
                Key::Enter => Some(
                    Action::Select(
                        match self.selected_spec() {
                            Some(i) => Some(self.images_spec()[i].path),
                            None => None::<String>,
                        },
                    ),
                ),
                Key::Up => Some(Action::Previous),
                Key::Char('k') => Some(Action::Previous),
                Key::Down => Some(Action::Next),
                Key::Char('j') => Some(Action::Next),
                _ => None::<Action>,
            }),
    {
        match key {
            Key::Enter => {
                match &self.selected {
                    Some(i) => Some(Action::Select(Some(self.images[*i].path.clone()))),
                    None => Some(Action::Select(None)),
                }
            },
            Key::Up => Some(Action::Previous),
            Key::Down => Some(Action::Next),
            Key::Char(c) => {
                if *c == 'k' {
                    Some(Action::Previous)
                } else if *c == 'j' {
                    Some(Action::Next)
                } else {
                    None
                }
            },
            _ => None,
        }
    }

    /// Carries one action out. `Start` reloads the listing from the
    /// repository and selects its first entry; `Select` applies the named
    /// wallpaper and consumes the action; the moves shift the selection; a
    /// repository or service failure is handed back unchanged.
    pub fn execute(&mut self, action: Action) -> (r: Result<ActionState, PortError>)
        requires
            old(self).wf(),
        ensures
            final(self).wf(),
            final(self).monitor_spec() == old(self).monitor_spec(),
            final(self).path_spec() == old(self).path_spec(),
            match action {
                Action::Start => {
                    &&& final(self).selected_spec() == (if final(self).images_spec().len() == 0 {
                        None::<int>
                    } else {
                        Some(0int)
                    })
                    &&& (r matches Ok(st) ==> st is NotConsumed)
                },
                Action::Select(_) => {
                    &&& final(self).images_spec() == old(self).images_spec()
                    &&& final(self).selected_spec() == old(self).selected_spec()
                    &&& (r matches Ok(st) ==> st is Consumed)
                },
                Action::Next => {
                    &&& final(self).images_spec() == old(self).images_spec()
                    &&& (r matches Ok(st) && st is NotConsumed)
                },
                Action::Previous => {
                    &&& final(self).images_spec() == old(self).images_spec()
                    &&& (r matches Ok(st) && st is NotConsumed)
                },
                Action::Quit => {
                    &&& final(self).images_spec() == old(self).images_spec()
                    &&& final(self).selected_spec() == old(self).selected_spec()
                    &&& (r matches Ok(st) && st is NotConsumed)
                },
            },
    {
        match action {
            Action::Select(selected) => {
                match selected {
                    Some(path) => {
                        match self.change_wallpaper(path.as_str()) {
                            Ok(_) => Ok(ActionState::Consumed),
                            Err(e) => Err(e),
                        }
                    },
                    None => Ok(ActionState::Consumed),
                }
            },
            Action::Start => {
                match self.image_repo.list_images(self.path.as_str()) {
                    Ok(images) => {
                        self.images = images;
                        self.select_first();
                        Ok(ActionState::NotConsumed)
                    },
                    Err(e) => {
                        self.images = Vec::new();
                        self.select_first();
                        Err(e)
                    },
                }
            },
            Action::Next => {
                self.select_next();
                Ok(ActionState::NotConsumed)
            },
            Action::Previous => {
                self.select_previous();
                Ok(ActionState::NotConsumed)
            },
            Action::Quit => Ok(ActionState::NotConsumed),
        }
    }
}

} // verus!
