//! Plain data types shared across the library: a wallpaper entry, an image
//! file entry, and the detected desktop environment.

use vstd::prelude::*;

use crate::strutil::str_eq;

verus! {

/// The desktop environment the application is running under.
#[derive(PartialEq, Eq, Structural, Clone, Copy, Debug)]
pub enum Desktop {
    Hyprland,
    Unknown,
}

/// The desktop a window-manager name denotes.
pub open spec fn desktop_of(wm_name: Seq<char>) -> Desktop {
    if wm_name == "Hyprland"@ {
        Desktop::Hyprland
    } else {
        Desktop::Unknown
    }
}

/// The first known desktop among a list of window-manager names, examined in
/// order; `Unknown` when none of them is known.
pub open spec fn detect_spec(wm_names: Seq<Seq<char>>) -> Desktop
    decreases wm_names.len(),
{
    if wm_names.len() == 0 {
        Desktop::Unknown
    } else if desktop_of(wm_names[0]) != Desktop::Unknown {
        desktop_of(wm_names[0])
    } else {
        detect_spec(wm_names.drop_first())
    }
}

impl Desktop {
    /// The desktop denoted by a window-manager name.
    pub fn from(wm_name: &str) -> (d: Desktop)
        ensures
            d == desktop_of(wm_name@),
    {
        if str_eq(wm_name, "Hyprland") {
            Desktop::Hyprland
        } else {
            Desktop::Unknown
        }
    }

    /// Picks the first known desktop among the window-manager names found in
    /// the environment, examined in order.
    pub fn detect(wm_names: &Vec<String>) -> (d: Desktop)
        ensures
            d == detect_spec(wm_names@.map_values(|s: String| s@)),
    {
        let ghost all = wm_names@.map_values(|s: String| s@);
        let n = wm_names.len();
        let mut i: usize = 0;
        proof {
            assert(all.skip(0) =~= all);
        }
        while i < n
            invariant
                i <= n,
                n == wm_names@.len(),
                all == wm_names@.map_values(|s: String| s@),
                detect_spec(all) == detect_spec(all.skip(i as int)),
            decreases n - i,
        {
            let d = Desktop::from(wm_names[i].as_str());
            proof {
                assert(all.skip(i as int)[0] == all[i as int]);
            }
            if !d.is_unknown() {
                return d;
            }
            proof {
                assert(all.skip(i as int).drop_first() =~= all.skip(i + 1));
            }
            i += 1;
        }
        proof {
            assert(all.skip(n as int) =~= Seq::<Seq<char>>::empty());
        }
        Desktop::Unknown
    }

    /// Whether no desktop was recognised.
    pub fn is_unknown(&self) -> (r: bool)
        ensures
            r == (self is Unknown),
    {
        *self == Desktop::Unknown
    }
}

/// A wallpaper candidate: a display name and the file system path it lives at.
pub struct Wallpaper {
    pub name: String,
    pub path: String,
}

impl Wallpaper {
    pub fn new(name: String, path: String) -> (w: Wallpaper)
        ensures
            w.name@ == name@,
            w.path@ == path@,
    {
        Wallpaper { name, path }
    }
}

/// An image file found on disk: its file name and its full path.
pub struct ImageFile {
    pub name: String,
    pub path: String,
}

impl ImageFile {
    pub fn new(name: String, path: String) -> (f: ImageFile)
        ensures
            f.name@ == name@,
            f.path@ == path@,
    {
        ImageFile { name, path }
    }
}

} // verus!
