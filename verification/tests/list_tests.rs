use std::cell::RefCell;

use walrust::actions::Action;
use walrust::actions::Key;
use walrust::list::WallpaperListComponent;
use walrust::models::ImageFile;
use walrust::ports::ImageRepository;
use walrust::ports::PortError;
use walrust::ports::WallpaperServicePort;

struct FixedRepo {
    names: Vec<&'static str>,
    fail: bool,
}

impl ImageRepository for FixedRepo {
    fn list_images(&self, path: &str) -> Result<Vec<ImageFile>, PortError> {
        if self.fail {
            return Err(PortError::new("no such directory".to_string()));
        }
        Ok(self
            .names
            .iter()
            .map(|n| ImageFile::new(n.to_string(), format!("{}/{}", path, n)))
            .collect())
    }
}

struct RecordingService {
    calls: RefCell<Vec<(String, String)>>,
}

impl WallpaperServicePort for RecordingService {
    fn set_wallpaper(&self, monitor_name: &str, path: &str) -> Result<(), PortError> {
        self.calls
            .borrow_mut()
            .push((monitor_name.to_string(), path.to_string()));
        Ok(())
    }
}

fn component(
    names: Vec<&'static str>,
) -> WallpaperListComponent<RecordingService, FixedRepo> {
    WallpaperListComponent::new(
        "DP-1".to_string(),
        "/walls".to_string(),
        FixedRepo { names, fail: false },
        RecordingService { calls: RefCell::new(Vec::new()) },
    )
}

#[test]
fn start_loads_and_selects_first() {
    let mut c = component(vec!["a.jpg", "b.png"]);
    let r = c.execute(Action::Start);
    assert!(!r.unwrap().is_consumed());
    assert_eq!(c.selected_index(), Some(0));
    assert_eq!(c.selected_image().unwrap().name, "a.jpg");
}

#[test]
fn start_on_empty_directory_selects_nothing() {
    let mut c = component(Vec::new());
    let r = c.execute(Action::Start);
    assert!(r.is_ok());
    assert_eq!(c.selected_index(), None);
    assert!(c.selected_image().is_none());
}

#[test]
fn start_failure_is_propagated() {
    let mut c = WallpaperListComponent::new(
        "DP-1".to_string(),
        "/missing".to_string(),
        FixedRepo { names: Vec::new(), fail: true },
        RecordingService { calls: RefCell::new(Vec::new()) },
    );
    let r = c.execute(Action::Start);
    assert_eq!(r.unwrap_err().message, "no such directory");
}

#[test]
fn next_and_previous_clamp_to_listing() {
    let mut c = component(vec!["a.jpg", "b.png", "c.webp"]);
    c.execute(Action::Start).unwrap();
    c.execute(Action::Next).unwrap();
    assert_eq!(c.selected_index(), Some(1));
    c.execute(Action::Next).unwrap();
    c.execute(Action::Next).unwrap();
    assert_eq!(c.selected_index(), Some(2));
    c.execute(Action::Previous).unwrap();
    assert_eq!(c.selected_index(), Some(1));
    c.execute(Action::Previous).unwrap();
    c.execute(Action::Previous).unwrap();
    assert_eq!(c.selected_index(), Some(0));
}

#[test]
fn moves_without_selection() {
    // Before Start the listing is empty: moves keep nothing selected.
    let mut c = component(vec!["a.jpg", "b.png"]);
    c.select_next();
    assert_eq!(c.selected_index(), None);
    c.select_previous();
    assert_eq!(c.selected_index(), None);
}

#[test]
fn key_table() {
    let mut c = component(vec!["a.jpg", "b.png"]);
    c.execute(Action::Start).unwrap();
    assert!(matches!(c.handle_key(&Key::Up), Some(Action::Previous)));
    assert!(matches!(c.handle_key(&Key::Char('k')), Some(Action::Previous)));
    assert!(matches!(c.handle_key(&Key::Down), Some(Action::Next)));
    assert!(matches!(c.handle_key(&Key::Char('j')), Some(Action::Next)));
    assert!(c.handle_key(&Key::Char('x')).is_none());
    assert!(c.handle_key(&Key::Esc).is_none());
    match c.handle_key(&Key::Enter) {
        Some(Action::Select(Some(path))) => assert_eq!(path, "/walls/a.jpg"),
        _ => panic!("expected a selection of the first entry"),
    }
}

#[test]
fn enter_without_selection_selects_nothing() {
    let c = component(vec!["a.jpg"]);
    match c.handle_key(&Key::Enter) {
        Some(Action::Select(None)) => {}
        _ => panic!("expected an empty selection"),
    }
}

#[test]
fn select_applies_wallpaper_and_is_consumed() {
    let mut c = component(vec!["a.jpg", "b.png"]);
    c.execute(Action::Start).unwrap();
    let r = c.execute(Action::Select(Some("/walls/b.png".to_string())));
    assert!(r.unwrap().is_consumed());
    let r2 = c.execute(Action::Select(None));
    assert!(r2.unwrap().is_consumed());
}

#[test]
fn change_wallpaper_reaches_the_service() {
    let c = component(vec!["a.jpg"]);
    c.change_wallpaper("/walls/a.jpg").unwrap();
}
