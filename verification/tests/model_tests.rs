use walrust::actions::global_key_action;
use walrust::actions::Action;
use walrust::actions::ActionState;
use walrust::actions::Key;
use walrust::actions::MessageState;
use walrust::models::Desktop;
use walrust::models::ImageFile;
use walrust::models::Wallpaper;
use walrust::providers::MonitorProvider;
use walrust::providers::WallpaperService;

#[test]
fn wallpaper_new_keeps_fields() {
    let w = Wallpaper::new("sunset.png".to_string(), "/walls/sunset.png".to_string());
    assert_eq!(w.name, "sunset.png");
    assert_eq!(w.path, "/walls/sunset.png");
}

#[test]
fn image_file_new_keeps_fields() {
    let f = ImageFile::new("a.jpg".to_string(), "/walls/a.jpg".to_string());
    assert_eq!(f.name, "a.jpg");
    assert_eq!(f.path, "/walls/a.jpg");
}

#[test]
fn desktop_from_names() {
    assert_eq!(Desktop::from("Hyprland"), Desktop::Hyprland);
    assert_eq!(Desktop::from("GNOME"), Desktop::Unknown);
    assert_eq!(Desktop::from(""), Desktop::Unknown);
    assert_eq!(Desktop::from("hyprland"), Desktop::Unknown);
}

#[test]
fn desktop_detect_takes_first_known() {
    let names = vec!["GNOME".to_string(), "Hyprland".to_string(), "KDE".to_string()];
    assert_eq!(Desktop::detect(&names), Desktop::Hyprland);
    let none = vec!["GNOME".to_string(), "KDE".to_string()];
    assert_eq!(Desktop::detect(&none), Desktop::Unknown);
    assert_eq!(Desktop::detect(&Vec::new()), Desktop::Unknown);
}

#[test]
fn desktop_is_unknown() {
    assert!(Desktop::Unknown.is_unknown());
    assert!(!Desktop::Hyprland.is_unknown());
}

#[test]
fn providers_from_desktop() {
    assert_eq!(
        MonitorProvider::from(&Desktop::Hyprland),
        Some(MonitorProvider::Hyprctl)
    );
    assert_eq!(MonitorProvider::from(&Desktop::Unknown), None);
    assert_eq!(
        WallpaperService::from(&Desktop::Hyprland),
        Some(WallpaperService::Hyprctl)
    );
    assert_eq!(WallpaperService::from(&Desktop::Unknown), None);
}

#[test]
fn states_is_consumed() {
    assert!(ActionState::Consumed.is_consumed());
    assert!(!ActionState::NotConsumed.is_consumed());
    assert!(MessageState::Consumed.is_consumed());
    assert!(!MessageState::NotConsumed.is_consumed());
}

#[test]
fn global_keys_quit() {
    assert!(matches!(global_key_action(&Key::Esc), Some(Action::Quit)));
    assert!(matches!(
        global_key_action(&Key::Char('q')),
        Some(Action::Quit)
    ));
    assert!(global_key_action(&Key::Char('x')).is_none());
    assert!(global_key_action(&Key::Enter).is_none());
    assert!(global_key_action(&Key::Up).is_none());
}
