use walrust::models::Wallpaper;
use walrust::monitors::first_monitor;
use walrust::monitors::monitor_names_from_json;
use walrust::ports::PortError;
use walrust::ports::WallpaperRepository;
use walrust::service::WallpaperService;

#[test]
fn names_are_extracted_in_order() {
    let text = r#"[{"name": "DP-1", "width": 2560}, {"name": "HDMI-A-1", "width": 1920}]"#;
    let names = monitor_names_from_json(text).unwrap();
    assert_eq!(names, vec!["DP-1".to_string(), "HDMI-A-1".to_string()]);
}

#[test]
fn entries_without_a_name_are_skipped() {
    let text = r#"[{"name": "DP-1"}, {"width": 1920}, {"name": 7}, {"name": "DP-2"}]"#;
    let names = monitor_names_from_json(text).unwrap();
    assert_eq!(names, vec!["DP-1".to_string(), "DP-2".to_string()]);
}

#[test]
fn invalid_json_yields_nothing() {
    assert!(monitor_names_from_json("not json at all").is_none());
    assert!(monitor_names_from_json("").is_none());
}

#[test]
fn non_array_json_yields_nothing() {
    assert!(monitor_names_from_json(r#"{"name": "DP-1"}"#).is_none());
    assert!(monitor_names_from_json("42").is_none());
}

#[test]
fn empty_array_yields_no_names() {
    let names = monitor_names_from_json("[]").unwrap();
    assert!(names.is_empty());
}

#[test]
fn first_monitor_is_the_head() {
    let names = vec!["DP-1".to_string(), "HDMI-A-1".to_string()];
    assert_eq!(first_monitor(&names), Some("DP-1".to_string()));
    assert_eq!(first_monitor(&Vec::new()), None);
}

struct FixedWalls;

impl WallpaperRepository for FixedWalls {
    fn list_wallpapers(&self, path: &str) -> Result<Vec<Wallpaper>, PortError> {
        Ok(vec![Wallpaper::new(
            "a.jpg".to_string(),
            format!("{}/a.jpg", path),
        )])
    }
}

#[test]
fn wallpaper_service_lists_from_repository() {
    let service = WallpaperService::new(FixedWalls);
    let walls = service.get_wallpapers("/walls").unwrap();
    assert_eq!(walls.len(), 1);
    assert_eq!(walls[0].name, "a.jpg");
    assert_eq!(walls[0].path, "/walls/a.jpg");
}
