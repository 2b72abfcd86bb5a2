use std::cell::RefCell;

use walrust::cli::Cli;
use walrust::cli::CliError;
use walrust::ports::PortError;
use walrust::ports::WallpaperServicePort;

struct RecordingService {
    calls: RefCell<Vec<(String, String)>>,
    fail: bool,
}

impl RecordingService {
    fn new(fail: bool) -> RecordingService {
        RecordingService { calls: RefCell::new(Vec::new()), fail }
    }
}

impl WallpaperServicePort for RecordingService {
    fn set_wallpaper(&self, monitor_name: &str, path: &str) -> Result<(), PortError> {
        self.calls
            .borrow_mut()
            .push((monitor_name.to_string(), path.to_string()));
        if self.fail {
            Err(PortError::new("hyprctl returned an error".to_string()))
        } else {
            Ok(())
        }
    }
}

#[test]
fn single_monitor_is_used_directly() {
    let service = RecordingService::new(false);
    let monitors = vec!["DP-1".to_string()];
    let r = Cli::run(&service, &monitors, "/walls/a.png", None);
    assert!(r.is_ok());
    assert_eq!(
        service.calls.into_inner(),
        vec![("DP-1".to_string(), "/walls/a.png".to_string())]
    );
}

#[test]
fn several_monitors_need_a_selection() {
    let service = RecordingService::new(false);
    let monitors = vec!["DP-1".to_string(), "HDMI-A-1".to_string()];
    let r = Cli::run(&service, &monitors, "/walls/a.png", None);
    assert!(matches!(r, Err(CliError::MissingSelection)));
    assert!(service.calls.into_inner().is_empty());
}

#[test]
fn valid_selection_targets_that_monitor() {
    let service = RecordingService::new(false);
    let monitors = vec!["DP-1".to_string(), "HDMI-A-1".to_string()];
    let r = Cli::run(&service, &monitors, "/walls/a.png", Some(2));
    assert!(r.is_ok());
    assert_eq!(
        service.calls.into_inner(),
        vec![("HDMI-A-1".to_string(), "/walls/a.png".to_string())]
    );
}

#[test]
fn out_of_range_selection_is_rejected() {
    let service = RecordingService::new(false);
    let monitors = vec!["DP-1".to_string(), "HDMI-A-1".to_string()];
    let low = Cli::run(&service, &monitors, "/walls/a.png", Some(0));
    assert!(matches!(low, Err(CliError::InvalidSelection { max: 2 })));
    let high = Cli::run(&service, &monitors, "/walls/a.png", Some(3));
    assert!(matches!(high, Err(CliError::InvalidSelection { max: 2 })));
    assert!(service.calls.into_inner().is_empty());
}

#[test]
fn no_monitors_always_rejects_selection() {
    let service = RecordingService::new(false);
    let monitors: Vec<String> = Vec::new();
    let r = Cli::run(&service, &monitors, "/walls/a.png", Some(1));
    assert!(matches!(r, Err(CliError::InvalidSelection { max: 0 })));
}

#[test]
fn service_failure_is_reported() {
    let service = RecordingService::new(true);
    let monitors = vec!["DP-1".to_string()];
    let r = Cli::run(&service, &monitors, "/walls/a.png", None);
    match r {
        Err(CliError::Service(e)) => {
            assert_eq!(e.message, "hyprctl returned an error");
        }
        _ => panic!("expected a service error"),
    }
}
