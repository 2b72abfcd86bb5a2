// The cache and controller as the application instantiates them: holding
// real decoded image protocols rather than plain test values.

use image::DynamicImage;
use ratatui_image::picker::Picker;
use ratatui_image::protocol::StatefulProtocol;
use ratatui_image::FontSize;

use walrust::cache::PreviewCache;
use walrust::controller::PreviewController;

fn protocol() -> StatefulProtocol {
    let picker = Picker::from_fontsize(FontSize::new(8, 16));
    picker.new_resize_protocol(DynamicImage::new_rgb8(4, 4))
}

#[test]
fn cache_holds_decoded_protocols() {
    let mut cache: PreviewCache<StatefulProtocol> = PreviewCache::new(2);
    cache.put("a.png".to_string(), protocol());
    cache.put("b.png".to_string(), protocol());
    cache.put("c.png".to_string(), protocol());
    assert_eq!(cache.len(), 2);
    assert!(!cache.contains(&"a.png".to_string()));
    assert!(cache.get(&"b.png".to_string()).is_some());
}

#[test]
fn controller_serves_decoded_protocols() {
    let mut ctl: PreviewController<StatefulProtocol> = PreviewController::new(8);
    assert_eq!(ctl.select("a.png".to_string()), Some("a.png".to_string()));
    assert_eq!(ctl.get_current_protocol().is_some(), false);
    assert!(ctl.handle_result("a.png".to_string(), Ok(protocol())).is_none());
    assert!(ctl.get_current_protocol().is_some());
}
