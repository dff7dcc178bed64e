use cinder::application::{CinderApplicationOptions, CinderWindowAttributes};

#[test]
fn configured_title_is_kept() {
    let attributes = CinderWindowAttributes { title: Some("test".to_string()) };
    assert_eq!(attributes.resolved_title(), "test");
}

#[test]
fn missing_title_gets_stock_name() {
    let attributes = CinderWindowAttributes { title: None };
    assert_eq!(attributes.resolved_title(), "Cinder Application");
}

#[test]
fn options_carry_window_and_icon() {
    let options = CinderApplicationOptions {
        window: CinderWindowAttributes { title: None },
        icon: Some("icon.png".to_string()),
    };
    assert_eq!(options.icon.as_deref(), Some("icon.png"));
    assert_eq!(options.window.resolved_title(), "Cinder Application");
}
