use gallery::settings::Settings;

#[test]
fn settings_keep_their_fields() {
    let s = Settings::new("media".to_string(), "hunter2".to_string(), 4);
    assert_eq!(s.media_dir, "media");
    assert_eq!(s.password, "hunter2");
    assert_eq!(s.display_count, 4);
}
