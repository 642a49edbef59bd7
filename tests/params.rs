use backdrop::{to_decimal, Config, Download, Fetch, Format, Query, Resolution, DEFAULT_MAX_SIZE};

fn pairs(params: Vec<(&'static str, String)>) -> Vec<(String, String)> {
    params.into_iter().map(|(k, v)| (k.to_string(), v)).collect()
}

fn expect(list: &[(&str, &str)]) -> Vec<(String, String)> {
    list.iter().map(|(k, v)| (k.to_string(), v.to_string())).collect()
}

#[test]
fn decimal_rendering() {
    assert_eq!(to_decimal(0), "0");
    assert_eq!(to_decimal(7), "7");
    assert_eq!(to_decimal(10), "10");
    assert_eq!(to_decimal(1920), "1920");
    assert_eq!(to_decimal(u64::MAX), "18446744073709551615");
}

#[test]
fn default_fetch_is_ten_unfiltered() {
    let fetch = Fetch::default();
    assert_eq!(fetch.count, 10);
    assert!(fetch.query.is_none());
}

#[test]
fn fetch_params_hold_count_and_orientation() {
    let fetch = Fetch { count: 25, query: Some(Query::Text("forest".to_string())) };
    assert_eq!(
        pairs(fetch.to_query_params()),
        expect(&[("count", "25"), ("orientation", "landscape")])
    );
}

#[test]
fn original_png_has_no_size_params() {
    let download = Download { format: Format::Png, resolution: Resolution::Raw };
    assert_eq!(pairs(download.to_query_params()), expect(&[("fm", "png")]));
}

#[test]
fn custom_size_appends_width_height_fit() {
    let download = Download::for_screen(1920, 1080);
    assert_eq!(download.format, Format::Png);
    assert_eq!(download.resolution, Resolution::Custom { width: 1920, height: 1080 });
    assert_eq!(
        pairs(download.to_query_params()),
        expect(&[("fm", "png"), ("w", "1920"), ("h", "1080"), ("fit", "min")])
    );
}

#[test]
fn jpeg_asks_for_jpg_with_quality() {
    let download = Download { format: Format::Jpeg { quality: 80 }, resolution: Resolution::Raw };
    assert_eq!(pairs(download.to_query_params()), expect(&[("fm", "jpg"), ("q", "80")]));
    assert_eq!(Format::Jpeg { quality: 80 }.extension(), "jpg");
    assert_eq!(Format::Png.extension(), "png");
}

#[test]
fn default_config() {
    let config = Config::with_defaults("/home/me/Pictures/Backdrop".to_string(), 2560, 1440);
    assert_eq!(config.folder, "/home/me/Pictures/Backdrop");
    assert_eq!(config.max_size, 100_000_000);
    assert_eq!(DEFAULT_MAX_SIZE, 100_000_000);
    assert_eq!(config.fetch.count, 10);
    assert!(config.fetch.query.is_none());
    assert_eq!(config.download, Download::for_screen(2560, 1440));
}
