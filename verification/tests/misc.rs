use gane::light_adapt::LightCondition;
use gane::metrics::{Counter, Gauge};
use gane::monitoring::PanelType;
use gane::multimodal::Mode;
use gane::noise_map::NoiseSource;
use gane::observability::logging::{validate_level, LogConfig, LogFormat};
use gane::observability::openapi::swagger_ui_html;
use gane::parking_nav::ParkingType;
use gane::profile::TimeBucket;

#[test]
fn test_headlights_night() {
    assert!(LightCondition::Night.headlights_required());
    assert!(!LightCondition::BrightSun.headlights_required());
}

#[test]
fn test_high_beam() {
    assert!(LightCondition::Night.high_beam_safe());
    assert!(!LightCondition::Fog.high_beam_safe());
}

#[test]
fn panel_type_as_str() {
    assert_eq!(PanelType::Graph.as_str(), "graph");
    assert_eq!(PanelType::Gauge.as_str(), "gauge");
    assert_eq!(PanelType::Stat.as_str(), "stat");
    assert_eq!(PanelType::Table.as_str(), "table");
    assert_eq!(PanelType::Heatmap.as_str(), "heatmap");
    assert_eq!(PanelType::AlertList.as_str(), "alertlist");
    assert_eq!(PanelType::Text.as_str(), "text");
}

#[test]
fn test_mode_classification() {
    assert!(Mode::Walk.is_active());
    assert!(Mode::Metro.is_transit());
    assert!(!Mode::Drive.is_transit());
}

#[test]
fn test_intermittent() {
    assert!(NoiseSource::Airport.is_intermittent());
    assert!(!NoiseSource::Traffic.is_intermittent());
}

#[test]
fn test_parking_type_covered() {
    assert!(ParkingType::Garage.is_covered());
    assert!(ParkingType::Underground.is_covered());
    assert!(!ParkingType::Street.is_covered());
}

#[test]
fn test_time_bucket() {
    assert_eq!(TimeBucket::from_hour(7), TimeBucket::MorningRush);
    assert_eq!(TimeBucket::from_hour(16), TimeBucket::EveningRush);
    assert_eq!(TimeBucket::from_hour(23), TimeBucket::Night);
    assert_eq!(TimeBucket::from_hour(3), TimeBucket::Night);
}

#[test]
fn counter_increments() {
    let mut c = Counter::new("test_total", "A test counter");
    assert_eq!(c.get(), 0);
    c.inc();
    assert_eq!(c.get(), 1);
    c.inc_by(5);
    assert_eq!(c.get(), 6);
}

#[test]
fn gauge_set_inc_dec() {
    let mut g = Gauge::new("test_gauge", "A test gauge");
    assert_eq!(g.get(), 0);
    g.set(42);
    assert_eq!(g.get(), 42);
    g.inc();
    assert_eq!(g.get(), 43);
    g.dec();
    assert_eq!(g.get(), 42);
}

#[test]
fn gauge_negative_values() {
    let mut g = Gauge::new("temp", "Temperature");
    g.set(-10);
    assert_eq!(g.get(), -10);
    g.dec();
    assert_eq!(g.get(), -11);
}

#[test]
fn counter_name_and_help() {
    let c = Counter::new("test_total", "A test counter");
    assert_eq!(c.name(), "test_total");
    assert_eq!(c.help(), "A test counter");
}

#[test]
fn counter_wraps_like_an_atomic() {
    let mut c = Counter::new("c", "");
    c.inc_by(u64::MAX);
    c.inc();
    assert_eq!(c.get(), 0);
    let mut g = Gauge::new("g", "h");
    assert_eq!(g.help(), "h");
    g.set(i64::MIN);
    g.dec();
    assert_eq!(g.get(), i64::MAX);
}

#[test]
fn default_config() {
    let config = LogConfig::default();
    assert_eq!(config.level, "info");
    assert_eq!(config.format, LogFormat::Pretty);
    assert!(!config.with_file);
    assert!(config.with_target);
}

#[test]
fn log_format_default() {
    assert_eq!(LogFormat::default(), LogFormat::Pretty);
}

#[test]
fn validate_known_levels() {
    for level in &["trace", "debug", "info", "warn", "error", "off"] {
        assert!(validate_level(level).is_ok());
    }
}

#[test]
fn validate_rejects_garbage() {
    assert!(validate_level("banana").is_err());
    assert!(validate_level("").is_err());
}

#[test]
fn validate_level_case_and_directives() {
    assert!(validate_level("WARN").is_ok());
    assert!(validate_level("gane_api=debug,info").is_ok());
    assert_eq!(
        validate_level("loud").unwrap_err(),
        "Invalid log level 'loud': must be one of [\"trace\", \"debug\", \"info\", \"warn\", \"error\", \"off\"]"
    );
}

#[test]
fn swagger_ui_html_contains_script() {
    let html = swagger_ui_html();
    assert!(html.contains("swagger-ui"));
    assert!(html.contains("/openapi.json"));
    assert!(html.contains("SwaggerUIBundle"));
}
