use linux_scroll_fix::profile::{
    apply_profile, config_path, direction_label, profile_label, Directions, ProfileArg,
};
use linux_scroll_fix::{AccelerationCurve, AnalyzerMode, Direction};

#[test]
fn built_in_profile_names_and_paths_are_fixed() {
    assert_eq!(ProfileArg::Precise.name(), "precise");
    assert_eq!(ProfileArg::Balanced.name(), "balanced");
    assert_eq!(ProfileArg::Rapid.name(), "rapid");
    assert!(ProfileArg::Balanced.path().ends_with("balanced.toml"));
    assert!(ProfileArg::Rapid.path().ends_with("rapid.toml"));
}

#[test]
fn profiles_are_recognised_in_a_fixed_order() {
    assert_eq!(
        ProfileArg::all(),
        [ProfileArg::Precise, ProfileArg::Balanced, ProfileArg::Rapid]
    );
    assert!(ProfileArg::Precise.path().ends_with("precise.toml"));
}

#[test]
fn applying_a_profile_keeps_the_scroll_direction() {
    let current = Directions {
        vertical: Direction::Natural,
        horizontal: Direction::Traditional,
    };
    let update = apply_profile(ProfileArg::Rapid, current);
    assert_eq!(update.directions, current);
    assert_eq!(update.source, ProfileArg::Rapid.path());
    assert_eq!(update.target, "/etc/linux-scroll-fix/config.toml");
    assert_eq!(config_path(), update.target);
}

#[test]
fn status_labels() {
    assert_eq!(direction_label(Directions::both(Direction::Natural)), "natural");
    assert_eq!(
        direction_label(Directions::both(Direction::Traditional)),
        "traditional"
    );
    assert_eq!(
        direction_label(Directions {
            vertical: Direction::Traditional,
            horizontal: Direction::Natural,
        }),
        "mixed"
    );
    assert_eq!(profile_label(Some(ProfileArg::Balanced)), "balanced");
    assert_eq!(profile_label(None), "custom");
}

#[test]
fn setting_defaults() {
    assert_eq!(Direction::default(), Direction::Traditional);
    assert_eq!(AccelerationCurve::default(), AccelerationCurve::Bezier);
    assert_eq!(AnalyzerMode::default(), AnalyzerMode::MedianEma);
}
