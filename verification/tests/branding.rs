//! When a project is branded.

use autoshorts::branding::{batch_should_add_outro, branding_is_real, has_real_branding};
use autoshorts::models::Project;

fn project_with(name: Option<&str>, logo: Option<&str>) -> Project {
    Project {
        id: "t".into(),
        name: None,
        source_path: "/tmp/x.mp4".into(),
        source_duration: None,
        status: "ready".into(),
        transcription_mode: "local".into(),
        caption_style: None,
        brand_name: name.map(str::to_string),
        brand_logo_path: logo.map(str::to_string),
        created_at: String::new(),
        updated_at: String::new(),
    }
}

/// The end card advertised "My App - download on the App Store" on a
/// project that never had an app name: a placeholder left by a test run
/// satisfied a bare is_some() check. A placeholder is not branding.
#[test]
fn placeholder_app_name_is_not_branding() {
    for name in ["My App", "my app", "  App Name  ", "your app", "TEST"] {
        assert!(
            !has_real_branding(&project_with(Some(name), Some("/tmp"))),
            "{name:?} should not count as branding"
        );
    }
}

/// A real name with no logo is still not enough to brand the end card.
#[test]
fn a_name_without_a_logo_is_not_branding() {
    assert!(!has_real_branding(&project_with(Some("LabelWise"), None)));
    assert!(!has_real_branding(&project_with(Some("LabelWise"), Some(""))));
    assert!(!has_real_branding(&project_with(
        Some("LabelWise"),
        Some("/nope/missing-logo.png")
    )));
}

/// A real name plus a logo that exists on disk does brand it.
#[test]
fn a_real_name_and_a_present_logo_are_branding() {
    assert!(has_real_branding(&project_with(Some("LabelWise: Food Scanner"), Some("/"))));
    assert!(branding_is_real(&project_with(Some("LabelWise"), Some("/logo.png")), true));
    assert!(!branding_is_real(&project_with(Some("LabelWise"), Some("/logo.png")), false));
    assert!(!branding_is_real(&project_with(Some("   "), Some("/logo.png")), true));
    assert!(!branding_is_real(&project_with(None, Some("/logo.png")), true));
}

#[test]
fn a_batch_adds_no_end_card_unless_asked() {
    let branded = project_with(Some("LabelWise"), Some("/"));
    assert!(!batch_should_add_outro(&branded, None));
    assert!(!batch_should_add_outro(&branded, Some("true")));
    assert!(batch_should_add_outro(&branded, Some("1")));
    assert!(!batch_should_add_outro(&project_with(None, None), Some("1")));
}
