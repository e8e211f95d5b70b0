use conf_test::gate::{classify_inhibit, InhibitAction};
use conf_test::run::gate_outputs;

#[test]
fn absent_value_proceeds() {
    assert_eq!(classify_inhibit(&None), InhibitAction::Proceed);
}

#[test]
fn skip_value_skips() {
    assert_eq!(classify_inhibit(&Some("skip".to_string())), InhibitAction::Skip);
}

#[test]
fn stop_value_stops() {
    assert_eq!(classify_inhibit(&Some("stop".to_string())), InhibitAction::Stop);
}

#[test]
fn fail_value_fails() {
    assert_eq!(classify_inhibit(&Some("fail".to_string())), InhibitAction::Fail);
}

#[test]
fn bogus_value_aborts() {
    assert_eq!(classify_inhibit(&Some("bogus".to_string())), InhibitAction::Abort);
    assert_eq!(classify_inhibit(&Some("".to_string())), InhibitAction::Abort);
    assert_eq!(classify_inhibit(&Some("Skip".to_string())), InhibitAction::Abort);
}

#[test]
fn skip_emits_one_warning_and_no_directive() {
    let lines = gate_outputs(&InhibitAction::Skip);
    assert_eq!(lines.len(), 1);
    assert_eq!(lines[0], "cargo:warning=Skipping ConfTest via CONF_TEST_INHIBIT\n");
    assert!(!lines[0].starts_with("cargo:rustc-cfg="));
}

#[test]
fn stop_emits_nothing() {
    let lines = gate_outputs(&InhibitAction::Stop);
    assert!(lines.is_empty());
    assert!(gate_outputs(&InhibitAction::Proceed).is_empty());
}

#[test]
fn fail_emits_one_warning() {
    let lines = gate_outputs(&InhibitAction::Fail);
    assert_eq!(lines.len(), 1);
    assert_eq!(lines[0], "cargo:warning=Requested ConfTest failure via CONF_TEST_INHIBIT\n");
}
