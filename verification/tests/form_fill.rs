use octoweb::form_fill::{FillAction, FillForm};
use octoweb::mcp::{FillFormRequest, FormField};

fn field(sel: &str, val: &str) -> FormField {
    FormField { selector: sel.to_string(), value: val.to_string() }
}

fn finish(a: FillAction) -> (String, bool) {
    match a {
        FillAction::Finish { body, is_error } => (body, is_error),
        other => panic!("expected Finish, got {other:?}"),
    }
}

#[test]
fn empty_form_is_refused() {
    let req = FillFormRequest { tab_id: None, fields: vec![], submit: None, expect: None };
    let (f, a) = FillForm::start(req);
    assert!(f.is_done());
    let (body, err) = finish(a);
    assert!(err);
    assert_eq!(body, "fields is empty — pass at least one {selector, value}");
}

#[test]
fn fields_are_typed_in_order_then_submitted() {
    let req = FillFormRequest {
        tab_id: Some(4),
        fields: vec![field("#a", "x"), field("#b", "y")],
        submit: Some("#go".to_string()),
        expect: Some("url".to_string()),
    };
    let (mut f, a) = FillForm::start(req);
    match a {
        FillAction::Type { tab_id, selector, text } => {
            assert_eq!((tab_id, selector.as_str(), text.as_str()), (Some(4), "#a", "x"));
        }
        other => panic!("{other:?}"),
    }
    match f.step(Ok(" → dom +1/-0 nodes".to_string())) {
        FillAction::Type { selector, text, .. } => assert_eq!((selector.as_str(), text.as_str()), ("#b", "y")),
        other => panic!("{other:?}"),
    }
    match f.step(Ok(" → TEXT DID NOT STICK".to_string())) {
        FillAction::Click { tab_id, selector, expect } => {
            assert_eq!(tab_id, Some(4));
            assert_eq!(selector, "#go");
            assert_eq!(expect.as_deref(), Some("url"));
        }
        other => panic!("{other:?}"),
    }
    let (body, err) = finish(f.step(Ok(" → url → https://x.test/done".to_string())));
    assert!(!err);
    assert!(f.is_done());
    assert_eq!(
        body,
        "Filled 1/2 field(s):\n✓ #a → dom +1/-0 nodes\n⚠ #b → TEXT DID NOT STICK\nsubmit:  → url → https://x.test/done"
    );
}

#[test]
fn navigation_mid_fill_stops_and_skips_submit() {
    let req = FillFormRequest {
        tab_id: None,
        fields: vec![field("#a", "x"), field("#b", "y"), field("#c", "z")],
        submit: Some("#go".to_string()),
        expect: None,
    };
    let (mut f, _) = FillForm::start(req);
    let (body, err) = finish(f.step(Ok(" → url → https://x.test/other".to_string())));
    assert!(!err);
    assert!(body.starts_with("Filled 1/3 field(s):\n✓ #a → url → https://x.test/other\n⏹ stopped:"));
    assert!(body.ends_with("start again on the new page.\nsubmit: SKIPPED — the tab navigated mid-fill"));
}

#[test]
fn failed_field_and_failed_submit_are_reported() {
    let req = FillFormRequest {
        tab_id: None,
        fields: vec![field("#a", "x")],
        submit: Some("#go".to_string()),
        expect: None,
    };
    let (mut f, _) = FillForm::start(req);
    match f.step(Err("No element matched selector: #a".to_string())) {
        FillAction::Click { selector, .. } => assert_eq!(selector, "#go"),
        other => panic!("{other:?}"),
    }
    let (body, _) = finish(f.step(Err("stale".to_string())));
    assert_eq!(body, "Filled 0/1 field(s):\n✗ #a: No element matched selector: #a\nsubmit ✗ #go: stale");
}

#[test]
fn last_field_navigating_does_not_stop_and_no_submit_ends() {
    let req = FillFormRequest { tab_id: None, fields: vec![field("#q", "rust")], submit: None, expect: None };
    let (mut f, _) = FillForm::start(req);
    let (body, _) = finish(f.step(Ok(" → url → https://x.test/search".to_string())));
    assert_eq!(body, "Filled 1/1 field(s):\n✓ #q → url → https://x.test/search");
}
