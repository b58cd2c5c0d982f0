use receipt_ocr::error::OcrError;
use receipt_ocr::extract::OcrSource;
use receipt_ocr::orchestrator::{
    normalize_confidence, Action, EngineChoice, HybridOrchestrator, LocalReading, OcrEngineQuery,
    Phase,
};

const GROCERY: &str = "Grocery Store\n01/02/2024\nMilk 2x1.50\nBread 2.00\nTOTAL: $5.00";

fn reading(text: &str, confidence: i32) -> LocalReading {
    LocalReading {
        full_text: text.to_string(),
        bottom_text: None,
        top_text: None,
        mean_confidence: confidence,
    }
}

#[test]
fn confident_local_result_never_calls_cloud() {
    let mut o = HybridOrchestrator::new(EngineChoice::Hybrid, true);
    assert!(matches!(o.start(), Action::RunLocal));
    match o.on_local(Ok(reading(GROCERY, 90))) {
        Action::Finish(Ok(r)) => {
            assert_eq!(r.engine_used, OcrSource::Local);
            assert_eq!(r.confidence, 90);
        }
        _ => panic!("expected a local result"),
    }
    assert_eq!(o.cloud_calls, 0);
    assert_eq!(o.phase, Phase::Resolved);
}

#[test]
fn weak_local_result_calls_cloud_once() {
    let mut o = HybridOrchestrator::new(EngineChoice::Hybrid, true);
    assert!(matches!(o.start(), Action::RunLocal));
    assert!(matches!(o.on_local(Ok(reading(GROCERY, 50))), Action::RunCloud));
    assert_eq!(o.cloud_calls, 1);
    match o.on_cloud(Ok("Cafe Uno\nTotal 3.20".to_string())) {
        Action::Finish(Ok(r)) => {
            assert_eq!(r.engine_used, OcrSource::Cloud);
            assert_eq!(r.extracted_data.total, Some(320));
        }
        _ => panic!("expected a cloud result"),
    }
    assert_eq!(o.cloud_calls, 1);
}

#[test]
fn grocery_end_to_end_local() {
    let mut o = HybridOrchestrator::new(EngineChoice::Hybrid, true);
    o.start();
    match o.on_local(Ok(reading(GROCERY, 85))) {
        Action::Finish(Ok(r)) => {
            let d = &r.extracted_data;
            assert_eq!(d.total, Some(500));
            assert_eq!(d.date, Some("2024-02-01".to_string()));
            assert_eq!(d.merchant, Some("Grocery Store".to_string()));
            assert_eq!(d.items.len(), 2);
            assert_eq!(d.items[0].name, "Milk");
            assert_eq!(d.items[0].price, Some(150));
            assert_eq!(d.items[0].quantity, Some(2));
            assert_eq!(d.items[1].name, "Bread");
            assert_eq!(d.items[1].price, Some(200));
            assert_eq!(d.items[1].quantity, Some(1));
            assert_eq!(r.engine_used, OcrSource::Local);
            assert_eq!(d.source, OcrSource::Local);
        }
        _ => panic!("expected a local result"),
    }
    assert_eq!(o.cloud_calls, 0);
}

#[test]
fn low_local_confidence_escalates_to_cloud() {
    let mut o = HybridOrchestrator::new(EngineChoice::Hybrid, true);
    o.start();
    assert!(matches!(o.on_local(Ok(reading(GROCERY, 40))), Action::RunCloud));
    match o.on_cloud(Ok(GROCERY.to_string())) {
        Action::Finish(Ok(r)) => {
            assert_eq!(r.engine_used, OcrSource::Cloud);
            assert_eq!(r.confidence, 90);
            assert_eq!(r.extracted_data.confidence, 90);
            assert_eq!(r.extracted_data.source, OcrSource::Cloud);
        }
        _ => panic!("expected a cloud result"),
    }
}

#[test]
fn missing_fields_escalate_even_when_confident() {
    let mut o = HybridOrchestrator::new(EngineChoice::Hybrid, true);
    o.start();
    assert!(matches!(o.on_local(Ok(reading("Grocery Store", 95))), Action::RunCloud));
}

#[test]
fn threshold_is_strict() {
    let mut o = HybridOrchestrator::new(EngineChoice::Hybrid, true);
    o.start();
    assert!(matches!(o.on_local(Ok(reading(GROCERY, 70))), Action::RunCloud));
}

#[test]
fn escalation_without_credentials_fails_fast() {
    let mut o = HybridOrchestrator::new(EngineChoice::Hybrid, false);
    o.start();
    assert!(matches!(o.on_local(Ok(reading(GROCERY, 30))), Action::Finish(Err(OcrError::CloudAuthMissing))));
    assert_eq!(o.cloud_calls, 0);
}

#[test]
fn cloud_only_without_credentials_fails_fast() {
    let mut o = HybridOrchestrator::new(EngineChoice::Cloud, false);
    assert!(matches!(o.start(), Action::Finish(Err(OcrError::CloudAuthMissing))));
    assert_eq!(o.cloud_calls, 0);
}

#[test]
fn cloud_only_skips_local() {
    let mut o = HybridOrchestrator::new(EngineChoice::Cloud, true);
    assert!(matches!(o.start(), Action::RunCloud));
    assert!(matches!(o.on_cloud(Err(OcrError::CloudRequestError)), Action::Finish(Err(OcrError::CloudRequestError))));
}

#[test]
fn local_only_keeps_weak_result() {
    let mut o = HybridOrchestrator::new(EngineChoice::Local, true);
    o.start();
    match o.on_local(Ok(reading("nothing here", 10))) {
        Action::Finish(Ok(r)) => {
            assert_eq!(r.engine_used, OcrSource::Local);
            assert_eq!(r.confidence, 10);
            assert_eq!(r.extracted_data.total, None);
        }
        _ => panic!("expected a local result"),
    }
    assert_eq!(o.cloud_calls, 0);
}

#[test]
fn local_failure_does_not_escalate() {
    let mut o = HybridOrchestrator::new(EngineChoice::Hybrid, true);
    o.start();
    assert!(matches!(
        o.on_local(Err(OcrError::LocalRecognitionError)),
        Action::Finish(Err(OcrError::LocalRecognitionError))
    ));
    assert_eq!(o.cloud_calls, 0);
}

#[test]
fn cloud_failure_after_escalation_is_fatal() {
    let mut o = HybridOrchestrator::new(EngineChoice::Hybrid, true);
    o.start();
    o.on_local(Ok(reading(GROCERY, 20)));
    assert!(matches!(o.on_cloud(Err(OcrError::CloudResponseParseError)), Action::Finish(Err(OcrError::CloudResponseParseError))));
    assert_eq!(o.phase, Phase::Resolved);
}

#[test]
fn confidence_stays_in_range() {
    assert_eq!(normalize_confidence(-5), 0);
    assert_eq!(normalize_confidence(0), 0);
    assert_eq!(normalize_confidence(73), 73);
    assert_eq!(normalize_confidence(100), 100);
    assert_eq!(normalize_confidence(250), 100);
    let mut o = HybridOrchestrator::new(EngineChoice::Local, false);
    o.start();
    match o.on_local(Ok(reading(GROCERY, 400))) {
        Action::Finish(Ok(r)) => assert_eq!(r.confidence, 100),
        _ => panic!("expected a local result"),
    }
}

#[test]
fn processing_time_is_recorded() {
    let mut o = HybridOrchestrator::new(EngineChoice::Local, false);
    o.start();
    match o.on_local(Ok(reading(GROCERY, 80))) {
        Action::Finish(Ok(r)) => {
            let r = r.with_processing_time(42);
            assert_eq!(r.processing_time_ms, 42);
            assert_eq!(r.confidence, 80);
        }
        _ => panic!("expected a local result"),
    }
}

#[test]
fn engine_selector_values() {
    let q = |s: Option<&str>| OcrEngineQuery { engine: s.map(|v| v.to_string()) }.engine_choice();
    assert_eq!(q(None), EngineChoice::Hybrid);
    assert_eq!(q(Some("hybrid")), EngineChoice::Hybrid);
    assert_eq!(q(Some("local")), EngineChoice::Local);
    assert_eq!(q(Some("tesseract")), EngineChoice::Local);
    assert_eq!(q(Some("cloud")), EngineChoice::Cloud);
    assert_eq!(q(Some("google")), EngineChoice::Cloud);
    assert_eq!(q(Some("other")), EngineChoice::Hybrid);
}

#[test]
fn error_messages_are_not_empty() {
    for e in [OcrError::ImageDecodeError, OcrError::CloudAuthMissing, OcrError::CloudResponseParseError] {
        assert!(!e.message().is_empty());
    }
}
