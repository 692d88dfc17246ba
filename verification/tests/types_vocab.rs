use daemon8::types::envelope::{EnvelopeKind, EnvelopePriority, EnvelopeStatus};
use daemon8::types::memory::{
    LongContentKind, MemoryScope, MemoryTier, ReferenceSourceKind, ShortContentKind,
};
use daemon8::types::ObservationKindTag;

#[test]
fn envelope_status_display_fromstr_roundtrip() {
    for s in [
        EnvelopeStatus::Queued,
        EnvelopeStatus::Delivered,
        EnvelopeStatus::Read,
        EnvelopeStatus::Failed,
        EnvelopeStatus::Expired,
        EnvelopeStatus::Cancelled,
    ] {
        let text = s.to_string();
        let back: EnvelopeStatus = text.parse().expect("parse");
        assert_eq!(back, s);
    }
    assert!("nonsense".parse::<EnvelopeStatus>().is_err());
}

#[test]
fn envelope_priority_display_fromstr_roundtrip() {
    for p in [
        EnvelopePriority::Low,
        EnvelopePriority::Normal,
        EnvelopePriority::High,
        EnvelopePriority::Urgent,
    ] {
        let text = p.to_string();
        let back: EnvelopePriority = text.parse().expect("parse");
        assert_eq!(back, p);
    }
    assert!("nonsense".parse::<EnvelopePriority>().is_err());
}

#[test]
fn envelope_kind_display_fromstr_roundtrip() {
    for k in [
        EnvelopeKind::Message,
        EnvelopeKind::Request,
        EnvelopeKind::Response,
        EnvelopeKind::Notice,
        EnvelopeKind::Control,
    ] {
        let text = k.to_string();
        let back: EnvelopeKind = text.parse().expect("parse");
        assert_eq!(back, k);
    }
    assert!("nonsense".parse::<EnvelopeKind>().is_err());
}

#[test]
fn envelope_status_terminal_classification() {
    assert!(!EnvelopeStatus::Queued.is_terminal());
    assert!(!EnvelopeStatus::Delivered.is_terminal());
    assert!(EnvelopeStatus::Read.is_terminal());
    assert!(EnvelopeStatus::Failed.is_terminal());
    assert!(EnvelopeStatus::Expired.is_terminal());
    assert!(EnvelopeStatus::Cancelled.is_terminal());
}

#[test]
fn dedup_exempt_kinds() {
    assert!(ObservationKindTag::ToolCall.is_dedup_exempt());
    assert!(ObservationKindTag::Metric.is_dedup_exempt());
    assert!(ObservationKindTag::Lifecycle.is_dedup_exempt());

    assert!(!ObservationKindTag::Log.is_dedup_exempt());
    assert!(!ObservationKindTag::Query.is_dedup_exempt());
    assert!(!ObservationKindTag::HttpExchange.is_dedup_exempt());
    assert!(!ObservationKindTag::Exception.is_dedup_exempt());
    assert!(!ObservationKindTag::JsException.is_dedup_exempt());
    assert!(!ObservationKindTag::StateSnapshot.is_dedup_exempt());
    assert!(!ObservationKindTag::Custom.is_dedup_exempt());
}

#[test]
fn memory_tier_display_fromstr_roundtrip() {
    for t in [MemoryTier::Short, MemoryTier::Reference, MemoryTier::Long] {
        let text = t.to_string();
        let back: MemoryTier = text.parse().expect("parse");
        assert_eq!(back, t);
    }
    assert!("nonsense".parse::<MemoryTier>().is_err());
}

#[test]
fn memory_tier_is_durable_classification() {
    assert!(!MemoryTier::Short.is_durable());
    assert!(MemoryTier::Reference.is_durable());
    assert!(MemoryTier::Long.is_durable());
}

#[test]
fn memory_scope_display_fromstr_roundtrip() {
    for s in [
        MemoryScope::Agent,
        MemoryScope::Team,
        MemoryScope::Project,
        MemoryScope::Global,
    ] {
        let text = s.to_string();
        let back: MemoryScope = text.parse().expect("parse");
        assert_eq!(back, s);
    }
    assert!("nonsense".parse::<MemoryScope>().is_err());
}

#[test]
fn short_content_kind_display_fromstr_roundtrip() {
    for k in [
        ShortContentKind::Scratch,
        ShortContentKind::Summary,
        ShortContentKind::Fact,
        ShortContentKind::Observation,
    ] {
        let text = k.to_string();
        let back: ShortContentKind = text.parse().expect("parse");
        assert_eq!(back, k);
    }
    assert!("nonsense".parse::<ShortContentKind>().is_err());
}

#[test]
fn reference_source_kind_display_fromstr_roundtrip() {
    for k in [
        ReferenceSourceKind::Doc,
        ReferenceSourceKind::Forum,
        ReferenceSourceKind::Rfc,
        ReferenceSourceKind::Code,
        ReferenceSourceKind::Note,
        ReferenceSourceKind::Other,
    ] {
        let text = k.to_string();
        let back: ReferenceSourceKind = text.parse().expect("parse");
        assert_eq!(back, k);
    }
    assert!("nonsense".parse::<ReferenceSourceKind>().is_err());
}

#[test]
fn long_content_kind_display_fromstr_roundtrip() {
    for k in [
        LongContentKind::Fact,
        LongContentKind::Pattern,
        LongContentKind::Decision,
        LongContentKind::Heuristic,
        LongContentKind::Example,
    ] {
        let text = k.to_string();
        let back: LongContentKind = text.parse().expect("parse");
        assert_eq!(back, k);
    }
    assert!("nonsense".parse::<LongContentKind>().is_err());
}

#[test]
fn parse_ignores_case_and_reports_lowercased_input() {
    assert_eq!("ShOrT".parse::<MemoryTier>(), Ok(MemoryTier::Short));
    assert_eq!(
        "NoNsEnSe".parse::<MemoryTier>(),
        Err("unknown memory tier: nonsense".to_string())
    );
    assert_eq!(
        EnvelopeStatus::parse_name("QUEUED"),
        Ok(EnvelopeStatus::Queued)
    );
}
