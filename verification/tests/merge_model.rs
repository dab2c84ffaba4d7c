use partially::merge::apply_merge;
use partially::start;
use partially::Partial;

#[test]
fn noop_merge_reports_false() {
    let mut base = vec!["initial".to_string(), "kept".to_string()];
    let partial: Vec<Option<String>> = vec![None, None];

    let applied = apply_merge(&mut base, partial);

    assert!(!applied);
    assert_eq!(base, vec!["initial".to_string(), "kept".to_string()]);
}

#[test]
fn full_merge_reports_true() {
    let mut base = vec!["initial".to_string(), "kept".to_string()];
    let partial = vec![Some("modified".to_string()), Some("replaced".to_string())];

    let applied = apply_merge(&mut base, partial);

    assert!(applied);
    assert_eq!(base, vec!["modified".to_string(), "replaced".to_string()]);
}

#[test]
fn mixed_merge_assigns_only_present_fields() {
    let mut base = vec![1u64, 2, 3];
    let partial = vec![None, Some(20u64), None];

    let applied = apply_merge(&mut base, partial);

    assert!(applied);
    assert_eq!(base, vec![1u64, 20, 3]);
}

#[test]
fn empty_merge_reports_false() {
    let mut base: Vec<u8> = Vec::new();
    let partial: Vec<Option<u8>> = Vec::new();

    let applied = apply_merge(&mut base, partial);

    assert!(!applied);
    assert!(base.is_empty());
}

#[test]
fn smoke_start() {
    assert_eq!(start(), 0);
}

struct Data {
    value: String,
}

#[derive(Default)]
struct PartialData {
    value: Option<String>,
}

impl partially::Partial for Data {
    type Item = PartialData;

    fn apply_some(&mut self, partial: Self::Item) -> bool {
        let mut applied = false;
        if let Some(value) = partial.value {
            self.value = value.into();
            applied = true;
        }
        applied
    }
}

#[test]
fn example_scenario_merge() {
    let mut data = Data {
        value: "initial".to_string(),
    };

    assert!(!data.apply_some(PartialData { value: None }));
    assert_eq!(data.value, "initial");

    assert!(data.apply_some(PartialData {
        value: Some("modified".to_string()),
    }));
    assert_eq!(data.value, "modified");
}
