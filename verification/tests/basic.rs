use partially::Partial;

struct Data {
    a: String,
    b: String,
}

#[derive(Default)]
struct PartialData {
    a: Option<String>,
    b: Option<String>,
}

impl Partial for Data {
    type Item = PartialData;

    fn apply_some(&mut self, partial: Self::Item) -> bool {
        let mut applied = false;
        if let Some(a) = partial.a {
            self.a = a.into();
            applied = true;
        }
        if let Some(b) = partial.b {
            self.b = b.into();
            applied = true;
        }
        applied
    }
}

impl Partial for PartialData {
    type Item = PartialData;

    fn apply_some(&mut self, partial: Self::Item) -> bool {
        let mut applied = false;
        if let Some(a) = partial.a {
            self.a = a.into();
            applied = true;
        }
        if let Some(b) = partial.b {
            self.b = b.into();
            applied = true;
        }
        applied
    }
}

#[test]
fn basic_apply_some() {
    let empty_partial = PartialData::default();
    let full_partial = PartialData {
        a: Some("modified".to_string()),
        b: None,
    };

    let mut full = Data {
        a: "initial".to_string(),
        b: String::default(),
    };

    assert!(!full.apply_some(empty_partial));

    assert_eq!(full.a, "initial".to_string());

    assert!(full.apply_some(full_partial));

    assert_eq!(full.a, "modified".to_string());
}

#[test]
fn partial_apply_some() {
    let mut empty_partial = PartialData::default();
    let full_partial = PartialData {
        a: Some("modified".to_string()),
        b: None,
    };

    assert!(empty_partial.apply_some(full_partial));

    assert_eq!(empty_partial.a, Some("modified".to_string()));
    assert_eq!(empty_partial.b, None);
}
