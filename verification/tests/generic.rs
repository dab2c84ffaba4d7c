use partially::Partial;

struct Data<T> {
    value: T,
}

#[derive(Default)]
struct PartialData<T> {
    value: Option<T>,
}

impl<T> Partial for Data<T> {
    type Item = PartialData<T>;

    fn apply_some(&mut self, partial: Self::Item) -> bool {
        let mut applied = false;
        if let Some(value) = partial.value {
            self.value = value.into();
            applied = true;
        }
        applied
    }
}

#[test]
fn generic_apply_some() {
    let empty_partial = PartialData::<String>::default();
    let full_partial = PartialData {
        value: Some("modified".to_string()),
    };

    let mut full = Data {
        value: "initial".to_string(),
    };

    full.apply_some(empty_partial);

    assert_eq!(full.value, "initial".to_string());

    full.apply_some(full_partial);

    assert_eq!(full.value, "modified".to_string());
}
