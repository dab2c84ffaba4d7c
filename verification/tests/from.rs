/// A test struct.
#[derive(Default, Debug)]
struct Test {
    /// Some test number.
    #[allow(dead_code)]
    number: i32,
}

#[derive(Debug)]
struct PartialTest {
    number: Option<f32>,
}

impl partially::Partial for Test {
    type Item = PartialTest;

    fn apply_some(&mut self, partial: Self::Item) -> bool {
        let mut applied = false;
        if let Some(number) = partial.number {
            self.number = number as i32;
            applied = true;
        }
        applied
    }
}

#[test]
fn can_parse() {
    let a = Test::default();
    let b = PartialTest { number: Some(1.0) };

    println!("a: {:?}, b: {:?}", a, b);
}
