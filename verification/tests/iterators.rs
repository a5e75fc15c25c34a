use minigrep::cacher::{generate_workout, Cacher, WorkoutPlan};
use minigrep::counter::Counter;
use minigrep::shoes::{shoes_in_my_size, Shoe};

#[test]
fn call_with_different_values() {
    let mut c = Cacher::new(|a| a);
    let v1 = c.value(1);
    let v2 = c.value(2);
    println!("{:#?}", v1);
    assert_eq!(v2, 1)
}

#[test]
fn filters_by_size() {
    let shoes = vec![
        Shoe { size: 10, style: String::from("sneaker") },
        Shoe { size: 13, style: String::from("sandal") },
        Shoe { size: 10, style: String::from("boot") },
    ];
    let in_my_size = shoes_in_my_size(shoes, 10);
    assert_eq!(
        in_my_size,
        vec![
            Shoe { size: 10, style: String::from("sneaker") },
            Shoe { size: 10, style: String::from("boot") },
        ]
    )
}

#[test]
fn calling_next_directly() {
    let mut counter = Counter::new();
    println!("{:#?}", counter);
    assert_eq!(counter.next(), Some(1));
    println!("{:#?}", counter);
    assert_eq!(counter.next(), Some(2));
    println!("{:#?}", counter);
    assert_eq!(counter.next(), Some(3));
    println!("{:#?}", counter);
    assert_eq!(counter.next(), Some(4));
    println!("{:#?}", counter);
    assert_eq!(counter.next(), Some(5));
    println!("{:#?}", counter);
    assert_eq!(counter.next(), None);
    println!("{:#?}", counter)
}

#[test]
fn using_other_iterator_trait_methods() {
    let mut left = Counter::new();
    let mut right = Counter::new();
    right.next();
    let mut sum: u32 = 0;
    loop {
        match (left.next(), right.next()) {
            (Some(a), Some(b)) => {
                let product = a * b;
                if product % 3 == 0 {
                    sum += product;
                }
            }
            _ => break,
        }
    }
    assert_eq!(18, sum);
}

#[test]
fn cacher_computes_once_and_keeps_the_first_result() {
    let mut c = Cacher::new(|a| a + 100);
    assert_eq!(c.value(1), 101);
    assert_eq!(c.value(50), 101);
    assert_eq!(c.value(1), 101);
}

#[test]
fn workout_low_intensity_reuses_the_cached_value() {
    let plan = generate_workout(20, 5, |n| n + 2);
    assert_eq!(plan, WorkoutPlan::PushupsAndSitups { pushups: 22, situps: 22 });
}

#[test]
fn workout_high_intensity_rests_on_three() {
    let plan = generate_workout(30, 3, |n| n);
    assert_eq!(plan, WorkoutPlan::TakeABreak);
}

#[test]
fn workout_high_intensity_runs_otherwise() {
    let plan = generate_workout(30, 5, |n| n);
    assert_eq!(plan, WorkoutPlan::Run { minutes: 30 });
}

#[test]
fn shoes_of_no_matching_size_yield_nothing() {
    let shoes = vec![Shoe { size: 9, style: String::from("loafer") }];
    let in_my_size = shoes_in_my_size(shoes, 10);
    assert_eq!(in_my_size, vec![]);
}
