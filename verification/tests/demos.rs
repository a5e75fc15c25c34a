use minigrep::coins::{count_nonquarter_coins, plus_one, value_in_cents, Coin, UsState};
use minigrep::longest::longest;
use minigrep::mybox::MyBox;
use minigrep::rectangle::Rectangle;

#[test]
fn area_multiplies_width_by_height() {
    let rect = Rectangle { width: 30, height: 50 };
    assert_eq!(rect.area(), 1500);
}

#[test]
fn can_hold_requires_strictly_larger_sides() {
    let rect1 = Rectangle { width: 30, height: 50 };
    let rect2 = Rectangle { width: 10, height: 40 };
    let rect3 = Rectangle { width: 60, height: 45 };
    assert!(rect1.can_hold(&rect2));
    assert!(!rect1.can_hold(&rect3));
    assert!(!rect1.can_hold(&rect1));
}

#[test]
fn square_has_equal_sides() {
    let sq = Rectangle::square(30);
    assert_eq!(sq, Rectangle { width: 30, height: 30 });
}

#[test]
fn double_doubles_both_sides() {
    let rect = Rectangle { width: 10, height: 40 };
    assert_eq!(rect.double(), Rectangle { width: 20, height: 80 });
}

#[test]
fn coin_values_in_cents() {
    assert_eq!(value_in_cents(Coin::Penny), 1);
    assert_eq!(value_in_cents(Coin::Nickle), 5);
    assert_eq!(value_in_cents(Coin::Dime), 10);
    assert_eq!(value_in_cents(Coin::Quarter(UsState::AK)), 25);
}

#[test]
fn quarters_are_not_counted() {
    assert_eq!(count_nonquarter_coins(Coin::Penny), 1);
    assert_eq!(count_nonquarter_coins(Coin::Quarter(UsState::NY)), 0);
}

#[test]
fn plus_one_adds_inside_some() {
    assert_eq!(plus_one(Some(5)), Some(6));
    assert_eq!(plus_one(None), None);
}

#[test]
fn mybox_holds_its_value() {
    let boxed = MyBox::new(5);
    assert_eq!(*boxed.inner(), 5);
    assert_eq!(boxed.0, 5);
}

#[test]
fn longest_picks_the_longer_slice() {
    assert_eq!(longest("abcd", "xyz"), "abcd");
    assert_eq!(longest("ab", "xyz"), "xyz");
    assert_eq!(longest("ab", "xy"), "xy");
}
