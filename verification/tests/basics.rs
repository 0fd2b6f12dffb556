use word_slicer::accounts::build_user;
use word_slicer::coins::{get_value_pesos, Coin, FiftyCent};
use word_slicer::numbers::{add, get_some, is_bigger_than, mapping, patter_optional};
use word_slicer::person;
use word_slicer::points::{largest, OtherPoint};
use word_slicer::profile;
use word_slicer::shapes::{area, area_struct, area_tup, Rectangle};
use word_slicer::text::{
    as_mut_param_ref, concat_name, dangle, gives_ownership, largest_slice, move_concept,
    takes_and_back_ownwership, takes_and_gives_back,
};

#[test]
fn add_sums() {
    assert_eq!(add(10, 14), 24);
    assert_eq!(add(-3, 3), 0);
}

#[test]
fn is_bigger_than_compares() {
    assert!(is_bigger_than(100, 101));
    assert!(!is_bigger_than(101, 100));
    assert!(!is_bigger_than(7, 7));
}

#[test]
fn get_some_looks_up_the_table() {
    assert_eq!(get_some(0), Some(1));
    assert_eq!(get_some(4), Some(5));
    assert_eq!(get_some(6), None);
}

#[test]
fn patter_optional_adds_one() {
    assert_eq!(patter_optional(Some(5)), Some(6));
    assert_eq!(patter_optional(None), None);
}

#[test]
fn mapping_doubles_each_element() {
    assert_eq!(mapping(vec![1, 2, 3]), vec![2, 4, 6]);
    assert_eq!(mapping(vec![-4, 0]), vec![-8, 0]);
    assert_eq!(mapping(Vec::new()), Vec::<i32>::new());
}

#[test]
fn concat_name_greets() {
    assert_eq!(concat_name("Yael"), "Hello Yael");
    assert_eq!(concat_name(""), "Hello");
}

#[test]
fn largest_slice_picks_the_longer() {
    assert_eq!(largest_slice("Hi! from Rust", "Hi!"), "Hi! from Rust");
    assert_eq!(largest_slice("ab", "abcd"), "abcd");
    assert_eq!(largest_slice("tie", "tye"), "tye");
}

#[test]
fn takes_and_back_ownwership_returns_value_and_length() {
    let (value, len) = takes_and_back_ownwership(String::from("Hi!"));
    assert_eq!(value, "Hi!");
    assert_eq!(len, 3);
}

#[test]
fn as_mut_param_ref_appends() {
    let mut greeting = String::from("Hi!");
    as_mut_param_ref(&mut greeting);
    assert_eq!(greeting, "Hi! Yael");
}

#[test]
fn owned_string_builders() {
    assert_eq!(dangle(), "Value");
    assert_eq!(move_concept(), "Hello");
    assert_eq!(gives_ownership(), "Again!");
    assert_eq!(takes_and_gives_back(String::from("Go back!")), "Go back!");
}

#[test]
fn rectangle_area_and_containment() {
    let rectangle_two = Rectangle::new(10, 20);
    assert_eq!(rectangle_two.calc_area(), 200);
    let rec = Rectangle::new(70, 100);
    assert!(rectangle_two.can_hold(&rec));
    assert!(!rec.can_hold(&rectangle_two));
}

#[test]
fn area_from_plain_values() {
    assert_eq!(area(30, 50), 1500);
    assert_eq!(area_tup((70, 80)), 5600);
    assert_eq!(area_struct(&Rectangle::new(230, 10)), 2300);
}

#[test]
fn other_point_holds_both_coordinates() {
    let p = OtherPoint::new(10, true);
    assert_eq!(*p.x(), 10);
    assert!(p.y);
}

#[test]
fn largest_finds_the_maximum() {
    assert_eq!(largest(&[5, 13, 48, 203, 9823]), 9823);
    assert_eq!(largest(&[-7]), -7);
    assert_eq!(largest(&[3, 3, 1]), 3);
}

#[test]
fn person_new_keeps_fields() {
    let p = person::Person::new(String::from("Yael Moya"), 24);
    assert_eq!(p.name, "Yael Moya");
    assert_eq!(p.age, 24);
}

#[test]
fn profile_person_borrows_its_name() {
    let police = profile::Person::new("John Doe", 35);
    assert_eq!(police.name(), "John Doe");
    assert_eq!(police.age, 35);
}

#[test]
fn coin_values() {
    assert_eq!(get_value_pesos(Coin::FiftyCentPesos(FiftyCent::Glod)), 50);
    assert_eq!(get_value_pesos(Coin::FiftyCentPesos(FiftyCent::Silver)), 50);
    assert_eq!(get_value_pesos(Coin::OnePeso), 1);
    assert_eq!(get_value_pesos(Coin::TwoPesos), 2);
    assert_eq!(get_value_pesos(Coin::FivePesos), 5);
    assert_eq!(get_value_pesos(Coin::TenPesos), 10);
}

#[test]
fn build_user_starts_active() {
    let user = build_user(String::from("Alejandro"), String::from("ale_taboa@email.com"));
    assert_eq!(user.username, "Alejandro");
    assert_eq!(user.email, "ale_taboa@email.com");
    assert!(user.is_active);
    assert_eq!(user.sign_in_count, 2003);
}
