use modbus_bench::collections::{checked_total, median_parts, sorted_copy, Middle};
use modbus_bench::basics::{
    analyze_array, calculate_length, change, eat_at_restaurant, first_word, gives_ownership, plus_one,
    takes_and_gives_back, quarter_value_in_cents, make_row, count_text_cells, SpreadsheetCell, value_in_cents, Coin, Quarter, Rectangle, Square, UsState,
};
use modbus_bench::collections::{
    binary_search, build_stack, byte_count, char_count, first_char, first_even, is_vowel, join_with_comma,
    last_char, mode, most_frequent, pop_all, safe_get, sentence_to_pig_latin, shift_all, split_whitespace,
    to_pig_latin, unit_label, word_frequencies, add_score,
};
use modbus_bench::register_map::{init_test_data, RegisterMap};

#[test]
fn functions_and_ownership() {
    assert_eq!(plus_one(5), 6);
    assert_eq!(analyze_array(&[1, 2, 3, 4, 5]), (5, 15));
    assert_eq!(analyze_array(&[]), (0, 0));
    let s = String::from("hello");
    assert_eq!(calculate_length(&s), 5);
    assert_eq!(calculate_length(&String::from("Привет")), 12);
    let mut s = String::from("hello");
    change(&mut s);
    assert_eq!(s, "hello, world");
    assert_eq!(gives_ownership(), "hello");
    assert_eq!(takes_and_gives_back("x".to_string()), "x");
    eat_at_restaurant();
}

#[test]
fn slices_structs_enums() {
    assert_eq!(first_word("hello world"), "hello");
    assert_eq!(first_word("hello"), "hello");
    assert_eq!(first_word(" lead"), "");
    let mut r = Rectangle::new(30, 50);
    assert_eq!(r.area(), 1500);
    assert!(r.has_area());
    r.double_width();
    assert_eq!(r.width, 60);
    assert!(!Rectangle::new(0, 5).has_area());
    assert_eq!(Square::new(10).area(), 100);
    assert_eq!(value_in_cents(Coin::Penny), 1);
    assert_eq!(value_in_cents(Coin::Nickel), 5);
    assert_eq!(value_in_cents(Coin::Dime), 10);
    assert_eq!(value_in_cents(Coin::Quarter), 25);
}

#[test]
fn vectors() {
    let stack = build_stack(vec![10, 20, 30, 40]);
    assert_eq!(stack, vec![10, 20, 30, 40]);
    assert_eq!(pop_all(stack), vec![40, 30, 20, 10]);
    assert_eq!(safe_get(&[5, 10, 15], 1), Some(10));
    assert_eq!(safe_get(&[5, 10, 15], 10), None);
    let mut values = vec![1, 2, 3, 4];
    shift_all(&mut values, 10);
    assert_eq!(values, vec![11, 12, 13, 14]);
    assert_eq!(first_even(&values), Some(12));
    assert_eq!(first_even(&[1, 3, -5]), None);
    assert_eq!(first_even(&[-3, -4]), Some(-4));
}

#[test]
fn strings() {
    assert_eq!(join_with_comma(&["rust", "is", "fun"]), "rust, is, fun");
    assert_eq!(join_with_comma(&[]), "");
    assert_eq!(first_char("Hello"), Some('H'));
    assert_eq!(last_char("Hello"), Some('o'));
    assert_eq!(last_char(""), None);
    assert_eq!(char_count("Hello"), 5);
    assert_eq!(byte_count("Hello"), 5);
    assert_eq!(char_count("Привет"), 6);
    assert_eq!(byte_count("Привет"), 12);
    assert!(is_vowel('a') && is_vowel('U') && !is_vowel('y'));
    assert_eq!(to_pig_latin("first"), "irst-fay");
    assert_eq!(to_pig_latin("apple"), "apple-hay");
    assert_eq!(to_pig_latin(""), "");
    assert_eq!(sentence_to_pig_latin("rust is cool"), "ust-ray is-hay ool-cay");
    assert_eq!(sentence_to_pig_latin("  a\t\nb  "), "a-hay -bay");
    assert_eq!(split_whitespace(" x  yz\u{3000}w "), vec!["x", "yz", "w"]);
    assert_eq!(unit_label("c"), "°C");
    assert_eq!(unit_label("f"), "°F");
    assert_eq!(unit_label("k"), "K");
    assert_eq!(unit_label("x"), "?");
}

#[test]
fn counting_tables() {
    let freq = word_frequencies("hello world hello rust rust rust");
    assert_eq!(
        freq,
        vec![("hello".to_string(), 2), ("world".to_string(), 1), ("rust".to_string(), 3)]
    );
    assert_eq!(most_frequent(&freq), Some(("rust".to_string(), 3)));
    assert_eq!(most_frequent(&[]), None);
    // Words are compared in lower case.
    assert_eq!(word_frequencies("Hello HELLO ΣΑΣ"), vec![("hello".to_string(), 2), ("σας".to_string(), 1)]);
    // Ties: the last entry with the top count.
    let tie = vec![("a".to_string(), 2), ("b".to_string(), 2)];
    assert_eq!(most_frequent(&tie), Some(("b".to_string(), 2)));
    let mut scores = Vec::new();
    add_score(&mut scores, "Blue", 5);
    add_score(&mut scores, "Blue", 10);
    add_score(&mut scores, "Red", 8);
    assert_eq!(scores, vec![("Blue".to_string(), 15), ("Red".to_string(), 8)]);
    assert_eq!(mode(&[2, 4, 4, 4, 5, 7, 9]), Some(4));
    assert_eq!(mode(&[]), None);
    assert_eq!(mode(&[7]), Some(7));
}

#[test]
fn binary_search_finds_elements() {
    let arr = vec![1, 2, 3, 4, 5, 6, 7, 8, 9, 10];
    assert_eq!(binary_search(&arr, 4), Some(3));
    assert_eq!(binary_search(&arr, 1), Some(0));
    assert_eq!(binary_search(&arr, 10), Some(9));
    assert_eq!(binary_search(&arr, 11), None);
    assert_eq!(binary_search(&[1, 3, 5], 4), None);
}

#[test]
fn firmware_test_data() {
    let mut m = RegisterMap::new();
    init_test_data(&mut m);
    let regs = m.read_input_registers(0, 60).unwrap();
    for i in 0..15 {
        let v = f32::from_bits(((regs[2 * i] as u32) << 16) | regs[2 * i + 1] as u32);
        assert_eq!(v, 20.0 + (i as f32) * 0.5);
    }
    for i in 15..30 {
        let v = f32::from_bits(((regs[2 * i] as u32) << 16) | regs[2 * i + 1] as u32);
        assert_eq!(v, 100.0 + (i as f32 - 15.0) * 1.5);
    }
    assert_eq!(m.read_holding_registers(0, 32).unwrap()[31], 3100);
    assert_eq!(m.read_coils(0, 2), Ok(vec![true, false]));
    assert_eq!(m.read_holding_registers(32, 1), Err(0x02));
}

#[test]
fn statistics_of_the_example_data() {
    let data = [2, 4, 4, 4, 5, 7, 9];
    assert_eq!(checked_total(&data), Some(35));
    assert!(matches!(median_parts(&data), Some(Middle::One(4))));
    assert_eq!(sorted_copy(&[3, 1, 4, 1, 5, 9, 2, 6]), vec![1, 1, 2, 3, 4, 5, 6, 9]);
    assert!(matches!(median_parts(&[3, 1, 4, 2]), Some(Middle::Two(2, 3))));
    assert!(median_parts(&[]).is_none());
    assert_eq!(checked_total(&[]), Some(0));
}

#[test]
fn summing_from_the_left_can_overflow() {
    assert_eq!(checked_total(&[i32::MAX, 1]), None);
    assert_eq!(checked_total(&[i32::MAX, 1, -5]), None);
    assert_eq!(checked_total(&[i32::MAX, -1, 1]), Some(i32::MAX));
}

#[test]
fn quarters_are_worth_25_cents_whatever_the_design() {
    assert_eq!(quarter_value_in_cents(&Quarter::Regular), 25);
    assert_eq!(quarter_value_in_cents(&Quarter::State(UsState::Alabama)), 25);
    assert_eq!(quarter_value_in_cents(&Quarter::State(UsState::Alaska)), 25);
}

#[test]
fn example_row_has_one_text_cell() {
    let row = make_row();
    assert_eq!(row.len(), 3);
    assert_eq!(row[0], SpreadsheetCell::Int(42));
    assert_eq!(row[1], SpreadsheetCell::Float(3.14f64.to_bits()));
    assert_eq!(row[2], SpreadsheetCell::Text("hello".to_string()));
    assert_eq!(count_text_cells(&row), 1);
    let texts = vec![
        SpreadsheetCell::Text("a".to_string()),
        SpreadsheetCell::Int(1),
        SpreadsheetCell::Text("b".to_string()),
    ];
    assert_eq!(count_text_cells(&texts), 2);
    assert_eq!(count_text_cells(&[]), 0);
}
