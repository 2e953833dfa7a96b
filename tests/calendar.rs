use chat_broker::calendar::gregorian_to_jalali;

#[test]
fn converts_dates_after_the_start_of_the_count() {
    assert_eq!(gregorian_to_jalali(2024, 3, 20), (1403, 1, 2));
    assert_eq!(gregorian_to_jalali(2024, 3, 21), (1403, 1, 3));
    assert_eq!(gregorian_to_jalali(2000, 1, 1), (1378, 10, 12));
    assert_eq!(gregorian_to_jalali(1979, 2, 11), (1357, 11, 22));
    assert_eq!(gregorian_to_jalali(2023, 12, 31), (1402, 10, 10));
    assert_eq!(gregorian_to_jalali(1600, 3, 21), (979, 1, 3));
}

#[test]
fn dates_before_the_count_wrap_the_day() {
    assert_eq!(gregorian_to_jalali(1600, 1, 1), (979, 1, 4294967219));
}
