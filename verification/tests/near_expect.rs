use omni_utils_core::near_expect::{failure_message, NearExpect};

#[test]
fn present_values_are_returned() {
    assert_eq!(Some(7u64).near_expect("ERR_MISSING"), 7);
    assert_eq!(Ok::<u64, String>(8).near_expect("ERR_FAILED"), 8);
    assert_eq!(Some(7u64).near_expect_or_message("ERR_MISSING"), Ok(7));
    assert_eq!(Ok::<u64, String>(8).near_expect_or_message("ERR_FAILED"), Ok(8));
}

#[test]
fn missing_option_gives_the_message() {
    assert_eq!(
        None::<u64>.near_expect_or_message("ERR_MISSING"),
        Err("ERR_MISSING".to_string())
    );
}

#[test]
fn failed_result_gives_the_message_and_the_error() {
    assert_eq!(
        Err::<u64, &str>("no such key").near_expect_or_message("ERR_FAILED"),
        Err("ERR_FAILED: \"no such key\"".to_string())
    );
    assert_eq!(failure_message("ERR", "x"), "ERR: x");
}

#[test]
fn failed_result_shows_the_debug_form_of_the_error() {
    assert_eq!(
        Err::<(), Option<u8>>(Some(3)).near_expect_or_message("ERR"),
        Err("ERR: Some(3)".to_string())
    );
}
