use shoop_egui::latency::{
    aggregate_observations, LatencyCertaintyState, LatencyObservationState,
};
use shoop_egui::text::{compare_text, find_char, TextOrder};

fn observation(minimum: Option<u32>, maximum: Option<u32>, certainty: LatencyCertaintyState, sample_rate: u32, revision: u64) -> LatencyObservationState {
    LatencyObservationState { minimum_frames: minimum, maximum_frames: maximum, certainty, sample_rate, revision }
}

#[test]
fn text_order_is_by_code_point_then_length() {
    assert_eq!(compare_text("a", "b"), TextOrder::Less);
    assert_eq!(compare_text("b", "a"), TextOrder::Greater);
    assert_eq!(compare_text("ab", "ab"), TextOrder::Equal);
    assert_eq!(compare_text("ab", "abc"), TextOrder::Less);
    assert_eq!(compare_text("Z", "a"), TextOrder::Less);
    assert_eq!(compare_text("", ""), TextOrder::Equal);
}

#[test]
fn the_first_occurrence_of_a_character_is_found() {
    assert_eq!(find_char("client:port:part", ':'), Some(6));
    assert_eq!(find_char("plain", ':'), None);
    assert_eq!(find_char(":x", ':'), Some(0));
}

#[test]
fn aggregated_ranges_span_all_known_observations() {
    let observations = vec![
        observation(Some(8), Some(12), LatencyCertaintyState::Range, 48_000, 3),
        observation(None, Some(99), LatencyCertaintyState::Exact, 96_000, 9),
        observation(Some(4), Some(10), LatencyCertaintyState::Estimated, 44_100, 5),
    ];
    let aggregate = aggregate_observations(&observations);
    assert_eq!(aggregate, observation(Some(4), Some(12), LatencyCertaintyState::Range, 48_000, 5));
    assert!(aggregate.minimum_frames <= aggregate.maximum_frames);
    let estimated = vec![
        observation(Some(4), Some(10), LatencyCertaintyState::Estimated, 44_100, 5),
        observation(Some(6), Some(7), LatencyCertaintyState::Estimated, 44_100, 6),
    ];
    assert_eq!(aggregate_observations(&estimated).certainty, LatencyCertaintyState::Estimated);
    let exact = vec![observation(Some(5), Some(5), LatencyCertaintyState::Range, 1, 1)];
    assert_eq!(aggregate_observations(&exact).certainty, LatencyCertaintyState::Exact);
    assert_eq!(aggregate_observations(&Vec::new()), LatencyObservationState::unknown());
}

#[test]
fn white_space_agrees_with_the_standard_library_on_every_character() {
    for value in 0..=0x10FFFFu32 {
        if let Some(c) = char::from_u32(value) {
            assert_eq!(shoop_egui::text::char_is_whitespace(c), c.is_whitespace(), "U+{value:04X}");
        }
    }
}

#[test]
fn unknown_driver_messages_quote_the_name() {
    assert_eq!(shoop_egui::settings::unknown_driver_message("\"x\""), "unknown audio driver \"x\"");
    assert_eq!(shoop_egui::settings::is_blank(" \u{3000}\t"), true);
    assert_eq!(shoop_egui::settings::trimmed("\u{a0} a b \u{2028}"), "a b");
}
