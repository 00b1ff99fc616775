use vnp4rs::entity::{as_update_type, UpdateType};
use vnp4rs::logging::LogLevel;
use vnp4rs::p4runtime::{as_response_type, as_u128_from, as_uint128_from, ResponseType, Uint128};

#[test]
fn splits_into_high_and_low_words() {
    let v = as_uint128_from(0x0123_4567_89ab_cdef_fedc_ba98_7654_3210);
    assert_eq!(v, Uint128 { high: 0x0123_4567_89ab_cdef, low: 0xfedc_ba98_7654_3210 });
}

#[test]
fn joins_high_and_low_words() {
    let v = Uint128 { high: 1, low: 2 };
    assert_eq!(as_u128_from(&v), (1u128 << 64) + 2);
}

#[test]
fn word_round_trip_on_edges() {
    for x in [0u128, 1, 10, u64::MAX as u128, (u64::MAX as u128) + 1, u128::MAX, 5u128 << 100] {
        assert_eq!(as_u128_from(&as_uint128_from(x)), x);
    }
    let w = Uint128 { high: u64::MAX, low: 0 };
    assert_eq!(as_uint128_from(as_u128_from(&w)), w);
}

#[test]
fn response_type_codes() {
    assert_eq!(as_response_type(0), Some(ResponseType::All));
    assert_eq!(as_response_type(1), Some(ResponseType::CookieOnly));
    assert_eq!(as_response_type(2), Some(ResponseType::P4infoAndCookie));
    assert_eq!(as_response_type(3), Some(ResponseType::DeviceConfigAndCookie));
    assert_eq!(as_response_type(4), None);
    assert_eq!(as_response_type(-1), None);
}

#[test]
fn update_type_codes() {
    assert_eq!(as_update_type(0), Some(UpdateType::Unspecified));
    assert_eq!(as_update_type(1), Some(UpdateType::Insert));
    assert_eq!(as_update_type(2), Some(UpdateType::Modify));
    assert_eq!(as_update_type(3), Some(UpdateType::Delete));
    assert_eq!(as_update_type(7), None);
}

#[test]
fn log_level_names() {
    assert_eq!(LogLevel::Trace.as_str(), "trace");
    assert_eq!(LogLevel::Debug.as_str(), "debug");
    assert_eq!(LogLevel::Info.as_str(), "info");
    assert_eq!(LogLevel::Warn.as_str(), "warn");
    assert_eq!(LogLevel::Error.as_str(), "error");
}
