use traffic::error::TrafficError;
use traffic::overview::{
    extract_overview, normalize_quotes, overview_total, reading_from_members, TrafficReading,
};

const SAMPLE: &str = "<script>\nvar WanStatistics = { 'uprate':'0','downrate':'0','upvolume':'100','downvolume':'200','liveTime':'300' };\n</script>";

#[test]
fn extracts_sample_fragment() {
    let reading = extract_overview(SAMPLE).unwrap();
    assert_eq!(
        reading,
        TrafficReading { up_volume: 100, down_volume: 200, live_time: 300 }
    );
    assert_eq!(reading.total_traffic(), Some(300));
    assert_eq!(overview_total(SAMPLE), Ok(300));
}

#[test]
fn tolerates_other_key_order() {
    let body = "WanStatistics = { 'liveTime':'5','downvolume':'-3','upvolume':'10' }";
    assert_eq!(
        extract_overview(body),
        Ok(TrafficReading { up_volume: 10, down_volume: -3, live_time: 5 })
    );
    assert_eq!(overview_total(body), Ok(7));
}

#[test]
fn missing_marker_is_no_wan_statistics() {
    assert_eq!(extract_overview("<html>nothing</html>"), Err(TrafficError::NoWanStatistics));
    assert_eq!(extract_overview("WanStatistics = "), Err(TrafficError::NoWanStatistics));
    assert_eq!(extract_overview(""), Err(TrafficError::NoWanStatistics));
}

#[test]
fn unclosed_object_is_no_closing_brace() {
    assert_eq!(
        extract_overview("WanStatistics = { 'upvolume':'1'"),
        Err(TrafficError::NoClosingBrace)
    );
    assert_eq!(extract_overview("} WanStatistics = {"), Err(TrafficError::NoClosingBrace));
}

#[test]
fn non_numeric_field_is_invalid() {
    let body = "WanStatistics = { 'upvolume':'many','downvolume':'200','liveTime':'300' }";
    assert_eq!(extract_overview(body), Err(TrafficError::InvalidWanStatistics));
}

#[test]
fn missing_or_mistyped_field_is_invalid() {
    let missing = "WanStatistics = { 'upvolume':'1','liveTime':'300' }";
    assert_eq!(extract_overview(missing), Err(TrafficError::InvalidWanStatistics));
    let number = "WanStatistics = { 'upvolume':1,'downvolume':'2','liveTime':'3' }";
    assert_eq!(extract_overview(number), Err(TrafficError::InvalidWanStatistics));
    let negative_time = "WanStatistics = { 'upvolume':'1','downvolume':'2','liveTime':'-3' }";
    assert_eq!(extract_overview(negative_time), Err(TrafficError::InvalidWanStatistics));
}

#[test]
fn fragment_that_is_not_json_is_invalid() {
    assert_eq!(
        extract_overview("WanStatistics = { upvolume }"),
        Err(TrafficError::InvalidWanStatistics)
    );
}

#[test]
fn total_beyond_i64_is_invalid() {
    let body = "WanStatistics = { 'upvolume':'9223372036854775807','downvolume':'1','liveTime':'0' }";
    assert!(extract_overview(body).is_ok());
    assert_eq!(overview_total(body), Err(TrafficError::InvalidWanStatistics));
}

#[test]
fn normalizing_turns_single_quotes() {
    assert_eq!(normalize_quotes("{ 'a':'1' }"), "{ \"a\":\"1\" }");
    assert_eq!(normalize_quotes(""), "");
    assert_eq!(normalize_quotes("''"), "\"\"");
}

#[test]
fn normalizing_twice_changes_nothing_more() {
    let once = normalize_quotes(SAMPLE);
    assert_eq!(normalize_quotes(&once), once);
    let plain = "{ \"upvolume\":\"1\" }";
    assert_eq!(normalize_quotes(plain), plain);
}

#[test]
fn members_become_a_reading() {
    assert_eq!(
        reading_from_members(Some("100"), Some("200"), Some("300")),
        Ok(TrafficReading { up_volume: 100, down_volume: 200, live_time: 300 })
    );
    assert_eq!(
        reading_from_members(Some("-9223372036854775808"), Some("+5"), Some("18446744073709551615")),
        Ok(TrafficReading { up_volume: i64::MIN, down_volume: 5, live_time: u64::MAX })
    );
    assert_eq!(
        reading_from_members(None, Some("1"), Some("1")),
        Err(TrafficError::InvalidWanStatistics)
    );
    assert_eq!(
        reading_from_members(Some("9223372036854775808"), Some("1"), Some("1")),
        Err(TrafficError::InvalidWanStatistics)
    );
    assert_eq!(
        reading_from_members(Some("1"), Some("1"), Some("")),
        Err(TrafficError::InvalidWanStatistics)
    );
}
