use emarket::entsoe::{map_to_data, parse_document};
use emarket::timefmt::{parse_iso_minute, to_time_str};

fn one_sample() -> &'static str {
    r#" <Publication_MarketDocument xmlns="urn:iec62325.351:tc57wg16:451-3:publicationdocument:7:0">
    	<mRID>07e8e74a9f4141488a9218781702643d</mRID>
    	<revisionNumber>1</revisionNumber>
    	<type>A44</type>
    	<sender_MarketParticipant.mRID codingScheme="A01">10X1001A1001A450</sender_MarketParticipant.mRID>
    	<sender_MarketParticipant.marketRole.type>A32</sender_MarketParticipant.marketRole.type>
    	<receiver_MarketParticipant.mRID codingScheme="A01">10X1001A1001A450</receiver_MarketParticipant.mRID>
    	<receiver_MarketParticipant.marketRole.type>A33</receiver_MarketParticipant.marketRole.type>
    	<createdDateTime>2023-01-23T06:17:46Z</createdDateTime>
    	<period.timeInterval>
    		<start>2021-12-31T23:00Z</start>
    		<end>2022-01-01T23:00Z</end>
    	</period.timeInterval>
    	<TimeSeries>
    		<mRID>1</mRID>
    		<businessType>A62</businessType>
    		<in_Domain.mRID codingScheme="A01">10YLT-1001A0008Q</in_Domain.mRID>
    		<out_Domain.mRID codingScheme="A01">10YLT-1001A0008Q</out_Domain.mRID>
    		<currency_Unit.name>EUR</currency_Unit.name>
    		<price_Measure_Unit.name>MWH</price_Measure_Unit.name>
    		<curveType>A01</curveType>
    			<Period>
    				<timeInterval>
    					<start>2021-12-31T23:00Z</start>
    					<end>2022-01-01T23:00Z</end>
    				</timeInterval>
    				<resolution>PT60M</resolution>
    					<Point>
    						<position>1</position>
    						<price.amount>50.05</price.amount>
    					</Point>
    					<Point>
    						<position>2</position>
    						<price.amount>41.33</price.amount>
    					</Point>
    			</Period>
    	</TimeSeries>
    </Publication_MarketDocument>"#
}

#[test]
fn deseriarelize_entsoe_doc() {
    let deserialized = parse_document(one_sample().as_bytes());
    assert_eq!(deserialized.doc_type, b"A44".to_vec());
    assert_eq!(deserialized.timeseries.len(), 1);
    assert_eq!(deserialized.timeseries[0].periods.len(), 1);
    assert_eq!(
        deserialized.timeseries[0].periods[0].time_interval.start,
        b"2021-12-31T23:00Z".to_vec()
    );
    assert_eq!(
        deserialized.timeseries[0].periods[0].time_interval.end,
        b"2022-01-01T23:00Z".to_vec()
    );
    assert_eq!(deserialized.timeseries[0].periods[0].points.len(), 2);
    assert_eq!(deserialized.timeseries[0].periods[0].points[0].position, b"1".to_vec());
    let p0: f64 = String::from_utf8(deserialized.timeseries[0].periods[0].points[0].price.clone())
        .unwrap()
        .parse()
        .unwrap();
    assert_eq!(p0, 50.05);
    assert_eq!(deserialized.timeseries[0].periods[0].points[1].position, b"2".to_vec());
    let p1: f64 = String::from_utf8(deserialized.timeseries[0].periods[0].points[1].price.clone())
        .unwrap()
        .parse()
        .unwrap();
    assert_eq!(p1, 41.33);
}

#[test]
fn maps_data() {
    let deserialized = parse_document(one_sample().as_bytes());
    let res = map_to_data(&deserialized);
    assert_eq!(res.len(), 2);
    let p0: f64 = String::from_utf8(res[0].price.clone()).unwrap().parse().unwrap();
    assert_eq!(p0, 50.05);
    assert_eq!(res[0].at, 1640991600000);
    let p1: f64 = String::from_utf8(res[1].price.clone()).unwrap().parse().unwrap();
    assert_eq!(p1, 41.33);
    assert_eq!(res[1].at, 1640995200000);
}

#[test]
fn formats_time() {
    assert_eq!(to_time_str(1640991600000), "202112312300");
    assert_eq!(to_time_str(1640995200000), "202201010000");
}

#[test]
fn parses_interval_start() {
    assert_eq!(parse_iso_minute(b"2021-12-31T23:00Z"), Some(1640991600000));
    assert_eq!(parse_iso_minute(b"1970-01-01T00:00Z"), Some(0));
    assert_eq!(parse_iso_minute(b"2021-12-31T23:00"), None);
    assert_eq!(parse_iso_minute(b"2021-13-31T23:00Z"), None);
    assert_eq!(parse_iso_minute(b"2021-02-29T23:00Z"), None);
    assert_eq!(parse_iso_minute(b"2021-1a-31T23:00Z"), None);
}

#[test]
fn malformed_period_is_dropped() {
    let text = r#"<TimeSeries><Period>
        <timeInterval><start>not a time</start><end>x</end></timeInterval>
        <Point><position>1</position><price.amount>10.0</price.amount></Point>
    </Period><Period>
        <timeInterval><start>2021-12-31T23:00Z</start><end>x</end></timeInterval>
        <Point><position>1</position><price.amount>12.5</price.amount></Point>
    </Period></TimeSeries>"#;
    let doc = parse_document(text.as_bytes());
    let res = map_to_data(&doc);
    assert_eq!(res.len(), 1);
    assert_eq!(res[0].at, 1640991600000);
    assert_eq!(res[0].price, b"12.5".to_vec());
}

#[test]
fn bad_price_drops_period() {
    let text = r#"<TimeSeries><Period>
        <timeInterval><start>2021-12-31T23:00Z</start><end>x</end></timeInterval>
        <Point><position>1</position><price.amount>12..5</price.amount></Point>
    </Period></TimeSeries>"#;
    let doc = parse_document(text.as_bytes());
    assert_eq!(map_to_data(&doc).len(), 0);
}

#[test]
fn missing_fields_default() {
    let text = r#"<TimeSeries><Period>
        <timeInterval><start>2021-12-31T23:00Z</start><end>x</end></timeInterval>
        <Point></Point>
    </Period></TimeSeries>"#;
    let doc = parse_document(text.as_bytes());
    let res = map_to_data(&doc);
    // missing position defaults to zero, so the instant is one hour before
    // the period start; a missing price defaults to zero
    assert_eq!(res.len(), 1);
    assert_eq!(res[0].at, 1640991600000 - 3_600_000);
    assert_eq!(res[0].price, b"0".to_vec());
}

#[test]
fn oversized_position_drops_period() {
    let text = r#"<TimeSeries><Period>
        <timeInterval><start>2021-12-31T23:00Z</start><end>x</end></timeInterval>
        <Point><position>4294967296</position><price.amount>10.0</price.amount></Point>
    </Period></TimeSeries>"#;
    let doc = parse_document(text.as_bytes());
    assert_eq!(map_to_data(&doc).len(), 0);
    let text_ok = r#"<TimeSeries><Period>
        <timeInterval><start>2021-12-31T23:00Z</start><end>x</end></timeInterval>
        <Point><position>4294967295</position><price.amount>10.0</price.amount></Point>
    </Period></TimeSeries>"#;
    let doc = parse_document(text_ok.as_bytes());
    assert_eq!(map_to_data(&doc).len(), 1);
}
