use delaymap::stop::{ScheduledStop, StopsTable};
use delaymap::works::DelayMapWorks;
use delaymap::works_parser::{language_path, DelayMapWorksParser};

fn stations() -> StopsTable {
    StopsTable {
        stops: vec![
            ScheduledStop {
                id: "8831807".to_string(),
                name: "Sint-Truiden".to_string(),
                lat: Some(50_817_620),
                lon: Some(5_176_650),
            },
            ScheduledStop {
                id: "8811445".to_string(),
                name: "Groenendaal".to_string(),
                lat: Some(50_766_100),
                lon: Some(4_449_490),
            },
        ],
    }
}

#[test]
fn test_empty() {
    let content = "himmessages=[
]"
    .to_string();
    let mut parser = DelayMapWorksParser::new(Some("en".to_string()), content);
    let res = parser.parse_next(&stations());
    assert!(res.is_ok());
    assert!(res.unwrap().is_none());
}

#[test]
fn test_two_messages() {
    // These are 2 real messages from 19/06/2022
    let content = "{
\"id\":\"63381\"
,\"caption\":\"Landen - Sint-Truiden: Personen in de nabijheid van de sporen.\"
,\"lead\":\"OLGPA[56736]\"
,\"message\":\"De treinen rijden opnieuw normaal.<br />\"
,\"urllist\":[
]
,\"priority\":\"25\"
,\"loctype\":\"0\"
,\"status\":\"1\"
,\"startstation_extId\":\"8833605\"
,\"startstation_puic\":\"80\"
,\"endstation_extId\":\"8831807\"
,\"endstation_puic\":\"80\"
,\"impactstation_extId\":\"8831807\"
,\"impactstation_puic\":\"80\"
,\"startdate\":\"19.06.22\"
,\"starttime\":\"14:48\"
,\"enddate\":\"19.06.22\"
,\"endtime\":\"23:59\"
,\"tstart\":\"00:00\"
,\"tend\":\"23:59\"
,\"pubstartdate_0\":\"19.06.22\"
,\"pubstarttime_0\":\"14:48\"
,\"pubenddate_0\":\"19.06.22\"
,\"pubendtime_0\":\"23:59\"
,\"pubstartdate_3\":\"19.06.22\"
,\"pubstarttime_3\":\"17:15\"
,\"pubenddate_3\":\"19.06.22\"
,\"pubendtime_3\":\"23:59\"
}
,{
\"id\":\"63382\"
,\"caption\":\"Bosvoorde - Groenendaal: Storing aan de seinen.\"
,\"lead\":\"OLGPA[56737]\"
,\"message\":\"Tussen Bosvoorde en Groenendaal:<br />Vertragingen zijn mogelijk.<br />Onbepaalde duur van de storing.<br />Luister naar de aankondigingen, raadpleeg de infoschermen of plan uw reis via de NMBS-app of nmbs.be voor meer info.\"
,\"urllist\":[
]
,\"priority\":\"25\"
,\"loctype\":\"0\"
,\"status\":\"1\"
,\"startstation_extId\":\"8811437\"
,\"startstation_puic\":\"80\"
,\"endstation_extId\":\"8811445\"
,\"endstation_puic\":\"80\"
,\"impactstation_extId\":\"8811445\"
,\"impactstation_puic\":\"80\"
,\"startdate\":\"19.06.22\"
,\"starttime\":\"16:00\"
,\"enddate\":\"19.06.22\"
,\"endtime\":\"23:59\"
,\"tstart\":\"00:00\"
,\"tend\":\"23:59\"
,\"pubstartdate_0\":\"19.06.22\"
,\"pubstarttime_0\":\"16:00\"
,\"pubenddate_0\":\"19.06.22\"
,\"pubendtime_0\":\"23:59\"
,\"pubstartdate_3\":\"19.06.22\"
,\"pubstarttime_3\":\"17:15\"
,\"pubenddate_3\":\"19.06.22\"
,\"pubendtime_3\":\"23:59\"
}"
    .to_string();
    let mut parser = DelayMapWorksParser::new(Some("en".to_string()), content);

    let res = parser.parse_next(&stations());
    assert!(res.is_ok());
    let res_unwrapped = res.unwrap();
    assert!(res_unwrapped.is_some());
    let first_message = res_unwrapped.unwrap();

    assert_eq!(first_message.id, "63381".to_string());
    assert_eq!(
        first_message.name,
        "Landen - Sint-Truiden: Personen in de nabijheid van de sporen.".to_string()
    );
    assert_eq!(first_message.message, "De treinen rijden opnieuw normaal.<br />");
    assert!(first_message.impacted_station.is_some());
    assert_eq!(first_message.impacted_station.unwrap().name, "Sint-Truiden".to_string());
    assert_eq!(first_message.start_date, "19.06.22".to_string());
    assert_eq!(first_message.end_date, "19.06.22".to_string());
    assert_eq!(first_message.start_time, "14:48".to_string());
    assert_eq!(first_message.end_time, "23:59".to_string());
    assert!(first_message.urls.is_empty());

    let res2 = parser.parse_next(&stations());
    assert!(res2.is_ok());
    let res2_unwrapped = res2.unwrap();
    assert!(res2_unwrapped.is_some());
    let second_message = res2_unwrapped.unwrap();

    assert_eq!(second_message.id, "63382".to_string());
    assert_eq!(second_message.name, "Bosvoorde - Groenendaal: Storing aan de seinen.".to_string());
    assert_eq!(second_message.message, "Tussen Bosvoorde en Groenendaal:<br />Vertragingen zijn mogelijk.<br />Onbepaalde duur van de storing.<br />Luister naar de aankondigingen, raadpleeg de infoschermen of plan uw reis via de NMBS-app of nmbs.be voor meer info.");
    assert!(second_message.impacted_station.is_some());
    assert_eq!(second_message.impacted_station.unwrap().name, "Groenendaal".to_string());
    assert_eq!(second_message.start_date, "19.06.22".to_string());
    assert_eq!(second_message.end_date, "19.06.22".to_string());
    assert_eq!(second_message.start_time, "16:00".to_string());
    assert_eq!(second_message.end_time, "23:59".to_string());
    assert!(second_message.urls.is_empty());
}

#[test]
fn test_urls() {
    // This is custom, as I don't have real examples at the time of writing
    let content = "himmessages=[
{
\"id\":\"1\"
,\"urllist\":[
{
\"url\":\"http://example.com/\"
,\"label\":\"example\"
}
,{
\"url\":\"https://delaymap.robbevanherck.be/\"
,\"label\":\"DelayMap\"
}
]
}
]"
    .to_string();
    let mut parser = DelayMapWorksParser::new(Some("en".to_string()), content);

    let res = parser.parse_next(&stations());
    assert!(res.is_ok());
    let res_unwrapped = res.unwrap();
    assert!(res_unwrapped.is_some());
    let first_message = res_unwrapped.unwrap();

    assert_eq!(first_message.id, "1".to_string());
    assert_eq!(first_message.urls.len(), 2);

    let first_url = &first_message.urls[0];
    let second_url = &first_message.urls[1];

    assert_eq!(first_url.url, "http://example.com/".to_string());
    assert_eq!(second_url.url, "https://delaymap.robbevanherck.be/".to_string());

    assert_eq!(first_url.label, "example");
    assert_eq!(second_url.label, "DelayMap");
}

#[test]
fn test_empty_record_placeholders() {
    let works = DelayMapWorks::empty();
    assert_eq!(works.id, "Unknown id");
    assert_eq!(works.name, "Unknown name");
    assert_eq!(works.message, "No message given");
    assert!(works.impacted_station.is_none());
    assert_eq!(works.start_date, "Unknown start date");
    assert_eq!(works.end_date, "Unknown end date");
    assert_eq!(works.start_time, "Unknown start time");
    assert_eq!(works.end_time, "Unknown end time");
    assert!(works.urls.is_empty());
}

#[test]
fn test_invalid_first_line() {
    let content = "garbage".to_string();
    let mut parser = DelayMapWorksParser::new(None, content);
    let res = parser.parse_next(&stations());
    assert!(res.is_err());
    assert_eq!(
        res.unwrap_err().message().as_str(),
        "Invalid first line Some(\"garbage\")"
    );
}

#[test]
fn test_exhausted_stream_no_more() {
    // Stream exhaustion before a record completes is not an error.
    let content = "".to_string();
    let mut parser = DelayMapWorksParser::new(None, content);
    let res = parser.parse_next(&stations());
    assert!(res.is_ok());
    assert!(res.unwrap().is_none());
}

#[test]
fn test_truncated_record_no_partial() {
    // A record cut off before its closing brace is discarded, never
    // returned half-assembled.
    let content = "{
\"id\":\"9\"
,\"caption\":\"Cut off\""
        .to_string();
    let mut parser = DelayMapWorksParser::new(None, content);
    let res = parser.parse_next(&stations());
    assert!(res.is_ok());
    assert!(res.unwrap().is_none());
}

#[test]
fn test_parse_all_discards_partial_record() {
    let content = "{
\"id\":\"1\"
}
,{
\"id\":\"2\""
        .to_string();
    let mut parser = DelayMapWorksParser::new(None, content);
    let (records, error) = parser.parse_all(&stations());
    assert!(error.is_none());
    assert_eq!(records.len(), 1);
    assert_eq!(records[0].id, "1");
}

#[test]
fn test_language_path() {
    assert_eq!(language_path(Some("nl")), "nny");
    assert_eq!(language_path(Some("en")), "eny");
    assert_eq!(language_path(Some("fr")), "fny");
    assert_eq!(language_path(Some("de")), "dny");
    assert_eq!(language_path(Some("xx")), "eny");
    assert_eq!(language_path(None), "eny");
}

#[test]
fn test_truncated_urllist() {
    let content = "{
\"id\":\"7\"
,\"urllist\":[
{
\"url\":\"http://example.com/\"
"
    .to_string();
    let mut parser = DelayMapWorksParser::new(None, content);
    let res = parser.parse_next(&stations());
    assert!(res.is_err());
    assert_eq!(res.unwrap_err().message().as_str(), "Unexpected end of url list");
}

#[test]
fn test_unknown_station_unresolved() {
    let content = "{
\"id\":\"8\"
,\"impactstation_extId\":\"999\"
}"
    .to_string();
    let mut parser = DelayMapWorksParser::new(None, content);
    let message = parser.parse_next(&stations()).unwrap().unwrap();
    assert!(message.impacted_station.is_none());
}

#[test]
fn test_parse_all_two_records() {
    let content = "himmessages=[
{
\"id\":\"1\"
}
,{
\"id\":\"2\"
}
]"
    .to_string();
    let mut parser = DelayMapWorksParser::new(None, content);
    let (records, error) = parser.parse_all(&stations());
    assert!(error.is_none());
    assert_eq!(records.len(), 2);
    assert_eq!(records[0].id, "1");
    assert_eq!(records[1].id, "2");
}

#[test]
fn test_parse_all_keeps_records_before_error() {
    let content = "{
\"id\":\"1\"
}
nonsense"
        .to_string();
    let mut parser = DelayMapWorksParser::new(None, content);
    let (records, error) = parser.parse_all(&stations());
    assert_eq!(records.len(), 1);
    assert_eq!(records[0].id, "1");
    assert!(error.is_some());
    assert_eq!(
        error.unwrap().message().as_str(),
        "Invalid first line Some(\"nonsense\")"
    );
}

#[test]
fn test_stops_table_lookup() {
    let table = stations();
    let hit = table.lookup_translated("8811445").unwrap();
    assert_eq!(hit.name, "Groenendaal");
    assert_eq!(hit.lat, Some(50_766_100));
    assert_eq!(hit.lon, Some(4_449_490));
    assert_eq!(hit.stop_id, "8811445");
    assert!(table.lookup_translated("0000").is_none());
}

#[test]
fn test_round_trip_shape() {
    // A record written back in the feed's own shape parses to the same
    // recognised fields.
    let content = "{
\"id\":\"42\"
,\"caption\":\"A caption\"
,\"message\":\"A message\"
,\"pubstartdate_0\":\"01.01.24\"
,\"pubstarttime_0\":\"08:00\"
,\"pubenddate_0\":\"02.01.24\"
,\"pubendtime_0\":\"20:00\"
,\"impactstation_extId\":\"8811445\"
,\"urllist\":[
{
\"url\":\"https://example.org/\"
,\"label\":\"More\"
}
]
}"
    .to_string();
    let mut parser = DelayMapWorksParser::new(None, content);
    let record = parser.parse_next(&stations()).unwrap().unwrap();
    assert_eq!(record.id, "42");
    assert_eq!(record.name, "A caption");
    assert_eq!(record.message, "A message");
    assert_eq!(record.start_date, "01.01.24");
    assert_eq!(record.start_time, "08:00");
    assert_eq!(record.end_date, "02.01.24");
    assert_eq!(record.end_time, "20:00");
    assert_eq!(record.impacted_station.unwrap().stop_id, "8811445");
    assert_eq!(record.urls.len(), 1);
    assert_eq!(record.urls[0].url, "https://example.org/");
    assert_eq!(record.urls[0].label, "More");
}
