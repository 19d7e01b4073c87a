use skybox::{decode_browse_response, BrowseError, PageCursor};

fn escape_xml(s: &str) -> String {
    s.replace('&', "&amp;").replace('<', "&lt;").replace('>', "&gt;")
}

fn browse_response(inner: &str, total: &str) -> String {
    format!(
        "{}{}{}{}{}{}{}",
        "<?xml version=\"1.0\"?><s:Envelope xmlns:s=\"http://schemas.xmlsoap.org/soap/envelope/\"><s:Body>",
        "<u:BrowseResponse xmlns:u=\"urn:schemas-nds-com:service:SkyBrowse:2\"><Result>",
        escape_xml(inner),
        "</Result><NumberReturned>0</NumberReturned><TotalMatches>",
        total,
        "</TotalMatches><UpdateID>1</UpdateID></u:BrowseResponse>",
        "</s:Body></s:Envelope>"
    )
}

fn one_item(id: &str, duration: &str) -> String {
    format!(
        "{}{}{}{}{}{}",
        "<item id=\"",
        id,
        "\"><title>T</title><description>D</description><channelName>C</channelName><res>file://pvr/1</res><X_genre>6</X_genre><X_isViewed>1</X_isViewed><recordedStartDateTime>2020-01-02T03:04:05Z</recordedStartDateTime>",
        duration,
        "",
        "</item>"
    )
}

#[test]
fn test_zero_matches_terminates_after_first_page() {
    let body = browse_response("<DIDL-Lite></DIDL-Lite>", "0");
    let page = decode_browse_response(body.as_str()).unwrap();
    assert_eq!(page.items.len(), 0);
    assert_eq!(page.raw_count, 0);
    assert_eq!(page.total_matches, 0);

    // a page of 0 raw items against a requested count of 25 ends pagination
    let cursor = PageCursor::start(25, page.total_matches);
    let (next, done) = cursor.advance(page.raw_count);
    assert!(done);
    assert_eq!(next.starting_index, 0);
}

#[test]
fn test_decode_browse_page_with_items() {
    let inner = format!(
        "<DIDL-Lite>{}{}</DIDL-Lite>",
        one_item("BOOK:1", "<recordedDuration>P0D00:10:00</recordedDuration>"),
        one_item("BOOK:2", "<recordedDuration>P0D01:00:00</recordedDuration>"),
    );
    let body = browse_response(inner.as_str(), "2");
    let page = decode_browse_response(body.as_str()).unwrap();
    assert_eq!(page.total_matches, 2);
    assert_eq!(page.items.len(), 2);
    assert_eq!(page.items[0].id, "BOOK:1");
    assert_eq!(page.items[0].recorded_duration, 600);
    assert_eq!(page.items[1].id, "BOOK:2");
    assert_eq!(page.items[1].recorded_duration, 3600);
}

#[test]
fn test_future_recordings_are_dropped_not_errors() {
    // the second item has no recordedDuration: scheduled, not yet recorded
    let inner = format!(
        "<DIDL-Lite>{}{}</DIDL-Lite>",
        one_item("BOOK:1", "<recordedDuration>P0D00:10:00</recordedDuration>"),
        one_item("BOOK:9", ""),
    );
    let body = browse_response(inner.as_str(), "2");
    let page = decode_browse_response(body.as_str()).unwrap();
    assert_eq!(page.total_matches, 2);
    assert_eq!(page.items.len(), 1);
    assert_eq!(page.raw_count, 2);
    assert_eq!(page.items[0].id, "BOOK:1");

    // the raw count, not the decoded count, drives pagination: a full raw
    // page keeps going even though an item was dropped
    let cursor = PageCursor::start(2, 2);
    let (_, done) = cursor.advance(page.raw_count);
    assert!(!done);
}

#[test]
fn test_browse_errors() {
    assert!(matches!(
        decode_browse_response("not xml at all"),
        Err(BrowseError::MalformedDocument)
    ));

    let no_result = "<?xml version=\"1.0\"?><env><TotalMatches>0</TotalMatches></env>";
    match decode_browse_response(no_result) {
        Err(BrowseError::MissingElement(name)) => assert_eq!(name, "Result"),
        other => panic!("expected a missing Result element, got {:?}", other.map(|p| p.total_matches)),
    }

    let no_total =
        "<?xml version=\"1.0\"?><env><Result>&lt;DIDL-Lite&gt;&lt;/DIDL-Lite&gt;</Result></env>";
    match decode_browse_response(no_total) {
        Err(BrowseError::MissingElement(name)) => assert_eq!(name, "TotalMatches"),
        other => panic!("expected a missing TotalMatches element, got {:?}", other.map(|p| p.total_matches)),
    }

    let bad_total = browse_response("<DIDL-Lite></DIDL-Lite>", "many");
    assert!(matches!(
        decode_browse_response(bad_total.as_str()),
        Err(BrowseError::BadTotal)
    ));

    let bad_inner = browse_response("<DIDL-Lite><open></DIDL-Lite>", "0");
    assert!(matches!(
        decode_browse_response(bad_inner.as_str()),
        Err(BrowseError::MalformedDocument)
    ));
}

#[test]
fn test_pagination_three_pages() {
    // a mocked endpoint returning pages of sizes 25, 25 and 10 for a
    // requested count of 25 and a total of 60
    let pages: Vec<usize> = vec![25, 25, 10];
    let mut cursor = PageCursor::start(25, 60);
    let mut calls: usize = 0;
    let mut yielded: usize = 0;
    loop {
        let returned = pages[calls];
        calls += 1;
        yielded += returned;
        let (next, done) = cursor.advance(returned);
        assert_eq!(next.starting_index, cursor.starting_index + returned);
        cursor = next;
        if done {
            break;
        }
    }
    assert_eq!(calls, 3);
    assert_eq!(yielded, 60);
    assert_eq!(cursor.starting_index, 60);
}

#[test]
fn test_pagination_stops_on_raw_count_not_decoded_count() {
    // a full page whose raw item count equals the requested count keeps
    // going even though only one item decoded
    let cursor = PageCursor::start(2, 4);
    let raw_items: usize = 2;
    let decoded_items: usize = 1;
    assert!(decoded_items < raw_items);
    let (_, done) = cursor.advance(raw_items);
    assert!(!done);
}
