use skybox::{
    correlate, record_endpoint, resolve_endpoint, select_box, sky_browse, sky_play, NetLocation,
    ScanError, SkyBox, SkyBoxError,
};

fn loc(host: &str, path: &str) -> NetLocation {
    NetLocation {
        scheme: String::from("http"),
        host: String::from(host),
        port: Some(49153),
        path: String::from(path),
    }
}

fn description_doc(service_type: &str, control_url: &str) -> String {
    format!(
        "{}{}{}{}{}",
        "<?xml version=\"1.0\"?><root><device><serviceList><service><serviceType>",
        service_type,
        "</serviceType><serviceId>id</serviceId><controlURL>",
        control_url,
        "</controlURL></service></serviceList></device></root>"
    )
}

#[test]
fn test_urn_string() {
    assert_eq!(sky_play().to_urn(), "urn:schemas-nds-com:service:SkyPlay:2");
    assert_eq!(sky_browse().to_urn(), "urn:schemas-nds-com:service:SkyBrowse:2");
}

#[test]
fn test_parse_url() {
    let l = NetLocation::parse("http://192.168.1.8:49153/description2.xml").unwrap();
    assert_eq!(l.scheme, "http");
    assert_eq!(l.host, "192.168.1.8");
    assert_eq!(l.port, Some(49153));
    assert_eq!(l.path, "/description2.xml");
    assert!(NetLocation::parse("not a url").is_none());
}

#[test]
fn test_render_url() {
    assert_eq!(loc("10.0.0.5", "/ctrl").render(), "http://10.0.0.5:49153/ctrl");
    let no_port = NetLocation {
        scheme: String::from("http"),
        host: String::from("box"),
        port: None,
        path: String::from("/p"),
    };
    assert_eq!(no_port.render(), "http://box/p");
}

#[test]
fn test_resolve_endpoint() {
    let doc = description_doc("urn:schemas-nds-com:service:SkyPlay:2", "/SkyPlay2");
    let location = loc("10.0.0.5", "/description2.xml");
    let endpoint = resolve_endpoint(&sky_play(), &location, doc.as_str()).unwrap();
    assert_eq!(endpoint.host, "10.0.0.5");
    assert_eq!(endpoint.port, Some(49153));
    assert_eq!(endpoint.path, "/SkyPlay2");
}

#[test]
fn test_resolve_endpoint_service_not_found() {
    // the document describes another service, not the one asked for
    let doc = description_doc("urn:schemas-nds-com:service:SkyBrowse:2", "/SkyBrowse2");
    let location = loc("10.0.0.5", "/description2.xml");
    match resolve_endpoint(&sky_play(), &location, doc.as_str()) {
        Err(ScanError::ServiceNotFound { urn, location }) => {
            assert_eq!(urn, "urn:schemas-nds-com:service:SkyPlay:2");
            assert_eq!(location, "http://10.0.0.5:49153/description2.xml");
        },
        other => panic!("expected a service-not-found failure, got {:?}", other.map(|l| l.host)),
    }
}

#[test]
fn test_resolve_endpoint_malformed_document() {
    let location = loc("10.0.0.5", "/description2.xml");
    assert!(matches!(
        resolve_endpoint(&sky_play(), &location, "<root><unclosed></root>"),
        Err(ScanError::MalformedDocument)
    ));
}

#[test]
fn test_correlation() {
    // browse hosts {A, B}, play hosts {A, C}: exactly one pair, for A
    let play = vec![loc("A", "/play"), loc("C", "/play")];
    let browse = vec![loc("A", "/browse"), loc("B", "/browse")];
    let (boxes, skipped) = correlate(&play, &browse);
    assert_eq!(boxes.len(), 1);
    assert_eq!(boxes[0].play_url.host, "A");
    assert_eq!(boxes[0].play_url.path, "/play");
    assert_eq!(boxes[0].browse_url.host, "A");
    assert_eq!(boxes[0].browse_url.path, "/browse");
    assert_eq!(skipped, vec![String::from("B")]);
}

#[test]
fn test_record_endpoint_replaces_same_host() {
    let mut list: Vec<NetLocation> = Vec::new();
    record_endpoint(&mut list, loc("A", "/one"));
    record_endpoint(&mut list, loc("B", "/two"));
    record_endpoint(&mut list, loc("A", "/three"));
    assert_eq!(list.len(), 2);
    assert_eq!(list[0].host, "A");
    assert_eq!(list[0].path, "/three");
    assert_eq!(list[1].host, "B");
}

#[test]
fn test_end_to_end_pairing() {
    // two discovery searches each return one location for host 10.0.0.5;
    // both resolvers succeed; the resulting pair holds both endpoints of
    // that one host
    let location = loc("10.0.0.5", "/description2.xml");

    let play_doc = description_doc("urn:schemas-nds-com:service:SkyPlay:2", "/SkyPlay2");
    let browse_doc = description_doc("urn:schemas-nds-com:service:SkyBrowse:2", "/SkyBrowse2");

    let mut play_found: Vec<NetLocation> = Vec::new();
    let mut browse_found: Vec<NetLocation> = Vec::new();

    let play_url = resolve_endpoint(&sky_play(), &location, play_doc.as_str()).unwrap();
    record_endpoint(&mut play_found, play_url);
    let browse_url = resolve_endpoint(&sky_browse(), &location, browse_doc.as_str()).unwrap();
    record_endpoint(&mut browse_found, browse_url);

    let (boxes, skipped) = correlate(&play_found, &browse_found);
    assert_eq!(boxes.len(), 1);
    assert_eq!(skipped.len(), 0);
    assert_eq!(boxes[0].play_url.host, "10.0.0.5");
    assert_eq!(boxes[0].browse_url.host, "10.0.0.5");
    assert_eq!(boxes[0].play_url.path, "/SkyPlay2");
    assert_eq!(boxes[0].browse_url.path, "/SkyBrowse2");
}

#[test]
fn test_pref_round_trip() {
    let device = SkyBox::new(loc("10.0.0.5", "/SkyPlay2"), loc("10.0.0.5", "/SkyBrowse2"));
    let pairs = device.pref_entries();
    assert_eq!(pairs.len(), 2);
    assert_eq!(pairs[0].0, "play");
    assert_eq!(pairs[0].1, "http://10.0.0.5:49153/SkyPlay2");
    assert_eq!(pairs[1].0, "browse");
    assert_eq!(pairs[1].1, "http://10.0.0.5:49153/SkyBrowse2");

    let loaded = SkyBox::from_pref_pairs(&pairs).unwrap();
    assert_eq!(loaded.play_url.host, "10.0.0.5");
    assert_eq!(loaded.play_url.path, "/SkyPlay2");
    assert_eq!(loaded.browse_url.path, "/SkyBrowse2");
}

#[test]
fn test_load_box_errors() {
    let empty: Vec<(String, String)> = Vec::new();
    match SkyBox::from_pref_pairs(&empty) {
        Err(SkyBoxError::MissingPref(name)) => assert_eq!(name, "play"),
        other => panic!("expected a missing play field, got {:?}", other.map(|b| b.play_url.host)),
    }
    let bad = vec![
        (String::from("play"), String::from("not a url")),
        (String::from("browse"), String::from("http://b/x")),
    ];
    match SkyBox::from_pref_pairs(&bad) {
        Err(SkyBoxError::BadUrl(text)) => assert_eq!(text, "not a url"),
        other => panic!("expected a bad url failure, got {:?}", other.map(|b| b.play_url.host)),
    }
}

#[test]
fn test_select_box() {
    let boxes = vec![
        SkyBox::new(loc("A", "/p"), loc("A", "/b")),
        SkyBox::new(loc("B", "/p"), loc("B", "/b")),
    ];
    assert_eq!(select_box(&boxes, "1").unwrap().play_url.host, "B");
    assert!(select_box(&boxes, "2").is_none());
    assert!(select_box(&boxes, "one").is_none());
    assert!(select_box(&boxes, "").is_none());
}
