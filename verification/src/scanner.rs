use vstd::prelude::*;
use vstd::string::*;
use crate::identity::{ServiceIdentity, urn_spec};
use crate::net::{NetLocation, NetLocationV, abs_path_of, render_spec};
use crate::skybox::{SkyBox, SkyBoxV};
use crate::xml::{
    XmlDocument, XmlElemV, find_in_subtree, find_in_subtree_spec, find_with_text_from,
    find_with_text_spec, xml_doc_of, parse_xml,
};

verus! {

/// Why a scan step failed.
#[derive(Debug)]
pub enum ScanError {
    /// The description document is not well-formed XML.
    MalformedDocument,
    /// No service entry with a control URL was found for the identity;
    /// carries the identity's URN text and the location searched.
    ServiceNotFound { urn: String, location: String },
}

/// Ghost image of `ScanError`.
pub enum ScanErrorV {
    MalformedDocument,
    ServiceNotFound { urn: Seq<char>, location: Seq<char> },
}

impl View for ScanError {
    type V = ScanErrorV;

    open spec fn view(&self) -> ScanErrorV {
        match self {
            ScanError::MalformedDocument => ScanErrorV::MalformedDocument,
            ScanError::ServiceNotFound { urn, location } => ScanErrorV::ServiceNotFound {
                urn: urn@,
                location: location@,
            },
        }
    }
}

/// The service-not-found error for one identity at one location.
pub open spec fn not_found_spec(urn: Seq<char>, root: NetLocationV) -> ScanErrorV {
    ScanErrorV::ServiceNotFound { urn, location: render_spec(root) }
}

/// What extracting an action endpoint from a parsed description document
/// yields: find the first service-type element whose text is the identity's
/// URN, then the first control-URL element in its parent's subtree; the
/// endpoint is the location with its path replaced by that element's text.
pub open spec fn extract_service_url_spec(
    elems: Seq<XmlElemV>,
    urn: Seq<char>,
    root: NetLocationV,
) -> Result<NetLocationV, ScanErrorV> {
    match find_with_text_spec(elems, "serviceType"@, urn, 0) {
        None => Err(not_found_spec(urn, root)),
        Some(j) => match find_in_subtree_spec(elems, elems[j].parent, "controlURL"@, 0) {
            None => Err(not_found_spec(urn, root)),
            Some(k) => match elems[k].text {
                None => Err(not_found_spec(urn, root)),
                Some(ctext) => Ok(
                    NetLocationV {
                        scheme: root.scheme,
                        host: root.host,
                        port: root.port,
                        path: abs_path_of(ctext),
                    },
                ),
            },
        },
    }
}

/// Extract the identity's action endpoint from a parsed description
/// document fetched from `root_url`.
pub fn extract_service_url(
    doc: &XmlDocument,
    identity: &ServiceIdentity,
    root_url: &NetLocation,
) -> (r: Result<NetLocation, ScanError>)
    requires
        doc.wf(),
    ensures
        match r {
            Ok(l) => extract_service_url_spec(doc@, urn_spec(identity@), root_url@) == Ok::<
                _,
                ScanErrorV,
            >(l@),
            Err(e) => extract_service_url_spec(doc@, urn_spec(identity@), root_url@) == Err::<
                NetLocationV,
                _,
            >(e@),
        },
{
    let urn = identity.to_urn();
    let j = match find_with_text_from(doc, "serviceType", urn.as_str(), 0) {
        None => {
            return Err(ScanError::ServiceNotFound { urn, location: root_url.render() });
        },
        Some(j) => j,
    };
    let parent = doc.elems[j].parent;
    proof {
        assert(doc@[j as int].parent == parent as int);
    }
    let k = match find_in_subtree(doc, parent, "controlURL", 0) {
        None => {
            return Err(ScanError::ServiceNotFound { urn, location: root_url.render() });
        },
        Some(k) => k,
    };
    match &doc.elems[k].text {
        None => Err(ScanError::ServiceNotFound { urn, location: root_url.render() }),
        Some(ctext) => Ok(root_url.with_path(ctext.as_str())),
    }
}

/// What resolving a description document text yields: a parse failure is
/// the malformed-document error; otherwise the endpoint is extracted from
/// the parsed document.
pub open spec fn resolve_endpoint_spec(
    urn: Seq<char>,
    location: NetLocationV,
    descriptor: Seq<char>,
) -> Result<NetLocationV, ScanErrorV> {
    match xml_doc_of(descriptor) {
        None => Err(ScanErrorV::MalformedDocument),
        Some(elems) => extract_service_url_spec(elems, urn, location),
    }
}

/// Resolve one identity's action endpoint from the description document
/// text fetched at `location`.
pub fn resolve_endpoint(
    identity: &ServiceIdentity,
    location: &NetLocation,
    descriptor: &str,
) -> (r: Result<NetLocation, ScanError>)
    ensures
        match r {
            Ok(l) => resolve_endpoint_spec(urn_spec(identity@), location@, descriptor@) == Ok::<
                _,
                ScanErrorV,
            >(l@),
            Err(e) => resolve_endpoint_spec(urn_spec(identity@), location@, descriptor@) == Err::<
                NetLocationV,
                _,
            >(e@),
        },
{
    match parse_xml(descriptor) {
        None => Err(ScanError::MalformedDocument),
        Some(doc) => extract_service_url(&doc, identity, location),
    }
}

/// View of a list of endpoints.
pub open spec fn locs_view(s: Seq<NetLocation>) -> Seq<NetLocationV> {
    s.map_values(|l: NetLocation| l@)
}

/// First index at or after `from` whose endpoint has host `h`.
pub open spec fn host_index_spec(s: Seq<NetLocationV>, h: Seq<char>, from: int) -> Option<int>
    decreases s.len() - from,
{
    if from < 0 || from >= s.len() {
        None
    } else if s[from].host == h {
        Some(from)
    } else {
        host_index_spec(s, h, from + 1)
    }
}

/// When no index is found, no entry has the host.
proof fn lemma_host_index_none(s: Seq<NetLocationV>, h: Seq<char>, from: int)
    requires
        0 <= from,
        host_index_spec(s, h, from) is None,
    ensures
        forall|k: int| from <= k < s.len() ==> (#[trigger] s[k]).host != h,
    decreases s.len() - from,
{
    if 0 <= from < s.len() {
        lemma_host_index_none(s, h, from + 1);
    }
}

/// Find the first endpoint whose host is `host`.
pub fn find_host(list: &Vec<NetLocation>, host: &str, from: usize) -> (r: Option<usize>)
    ensures
        r matches Some(i) ==> from <= i < list@.len() && locs_view(list@)[i as int].host == host@,
        match r {
            Some(i) => host_index_spec(locs_view(list@), host@, from as int) == Some(i as int),
            None => host_index_spec(locs_view(list@), host@, from as int) is None,
        },
    decreases list@.len() - from,
{
    if from >= list.len() {
        None
    } else if crate::strutil::str_eq(list[from].host.as_str(), host) {
        Some(from)
    } else {
        find_host(list, host, from + 1)
    }
}

/// All hosts in the list are distinct.
pub open spec fn hosts_unique(s: Seq<NetLocationV>) -> bool {
    forall|i: int, j: int|
        0 <= i < j < s.len() ==> (#[trigger] s[i]).host != (#[trigger] s[j]).host
}

/// Record one resolved endpoint under its host: replace the entry already
/// held for that host, or append a new one. Mirrors keyed-map insertion,
/// so distinct hosts stay distinct.
pub fn record_endpoint(list: &mut Vec<NetLocation>, url: NetLocation)
    ensures
        match host_index_spec(locs_view(old(list)@), url@.host, 0) {
            Some(i) => locs_view(final(list)@) == locs_view(old(list)@).update(i, url@),
            None => locs_view(final(list)@) == locs_view(old(list)@).push(url@),
        },
        hosts_unique(locs_view(old(list)@)) ==> hosts_unique(locs_view(final(list)@)),
{
    let ghost old_v = locs_view(list@);
    match find_host(list, url.host.as_str(), 0) {
        Some(i) => {
            let ghost u = url@;
            list.set(i, url);
            proof {
                assert(locs_view(list@) =~= old_v.update(i as int, u));
                if hosts_unique(old_v) {
                    assert forall|a: int, b: int|
                        0 <= a < b < locs_view(list@).len() implies (#[trigger] locs_view(
                        list@,
                    )[a]).host != (#[trigger] locs_view(list@)[b]).host by {
                        assert(old_v[i as int].host == u.host);
                    }
                }
            }
        },
        None => {
            let ghost u = url@;
            list.push(url);
            proof {
                assert(locs_view(list@) =~= old_v.push(u));
                lemma_host_index_none(old_v, u.host, 0);
            }
        },
    }
}

/// The paired devices yielded by joining the browse list against the play
/// list: one pair for every browse endpoint whose host also appears in the
/// play list, in browse order, paired with the play endpoint of that host.
pub open spec fn correlate_pairs_spec(play: Seq<NetLocationV>, browse: Seq<NetLocationV>) -> Seq<
    SkyBoxV,
>
    decreases browse.len(),
{
    if browse.len() == 0 {
        Seq::empty()
    } else {
        let rest = correlate_pairs_spec(play, browse.drop_first());
        match host_index_spec(play, browse[0].host, 0) {
            Some(i) => seq![SkyBoxV { play_url: play[i], browse_url: browse[0] }] + rest,
            None => rest,
        }
    }
}

/// The hosts skipped by the join: every browse endpoint's host that has no
/// play endpoint, in browse order.
pub open spec fn correlate_skipped_spec(
    play: Seq<NetLocationV>,
    browse: Seq<NetLocationV>,
) -> Seq<Seq<char>>
    decreases browse.len(),
{
    if browse.len() == 0 {
        Seq::empty()
    } else {
        let rest = correlate_skipped_spec(play, browse.drop_first());
        match host_index_spec(play, browse[0].host, 0) {
            Some(i) => rest,
            None => seq![browse[0].host] + rest,
        }
    }
}

proof fn lemma_correlate_snoc(play: Seq<NetLocationV>, browse: Seq<NetLocationV>, b: NetLocationV)
    ensures
        correlate_pairs_spec(play, browse.push(b)) == correlate_pairs_spec(play, browse) + (
        match host_index_spec(play, b.host, 0) {
            Some(i) => seq![SkyBoxV { play_url: play[i], browse_url: b }],
            None => Seq::<SkyBoxV>::empty(),
        }),
        correlate_skipped_spec(play, browse.push(b)) == correlate_skipped_spec(play, browse) + (
        match host_index_spec(play, b.host, 0) {
            Some(i) => Seq::<Seq<char>>::empty(),
            None => seq![b.host],
        }),
    decreases browse.len(),
{
    let tail = match host_index_spec(play, b.host, 0) {
        Some(i) => seq![SkyBoxV { play_url: play[i], browse_url: b }],
        None => Seq::<SkyBoxV>::empty(),
    };
    let tail_sk = match host_index_spec(play, b.host, 0) {
        Some(i) => Seq::<Seq<char>>::empty(),
        None => seq![b.host],
    };
    if browse.len() == 0 {
        assert(browse.push(b)[0] == b);
        assert(browse.push(b).drop_first() =~= Seq::empty());
        assert(correlate_pairs_spec(play, browse.push(b).drop_first()) == Seq::<SkyBoxV>::empty());
        assert(correlate_skipped_spec(play, browse.push(b).drop_first()) == Seq::<
            Seq<char>,
        >::empty());
        assert(correlate_pairs_spec(play, browse.push(b)) =~= tail);
        assert(correlate_pairs_spec(play, browse) + tail =~= tail);
        assert(correlate_skipped_spec(play, browse.push(b)) =~= tail_sk);
        assert(correlate_skipped_spec(play, browse) + tail_sk =~= tail_sk);
    } else {
        assert(browse.push(b)[0] == browse[0]);
        assert(browse.push(b).drop_first() =~= browse.drop_first().push(b));
        lemma_correlate_snoc(play, browse.drop_first(), b);
        let head = match host_index_spec(play, browse[0].host, 0) {
            Some(i) => seq![SkyBoxV { play_url: play[i], browse_url: browse[0] }],
            None => Seq::<SkyBoxV>::empty(),
        };
        let head_sk = match host_index_spec(play, browse[0].host, 0) {
            Some(i) => Seq::<Seq<char>>::empty(),
            None => seq![browse[0].host],
        };
        let rest = correlate_pairs_spec(play, browse.drop_first());
        let rest_sk = correlate_skipped_spec(play, browse.drop_first());
        assert(correlate_pairs_spec(play, browse) =~= head + rest);
        assert(correlate_pairs_spec(play, browse.push(b)) =~= head + (rest + tail));
        assert(head + (rest + tail) =~= (head + rest) + tail);
        assert(correlate_skipped_spec(play, browse) =~= head_sk + rest_sk);
        assert(correlate_skipped_spec(play, browse.push(b)) =~= head_sk + (rest_sk + tail_sk));
        assert(head_sk + (rest_sk + tail_sk) =~= (head_sk + rest_sk) + tail_sk);
    }
}

/// View of a list of paired devices.
pub open spec fn boxes_view(s: Seq<SkyBox>) -> Seq<SkyBoxV> {
    s.map_values(|b: SkyBox| b@)
}

/// View of a list of owned host names.
pub open spec fn hosts_view(s: Seq<String>) -> Seq<Seq<char>> {
    s.map_values(|h: String| h@)
}

/// Join the two discovery results by host: for every host in the browse
/// list, pair its browse endpoint with the same host's play endpoint; a
/// browse host with no play endpoint is skipped and reported, never turned
/// into a partial device.
pub fn correlate(play: &Vec<NetLocation>, browse: &Vec<NetLocation>) -> (r: (
    Vec<SkyBox>,
    Vec<String>,
))
    ensures
        boxes_view(r.0@) == correlate_pairs_spec(locs_view(play@), locs_view(browse@)),
        hosts_view(r.1@) == correlate_skipped_spec(locs_view(play@), locs_view(browse@)),
{
    let ghost play_v = locs_view(play@);
    let ghost browse_v = locs_view(browse@);
    let mut boxes: Vec<SkyBox> = Vec::new();
    let mut skipped: Vec<String> = Vec::new();
    let mut i: usize = 0;
    while i < browse.len()
        invariant
            0 <= i <= browse@.len(),
            play_v == locs_view(play@),
            browse_v == locs_view(browse@),
            boxes_view(boxes@) == correlate_pairs_spec(play_v, browse_v.take(i as int)),
            hosts_view(skipped@) == correlate_skipped_spec(play_v, browse_v.take(i as int)),
        decreases browse@.len() - i,
    {
        let b = &browse[i];
        proof {
            assert(browse_v[i as int] == b@);
            assert(browse_v.take(i as int).push(b@) =~= browse_v.take(i + 1));
            lemma_correlate_snoc(play_v, browse_v.take(i as int), b@);
        }
        match find_host(play, b.host.as_str(), 0) {
            Some(k) => {
                proof {
                    assert(host_index_spec(play_v, b@.host, 0) == Some(k as int));
                }
                let pair = SkyBox::new(play[k].clone(), b.clone());
                boxes.push(pair);
                proof {
                    assert(boxes_view(boxes@) =~= correlate_pairs_spec(play_v, browse_v.take(i + 1)));
                    assert(hosts_view(skipped@) =~= correlate_skipped_spec(
                        play_v,
                        browse_v.take(i + 1),
                    ));
                }
            },
            None => {
                skipped.push(b.host.clone());
                proof {
                    assert(boxes_view(boxes@) =~= correlate_pairs_spec(play_v, browse_v.take(i + 1)));
                    assert(hosts_view(skipped@) =~= correlate_skipped_spec(
                        play_v,
                        browse_v.take(i + 1),
                    ));
                }
            },
        }
        i = i + 1;
    }
    proof {
        assert(browse_v.take(browse@.len() as int) =~= browse_v);
    }
    (boxes, skipped)
}

/// When an index is found, it is in bounds, holds the host, and is the
/// first to do so.
proof fn lemma_host_index_some(s: Seq<NetLocationV>, h: Seq<char>, from: int, i: int)
    requires
        host_index_spec(s, h, from) == Some(i),
    ensures
        from <= i < s.len(),
        s[i].host == h,
    decreases s.len() - from,
{
    if 0 <= from < s.len() && s[from].host != h {
        lemma_host_index_some(s, h, from + 1, i);
    }
}

/// Every device in the list pairs a play and a browse endpoint of one and
/// the same host.
pub open spec fn pairs_hosts_match(s: Seq<SkyBoxV>) -> bool {
    forall|k: int| 0 <= k < s.len() ==> (#[trigger] s[k]).play_url.host == s[k].browse_url.host
}

/// Every paired device the join yields holds a play and a browse endpoint
/// of the same host: no pair ever crosses two physical devices.
pub proof fn lemma_correlate_pairs_same_host(play: Seq<NetLocationV>, browse: Seq<NetLocationV>)
    ensures
        pairs_hosts_match(correlate_pairs_spec(play, browse)),
    decreases browse.len(),
{
    if browse.len() > 0 {
        lemma_correlate_pairs_same_host(play, browse.drop_first());
        let rest = correlate_pairs_spec(play, browse.drop_first());
        let whole = correlate_pairs_spec(play, browse);
        match host_index_spec(play, browse[0].host, 0) {
            Some(i) => {
                lemma_host_index_some(play, browse[0].host, 0, i);
                assert(whole == seq![SkyBoxV { play_url: play[i], browse_url: browse[0] }] + rest);
                assert forall|k: int| 0 <= k < whole.len() implies (#[trigger] whole[k]).play_url.host
                    == whole[k].browse_url.host by {
                    if k == 0 {
                        assert(whole[0] == SkyBoxV { play_url: play[i], browse_url: browse[0] });
                    } else {
                        assert(whole[k] == rest[k - 1]);
                    }
                }
            },
            None => {
                assert(whole == rest);
            },
        }
    }
}

/// Validate an operator's selection line against the device list: the line
/// must be a decimal index of one of the found devices.
pub fn select_box(boxes: &Vec<SkyBox>, line: &str) -> (r: Option<SkyBox>)
    ensures
        match r {
            Some(b) => {
                &&& crate::numbers::parse_usize_spec(line@) matches Some(i)
                &&& i < boxes@.len()
                &&& b@ == boxes_view(boxes@)[i as int]
            },
            None => match crate::numbers::parse_usize_spec(line@) {
                Some(i) => i >= boxes@.len(),
                None => true,
            },
        },
{
    match crate::numbers::parse_usize(line) {
        Some(i) => {
            if i < boxes.len() {
                Some(boxes[i].clone())
            } else {
                None
            }
        },
        None => None,
    }
}

} // verus!
