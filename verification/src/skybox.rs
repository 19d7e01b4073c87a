use vstd::prelude::*;
use vstd::string::*;
use crate::net::{NetLocation, NetLocationV, render_spec, url_of};
use crate::numbers::{dec_digits, u64_to_string};
use crate::soap::{
    as_elements, elem_encode, encode_pairs_spec, envelope, envelope_spec, pairs_view,
};

verus! {

/// Ghost image of a paired device.
pub struct SkyBoxV {
    pub play_url: NetLocationV,
    pub browse_url: NetLocationV,
}

/// One paired device: the play and browse action endpoints of the same
/// physical box.
pub struct SkyBox {
    pub play_url: NetLocation,
    pub browse_url: NetLocation,
}

impl View for SkyBox {
    type V = SkyBoxV;

    open spec fn view(&self) -> SkyBoxV {
        SkyBoxV { play_url: self.play_url@, browse_url: self.browse_url@ }
    }
}

impl Clone for SkyBox {
    fn clone(&self) -> (r: Self)
        ensures
            r == *self,
    {
        SkyBox { play_url: self.play_url.clone(), browse_url: self.browse_url.clone() }
    }
}

/// Why a device operation failed.
#[derive(Debug)]
pub enum SkyBoxError {
    /// The persisted selection lacks the named field.
    MissingPref(String),
    /// A persisted endpoint text is not a valid URL; carries the text.
    BadUrl(String),
    /// The remote delete action answered with a non-success status.
    DeleteFailed,
    /// The remote play action answered with a non-success status.
    PlayFailed,
}

/// Ghost image of `SkyBoxError`.
pub enum SkyBoxErrorV {
    MissingPref(Seq<char>),
    BadUrl(Seq<char>),
    DeleteFailed,
    PlayFailed,
}

impl View for SkyBoxError {
    type V = SkyBoxErrorV;

    open spec fn view(&self) -> SkyBoxErrorV {
        match self {
            SkyBoxError::MissingPref(n) => SkyBoxErrorV::MissingPref(n@),
            SkyBoxError::BadUrl(t) => SkyBoxErrorV::BadUrl(t@),
            SkyBoxError::DeleteFailed => SkyBoxErrorV::DeleteFailed,
            SkyBoxError::PlayFailed => SkyBoxErrorV::PlayFailed,
        }
    }
}

/// The value stored under `key`: the first pair with that name.
pub open spec fn pair_lookup_spec(ps: Seq<(Seq<char>, Seq<char>)>, key: Seq<char>) -> Option<
    Seq<char>,
>
    decreases ps.len(),
{
    if ps.len() == 0 {
        None
    } else if ps[0].0 == key {
        Some(ps[0].1)
    } else {
        pair_lookup_spec(ps.drop_first(), key)
    }
}

fn lookup_pair(pairs: &Vec<(String, String)>, key: &str, from: usize) -> (r: Option<String>)
    requires
        from <= pairs@.len(),
    ensures
        match r {
            Some(v) => pair_lookup_spec(pairs_view(pairs@).skip(from as int), key@) == Some(v@),
            None => pair_lookup_spec(pairs_view(pairs@).skip(from as int), key@) is None,
        },
    decreases pairs@.len() - from,
{
    let ghost tail = pairs_view(pairs@).skip(from as int);
    if from >= pairs.len() {
        return None;
    }
    proof {
        assert(tail[0] == pairs_view(pairs@)[from as int]);
        assert(tail.drop_first() =~= pairs_view(pairs@).skip(from + 1));
    }
    if crate::strutil::str_eq(pairs[from].0.as_str(), key) {
        Some(pairs[from].1.clone())
    } else {
        lookup_pair(pairs, key, from + 1)
    }
}

/// What loading a persisted selection yields: both the `play` and the
/// `browse` fields must be present and must parse as URLs.
pub open spec fn from_pref_pairs_spec(ps: Seq<(Seq<char>, Seq<char>)>) -> Result<
    SkyBoxV,
    SkyBoxErrorV,
> {
    match pair_lookup_spec(ps, "play"@) {
        None => Err(SkyBoxErrorV::MissingPref("play"@)),
        Some(pt) => match url_of(pt) {
            None => Err(SkyBoxErrorV::BadUrl(pt)),
            Some(pl) => match pair_lookup_spec(ps, "browse"@) {
                None => Err(SkyBoxErrorV::MissingPref("browse"@)),
                Some(bt) => match url_of(bt) {
                    None => Err(SkyBoxErrorV::BadUrl(bt)),
                    Some(bl) => Ok(SkyBoxV { play_url: pl, browse_url: bl }),
                },
            },
        },
    }
}

impl SkyBox {
    /// Pair two endpoints into one device handle.
    pub fn new(play_url: NetLocation, browse_url: NetLocation) -> (r: SkyBox)
        ensures
            r@.play_url == play_url@,
            r@.browse_url == browse_url@,
    {
        SkyBox { play_url, browse_url }
    }

    /// The key/value pairs persisted for a selected device: the rendered
    /// play and browse endpoint URLs under the fixed keys.
    pub fn pref_entries(&self) -> (r: Vec<(String, String)>)
        ensures
            pairs_view(r@) =~= seq![
                ("play"@, render_spec(self@.play_url)),
                ("browse"@, render_spec(self@.browse_url)),
            ],
    {
        let mut out: Vec<(String, String)> = Vec::new();
        out.push((String::from_str("play"), self.play_url.render()));
        out.push((String::from_str("browse"), self.browse_url.render()));
        out
    }

    /// Rebuild a device handle from persisted key/value pairs.
    pub fn from_pref_pairs(pairs: &Vec<(String, String)>) -> (r: Result<SkyBox, SkyBoxError>)
        ensures
            match r {
                Ok(b) => from_pref_pairs_spec(pairs_view(pairs@)) == Ok::<_, SkyBoxErrorV>(b@),
                Err(e) => from_pref_pairs_spec(pairs_view(pairs@)) == Err::<SkyBoxV, _>(e@),
            },
    {
        proof {
            assert(pairs_view(pairs@).skip(0) =~= pairs_view(pairs@));
        }
        let play_text = match lookup_pair(pairs, "play", 0) {
            None => {
                return Err(SkyBoxError::MissingPref(String::from_str("play")));
            },
            Some(t) => t,
        };
        let play_url = match NetLocation::parse(play_text.as_str()) {
            None => {
                return Err(SkyBoxError::BadUrl(play_text));
            },
            Some(l) => l,
        };
        let browse_text = match lookup_pair(pairs, "browse", 0) {
            None => {
                return Err(SkyBoxError::MissingPref(String::from_str("browse")));
            },
            Some(t) => t,
        };
        let browse_url = match NetLocation::parse(browse_text.as_str()) {
            None => {
                return Err(SkyBoxError::BadUrl(browse_text));
            },
            Some(l) => l,
        };
        Ok(SkyBox { play_url, browse_url })
    }
}

/// The quoted action header value: `"<urn>#<action>"`.
pub open spec fn soap_action_spec(urn: Seq<char>, action: Seq<char>) -> Seq<char> {
    "\""@ + urn + "#"@ + action + "\""@
}

/// Render the quoted action header value sent with every remote call.
pub fn soap_action(urn: &str, action: &str) -> (r: String)
    ensures
        r@ == soap_action_spec(urn@, action@),
{
    let mut s = String::from_str("\"");
    s.append(urn);
    s.append("#");
    s.append(action);
    s.append("\"");
    s
}

/// The fixed user-agent header value sent with every request.
pub fn user_agent() -> (r: String)
    ensures
        r@ == "SKY_skyplus"@,
{
    String::from_str("SKY_skyplus")
}

/// The fixed content-type header value sent with every remote call.
pub fn content_type() -> (r: String)
    ensures
        r@ == "text/xml; charset=\"utf-8\""@,
{
    String::from_str("text/xml; charset=\"utf-8\"")
}

/// The request body of one remote-procedure call: the envelope around an
/// action element namespaced by the service URN, whose children are one
/// element per argument, in caller order.
pub open spec fn action_request_spec(
    urn: Seq<char>,
    action: Seq<char>,
    args: Seq<(Seq<char>, Seq<char>)>,
) -> Seq<char> {
    envelope_spec(
        "<u:"@ + action + " xmlns:u=\""@ + urn + "\">"@ + encode_pairs_spec(args) + "</u:"@
            + action + ">"@,
    )
}

/// Build the body of one remote-procedure call; every action a device is
/// sent (browse, destroy, set-transport) passes through here.
pub fn action_request_body(urn: &str, action: &str, arguments: &Vec<(String, String)>) -> (r:
    String)
    ensures
        r@ == action_request_spec(urn@, action@, pairs_view(arguments@)),
{
    let elements = as_elements(arguments);
    let mut body = String::from_str("<u:");
    body.append(action);
    body.append(" xmlns:u=\"");
    body.append(urn);
    body.append("\">");
    body.append(elements.as_str());
    body.append("</u:");
    body.append(action);
    body.append(">");
    envelope(body.as_str())
}

/// The arguments of one browse page request, in the order they are sent.
pub open spec fn browse_args_spec(starting_index: nat, requested_count: nat) -> Seq<
    (Seq<char>, Seq<char>),
> {
    seq![
        ("ObjectID"@, "3"@),
        ("BrowseFlag"@, "BrowseDirectChildren"@),
        ("Filter"@, "*"@),
        ("StartingIndex"@, dec_digits(starting_index)),
        ("RequestedCount"@, dec_digits(requested_count)),
        ("SortCriteria"@, Seq::<char>::empty()),
    ]
}

/// The full browse request body for one page.
pub open spec fn browse_request_spec(starting_index: nat, requested_count: nat) -> Seq<char> {
    action_request_spec(
        "urn:schemas-nds-com:service:SkyBrowse:2"@,
        "Browse"@,
        browse_args_spec(starting_index, requested_count),
    )
}

/// Build the browse request body: root container, direct children, no
/// filter or sort, with the given page window.
pub fn browse_request_body(starting_index: usize, requested_count: usize) -> (r: String)
    ensures
        r@ == browse_request_spec(starting_index as nat, requested_count as nat),
{
    let mut args: Vec<(String, String)> = Vec::new();
    args.push((String::from_str("ObjectID"), String::from_str("3")));
    args.push((String::from_str("BrowseFlag"), String::from_str("BrowseDirectChildren")));
    args.push((String::from_str("Filter"), String::from_str("*")));
    args.push((String::from_str("StartingIndex"), u64_to_string(starting_index as u64)));
    args.push((String::from_str("RequestedCount"), u64_to_string(requested_count as u64)));
    args.push((String::from_str("SortCriteria"), String::new()));
    proof {
        assert(pairs_view(args@) =~= browse_args_spec(
            starting_index as nat,
            requested_count as nat,
        ));
    }
    action_request_body("urn:schemas-nds-com:service:SkyBrowse:2", "Browse", &args)
}

/// The full delete request body for one item.
pub open spec fn destroy_request_spec(object_id: Seq<char>) -> Seq<char> {
    action_request_spec(
        "urn:schemas-nds-com:service:SkyBrowse:2"@,
        "DestroyObject"@,
        seq![("ObjectID"@, object_id)],
    )
}

/// Build the delete request body: one destroy action naming the item.
pub fn destroy_request_body(object_id: &str) -> (r: String)
    ensures
        r@ == destroy_request_spec(object_id@),
{
    let mut args: Vec<(String, String)> = Vec::new();
    args.push((String::from_str("ObjectID"), String::from_str(object_id)));
    proof {
        assert(pairs_view(args@) =~= seq![("ObjectID"@, object_id@)]);
    }
    action_request_body("urn:schemas-nds-com:service:SkyBrowse:2", "DestroyObject", &args)
}

/// The playback URI: the resource locator with the fixed position and
/// speed suffix.
pub open spec fn play_uri_spec(res: Seq<char>) -> Seq<char> {
    res + "?position=0&amp;speed=1"@
}

/// The full playback request body for one resource.
pub open spec fn play_request_spec(res: Seq<char>) -> Seq<char> {
    action_request_spec(
        "urn:schemas-nds-com:service:SkyPlay:2"@,
        "SetAVTransportURI"@,
        seq![
            ("InstanceID"@, "0"@),
            ("CurrentURI"@, play_uri_spec(res)),
            ("CurrentURIMetaData"@, "NOT_IMPLEMENTED"@),
        ],
    )
}

/// Build the playback request body for one resource locator.
pub fn play_request_body(res: &str) -> (r: String)
    ensures
        r@ == play_request_spec(res@),
{
    let mut uri = String::from_str(res);
    uri.append("?position=0&amp;speed=1");
    let mut args: Vec<(String, String)> = Vec::new();
    args.push((String::from_str("InstanceID"), String::from_str("0")));
    args.push((String::from_str("CurrentURI"), uri));
    args.push((String::from_str("CurrentURIMetaData"), String::from_str("NOT_IMPLEMENTED")));
    proof {
        assert(pairs_view(args@) =~= seq![
            ("InstanceID"@, "0"@),
            ("CurrentURI"@, play_uri_spec(res@)),
            ("CurrentURIMetaData"@, "NOT_IMPLEMENTED"@),
        ]);
    }
    action_request_body("urn:schemas-nds-com:service:SkyPlay:2", "SetAVTransportURI", &args)
}

/// Decide a delete call's outcome from its HTTP status: success exactly on
/// status 200, the delete-failed error otherwise.
pub fn destroy_outcome(status: u16) -> (r: Result<(), SkyBoxError>)
    ensures
        r is Ok <==> status == 200,
        r matches Err(e) ==> e@ == SkyBoxErrorV::DeleteFailed,
{
    if status == 200 {
        Ok(())
    } else {
        Err(SkyBoxError::DeleteFailed)
    }
}

/// Decide a playback call's outcome from its HTTP status: success exactly
/// on status 200, the play-failed error otherwise.
pub fn play_outcome(status: u16) -> (r: Result<(), SkyBoxError>)
    ensures
        r is Ok <==> status == 200,
        r matches Err(e) ==> e@ == SkyBoxErrorV::PlayFailed,
{
    if status == 200 {
        Ok(())
    } else {
        Err(SkyBoxError::PlayFailed)
    }
}

} // verus!
