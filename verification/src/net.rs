use vstd::prelude::*;
use vstd::string::*;
use crate::numbers::{dec_digits, u64_to_string};

verus! {

/// Ghost image of a network location.
pub struct NetLocationV {
    pub scheme: Seq<char>,
    pub host: Seq<char>,
    pub port: Option<u16>,
    pub path: Seq<char>,
}

/// The parts of an endpoint URL that the client reads and rewrites: scheme,
/// host, optional port, and path. Query and fragment never occur on the
/// device URLs this client handles.
pub struct NetLocation {
    pub scheme: String,
    pub host: String,
    pub port: Option<u16>,
    pub path: String,
}

impl View for NetLocation {
    type V = NetLocationV;

    open spec fn view(&self) -> NetLocationV {
        NetLocationV {
            scheme: self.scheme@,
            host: self.host@,
            port: self.port,
            path: self.path@,
        }
    }
}

impl Clone for NetLocation {
    fn clone(&self) -> (r: Self)
        ensures
            r == *self,
    {
        NetLocation {
            scheme: self.scheme.clone(),
            host: self.host.clone(),
            port: self.port,
            path: self.path.clone(),
        }
    }
}

/// What URL parsing yields on a given text: the location's parts, or
/// nothing when the text is not an absolute URL with a host. A function of
/// the text alone.
pub uninterp spec fn url_of(s: Seq<char>) -> Option<NetLocationV>;

/// Relies on url::Url::parse (with the scheme, host_str, port and path
/// accessors): the result is a function of the text alone.
#[verifier::external_body]
fn parse_url_raw(s: &str) -> (r: Option<NetLocation>)
    ensures
        r is Some <==> url_of(s@) is Some,
        r matches Some(loc) ==> loc@ == url_of(s@)->Some_0,
{
    let u = match url::Url::parse(s) { Ok(u) => u, Err(_) => return None };
    let host = match u.host_str() { Some(h) => h.to_string(), None => return None };
    let (scheme, port, path) = (u.scheme().to_string(), u.port(), u.path().to_string());
    Some(NetLocation { scheme, host, port, path })
}

/// The path actually stored when a path text is set: a leading slash is
/// added when the text does not already start with one.
pub open spec fn abs_path_of(p: Seq<char>) -> Seq<char> {
    if p.len() > 0 && p[0] == '/' {
        p
    } else {
        seq!['/'] + p
    }
}

/// The canonical text of a location:
/// `scheme "://" host [":" port] path`.
pub open spec fn render_spec(l: NetLocationV) -> Seq<char> {
    l.scheme + "://"@ + l.host + (match l.port {
        Some(p) => ":"@ + dec_digits(p as nat),
        None => Seq::<char>::empty(),
    }) + l.path
}

impl NetLocation {
    /// Parse a URL text into its parts; `None` when the text is not an
    /// absolute URL with a host component.
    pub fn parse(s: &str) -> (r: Option<NetLocation>)
        ensures
            r is Some <==> url_of(s@) is Some,
            r matches Some(loc) ==> loc@ == url_of(s@)->Some_0,
    {
        parse_url_raw(s)
    }

    /// The same location with its path component replaced.
    pub fn with_path(&self, p: &str) -> (r: NetLocation)
        ensures
            r@.scheme == self@.scheme,
            r@.host == self@.host,
            r@.port == self@.port,
            r@.path == abs_path_of(p@),
    {
        let path = if p.unicode_len() > 0 && p.get_char(0) == '/' {
            String::from_str(p)
        } else {
            let mut s = String::from_str("/");
            s.append(p);
            proof {
                reveal_strlit("/");
                assert(s@ =~= seq!['/'] + p@);
            }
            s
        };
        NetLocation { scheme: self.scheme.clone(), host: self.host.clone(), port: self.port, path }
    }

    /// Render the location back to URL text.
    pub fn render(&self) -> (r: String)
        ensures
            r@ == render_spec(self@),
    {
        let mut s = self.scheme.clone();
        s.append("://");
        s.append(self.host.as_str());
        match self.port {
            Some(p) => {
                s.append(":");
                let digits = u64_to_string(p as u64);
                s.append(digits.as_str());
            },
            None => {},
        }
        s.append(self.path.as_str());
        s
    }
}

} // verus!
