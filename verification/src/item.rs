use vstd::prelude::*;
use vstd::string::*;
use crate::numbers::{dec_val, is_digit, parse_i32_spec, parse_i32, lemma_dec_val_prefix_le};
use crate::strutil::str_eq;
use crate::xml::{XmlDocument, XmlElemV, child_text, child_text_spec};

verus! {

/// A point in time with the offset it was recorded in: seconds since the
/// Unix epoch, plus the local offset from UTC in seconds.
#[derive(PartialEq, Eq, Structural, Clone, Copy, Debug)]
pub struct Timestamp {
    pub unix_seconds: i64,
    pub offset_seconds: i32,
}

/// What parsing a timestamp text (a calendar date, clock time and offset)
/// yields; a function of the text alone.
pub uninterp spec fn rfc3339_of(s: Seq<char>) -> Option<Timestamp>;

/// Relies on chrono's DateTime::parse_from_rfc3339 (with the timestamp and
/// local_minus_utc accessors): the result is a function of the text alone.
#[verifier::external_body]
fn parse_rfc3339(s: &str) -> (r: Option<Timestamp>)
    ensures
        r == rfc3339_of(s@),
{
    match chrono::DateTime::parse_from_rfc3339(s) {
        Ok(dt) => Some(
            Timestamp { unix_seconds: dt.timestamp(), offset_seconds: dt.offset().local_minus_utc() },
        ),
        Err(_) => None,
    }
}

/// The closed category table decoded from the numeric genre code.
#[derive(PartialEq, Eq, Structural, Clone, Copy, Debug)]
pub enum ServiceType {
    Music,
    Documentary,
    Lifestyle,
    Sport,
    Movies,
    News,
    Entertainment,
    Kids,
    Unknown,
}

/// The category for each genre code; codes outside the table map to
/// `Unknown`, never to an error.
pub open spec fn service_type_of(code: int) -> ServiceType {
    if code == 16 {
        ServiceType::Music
    } else if code == 11 {
        ServiceType::Documentary
    } else if code == 8 {
        ServiceType::Lifestyle
    } else if code == 7 {
        ServiceType::Sport
    } else if code == 6 {
        ServiceType::Movies
    } else if code == 5 {
        ServiceType::News
    } else if code == 3 {
        ServiceType::Entertainment
    } else if code == 2 {
        ServiceType::Kids
    } else {
        ServiceType::Unknown
    }
}

impl ServiceType {
    /// Decode a genre code; total, every code yields a category.
    pub fn from_code(code: i32) -> (r: ServiceType)
        ensures
            r == service_type_of(code as int),
    {
        if code == 16 {
            ServiceType::Music
        } else if code == 11 {
            ServiceType::Documentary
        } else if code == 8 {
            ServiceType::Lifestyle
        } else if code == 7 {
            ServiceType::Sport
        } else if code == 6 {
            ServiceType::Movies
        } else if code == 5 {
            ServiceType::News
        } else if code == 3 {
            ServiceType::Entertainment
        } else if code == 2 {
            ServiceType::Kids
        } else {
            ServiceType::Unknown
        }
    }
}

/// Why one item could not be decoded. Every variant is recovered by the
/// pager (the item is dropped); `NotYetRecorded` is the one the pager relies
/// on to filter scheduled-but-unrecorded entries, so it is distinct from the
/// other missing-element failures.
#[derive(Debug)]
pub enum ItemError {
    /// The item has no `recordedDuration` child at all: scheduled, not yet
    /// recorded.
    NotYetRecorded,
    /// A required element or attribute is absent, or holds no text; carries
    /// the missing name.
    MissingElement(String),
    /// The duration text does not follow the `P0D<HH>:<MM>:<SS>` pattern.
    BadDuration,
    /// The start-time text is not a valid timestamp.
    BadTimestamp,
    /// The genre text is not an integer.
    BadGenre,
}

/// Ghost image of `ItemError`.
pub enum ItemErrorV {
    NotYetRecorded,
    MissingElement(Seq<char>),
    BadDuration,
    BadTimestamp,
    BadGenre,
}

impl View for ItemError {
    type V = ItemErrorV;

    open spec fn view(&self) -> ItemErrorV {
        match self {
            ItemError::NotYetRecorded => ItemErrorV::NotYetRecorded,
            ItemError::MissingElement(n) => ItemErrorV::MissingElement(n@),
            ItemError::BadDuration => ItemErrorV::BadDuration,
            ItemError::BadTimestamp => ItemErrorV::BadTimestamp,
            ItemError::BadGenre => ItemErrorV::BadGenre,
        }
    }
}

/// One recorded content item.
#[derive(Debug, Clone)]
pub struct Item {
    pub id: String,
    pub res: String,
    pub title: String,
    pub description: String,
    pub viewed: bool,
    pub recorded_starttime: Timestamp,
    pub recorded_duration: u64,
    pub channel_name: String,
    pub series_id: Option<String>,
    pub service_type: ServiceType,
}

/// Ghost image of `Item`.
pub struct ItemV {
    pub id: Seq<char>,
    pub res: Seq<char>,
    pub title: Seq<char>,
    pub description: Seq<char>,
    pub viewed: bool,
    pub recorded_starttime: Timestamp,
    pub recorded_duration: u64,
    pub channel_name: Seq<char>,
    pub series_id: Option<Seq<char>>,
    pub service_type: ServiceType,
}

impl View for Item {
    type V = ItemV;

    open spec fn view(&self) -> ItemV {
        ItemV {
            id: self.id@,
            res: self.res@,
            title: self.title@,
            description: self.description@,
            viewed: self.viewed,
            recorded_starttime: self.recorded_starttime,
            recorded_duration: self.recorded_duration,
            channel_name: self.channel_name@,
            series_id: match self.series_id {
                Some(t) => Some(t@),
                None => None,
            },
            service_type: self.service_type,
        }
    }
}

/// First index at or after `from` holding a non-digit (or the length).
pub open spec fn scan_digits_spec(s: Seq<char>, from: int) -> int
    decreases s.len() - from,
{
    if !(0 <= from < s.len()) {
        s.len() as int
    } else if is_digit(s[from]) {
        scan_digits_spec(s, from + 1)
    } else {
        from
    }
}

/// Seconds denoted by a duration text of the literal pattern
/// `P0D<HH>:<MM>:<SS>`: three non-empty digit groups, each of a value that
/// fits 32 bits, and nothing else around them. The total is
/// `SS + MM*60 + HH*3600`.
pub open spec fn parse_duration_spec(s: Seq<char>) -> Option<u64> {
    if s.len() < 3 || s[0] != 'P' || s[1] != '0' || s[2] != 'D' {
        None
    } else {
        let a = scan_digits_spec(s, 3);
        if a == 3 || a >= s.len() || s[a] != ':' {
            None
        } else {
            let b = scan_digits_spec(s, a + 1);
            if b == a + 1 || b >= s.len() || s[b] != ':' {
                None
            } else {
                let c = scan_digits_spec(s, b + 1);
                if c == b + 1 || c != s.len() {
                    None
                } else {
                    let h = dec_val(s.subrange(3, a));
                    let m = dec_val(s.subrange(a + 1, b));
                    let sec = dec_val(s.subrange(b + 1, c));
                    if h <= u32::MAX && m <= u32::MAX && sec <= u32::MAX {
                        Some((sec + m * 60 + h * 3600) as u64)
                    } else {
                        None
                    }
                }
            }
        }
    }
}

/// Scan one digit group starting at `from`: where it ends, and its value
/// when that fits 32 bits.
fn scan_group(s: &str, from: usize) -> (r: (usize, Option<u64>))
    requires
        from <= s@.len(),
    ensures
        r.0 == scan_digits_spec(s@, from as int),
        from <= r.0 <= s@.len(),
        match r.1 {
            Some(v) => v == dec_val(s@.subrange(from as int, r.0 as int)) && v <= u32::MAX,
            None => dec_val(s@.subrange(from as int, r.0 as int)) > u32::MAX,
        },
{
    let n = s.unicode_len();
    let mut i = from;
    let mut acc: u64 = 0;
    let mut over = false;
    loop
        invariant
            from <= i <= n == s@.len(),
            scan_digits_spec(s@, from as int) == scan_digits_spec(s@, i as int),
            !over ==> acc == dec_val(s@.subrange(from as int, i as int)) && acc <= u32::MAX,
            over ==> dec_val(s@.subrange(from as int, i as int)) > u32::MAX,
        ensures
            from <= i <= n == s@.len(),
            scan_digits_spec(s@, from as int) == i,
            !over ==> acc == dec_val(s@.subrange(from as int, i as int)) && acc <= u32::MAX,
            over ==> dec_val(s@.subrange(from as int, i as int)) > u32::MAX,
        decreases n - i,
    {
        if i >= n {
            proof {
                assert(scan_digits_spec(s@, i as int) == i);
            }
            break ;
        }
        let c = s.get_char(i);
        let cv = c as u32;
        if cv < 48 || cv > 57 {
            proof {
                assert(!is_digit(s@[i as int]));
                assert(scan_digits_spec(s@, i as int) == i);
            }
            break ;
        }
        let d: u64 = (cv - 48) as u64;
        proof {
            assert(s@.subrange(from as int, i + 1).drop_last() =~= s@.subrange(
                from as int,
                i as int,
            ));
            assert(s@.subrange(from as int, i + 1).last() == s@[i as int]);
        }
        if !over {
            if acc > (0xffff_ffffu64 - d) / 10 {
                over = true;
                proof {
                    assert(dec_val(s@.subrange(from as int, i + 1)) == dec_val(
                        s@.subrange(from as int, i as int),
                    ) * 10 + (cv - 48));
                }
            } else {
                acc = acc * 10 + d;
            }
        } else {
            proof {
                lemma_dec_val_prefix_le(s@.subrange(from as int, i + 1), i - from);
                assert(s@.subrange(from as int, i + 1).take(i - from) =~= s@.subrange(
                    from as int,
                    i as int,
                ));
            }
        }
        i = i + 1;
    }
    (i, if over {
        None
    } else {
        Some(acc)
    })
}

/// Decode a recorded-duration text of the pattern `P0D<HH>:<MM>:<SS>` into
/// total seconds; any other shape is a duration-parse error, distinct from a
/// missing-element error.
pub fn parse_duration(duration: &str) -> (r: Result<u64, ItemError>)
    ensures
        match r {
            Ok(v) => parse_duration_spec(duration@) == Some(v),
            Err(e) => parse_duration_spec(duration@) is None && e@ == ItemErrorV::BadDuration,
        },
{
    let n = duration.unicode_len();
    if n < 3 {
        return Err(ItemError::BadDuration);
    }
    if duration.get_char(0) != 'P' || duration.get_char(1) != '0' || duration.get_char(2) != 'D' {
        return Err(ItemError::BadDuration);
    }
    let (a, ha) = scan_group(duration, 3);
    if a == 3 || a >= n || duration.get_char(a) != ':' {
        return Err(ItemError::BadDuration);
    }
    let (b, hb) = scan_group(duration, a + 1);
    if b == a + 1 || b >= n || duration.get_char(b) != ':' {
        return Err(ItemError::BadDuration);
    }
    let (c, hc) = scan_group(duration, b + 1);
    if c == b + 1 || c != n {
        return Err(ItemError::BadDuration);
    }
    match (ha, hb, hc) {
        (Some(h), Some(m), Some(sec)) => Ok(sec + m * 60 + h * 3600),
        _ => Err(ItemError::BadDuration),
    }
}

/// Text of the required child `name` of element `e`: the text when the
/// child exists and holds some, the missing-element error otherwise.
pub open spec fn required_text_spec(elems: Seq<XmlElemV>, e: int, name: Seq<char>) -> Result<
    Seq<char>,
    ItemErrorV,
> {
    match child_text_spec(elems, e, name) {
        Some(Some(t)) => Ok(t),
        Some(None) => Err(ItemErrorV::MissingElement(name)),
        None => Err(ItemErrorV::MissingElement(name)),
    }
}

/// Look up the text of a required child element, failing with the
/// missing-element error when it is absent or empty.
pub fn string_of_element(doc: &XmlDocument, e: usize, name: &str) -> (r: Result<String, ItemError>)
    ensures
        match r {
            Ok(t) => required_text_spec(doc@, e as int, name@) == Ok::<_, ItemErrorV>(t@),
            Err(err) => required_text_spec(doc@, e as int, name@) == Err::<Seq<char>, _>(err@),
        },
{
    match child_text(doc, e, name) {
        Some(Some(t)) => Ok(t),
        _ => Err(ItemError::MissingElement(String::from_str(name))),
    }
}

/// What decoding one item element yields, in the order the fields are read:
/// the duration decides "not yet recorded" first, then each required field
/// in turn, and the optional series identifier never fails.
pub open spec fn build_spec(elems: Seq<XmlElemV>, e: int) -> Result<ItemV, ItemErrorV> {
    match child_text_spec(elems, e, "recordedDuration"@) {
        None => Err(ItemErrorV::NotYetRecorded),
        Some(None) => Err(ItemErrorV::MissingElement("recordedDuration"@)),
        Some(Some(dtext)) => match parse_duration_spec(dtext) {
            None => Err(ItemErrorV::BadDuration),
            Some(dur) => match required_text_spec(elems, e, "recordedStartDateTime"@) {
                Err(err) => Err(err),
                Ok(ts_text) => match rfc3339_of(ts_text) {
                    None => Err(ItemErrorV::BadTimestamp),
                    Some(ts) => match elems[e].id_attr {
                        None => Err(ItemErrorV::MissingElement("id"@)),
                        Some(id) => match required_text_spec(elems, e, "title"@) {
                            Err(err) => Err(err),
                            Ok(title) => match required_text_spec(elems, e, "description"@) {
                                Err(err) => Err(err),
                                Ok(description) => match required_text_spec(
                                    elems,
                                    e,
                                    "channelName"@,
                                ) {
                                    Err(err) => Err(err),
                                    Ok(channel_name) => match required_text_spec(elems, e, "res"@) {
                                        Err(err) => Err(err),
                                        Ok(res) => match required_text_spec(elems, e, "X_genre"@) {
                                            Err(err) => Err(err),
                                            Ok(genre_text) => match parse_i32_spec(genre_text) {
                                                None => Err(ItemErrorV::BadGenre),
                                                Some(code) => match required_text_spec(
                                                    elems,
                                                    e,
                                                    "X_isViewed"@,
                                                ) {
                                                    Err(err) => Err(err),
                                                    Ok(viewed_text) => Ok(
                                                        ItemV {
                                                            id,
                                                            res,
                                                            title,
                                                            description,
                                                            viewed: viewed_text == "1"@,
                                                            recorded_starttime: ts,
                                                            recorded_duration: dur,
                                                            channel_name,
                                                            series_id: match child_text_spec(
                                                                elems,
                                                                e,
                                                                "seriesID"@,
                                                            ) {
                                                                Some(Some(t)) => Some(t),
                                                                _ => None,
                                                            },
                                                            service_type: service_type_of(
                                                                code as int,
                                                            ),
                                                        },
                                                    ),
                                                },
                                            },
                                        },
                                    },
                                },
                            },
                        },
                    },
                },
            },
        },
    }
}

impl Item {
    /// Decode one item element into a recording. An item with no
    /// `recordedDuration` child fails with `NotYetRecorded`; every other
    /// missing required field, or an unparseable duration, timestamp or
    /// genre, fails with its own error. An unknown genre code is not an
    /// error: it decodes to the `Unknown` category.
    pub fn build(doc: &XmlDocument, e: usize) -> (r: Result<Item, ItemError>)
        requires
            e < doc@.len(),
        ensures
            match r {
                Ok(item) => build_spec(doc@, e as int) == Ok::<_, ItemErrorV>(item@),
                Err(err) => build_spec(doc@, e as int) == Err::<ItemV, _>(err@),
            },
    {
        let recorded_duration_text = match child_text(doc, e, "recordedDuration") {
            None => {
                return Err(ItemError::NotYetRecorded);
            },
            Some(None) => {
                return Err(ItemError::MissingElement(String::from_str("recordedDuration")));
            },
            Some(Some(t)) => t,
        };
        let recorded_duration = match parse_duration(recorded_duration_text.as_str()) {
            Err(_) => {
                return Err(ItemError::BadDuration);
            },
            Ok(v) => v,
        };
        let ts_text = match string_of_element(doc, e, "recordedStartDateTime") {
            Err(err) => {
                return Err(err);
            },
            Ok(t) => t,
        };
        let recorded_starttime = match parse_rfc3339(ts_text.as_str()) {
            None => {
                return Err(ItemError::BadTimestamp);
            },
            Some(ts) => ts,
        };
        let id = match &doc.elems[e].id_attr {
            None => {
                return Err(ItemError::MissingElement(String::from_str("id")));
            },
            Some(id) => id.clone(),
        };
        let title = match string_of_element(doc, e, "title") {
            Err(err) => {
                return Err(err);
            },
            Ok(t) => t,
        };
        let description = match string_of_element(doc, e, "description") {
            Err(err) => {
                return Err(err);
            },
            Ok(t) => t,
        };
        let channel_name = match string_of_element(doc, e, "channelName") {
            Err(err) => {
                return Err(err);
            },
            Ok(t) => t,
        };
        let res = match string_of_element(doc, e, "res") {
            Err(err) => {
                return Err(err);
            },
            Ok(t) => t,
        };
        let genre_text = match string_of_element(doc, e, "X_genre") {
            Err(err) => {
                return Err(err);
            },
            Ok(t) => t,
        };
        let code = match parse_i32(genre_text.as_str()) {
            None => {
                return Err(ItemError::BadGenre);
            },
            Some(c) => c,
        };
        let viewed_text = match string_of_element(doc, e, "X_isViewed") {
            Err(err) => {
                return Err(err);
            },
            Ok(t) => t,
        };
        let viewed = str_eq(viewed_text.as_str(), "1");
        let series_id = match child_text(doc, e, "seriesID") {
            Some(Some(t)) => Some(t),
            _ => None,
        };
        Ok(
            Item {
                id,
                res,
                title,
                description,
                viewed,
                recorded_starttime,
                recorded_duration,
                channel_name,
                series_id,
                service_type: ServiceType::from_code(code),
            },
        )
    }
}

/// An item fragment with no `recordedDuration` child at all decodes to
/// the not-yet-recorded failure, distinguishable from every other
/// missing-element failure.
pub proof fn lemma_missing_duration_is_not_yet_recorded(elems: Seq<XmlElemV>, e: int)
    requires
        child_text_spec(elems, e, "recordedDuration"@) is None,
    ensures
        build_spec(elems, e) == Err::<ItemV, ItemErrorV>(ItemErrorV::NotYetRecorded),
{
}

/// A genre code outside the category table yields the explicit unknown
/// category; no code is a decode failure.
pub proof fn lemma_unknown_genre_code(code: int)
    requires
        code != 16 && code != 11 && code != 8 && code != 7,
        code != 6 && code != 5 && code != 3 && code != 2,
    ensures
        service_type_of(code) == ServiceType::Unknown,
{
}

} // verus!
