use vstd::prelude::*;
use vstd::string::*;
use crate::item::{Item, ItemV, build_spec};
use crate::numbers::{parse_usize, parse_usize_spec};
use crate::xml::{
    XmlElemV, collect_named, collect_named_spec, find_named_from, find_named_spec, parse_xml,
    xml_doc_of,
};

verus! {

/// Where a paginated browse stands: the next page's window and the
/// authoritative total reported by the device.
#[derive(PartialEq, Eq, Structural, Clone, Copy, Debug)]
pub struct PageCursor {
    pub starting_index: usize,
    pub requested_count: usize,
    pub total_matches: usize,
}

impl PageCursor {
    /// The cursor before the first page.
    pub fn start(requested_count: usize, total_matches: usize) -> (r: PageCursor)
        ensures
            r.starting_index == 0,
            r.requested_count == requested_count,
            r.total_matches == total_matches,
    {
        PageCursor { starting_index: 0, requested_count, total_matches }
    }

    /// Step past one fetched page that returned `returned` raw items: the
    /// next start index advances by exactly that count, and pagination is
    /// finished exactly when the page returned fewer raw items than were
    /// requested — not when the start index reaches the total, and not
    /// when decode failures thinned the page.
    pub fn advance(&self, returned: usize) -> (r: (PageCursor, bool))
        requires
            self.starting_index + returned <= usize::MAX,
        ensures
            r.0.starting_index == self.starting_index + returned,
            r.0.requested_count == self.requested_count,
            r.0.total_matches == self.total_matches,
            r.1 == (returned < self.requested_count),
    {
        let next = PageCursor {
            starting_index: self.starting_index + returned,
            requested_count: self.requested_count,
            total_matches: self.total_matches,
        };
        (next, returned < self.requested_count)
    }
}

/// Why a browse response could not be decoded. These abort the one page
/// fetch; they are never recovered item by item.
#[derive(Debug)]
pub enum BrowseError {
    /// The response, or the embedded result fragment, is not well-formed
    /// XML.
    MalformedDocument,
    /// A required response element is absent or empty; carries its name.
    MissingElement(String),
    /// The total-matches text is not an unsigned integer.
    BadTotal,
}

/// Ghost image of `BrowseError`.
pub enum BrowseErrorV {
    MalformedDocument,
    MissingElement(Seq<char>),
    BadTotal,
}

impl View for BrowseError {
    type V = BrowseErrorV;

    open spec fn view(&self) -> BrowseErrorV {
        match self {
            BrowseError::MalformedDocument => BrowseErrorV::MalformedDocument,
            BrowseError::MissingElement(n) => BrowseErrorV::MissingElement(n@),
            BrowseError::BadTotal => BrowseErrorV::BadTotal,
        }
    }
}

/// View of a list of decoded items.
pub open spec fn items_view(s: Seq<Item>) -> Seq<ItemV> {
    s.map_values(|it: Item| it@)
}

/// The recordings decoded from the elements at `idxs`: each decodes through
/// the item decoder, and one that fails to decode is dropped, never an
/// error of the page.
pub open spec fn decode_items_spec(elems: Seq<XmlElemV>, idxs: Seq<int>) -> Seq<ItemV>
    decreases idxs.len(),
{
    if idxs.len() == 0 {
        Seq::empty()
    } else {
        let rest = decode_items_spec(elems, idxs.drop_first());
        match build_spec(elems, idxs[0]) {
            Ok(it) => seq![it] + rest,
            Err(_) => rest,
        }
    }
}

proof fn lemma_decode_items_snoc(elems: Seq<XmlElemV>, idxs: Seq<int>, j: int)
    ensures
        decode_items_spec(elems, idxs.push(j)) == decode_items_spec(elems, idxs) + (
        match build_spec(elems, j) {
            Ok(it) => seq![it],
            Err(_) => Seq::<ItemV>::empty(),
        }),
    decreases idxs.len(),
{
    let tail = match build_spec(elems, j) {
        Ok(it) => seq![it],
        Err(_) => Seq::<ItemV>::empty(),
    };
    if idxs.len() == 0 {
        assert(idxs.push(j)[0] == j);
        assert(idxs.push(j).drop_first() =~= Seq::empty());
        assert(decode_items_spec(elems, idxs.push(j).drop_first()) == Seq::<ItemV>::empty());
        assert(decode_items_spec(elems, idxs.push(j)) =~= tail);
        assert(decode_items_spec(elems, idxs) + tail =~= tail);
    } else {
        assert(idxs.push(j)[0] == idxs[0]);
        assert(idxs.push(j).drop_first() =~= idxs.drop_first().push(j));
        lemma_decode_items_snoc(elems, idxs.drop_first(), j);
        let head = match build_spec(elems, idxs[0]) {
            Ok(it) => seq![it],
            Err(_) => Seq::<ItemV>::empty(),
        };
        let rest = decode_items_spec(elems, idxs.drop_first());
        assert(decode_items_spec(elems, idxs) =~= head + rest);
        assert(decode_items_spec(elems, idxs.push(j)) =~= head + (rest + tail));
        assert(head + (rest + tail) =~= (head + rest) + tail);
    }
}

/// Ghost image of one decoded page.
pub struct BrowsePageV {
    pub items: Seq<ItemV>,
    pub raw_count: int,
    pub total_matches: usize,
}

/// What decoding one browse response text yields. The response is parsed
/// as XML; the first `Result` element's text is itself an XML fragment and
/// is parsed a second time as an independent document; the first
/// `TotalMatches` element's text is the authoritative total; every element
/// named `item` in the inner document is decoded, and items that fail to
/// decode are dropped. The raw count is the number of `item` elements
/// before decoding: pagination must be driven by it, not by the decoded
/// count.
pub open spec fn decode_browse_spec(text: Seq<char>) -> Result<BrowsePageV, BrowseErrorV> {
    match xml_doc_of(text) {
        None => Err(BrowseErrorV::MalformedDocument),
        Some(elems) => match find_named_spec(elems, "Result"@, 0) {
            None => Err(BrowseErrorV::MissingElement("Result"@)),
            Some(j) => match elems[j].text {
                None => Err(BrowseErrorV::MissingElement("Result"@)),
                Some(inner_text) => match find_named_spec(elems, "TotalMatches"@, 0) {
                    None => Err(BrowseErrorV::MissingElement("TotalMatches"@)),
                    Some(t) => match elems[t].text {
                        None => Err(BrowseErrorV::MissingElement("TotalMatches"@)),
                        Some(total_text) => match parse_usize_spec(total_text) {
                            None => Err(BrowseErrorV::BadTotal),
                            Some(total) => match xml_doc_of(inner_text) {
                                None => Err(BrowseErrorV::MalformedDocument),
                                Some(inner) => Ok(
                                    BrowsePageV {
                                        items: decode_items_spec(
                                            inner,
                                            collect_named_spec(inner, "item"@, 0),
                                        ),
                                        raw_count: collect_named_spec(inner, "item"@, 0).len() as int,
                                        total_matches: total,
                                    },
                                ),
                            },
                        },
                    },
                },
            },
        },
    }
}

/// One decoded browse page: the recordings that decoded, the raw count of
/// item elements on the page, and the total match count the device
/// reported.
pub struct BrowsePage {
    pub items: Vec<Item>,
    pub raw_count: usize,
    pub total_matches: usize,
}

impl View for BrowsePage {
    type V = BrowsePageV;

    open spec fn view(&self) -> BrowsePageV {
        BrowsePageV {
            items: items_view(self.items@),
            raw_count: self.raw_count as int,
            total_matches: self.total_matches,
        }
    }
}

/// Decode one browse response body into a page of recordings.
pub fn decode_browse_response(text: &str) -> (r: Result<BrowsePage, BrowseError>)
    ensures
        match r {
            Ok(p) => decode_browse_spec(text@) == Ok::<_, BrowseErrorV>(p@),
            Err(e) => decode_browse_spec(text@) == Err::<BrowsePageV, _>(e@),
        },
{
    let doc = match parse_xml(text) {
        None => {
            return Err(BrowseError::MalformedDocument);
        },
        Some(d) => d,
    };
    let j = match find_named_from(&doc, "Result", 0) {
        None => {
            return Err(BrowseError::MissingElement(String::from_str("Result")));
        },
        Some(j) => j,
    };
    let inner_text = match &doc.elems[j].text {
        None => {
            return Err(BrowseError::MissingElement(String::from_str("Result")));
        },
        Some(t) => t.clone(),
    };
    let t = match find_named_from(&doc, "TotalMatches", 0) {
        None => {
            return Err(BrowseError::MissingElement(String::from_str("TotalMatches")));
        },
        Some(t) => t,
    };
    let total_text = match &doc.elems[t].text {
        None => {
            return Err(BrowseError::MissingElement(String::from_str("TotalMatches")));
        },
        Some(t) => t.clone(),
    };
    let total_matches = match parse_usize(total_text.as_str()) {
        None => {
            return Err(BrowseError::BadTotal);
        },
        Some(v) => v,
    };
    let inner = match parse_xml(inner_text.as_str()) {
        None => {
            return Err(BrowseError::MalformedDocument);
        },
        Some(d) => d,
    };
    let idxs = collect_named(&inner, "item");
    let ghost idxs_spec = collect_named_spec(inner@, "item"@, 0);
    let mut items: Vec<Item> = Vec::new();
    let mut n: usize = 0;
    while n < idxs.len()
        invariant
            0 <= n <= idxs@.len(),
            idxs@.map_values(|x: usize| x as int) == idxs_spec,
            forall|k: int| 0 <= k < idxs@.len() ==> #[trigger] idxs@[k] < inner@.len(),
            items_view(items@) == decode_items_spec(inner@, idxs_spec.take(n as int)),
        decreases idxs@.len() - n,
    {
        let e = idxs[n];
        proof {
            assert(idxs_spec[n as int] == idxs@[n as int] as int);
            assert(idxs_spec.take(n as int).push(e as int) =~= idxs_spec.take(n + 1));
            lemma_decode_items_snoc(inner@, idxs_spec.take(n as int), e as int);
        }
        match Item::build(&inner, e) {
            Ok(item) => {
                items.push(item);
                proof {
                    assert(items_view(items@) =~= decode_items_spec(
                        inner@,
                        idxs_spec.take(n + 1),
                    ));
                }
            },
            Err(_) => {
                proof {
                    assert(items_view(items@) =~= decode_items_spec(
                        inner@,
                        idxs_spec.take(n + 1),
                    ));
                }
            },
        }
        n = n + 1;
    }
    proof {
        assert(idxs_spec.take(idxs@.len() as int) =~= idxs_spec);
    }
    Ok(BrowsePage { items, raw_count: idxs.len(), total_matches })
}

} // verus!
