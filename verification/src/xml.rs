use vstd::prelude::*;
use crate::strutil::str_eq;

verus! {

/// Ghost image of one element: what the contracts say about parsed XML.
pub struct XmlElemV {
    pub name: Seq<char>,
    pub text: Option<Seq<char>>,
    pub id_attr: Option<Seq<char>>,
    pub parent: int,
}

/// One element of a parsed document: its local tag name (namespaces are
/// ignored at the tag-name level), its immediate text content, its `id`
/// attribute if any, and the index of its parent element.
pub struct XmlElem {
    pub name: String,
    pub text: Option<String>,
    pub id_attr: Option<String>,
    pub parent: usize,
}

impl View for XmlElem {
    type V = XmlElemV;

    open spec fn view(&self) -> XmlElemV {
        XmlElemV {
            name: self.name@,
            text: match self.text {
                Some(t) => Some(t@),
                None => None,
            },
            id_attr: match self.id_attr {
                Some(t) => Some(t@),
                None => None,
            },
            parent: self.parent as int,
        }
    }
}

/// A parsed document: every element in document (pre-)order. The element at
/// index 0 is the document's root element; every other element's parent
/// comes before it.
pub struct XmlDocument {
    pub elems: Vec<XmlElem>,
}

impl View for XmlDocument {
    type V = Seq<XmlElemV>;

    open spec fn view(&self) -> Seq<XmlElemV> {
        self.elems@.map_values(|e: XmlElem| e@)
    }
}

/// Well-formedness of the flattened document: non-empty, the root is its own
/// parent, and parents precede their children.
pub open spec fn doc_wf(elems: Seq<XmlElemV>) -> bool {
    &&& elems.len() >= 1
    &&& elems[0].parent == 0
    &&& forall|j: int| 1 <= j < elems.len() ==> 0 <= #[trigger] elems[j].parent < j
}

impl XmlDocument {
    pub open spec fn wf(&self) -> bool {
        doc_wf(self@)
    }
}

/// Whether element `j` lies in the subtree rooted at `root` (inclusive).
pub open spec fn in_subtree(elems: Seq<XmlElemV>, j: int, root: int) -> bool
    recommends
        doc_wf(elems),
        0 <= j < elems.len(),
        0 <= root < elems.len(),
    decreases j,
{
    if j == root {
        true
    } else if j <= 0 {
        false
    } else if 0 <= elems[j].parent < j {
        in_subtree(elems, elems[j].parent, root)
    } else {
        false
    }
}

/// Walk the parent chain of `j` and report whether it reaches `root`.
pub fn is_in_subtree(doc: &XmlDocument, j: usize, root: usize) -> (r: bool)
    requires
        doc.wf(),
        j < doc@.len(),
        root < doc@.len(),
    ensures
        r == in_subtree(doc@, j as int, root as int),
{
    let mut k = j;
    loop
        invariant
            doc.wf(),
            k < doc@.len(),
            root < doc@.len(),
            in_subtree(doc@, j as int, root as int) == in_subtree(doc@, k as int, root as int),
        decreases k,
    {
        if k == root {
            return true;
        }
        if k == 0 {
            return false;
        }
        k = self_parent(doc, k);
    }
}

fn self_parent(doc: &XmlDocument, k: usize) -> (r: usize)
    requires
        doc.wf(),
        0 < k < doc@.len(),
    ensures
        r == doc@[k as int].parent,
        r < k,
{
    doc.elems[k].parent
}

/// First element at or after `from` whose parent is `parent` and whose name
/// is `name`.
pub open spec fn find_child_spec(elems: Seq<XmlElemV>, parent: int, name: Seq<char>, from: int) -> Option<int>
    decreases elems.len() - from,
{
    if from < 0 || from >= elems.len() {
        None
    } else if elems[from].parent == parent && elems[from].name == name {
        Some(from)
    } else {
        find_child_spec(elems, parent, name, from + 1)
    }
}

/// Find the first child of `parent` named `name`, scanning in document
/// order from index `from`.
pub fn find_child_from(doc: &XmlDocument, parent: usize, name: &str, from: usize) -> (r: Option<
    usize,
>)
    ensures
        r matches Some(j) ==> from <= j < doc@.len() && doc@[j as int].parent == parent
            && doc@[j as int].name == name@,
        match r {
            Some(j) => find_child_spec(doc@, parent as int, name@, from as int) == Some(j as int),
            None => find_child_spec(doc@, parent as int, name@, from as int) is None,
        },
    decreases doc@.len() - from,
{
    if from >= doc.elems.len() {
        None
    } else if doc.elems[from].parent == parent && str_eq(doc.elems[from].name.as_str(), name) {
        Some(from)
    } else {
        find_child_from(doc, parent, name, from + 1)
    }
}

/// First element of the whole document at or after `from` named `name`.
pub open spec fn find_named_spec(elems: Seq<XmlElemV>, name: Seq<char>, from: int) -> Option<int>
    decreases elems.len() - from,
{
    if from < 0 || from >= elems.len() {
        None
    } else if elems[from].name == name {
        Some(from)
    } else {
        find_named_spec(elems, name, from + 1)
    }
}

/// Find the first element named `name` anywhere in the document, scanning in
/// document order from index `from`.
pub fn find_named_from(doc: &XmlDocument, name: &str, from: usize) -> (r: Option<usize>)
    ensures
        r matches Some(j) ==> from <= j < doc@.len() && doc@[j as int].name == name@,
        match r {
            Some(j) => find_named_spec(doc@, name@, from as int) == Some(j as int),
            None => find_named_spec(doc@, name@, from as int) is None,
        },
    decreases doc@.len() - from,
{
    if from >= doc.elems.len() {
        None
    } else if str_eq(doc.elems[from].name.as_str(), name) {
        Some(from)
    } else {
        find_named_from(doc, name, from + 1)
    }
}

/// First element at or after `from` named `name` whose text is exactly
/// `text`.
pub open spec fn find_with_text_spec(
    elems: Seq<XmlElemV>,
    name: Seq<char>,
    text: Seq<char>,
    from: int,
) -> Option<int>
    decreases elems.len() - from,
{
    if from < 0 || from >= elems.len() {
        None
    } else if elems[from].name == name && elems[from].text == Some(text) {
        Some(from)
    } else {
        find_with_text_spec(elems, name, text, from + 1)
    }
}

/// Find the first element named `name` whose text content equals `text`.
pub fn find_with_text_from(doc: &XmlDocument, name: &str, text: &str, from: usize) -> (r: Option<
    usize,
>)
    ensures
        r matches Some(j) ==> from <= j < doc@.len() && doc@[j as int].name == name@
            && doc@[j as int].text == Some(text@),
        match r {
            Some(j) => find_with_text_spec(doc@, name@, text@, from as int) == Some(j as int),
            None => find_with_text_spec(doc@, name@, text@, from as int) is None,
        },
    decreases doc@.len() - from,
{
    if from >= doc.elems.len() {
        None
    } else if str_eq(doc.elems[from].name.as_str(), name) && crate::strutil::opt_text_eq(
        &doc.elems[from].text,
        text,
    ) {
        Some(from)
    } else {
        find_with_text_from(doc, name, text, from + 1)
    }
}

/// First element at or after `from` that is in the subtree of `root` and is
/// named `name`.
pub open spec fn find_in_subtree_spec(
    elems: Seq<XmlElemV>,
    root: int,
    name: Seq<char>,
    from: int,
) -> Option<int>
    decreases elems.len() - from,
{
    if from < 0 || from >= elems.len() {
        None
    } else if in_subtree(elems, from, root) && elems[from].name == name {
        Some(from)
    } else {
        find_in_subtree_spec(elems, root, name, from + 1)
    }
}

/// Find the first element named `name` in the subtree rooted at `root`
/// (`root` itself included), in document order.
pub fn find_in_subtree(doc: &XmlDocument, root: usize, name: &str, from: usize) -> (r: Option<
    usize,
>)
    requires
        doc.wf(),
        root < doc@.len(),
    ensures
        r matches Some(j) ==> from <= j < doc@.len() && doc@[j as int].name == name@
            && in_subtree(doc@, j as int, root as int),
        match r {
            Some(j) => find_in_subtree_spec(doc@, root as int, name@, from as int) == Some(
                j as int,
            ),
            None => find_in_subtree_spec(doc@, root as int, name@, from as int) is None,
        },
    decreases doc@.len() - from,
{
    if from >= doc.elems.len() {
        None
    } else if is_in_subtree(doc, from, root) && str_eq(doc.elems[from].name.as_str(), name) {
        Some(from)
    } else {
        find_in_subtree(doc, root, name, from + 1)
    }
}

/// Indices of every element named `name`, in document order, from `from` on.
pub open spec fn collect_named_spec(elems: Seq<XmlElemV>, name: Seq<char>, from: int) -> Seq<int>
    decreases elems.len() - from,
{
    if from < 0 || from >= elems.len() {
        Seq::empty()
    } else if elems[from].name == name {
        seq![from] + collect_named_spec(elems, name, from + 1)
    } else {
        collect_named_spec(elems, name, from + 1)
    }
}

/// Every index of an element named `name`, in document order.
pub fn collect_named(doc: &XmlDocument, name: &str) -> (r: Vec<usize>)
    ensures
        r@.map_values(|j: usize| j as int) == collect_named_spec(doc@, name@, 0),
        forall|k: int| 0 <= k < r@.len() ==> #[trigger] r@[k] < doc@.len(),
{
    let mut out: Vec<usize> = Vec::new();
    let mut i: usize = 0;
    while i < doc.elems.len()
        invariant
            0 <= i <= doc@.len(),
            out@.map_values(|j: usize| j as int) + collect_named_spec(doc@, name@, i as int)
                == collect_named_spec(doc@, name@, 0),
            forall|k: int| 0 <= k < out@.len() ==> #[trigger] out@[k] < doc@.len(),
        decreases doc@.len() - i,
    {
        if str_eq(doc.elems[i].name.as_str(), name) {
            out.push(i);
            proof {
                assert(out@.map_values(|j: usize| j as int) =~= out@.drop_last().map_values(
                    |j: usize| j as int,
                ).push(i as int));
                assert(out@.drop_last().map_values(|j: usize| j as int).push(i as int)
                    + collect_named_spec(doc@, name@, i + 1) =~= out@.drop_last().map_values(
                    |j: usize| j as int,
                ) + (seq![i as int] + collect_named_spec(doc@, name@, i + 1)));
            }
        }
        i = i + 1;
    }
    out
}

/// What parsing yields on a given text: the flattened element list, or
/// nothing when the text is not well-formed XML. Parsing is a function of
/// the text alone.
pub uninterp spec fn xml_doc_of(s: Seq<char>) -> Option<Seq<XmlElemV>>;

/// Relies on roxmltree::Document::parse (and the node accessors tag_name,
/// text, attribute, parent_element): the parse result is a function of the
/// text alone, and the descendants traversal yields elements in document
/// (pre-)order, so every element's parent is listed before it and the
/// flattened list is well-formed.
#[verifier::external_body]
fn parse_xml_raw(text: &str) -> (r: Option<XmlDocument>)
    ensures
        r is Some <==> xml_doc_of(text@) is Some,
        r matches Some(d) ==> d@ == xml_doc_of(text@)->Some_0 && d.wf(),
{
    let doc = match roxmltree::Document::parse(text) { Ok(d) => d, Err(_) => return None };
    let mut elems = Vec::new();
    let mut idx = std::collections::HashMap::new();
    for n in doc.root_element().descendants().filter(|n| n.is_element()) {
        idx.insert(n.id(), elems.len());
        elems.push(XmlElem {
            name: n.tag_name().name().to_string(),
            text: n.text().map(str::to_string),
            id_attr: n.attribute("id").map(str::to_string),
            parent: n.parent_element().and_then(|p| idx.get(&p.id()).copied()).unwrap_or(0),
        });
    }
    Some(XmlDocument { elems })
}

/// Parse an XML document into the flattened element list; `None` when the
/// text is not well-formed XML.
pub fn parse_xml(text: &str) -> (r: Option<XmlDocument>)
    ensures
        r is Some <==> xml_doc_of(text@) is Some,
        r matches Some(d) ==> d@ == xml_doc_of(text@)->Some_0 && d.wf(),
{
    parse_xml_raw(text)
}

/// Text of the first child of `parent` named `name`: `None` when no such
/// child exists, `Some(None)` when it exists but holds no text.
pub open spec fn child_text_spec(elems: Seq<XmlElemV>, parent: int, name: Seq<char>) -> Option<
    Option<Seq<char>>,
> {
    match find_child_spec(elems, parent, name, 0) {
        Some(j) => Some(elems[j].text),
        None => None,
    }
}

/// Look up the text of the first child of `parent` named `name`.
pub fn child_text(doc: &XmlDocument, parent: usize, name: &str) -> (r: Option<Option<String>>)
    ensures
        match r {
            Some(Some(t)) => child_text_spec(doc@, parent as int, name@) == Some(Some(t@)),
            Some(None) => child_text_spec(doc@, parent as int, name@) == Some(
                None::<Seq<char>>,
            ),
            None => child_text_spec(doc@, parent as int, name@) is None,
        },
{
    match find_child_from(doc, parent, name, 0) {
        Some(j) => match &doc.elems[j].text {
            Some(t) => Some(Some(t.clone())),
            None => Some(None),
        },
        None => None,
    }
}

} // verus!
