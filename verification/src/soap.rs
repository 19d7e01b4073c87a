use vstd::prelude::*;
use vstd::string::*;

verus! {

/// View of a list of owned name/value pairs.
pub open spec fn pairs_view(s: Seq<(String, String)>) -> Seq<(Seq<char>, Seq<char>)> {
    s.map_values(|p: (String, String)| (p.0@, p.1@))
}

/// One encoded argument: `<Name>Value</Name>`.
pub open spec fn elem_encode(name: Seq<char>, value: Seq<char>) -> Seq<char> {
    seq!['<'] + name + seq!['>'] + value + seq!['<', '/'] + name + seq!['>']
}

/// The encoded argument list: each pair in caller order, concatenated with
/// no separators.
pub open spec fn encode_pairs_spec(ps: Seq<(Seq<char>, Seq<char>)>) -> Seq<char>
    decreases ps.len(),
{
    if ps.len() == 0 {
        Seq::empty()
    } else {
        elem_encode(ps[0].0, ps[0].1) + encode_pairs_spec(ps.drop_first())
    }
}

/// Appending one more pair appends its encoding.
proof fn lemma_encode_pairs_snoc(ps: Seq<(Seq<char>, Seq<char>)>, p: (Seq<char>, Seq<char>))
    ensures
        encode_pairs_spec(ps.push(p)) == encode_pairs_spec(ps) + elem_encode(p.0, p.1),
    decreases ps.len(),
{
    if ps.len() == 0 {
        assert(ps.push(p).drop_first() =~= Seq::empty());
        assert(ps.push(p)[0] == p);
        assert(encode_pairs_spec(ps.push(p)) == elem_encode(p.0, p.1) + encode_pairs_spec(
            Seq::empty(),
        ));
        assert(elem_encode(p.0, p.1) + Seq::empty() =~= elem_encode(p.0, p.1));
        assert(encode_pairs_spec(ps) + elem_encode(p.0, p.1) =~= elem_encode(p.0, p.1));
    } else {
        assert(ps.push(p)[0] == ps[0]);
        assert(ps.push(p).drop_first() =~= ps.drop_first().push(p));
        lemma_encode_pairs_snoc(ps.drop_first(), p);
        assert(encode_pairs_spec(ps.push(p)) == elem_encode(ps[0].0, ps[0].1) + (
        encode_pairs_spec(ps.drop_first()) + elem_encode(p.0, p.1)));
        assert(elem_encode(ps[0].0, ps[0].1) + (encode_pairs_spec(ps.drop_first()) + elem_encode(
            p.0,
            p.1,
        )) =~= (elem_encode(ps[0].0, ps[0].1) + encode_pairs_spec(ps.drop_first())) + elem_encode(
            p.0,
            p.1,
        ));
    }
}

/// Encode an ordered argument mapping as `<Name>Value</Name>` fragments,
/// concatenated in caller order with no separators.
pub fn as_elements(arguments: &Vec<(String, String)>) -> (r: String)
    ensures
        r@ == encode_pairs_spec(pairs_view(arguments@)),
{
    let ghost all = pairs_view(arguments@);
    let mut out = String::new();
    let mut i: usize = 0;
    while i < arguments.len()
        invariant
            0 <= i <= arguments@.len(),
            all == pairs_view(arguments@),
            out@ == encode_pairs_spec(all.take(i as int)),
        decreases arguments@.len() - i,
    {
        let k: &String = &arguments[i].0;
        let v: &String = &arguments[i].1;
        out.append("<");
        out.append(k.as_str());
        out.append(">");
        out.append(v.as_str());
        out.append("</");
        out.append(k.as_str());
        out.append(">");
        proof {
            reveal_strlit("<");
            reveal_strlit(">");
            reveal_strlit("</");
            assert("<"@ =~= seq!['<']);
            assert(">"@ =~= seq!['>']);
            assert("</"@ =~= seq!['<', '/']);
            let p = all[i as int];
            assert(p == (k@, v@));
            assert(out@ =~= encode_pairs_spec(all.take(i as int)) + elem_encode(k@, v@));
            lemma_encode_pairs_snoc(all.take(i as int), p);
            assert(all.take(i as int).push(p) =~= all.take(i + 1));
        }
        i = i + 1;
    }
    proof {
        assert(all.take(arguments@.len() as int) =~= all);
    }
    out
}

/// First index at or after `from` holding character `c`.
pub open spec fn find_char_spec(s: Seq<char>, c: char, from: int) -> Option<int>
    decreases s.len() - from,
{
    if from < 0 || from >= s.len() {
        None
    } else if s[from] == c {
        Some(from)
    } else {
        find_char_spec(s, c, from + 1)
    }
}

/// The first occurrence is found: when nothing before `idx` holds `c` and
/// `idx` does, the scan lands on `idx`.
proof fn lemma_find_char_at(s: Seq<char>, c: char, from: int, idx: int)
    requires
        0 <= from <= idx < s.len(),
        s[idx] == c,
        forall|k: int| from <= k < idx ==> s[k] != c,
    ensures
        find_char_spec(s, c, from) == Some(idx),
    decreases idx - from,
{
    if from < idx {
        lemma_find_char_at(s, c, from + 1, idx);
    }
}

fn find_char(s: &str, c: char, from: usize) -> (r: Option<usize>)
    ensures
        r matches Some(i) ==> from <= i < s@.len() && s@[i as int] == c,
        match r {
            Some(i) => find_char_spec(s@, c, from as int) == Some(i as int),
            None => find_char_spec(s@, c, from as int) is None,
        },
    decreases s@.len() - from,
{
    if from >= s.unicode_len() {
        None
    } else if s.get_char(from) == c {
        Some(from)
    } else {
        find_char(s, c, from + 1)
    }
}

/// Structurally parse a fragment of `<Name>Value</Name>` elements,
/// starting at `from`: each element contributes one name/value pair, in
/// order; any other shape yields nothing.
pub open spec fn parse_elems_from_spec(s: Seq<char>, from: int) -> Option<
    Seq<(Seq<char>, Seq<char>)>,
>
    decreases s.len() - from,
{
    if from < 0 {
        None
    } else if from >= s.len() {
        Some(Seq::empty())
    } else if s[from] != '<' {
        None
    } else {
        match find_char_spec(s, '>', from + 1) {
            None => None,
            Some(gt) => {
                if !(from + 1 <= gt < s.len()) {
                    None
                } else if gt == from + 1 {
                    None
                } else {
                    let name = s.subrange(from + 1, gt);
                    match find_char_spec(s, '<', gt + 1) {
                        None => None,
                        Some(lt) => {
                            if !(gt + 1 <= lt < s.len()) {
                                None
                            } else {
                                let value = s.subrange(gt + 1, lt);
                                let close = lt + 2 + name.len();
                                if close < s.len() && s[lt + 1] == '/' && s.subrange(lt + 2, close)
                                    == name && s[close] == '>' {
                                    match parse_elems_from_spec(s, close + 1) {
                                        None => None,
                                        Some(rest) => Some(seq![(name, value)] + rest),
                                    }
                                } else {
                                    None
                                }
                            }
                        },
                    }
                }
            },
        }
    }
}

/// Structural parse of a whole fragment.
pub open spec fn parse_elems_spec(s: Seq<char>) -> Option<Seq<(Seq<char>, Seq<char>)>> {
    parse_elems_from_spec(s, 0)
}

fn parse_elements_from(s: &str, from: usize) -> (r: Option<Vec<(String, String)>>)
    requires
        from <= s@.len(),
    ensures
        match r {
            Some(ps) => parse_elems_from_spec(s@, from as int) == Some(pairs_view(ps@)),
            None => parse_elems_from_spec(s@, from as int) is None,
        },
    decreases s@.len() - from,
{
    let n = s.unicode_len();
    if from >= n {
        proof {
            assert(pairs_view(Seq::<(String, String)>::empty()) =~= Seq::<
                (Seq<char>, Seq<char>),
            >::empty());
        }
        return Some(Vec::new());
    }
    if s.get_char(from) != '<' {
        return None;
    }
    let gt = match find_char(s, '>', from + 1) {
        None => {
            return None;
        },
        Some(gt) => gt,
    };
    if gt == from + 1 {
        return None;
    }
    let name = s.substring_char(from + 1, gt);
    let lt = match find_char(s, '<', gt + 1) {
        None => {
            return None;
        },
        Some(lt) => lt,
    };
    let value = s.substring_char(gt + 1, lt);
    let name_len = gt - from - 1;
    let rem = n - lt;
    if rem < 3 || name_len > rem - 3 {
        return None;
    }
    let close = lt + 2 + name_len;
    if s.get_char(lt + 1) != '/' {
        return None;
    }
    let close_name = s.substring_char(lt + 2, close);
    if !crate::strutil::str_eq(close_name, name) {
        return None;
    }
    if s.get_char(close) != '>' {
        return None;
    }
    let rest = match parse_elements_from(s, close + 1) {
        None => {
            return None;
        },
        Some(rest) => rest,
    };
    let mut out: Vec<(String, String)> = Vec::new();
    out.push((String::from_str(name), String::from_str(value)));
    let mut k: usize = 0;
    let ghost rest_view = pairs_view(rest@);
    while k < rest.len()
        invariant
            0 <= k <= rest@.len(),
            rest_view == pairs_view(rest@),
            pairs_view(out@) =~= seq![(name@, value@)] + rest_view.take(k as int),
        decreases rest@.len() - k,
    {
        let p = (rest[k].0.clone(), rest[k].1.clone());
        let ghost prev = out@;
        let ghost target = seq![(name@, value@)] + rest_view.take(k + 1);
        out.push(p);
        proof {
            assert(p.0 == rest@[k as int].0 && p.1 == rest@[k as int].1);
            assert(rest_view[k as int] == (rest@[k as int].0@, rest@[k as int].1@));
            assert(rest_view.take(k + 1)[k as int] == rest_view[k as int]);
            assert(out@ == prev.push(p));
            assert(rest_view.len() == rest@.len());
            assert(pairs_view(prev).len() == prev.len());
            assert(prev.len() == 1 + k);
            assert(out@.len() == target.len());
            assert forall|i: int| 0 <= i < out@.len() implies pairs_view(out@)[i] == target[i] by {
                assert(pairs_view(out@)[i] == (out@[i].0@, out@[i].1@));
                if i < prev.len() {
                    assert(out@[i] == prev[i]);
                    assert(pairs_view(prev)[i] == (prev[i].0@, prev[i].1@));
                    if i > 0 {
                        assert(pairs_view(prev)[i] == rest_view.take(k as int)[i - 1]);
                        assert(rest_view.take(k + 1)[i - 1] == rest_view.take(k as int)[i - 1]);
                    }
                } else {
                    assert(out@[i] == p);
                    assert(target[i] == rest_view.take(k + 1)[i - 1]);
                }
            }
            assert(pairs_view(out@) =~= target);
        }
        k = k + 1;
    }
    proof {
        assert(rest_view.take(rest@.len() as int) =~= rest_view);
        assert(pairs_view(out@) =~= seq![(name@, value@)] + pairs_view(rest@));
    }
    Some(out)
}

/// Structurally parse a fragment of `<Name>Value</Name>` elements into its
/// ordered name/value pairs; `None` when the fragment has any other shape.
pub fn parse_elements(s: &str) -> (r: Option<Vec<(String, String)>>)
    ensures
        match r {
            Some(ps) => parse_elems_spec(s@) == Some(pairs_view(ps@)),
            None => parse_elems_spec(s@) is None,
        },
{
    parse_elements_from(s, 0)
}

/// A well-formed argument pair: a non-empty name free of angle brackets,
/// and a value free of opening angle brackets.
pub open spec fn wf_pair(name: Seq<char>, value: Seq<char>) -> bool {
    &&& name.len() > 0
    &&& forall|k: int| 0 <= k < name.len() ==> name[k] != '<' && #[trigger] name[k] != '>'
    &&& forall|k: int| 0 <= k < value.len() ==> #[trigger] value[k] != '<'
}

/// Every pair of the mapping is well-formed.
pub open spec fn wf_pairs(ps: Seq<(Seq<char>, Seq<char>)>) -> bool {
    forall|i: int| 0 <= i < ps.len() ==> wf_pair((#[trigger] ps[i]).0, ps[i].1)
}

proof fn lemma_parse_encode_from(s: Seq<char>, from: int, ps: Seq<(Seq<char>, Seq<char>)>)
    requires
        0 <= from <= s.len(),
        s.skip(from) =~= encode_pairs_spec(ps),
        wf_pairs(ps),
    ensures
        parse_elems_from_spec(s, from) == Some(ps),
    decreases ps.len(),
{
    if ps.len() == 0 {
        assert(s.skip(from).len() == 0);
        assert(from >= s.len());
        assert(parse_elems_from_spec(s, from) == Some(Seq::<(Seq<char>, Seq<char>)>::empty()));
        assert(Seq::<(Seq<char>, Seq<char>)>::empty() =~= ps);
    } else {
        let name = ps[0].0;
        let value = ps[0].1;
        let rest = ps.drop_first();
        let nl = name.len() as int;
        let vl = value.len() as int;
        let e0 = elem_encode(name, value);
        let tail = encode_pairs_spec(rest);
        assert(wf_pair(name, value));
        assert(encode_pairs_spec(ps) == e0 + tail);
        assert(e0.len() == 2 * nl + vl + 5);
        let sk = s.skip(from);
        assert(sk == e0 + tail);
        assert(sk.len() == s.len() - from);
        // where each piece of the element sits within the encoding
        assert forall|k: int| 0 <= k < e0.len() implies e0[k] == (seq!['<'] + name + seq!['>']
            + value + seq!['<', '/'] + name + seq!['>'])[k] by {}
        assert(e0[0] == '<');
        assert forall|k: int| 0 <= k < nl implies e0[1 + k] == name[k] by {}
        assert(e0[1 + nl] == '>');
        assert forall|k: int| 0 <= k < vl implies e0[2 + nl + k] == value[k] by {}
        assert(e0[2 + nl + vl] == '<');
        assert(e0[3 + nl + vl] == '/');
        assert forall|k: int| 0 <= k < nl implies e0[4 + nl + vl + k] == name[k] by {}
        assert(e0[4 + 2 * nl + vl] == '>');
        // and so in the whole string, in absolute positions
        assert forall|k: int| 0 <= k < e0.len() implies s[from + k] == e0[k] by {
            assert(sk[k] == s[from + k]);
            assert(sk[k] == e0[k]);
        }
        assert(s[from] == '<') by {
            assert(s[from + 0] == e0[0]);
        }
        assert forall|k: int| 0 <= k < nl implies s[from + 1 + k] == name[k] by {
            assert(s[from + (1 + k)] == e0[1 + k]);
        }
        assert(s[from + 1 + nl] == '>') by {
            assert(s[from + (1 + nl)] == e0[1 + nl]);
        }
        assert forall|k: int| 0 <= k < vl implies s[from + 2 + nl + k] == value[k] by {
            assert(s[from + (2 + nl + k)] == e0[2 + nl + k]);
        }
        assert(s[from + 2 + nl + vl] == '<') by {
            assert(s[from + (2 + nl + vl)] == e0[2 + nl + vl]);
        }
        assert(s[from + 3 + nl + vl] == '/') by {
            assert(s[from + (3 + nl + vl)] == e0[3 + nl + vl]);
        }
        assert forall|k: int| 0 <= k < nl implies s[from + 4 + nl + vl + k] == name[k] by {
            assert(s[from + (4 + nl + vl + k)] == e0[4 + nl + vl + k]);
        }
        assert(s[from + 4 + 2 * nl + vl] == '>') by {
            assert(s[from + (4 + 2 * nl + vl)] == e0[4 + 2 * nl + vl]);
        }
        // the name scan stops exactly at the closing bracket of the open tag
        let gt = from + 1 + nl;
        assert forall|k: int| from + 1 <= k < gt implies s[k] != '>' by {
            assert(s[k] == name[k - from - 1]);
        }
        lemma_find_char_at(s, '>', from + 1, gt);
        assert(s.subrange(from + 1, gt) =~= name);
        // the value scan stops exactly at the closing tag's opening bracket
        let lt = gt + 1 + vl;
        assert forall|k: int| gt + 1 <= k < lt implies s[k] != '<' by {
            assert(s[k] == value[k - gt - 1]);
        }
        lemma_find_char_at(s, '<', gt + 1, lt);
        assert(s.subrange(gt + 1, lt) =~= value);
        // the closing tag matches the name
        let close = lt + 2 + nl;
        assert(close < s.len());
        assert(s[lt + 1] == '/');
        assert(s.subrange(lt + 2, close) =~= name);
        assert(s[close] == '>');
        // the remainder is the encoding of the remaining pairs
        assert(s.skip(close + 1) =~= tail) by {
            assert(close + 1 - from == e0.len());
            assert forall|k: int| 0 <= k < tail.len() implies s.skip(close + 1)[k] == tail[k] by {
                assert(s.skip(close + 1)[k] == s[close + 1 + k]);
                assert(sk[e0.len() + k] == s[from + (e0.len() + k)]);
                assert(sk[e0.len() + k] == tail[k]);
            }
        }
        assert(wf_pairs(rest)) by {
            assert(forall|i: int| 0 <= i < rest.len() ==> rest[i] == ps[i + 1]);
        }
        lemma_parse_encode_from(s, close + 1, rest);
        assert(parse_elems_from_spec(s, from) == Some(seq![(name, value)] + rest));
        assert(seq![(name, value)] + rest =~= ps);
    }
}

/// Encoding an argument mapping and structurally parsing the produced
/// fragment yields back the same ordered name/value pairs, for every
/// well-formed mapping.
pub proof fn lemma_encode_then_parse(ps: Seq<(Seq<char>, Seq<char>)>)
    requires
        wf_pairs(ps),
    ensures
        parse_elems_spec(encode_pairs_spec(ps)) == Some(ps),
{
    let s = encode_pairs_spec(ps);
    assert(s.skip(0) =~= s);
    lemma_parse_encode_from(s, 0, ps);
}

/// The fixed opening of every request envelope, up to and including the
/// opening body tag.
pub open spec fn envelope_open() -> Seq<char> {
    "<?xml version=\"1.0\" encoding=\"utf-8\"?><s:Envelope s:encodingStyle=\"http://schemas.xmlsoap.org/soap/encoding/\" xmlns:s=\"http://schemas.xmlsoap.org/soap/envelope/\"><s:Body>"@
}

/// The fixed closing of every request envelope.
pub open spec fn envelope_close() -> Seq<char> {
    "</s:Body></s:Envelope>"@
}

/// What `envelope` returns: the payload wrapped in the fixed envelope text.
pub open spec fn envelope_spec(body: Seq<char>) -> Seq<char> {
    envelope_open() + body + envelope_close()
}

/// Wrap an XML payload in the outer envelope/body element pair that the
/// remote-procedure transport expects.
pub fn envelope(body: &str) -> (r: String)
    ensures
        r@ == envelope_spec(body@),
{
    let mut s = String::from_str(
        "<?xml version=\"1.0\" encoding=\"utf-8\"?><s:Envelope s:encodingStyle=\"http://schemas.xmlsoap.org/soap/encoding/\" xmlns:s=\"http://schemas.xmlsoap.org/soap/envelope/\"><s:Body>",
    );
    s.append(body);
    s.append("</s:Body></s:Envelope>");
    s
}

} // verus!
