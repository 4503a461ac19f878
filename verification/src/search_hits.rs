//! Text search over indexed conversations: where each query word occurs
//! among the indexed terms of a conversation's messages.

use vstd::prelude::*;
use crate::search::{index_message_terms, message_terms};
use crate::text::{chars_of, push_str, split_words, str_eq, string_from_chars, to_lowercase, unicode_lowercase, words};
use vstd::utf8::{decode_utf8, encode_utf8, is_char_boundary};

verus! {

/// An occurrence of a query word: which word of the query, in which
/// message, at which word position of that message.
#[derive(Debug, Clone, Copy, PartialEq, Eq, Structural)]
pub struct TermHit {
    pub term_index: usize,
    pub message_index: usize,
    pub position: usize,
}

/// The view of a list of hits.
pub open spec fn hits_view(v: Seq<TermHit>) -> Seq<(nat, nat, nat)> {
    Seq::new(v.len(), |i: int| (v[i].term_index as nat, v[i].message_index as nat, v[i].position as nat))
}

/// The hits of term `t` (query word `k`) among the first `n` indexed terms
/// of message `i`.
pub open spec fn position_hits(terms: Seq<(Seq<char>, nat)>, t: Seq<char>, k: nat, i: nat, n: nat) -> Seq<(nat, nat, nat)>
    decreases n,
{
    if n == 0 {
        Seq::empty()
    } else {
        position_hits(terms, t, k, i, (n - 1) as nat) + if terms[n - 1].0 == t {
            seq![(k, i, terms[n - 1].1)]
        } else {
            Seq::empty()
        }
    }
}

/// The hits of term `t` (query word `k`) in the first `n` messages, in
/// message order and then word order.
pub open spec fn term_hits(msgs: Seq<Seq<char>>, t: Seq<char>, k: nat, n: nat) -> Seq<(nat, nat, nat)>
    decreases n,
{
    if n == 0 {
        Seq::empty()
    } else {
        let ts = message_terms(msgs[n - 1]);
        term_hits(msgs, t, k, (n - 1) as nat) + position_hits(ts, t, k, (n - 1) as nat, ts.len())
    }
}

/// The hits of the first `k` query words, each word lower-cased.
pub open spec fn query_hits(msgs: Seq<Seq<char>>, qs: Seq<Seq<char>>, k: nat) -> Seq<(nat, nat, nat)>
    decreases k,
{
    if k == 0 {
        Seq::empty()
    } else {
        query_hits(msgs, qs, (k - 1) as nat) + term_hits(msgs, unicode_lowercase(qs[k - 1]), (k - 1) as nat, msgs.len())
    }
}

/// The hits of a text query in a conversation's messages: for each
/// white-space separated word of the query in turn, every indexed term of
/// the messages equal to the lower-cased word.
pub open spec fn text_hits(msgs: Seq<Seq<char>>, query: Seq<char>) -> Seq<(nat, nat, nat)> {
    query_hits(msgs, words(query), words(query).len())
}

/// The text of a list of strings.
pub open spec fn contents(v: Seq<String>) -> Seq<Seq<char>> {
    v.map_values(|s: String| s@)
}

spec fn terms_view(v: Seq<(String, usize)>) -> Seq<(Seq<char>, nat)> {
    Seq::new(v.len(), |i: int| (v[i].0@, v[i].1 as nat))
}

/// Where the words of a text query occur in a conversation's messages.
/// The number of hits is the conversation's match count; a conversation
/// with none does not match.
pub fn text_search_hits(messages: &[String], text_query: &str) -> (r: Vec<TermHit>)
    ensures
        hits_view(r@) == text_hits(contents(messages@), text_query@),
{
    let ghost msgs = contents(messages@);
    let mut indexed: Vec<Vec<(String, usize)>> = Vec::new();
    let mut m: usize = 0;
    while m < messages.len()
        invariant
            m <= messages@.len(),
            msgs == contents(messages@),
            indexed@.len() == m,
            forall|x: int| 0 <= x < m ==> terms_view(#[trigger] indexed@[x]@) == message_terms(msgs[x]),
        decreases messages@.len() - m,
    {
        let ts = index_message_terms(messages[m].as_str());
        indexed.push(ts);
        m = m + 1;
    }
    let qs = split_words(text_query);
    let ghost qv = words(text_query@);
    let mut r: Vec<TermHit> = Vec::new();
    let mut k: usize = 0;
    while k < qs.len()
        invariant
            k <= qs@.len(),
            qs@.len() == qv.len(),
            qv == words(text_query@),
            forall|x: int| 0 <= x < qs@.len() ==> (#[trigger] qs@[x])@ == qv[x],
            msgs == contents(messages@),
            indexed@.len() == messages@.len(),
            forall|x: int| 0 <= x < messages@.len() ==> terms_view(#[trigger] indexed@[x]@) == message_terms(msgs[x]),
            hits_view(r@) == query_hits(msgs, qv, k as nat),
        decreases qs@.len() - k,
    {
        let t = to_lowercase(qs[k].as_str());
        proof {
            assert(qs@[k as int]@ == qv[k as int]);
        }
        let ghost base = query_hits(msgs, qv, k as nat);
        let mut i: usize = 0;
        while i < indexed.len()
            invariant
                k < qs@.len(),
                i <= indexed@.len(),
                indexed@.len() == messages@.len(),
                msgs == contents(messages@),
                msgs.len() == messages@.len(),
                forall|x: int| 0 <= x < messages@.len() ==> terms_view(#[trigger] indexed@[x]@) == message_terms(msgs[x]),
                t@ == unicode_lowercase(qv[k as int]),
                hits_view(r@) == base + term_hits(msgs, t@, k as nat, i as nat),
            decreases indexed@.len() - i,
        {
            let ts = &indexed[i];
            let ghost tv = message_terms(msgs[i as int]);
            let ghost mid = base + term_hits(msgs, t@, k as nat, i as nat);
            assert(terms_view(ts@) == tv);
            let mut j: usize = 0;
            while j < ts.len()
                invariant
                    j <= ts@.len(),
                    terms_view(ts@) == tv,
                    hits_view(r@) == mid + position_hits(tv, t@, k as nat, i as nat, j as nat),
                decreases ts@.len() - j,
            {
                let ghost before = r@;
                assert(tv[j as int] == (ts@[j as int].0@, ts@[j as int].1 as nat));
                if str_eq(ts[j].0.as_str(), t.as_str()) {
                    r.push(TermHit { term_index: k, message_index: i, position: ts[j].1 });
                    assert(hits_view(r@) =~= hits_view(before).push((k as nat, i as nat, ts@[j as int].1 as nat)));
                }
                assert(hits_view(r@) =~= mid + position_hits(tv, t@, k as nat, i as nat, (j + 1) as nat));
                j = j + 1;
            }
            assert(hits_view(r@) =~= base + term_hits(msgs, t@, k as nat, (i + 1) as nat));
            i = i + 1;
        }
        assert(hits_view(r@) =~= query_hits(msgs, qv, (k + 1) as nat));
        k = k + 1;
    }
    r
}

/// The conversations among the first `n` in which the query has a hit, by
/// position.
pub open spec fn matched_upto(convs: Seq<Seq<Seq<char>>>, query: Seq<char>, n: nat) -> Seq<nat>
    decreases n,
{
    if n == 0 {
        Seq::empty()
    } else {
        matched_upto(convs, query, (n - 1) as nat) + if text_hits(convs[n - 1], query).len() > 0 {
            seq![(n - 1) as nat]
        } else {
            Seq::empty()
        }
    }
}

/// The messages of each conversation, as text.
pub open spec fn conversation_contents(convs: Seq<Vec<String>>) -> Seq<Seq<Seq<char>>> {
    convs.map_values(|c: Vec<String>| contents(c@))
}

/// The conversations that match a text query, in the order given, each
/// with its hits: a conversation matches when a query word occurs among
/// its indexed terms.
pub fn matching_conversations(conversations: &[Vec<String>], text_query: &str) -> (r: Vec<(usize, Vec<TermHit>)>)
    ensures
        r@.len() == matched_upto(conversation_contents(conversations@), text_query@, conversations@.len() as nat).len(),
        forall|x: int| 0 <= x < r@.len() ==> {
            let c = (#[trigger] r@[x]).0;
            &&& c as nat == matched_upto(conversation_contents(conversations@), text_query@, conversations@.len() as nat)[x]
            &&& hits_view(r@[x].1@) == text_hits(contents(conversations@[c as int]@), text_query@)
        },
{
    let ghost convs = conversation_contents(conversations@);
    let mut r: Vec<(usize, Vec<TermHit>)> = Vec::new();
    let mut i: usize = 0;
    while i < conversations.len()
        invariant
            i <= conversations@.len(),
            convs == conversation_contents(conversations@),
            r@.len() == matched_upto(convs, text_query@, i as nat).len(),
            forall|x: int| 0 <= x < r@.len() ==> {
                let c = (#[trigger] r@[x]).0;
                &&& c as nat == matched_upto(convs, text_query@, i as nat)[x]
                &&& c < conversations@.len()
                &&& hits_view(r@[x].1@) == text_hits(contents(conversations@[c as int]@), text_query@)
            },
        decreases conversations@.len() - i,
    {
        let hits = text_search_hits(conversations[i].as_slice(), text_query);
        assert(convs[i as int] == contents(conversations@[i as int]@));
        let ghost before = r@;
        let ghost prev = matched_upto(convs, text_query@, i as nat);
        if hits.len() > 0 {
            r.push((i, hits));
        }
        proof {
            let next = matched_upto(convs, text_query@, (i + 1) as nat);
            assert forall|x: int| 0 <= x < r@.len() implies {
                let c = (#[trigger] r@[x]).0;
                &&& c as nat == next[x]
                &&& c < conversations@.len()
                &&& hits_view(r@[x].1@) == text_hits(contents(conversations@[c as int]@), text_query@)
            } by {
                if x < before.len() {
                    assert(r@[x] == before[x]);
                    assert(next[x] == prev[x]);
                }
            }
        }
        i = i + 1;
    }
    r
}

/// Whether the bytes `n` occur in `h` at position `i`.
pub open spec fn occurs_bytes_at(h: Seq<u8>, n: Seq<u8>, i: int) -> bool {
    0 <= i && i + n.len() <= h.len() && h.subrange(i, i + n.len()) == n
}

/// The first position at which the bytes `n` occur in `h` (`str::find`).
pub open spec fn find_bytes(h: Seq<u8>, n: Seq<u8>) -> Option<int> {
    if exists|i: int| occurs_bytes_at(h, n, i) {
        Some(choose|i: int| occurs_bytes_at(h, n, i) && forall|j: int| 0 <= j < i ==> !occurs_bytes_at(h, n, j))
    } else {
        None
    }
}

fn find_in_bytes(h: &[u8], n: &[u8]) -> (r: Option<usize>)
    ensures
        r is Some <==> find_bytes(h@, n@) is Some,
        r matches Some(p) ==> find_bytes(h@, n@) == Some(p as int) && p + n@.len() <= h@.len(),
{
    if n.len() > h.len() {
        assert(!exists|i: int| occurs_bytes_at(h@, n@, i));
        return None;
    }
    let last = h.len() - n.len();
    let mut i: usize = 0;
    while i <= last
        invariant
            last == h@.len() - n@.len(),
            n@.len() <= h@.len(),
            i <= last + 1,
            h@.len() <= usize::MAX,
            forall|j: int| 0 <= j < i ==> !occurs_bytes_at(h@, n@, j),
        decreases last + 1 - i,
    {
        let mut k: usize = 0;
        let mut same = true;
        while k < n.len()
            invariant
                i <= last,
                last == h@.len() - n@.len(),
                n@.len() <= h@.len(),
                h@.len() <= usize::MAX,
                k <= n@.len(),
                same == forall|x: int| 0 <= x < k ==> h@[i + x] == n@[x],
            decreases n@.len() - k,
        {
            if h[i + k] != n[k] {
                same = false;
            }
            k = k + 1;
        }
        if same {
            assert(h@.subrange(i as int, i + n@.len()) =~= n@);
            assert(occurs_bytes_at(h@, n@, i as int));
            let ghost c = choose|c: int| occurs_bytes_at(h@, n@, c) && forall|j: int| 0 <= j < c ==> !occurs_bytes_at(h@, n@, j);
            assert(c == i as int) by {
                if c < i { } else if c > i { }
            }
            return Some(i);
        }
        assert(!occurs_bytes_at(h@, n@, i as int)) by {
            if occurs_bytes_at(h@, n@, i as int) {
                assert forall|x: int| 0 <= x < n@.len() implies h@[i + x] == n@[x] by {
                    assert(h@.subrange(i as int, i + n@.len())[x] == n@[x]);
                }
            }
        }
        if i == last {
            assert forall|j: int| !occurs_bytes_at(h@, n@, j) by {
                if 0 <= j <= last {
                }
            }
            return None;
        }
        i = i + 1;
    }
    None
}

/// The bytes of the lower-cased text.
pub open spec fn lower_bytes(s: Seq<char>) -> Seq<u8> {
    encode_utf8(unicode_lowercase(s))
}

/// Where a snippet starts: half the length before the match, or the start.
pub open spec fn snippet_start(pos: int, max_length: nat) -> int {
    if pos >= max_length / 2 { pos - max_length / 2 } else { 0 }
}

/// Where a snippet ends: half the length after the term, or the end.
pub open spec fn snippet_end(pos: int, term: Seq<char>, max_length: nat, content: Seq<char>) -> int {
    let e = pos + encode_utf8(term).len() + max_length / 2;
    if e < encode_utf8(content).len() { e } else { encode_utf8(content).len() as int }
}

/// The snippet of a message around the first match of a term, compared
/// lower-cased: the bytes from half the length before the match to half
/// the length after the term, with "..." where text was cut; without a
/// match, the first `max_length` characters.
pub open spec fn snippet_text(content: Seq<char>, term: Seq<char>, max_length: nat) -> Seq<char> {
    match find_bytes(lower_bytes(content), lower_bytes(term)) {
        Some(pos) => {
            let start = snippet_start(pos, max_length);
            let end = snippet_end(pos, term, max_length, content);
            (if start > 0 { "..."@ } else { Seq::empty() })
                + decode_utf8(encode_utf8(content).subrange(start, end))
                + (if end < encode_utf8(content).len() { "..."@ } else { Seq::empty() })
        },
        None => content.take(if max_length < content.len() { max_length as int } else { content.len() as int }),
    }
}

/// The inputs on which a snippet can be cut: the byte range around the
/// match lies on character boundaries of the message, in order, and its end
/// can be computed.
pub open spec fn snippet_cuttable(content: Seq<char>, term: Seq<char>, max_length: nat) -> bool {
    match find_bytes(lower_bytes(content), lower_bytes(term)) {
        Some(pos) => {
            let start = snippet_start(pos, max_length);
            let end = snippet_end(pos, term, max_length, content);
            &&& pos + encode_utf8(term).len() + max_length / 2 <= usize::MAX
            &&& start <= end
            &&& is_char_boundary(encode_utf8(content), start)
            &&& is_char_boundary(encode_utf8(content), end)
        },
        None => true,
    }
}

proof fn lemma_boundary_in_prefix(b: Seq<u8>, s: int, e: int)
    requires
        vstd::utf8::valid_utf8(b),
        0 <= s <= e <= b.len(),
        is_char_boundary(b, s),
        is_char_boundary(b, e),
    ensures
        vstd::utf8::valid_utf8(b.subrange(0, e)),
        is_char_boundary(b.subrange(0, e), s),
{
    let pre = b.subrange(0, e);
    vstd::utf8::valid_utf8_split(b, e);
    if s == e {
        vstd::utf8::is_char_boundary_start_end_of_seq(pre);
    } else {
        vstd::utf8::is_char_boundary_iff_not_is_continuation_byte(b, s);
        vstd::utf8::is_char_boundary_iff_not_is_continuation_byte(pre, s);
        assert(pre[s] == b[s]);
    }
}

/// The bytes `start..end` of a message, with "..." where text was cut.
fn cut_around(content: &str, start: usize, end: usize) -> (r: String)
    requires
        start <= end <= encode_utf8(content@).len(),
        is_char_boundary(encode_utf8(content@), start as int),
        is_char_boundary(encode_utf8(content@), end as int),
    ensures
        r@ == (if start > 0 { "..."@ } else { Seq::empty() })
            + decode_utf8(encode_utf8(content@).subrange(start as int, end as int))
            + (if end < encode_utf8(content@).len() { "..."@ } else { Seq::empty() }),
{
    let ghost cb = encode_utf8(content@);
    proof {
        vstd::utf8::encode_utf8_valid_utf8(content@);
        lemma_boundary_in_prefix(cb, start as int, end as int);
    }
    let clen = content.as_bytes().len();
    let (head, _rest) = content.split_at(end);
    let (_before, mid) = head.split_at(start);
    proof {
        assert(encode_utf8(mid@) =~= cb.subrange(start as int, end as int));
        vstd::utf8::encode_utf8_decode_utf8(mid@);
    }
    let mut out: Vec<char> = Vec::new();
    if start > 0 {
        push_str(&mut out, "...");
    }
    push_str(&mut out, mid);
    if end < clen {
        push_str(&mut out, "...");
    }
    let r = string_from_chars(out.as_slice());
    assert(r@ =~= (if start > 0 { "..."@ } else { Seq::empty() })
        + decode_utf8(cb.subrange(start as int, end as int))
        + (if end < cb.len() { "..."@ } else { Seq::empty() }));
    r
}

/// The first `n` characters of a text, or all of it.
fn first_chars(content: &str, n: usize) -> (r: String)
    ensures
        r@ == content@.take(if n < content@.len() { n as int } else { content@.len() as int }),
{
    let v = chars_of(content);
    let m: usize = if n < v.len() { n } else { v.len() };
    let mut out: Vec<char> = Vec::new();
    let mut i: usize = 0;
    while i < m
        invariant
            m <= v@.len(),
            i <= m,
            out@ == v@.subrange(0, i as int),
        decreases m - i,
    {
        out.push(v[i]);
        assert(out@ =~= v@.subrange(0, i + 1));
        i = i + 1;
    }
    let r = string_from_chars(out.as_slice());
    assert(r@ =~= content@.take(m as int));
    r
}

/// A snippet of a message around the first match of a term.
pub fn create_snippet(content: &str, term: &str, max_length: usize) -> (r: String)
    requires
        snippet_cuttable(content@, term@, max_length as nat),
    ensures
        r@ == snippet_text(content@, term@, max_length as nat),
{
    let lc = to_lowercase(content);
    let lt = to_lowercase(term);
    let found = find_in_bytes(lc.as_str().as_bytes(), lt.as_str().as_bytes());
    match found {
        Some(p) => {
            assert(find_bytes(lower_bytes(content@), lower_bytes(term@)) == Some(p as int));
            let half = max_length / 2;
            let start: usize = if p >= half { p - half } else { 0 };
            let reach = p + term.as_bytes().len() + half;
            let clen = content.as_bytes().len();
            let end: usize = if reach < clen { reach } else { clen };
            assert(start as int == snippet_start(p as int, max_length as nat));
            assert(end as int == snippet_end(p as int, term@, max_length as nat, content@));
            cut_around(content, start, end)
        },
        None => first_chars(content, max_length),
    }
}

/// A snippet of a message around the first match of a term, or `None`
/// where the range around the match cannot be cut from the message (it
/// would split a character, or run backwards).
pub fn try_create_snippet(content: &str, term: &str, max_length: usize) -> (r: Option<String>)
    ensures
        snippet_cuttable(content@, term@, max_length as nat) <==> r is Some,
        r matches Some(s) ==> s@ == snippet_text(content@, term@, max_length as nat),
{
    let lc = to_lowercase(content);
    let lt = to_lowercase(term);
    let found = find_in_bytes(lc.as_str().as_bytes(), lt.as_str().as_bytes());
    if let Some(p) = found {
        let half = max_length / 2;
        let start: usize = if p >= half { p - half } else { 0 };
        let tlen = term.as_bytes().len();
        if p > usize::MAX - half || p + half > usize::MAX - tlen {
            return None;
        }
        let reach = p + tlen + half;
        let clen = content.as_bytes().len();
        let end: usize = if reach < clen { reach } else { clen };
        if start > end || !content.is_char_boundary(start) || !content.is_char_boundary(end) {
            return None;
        }
    }
    Some(create_snippet(content, term, max_length))
}

} // verus!
