//! Render pipeline and Markdown renderer: filtering, grouping and sorting of
//! the canonical model, and its serialization to Markdown text, with a table
//! of contents kept consistent with the body it indexes.

use vstd::prelude::*;
use vstd::string::{StrSliceExecFns, StringExecFns};
use crate::models::{
    ApiDocumentation, ApiDocumentationV, DetailLevel, DocConfig, DocConfigV, Endpoint, EndpointV,
    GroupBy, Parameter, ResponseEntry, Service, SortMethod, string_views,
};
use crate::strutil::{
    concat_map, contains_sub, contains_substring, filter_idxs, has_prefix, has_prefix_spec,
    insert_sorted, lemma_concat_map_take_succ, lemma_insert_sorted_at, lex_le, opt_or_empty,
    opt_str, push_char, sort_by_leq, str_eq_str, str_le, string_vec_contains,
};

verus! {

// ------------------------------------------------------------------
// Characters, anchors, short titles
// ------------------------------------------------------------------
/// Whitespace, for splitting a summary into tokens.
pub open spec fn is_ws(c: char) -> bool {
    c == ' ' || c == '\t' || c == '\n' || c == '\r'
}

/// An upper-case letter, marking an identifier-like token.
pub open spec fn is_upper(c: char) -> bool {
    65 <= c as u32 <= 90
}

/// Lower-cases a single letter; other characters are unchanged.
pub open spec fn lower_char(c: char) -> char {
    if 65 <= c as u32 <= 90 {
        (((c as u32) + 32) as u8) as char
    } else {
        c
    }
}

/// The characters an anchor may hold: lower-case letters, digits, hyphens.
pub open spec fn is_anchor_keep(c: char) -> bool {
    (97 <= c as u32 <= 122) || (48 <= c as u32 <= 57) || c == '-'
}

/// One title character's contribution to the anchor: lower-cased, a space
/// becomes a hyphen, anything else outside `[a-z0-9-]` is dropped.
pub open spec fn anchor_char(c: char) -> char {
    if c == ' ' {
        '-'
    } else {
        lower_char(c)
    }
}

pub open spec fn anchor_piece() -> spec_fn(char) -> Seq<char> {
    |c: char|
        if is_anchor_keep(anchor_char(c)) {
            seq![anchor_char(c)]
        } else {
            Seq::<char>::empty()
        }
}

/// The anchor derived from a title: lower-cased, spaces replaced by hyphens,
/// every character outside `[a-z0-9-]` removed.
pub open spec fn anchor_spec(s: Seq<char>) -> Seq<char> {
    concat_map(s, anchor_piece())
}

/// Converts a title to its Markdown anchor.
pub fn to_anchor(text: &str) -> (r: String)
    ensures
        r@ == anchor_spec(text@),
{
    let n = text.unicode_len();
    let mut out = String::new();
    let mut i: usize = 0;
    while i < n
        invariant
            n == text@.len(),
            i <= n,
            out@ == concat_map(text@.take(i as int), anchor_piece()),
        decreases n - i,
    {
        let ghost pre = out@;
        let c = text.get_char(i);
        let cu = c as u32;
        let mc: char = if c == ' ' {
            '-'
        } else if 65 <= cu && cu <= 90 {
            ((cu + 32) as u8) as char
        } else {
            c
        };
        proof {
            assert(mc == anchor_char(c));
        }
        let mu = mc as u32;
        if (97 <= mu && mu <= 122) || (48 <= mu && mu <= 57) || mc == '-' {
            push_char(&mut out, mc);
            proof {
                assert(out@ =~= pre + seq![mc]);
            }
        } else {
            proof {
                assert(pre + Seq::<char>::empty() =~= pre);
            }
        }
        proof {
            lemma_concat_map_take_succ(text@, anchor_piece(), i as int);
        }
        i = i + 1;
    }
    proof {
        assert(text@.take(n as int) =~= text@);
    }
    out
}

/// The characters left after the leading whitespace.
pub open spec fn skip_ws(s: Seq<char>) -> Seq<char>
    decreases s.len(),
{
    if s.len() == 0 {
        s
    } else if is_ws(s[0]) {
        skip_ws(s.drop_first())
    } else {
        s
    }
}

/// The leading run of non-whitespace characters.
pub open spec fn take_until_ws(s: Seq<char>) -> Seq<char>
    decreases s.len(),
{
    if s.len() == 0 {
        Seq::empty()
    } else if is_ws(s[0]) {
        Seq::empty()
    } else {
        seq![s[0]] + take_until_ws(s.drop_first())
    }
}

/// The first whitespace-delimited token, empty when there is none.
pub open spec fn first_token(s: Seq<char>) -> Seq<char> {
    take_until_ws(skip_ws(s))
}

pub open spec fn has_upper(s: Seq<char>) -> bool {
    exists|i: int| 0 <= i < s.len() && is_upper(#[trigger] s[i])
}

proof fn lemma_skip_ws_idx(s: Seq<char>, i: int)
    requires
        0 <= i <= s.len(),
        forall|j: int| 0 <= j < i ==> is_ws(#[trigger] s[j]),
        i < s.len() ==> !is_ws(s[i]),
    ensures
        skip_ws(s) == s.skip(i),
    decreases i,
{
    if i == 0 {
        assert(s.skip(0) =~= s);
        if s.len() > 0 {
            assert(!is_ws(s[0]));
        }
    } else {
        assert(is_ws(s[0]));
        lemma_skip_ws_idx(s.drop_first(), i - 1);
        assert(s.drop_first().skip(i - 1) =~= s.skip(i));
    }
}

proof fn lemma_take_until_ws_idx(s: Seq<char>, j: int)
    requires
        0 <= j <= s.len(),
        forall|k: int| 0 <= k < j ==> !is_ws(#[trigger] s[k]),
        j < s.len() ==> is_ws(s[j]),
    ensures
        take_until_ws(s) == s.take(j),
    decreases j,
{
    if j == 0 {
        assert(s.take(0) =~= Seq::<char>::empty());
    } else {
        assert(!is_ws(s[0]));
        lemma_take_until_ws_idx(s.drop_first(), j - 1);
        assert(seq![s[0]] + s.drop_first().take(j - 1) =~= s.take(j));
    }
}

/// The short title of an endpoint: the operation id verbatim when present;
/// else the summary's first token when that token holds an upper-case letter,
/// or the whole summary; else `"<METHOD> <path>"`.
pub open spec fn short_title_spec(e: EndpointV) -> Seq<char> {
    if e.operation_id is Some {
        e.operation_id->0
    } else if e.summary is Some {
        let sum = e.summary->0;
        let tok = first_token(sum);
        if tok.len() > 0 && has_upper(tok) {
            tok
        } else {
            sum
        }
    } else {
        e.method + " "@ + e.path
    }
}

/// Derives the short title used for headings and table-of-contents entries.
pub fn get_short_title(endpoint: &Endpoint) -> (r: String)
    ensures
        r@ == short_title_spec(endpoint@),
{
    if let Some(op_id) = &endpoint.operation_id {
        return op_id.clone();
    }
    if let Some(summary) = &endpoint.summary {
        let s = summary.as_str();
        let n = s.unicode_len();
        let mut i: usize = 0;
        let mut found_start = false;
        while !found_start && i < n
            invariant
                n == s@.len(),
                i <= n,
                forall|j: int| 0 <= j < i ==> is_ws(#[trigger] s@[j]),
                found_start ==> i < n && !is_ws(s@[i as int]),
            decreases n - i, (if found_start {
                0int
            } else {
                1int
            }),
        {
            let c = s.get_char(i);
            let cu = c as u32;
            if cu == 32 || cu == 9 || cu == 10 || cu == 13 {
                i = i + 1;
            } else {
                found_start = true;
            }
        }
        if !found_start {
            proof {
                lemma_skip_ws_idx(s@, n as int);
                assert(s@.skip(n as int) =~= Seq::<char>::empty());
            }
            return summary.clone();
        }
        proof {
            lemma_skip_ws_idx(s@, i as int);
        }
        let ghost rest = s@.skip(i as int);
        let mut j: usize = i;
        let mut found_end = false;
        while !found_end && j < n
            invariant
                n == s@.len(),
                i <= j <= n,
                forall|k: int| i <= k < j ==> !is_ws(#[trigger] s@[k]),
                found_end ==> j < n && is_ws(s@[j as int]),
            decreases n - j, (if found_end {
                0int
            } else {
                1int
            }),
        {
            let c = s.get_char(j);
            let cu = c as u32;
            if cu == 32 || cu == 9 || cu == 10 || cu == 13 {
                found_end = true;
            } else {
                j = j + 1;
            }
        }
        proof {
            assert forall|k: int| 0 <= k < j - i implies !is_ws(#[trigger] rest[k]) by {
                assert(rest[k] == s@[i + k]);
            }
            if j < n {
                assert(rest[j - i] == s@[j as int]);
            }
            lemma_take_until_ws_idx(rest, j - i);
            assert(rest.take(j - i) =~= s@.subrange(i as int, j as int));
            assert(first_token(s@) == s@.subrange(i as int, j as int));
        }
        let ghost tok = s@.subrange(i as int, j as int);
        let mut k: usize = i;
        let mut upper = false;
        while !upper && k < j
            invariant
                n == s@.len(),
                j <= n,
                i <= k <= j,
                tok == s@.subrange(i as int, j as int),
                forall|m: int| 0 <= m < k - i ==> !is_upper(#[trigger] tok[m]),
                upper ==> has_upper(tok),
            decreases j - k, (if upper {
                0int
            } else {
                1int
            }),
        {
            let c = s.get_char(k);
            let cu = c as u32;
            if 65 <= cu && cu <= 90 {
                upper = true;
                proof {
                    assert(tok[k - i] == s@[k as int]);
                    assert(is_upper(tok[k - i]));
                }
            } else {
                proof {
                    assert(tok[k - i] == s@[k as int]);
                }
                k = k + 1;
            }
        }
        if upper {
            let t = s.substring_char(i, j);
            return String::from_str(t);
        } else {
            proof {
                assert(!has_upper(tok));
            }
            return summary.clone();
        }
    }
    let mut t = endpoint.method.clone();
    t.append(" ");
    t.append(endpoint.path.as_str());
    proof {
        assert(t@ =~= endpoint@.method + " "@ + endpoint@.path);
    }
    t
}

// ------------------------------------------------------------------
// Filtering
// ------------------------------------------------------------------
/// The filter applied to every endpoint before grouping: deprecated
/// endpoints are dropped when configured, the method must be in the method
/// filter, and the path must contain the path filter as a substring.
pub open spec fn passes_base(e: EndpointV, c: DocConfigV) -> bool {
    &&& !(c.exclude_deprecated && e.deprecated)
    &&& match c.method_filter {
        Some(ms) => ms.contains(e.method),
        None => true,
    }
    &&& match c.path_filter {
        Some(p) => contains_sub(e.path, p),
        None => true,
    }
}

/// Under Method grouping the service filter additionally tests the
/// endpoint's own service membership (an asymmetry kept on purpose: under
/// Service grouping the same filter narrows the listed services instead).
pub open spec fn passes_method_mode(e: EndpointV, c: DocConfigV) -> bool {
    &&& passes_base(e, c)
    &&& match c.service_filter {
        Some(ss) => exists|k: int| 0 <= k < e.services.len() && ss.contains(#[trigger] e.services[k]),
        None => true,
    }
}

pub open spec fn svc_pred_fn(c: DocConfigV, name: Seq<char>) -> spec_fn(EndpointV) -> bool {
    |e: EndpointV| passes_base(e, c) && e.services.contains(name)
}

pub open spec fn method_pred_fn(c: DocConfigV, m: Seq<char>) -> spec_fn(EndpointV) -> bool {
    |e: EndpointV| passes_method_mode(e, c) && e.method == m
}

pub open spec fn listed_pred_fn(c: DocConfigV) -> spec_fn(Service) -> bool {
    |s: Service|
        match c.service_filter {
            Some(ss) => ss.contains(s.name@),
            None => true,
        }
}

/// The indices of the endpoints that pass the base filter and belong to the
/// named service, in encounter order.
pub open spec fn eps_for_service(eps: Seq<EndpointV>, c: DocConfigV, name: Seq<char>) -> Seq<
    usize,
> {
    filter_idxs(eps, svc_pred_fn(c, name), eps.len() as int)
}

/// The indices of the endpoints that pass the Method-grouping filter and
/// carry the given method, in encounter order.
pub open spec fn eps_for_method(eps: Seq<EndpointV>, c: DocConfigV, m: Seq<char>) -> Seq<usize> {
    filter_idxs(eps, method_pred_fn(c, m), eps.len() as int)
}

/// The indices of the services that pass the service filter, in order.
pub open spec fn listed_services(svcs: Seq<Service>, c: DocConfigV) -> Seq<usize> {
    filter_idxs(svcs, listed_pred_fn(c), svcs.len() as int)
}

fn passes_base_exec(e: &Endpoint, c: &DocConfig) -> (r: bool)
    ensures
        r == passes_base(e@, c@),
{
    if c.exclude_deprecated && e.deprecated {
        return false;
    }
    let ok_method = match &c.method_filter {
        Some(ms) => string_vec_contains(ms, e.method.as_str()),
        None => true,
    };
    if !ok_method {
        return false;
    }
    match &c.path_filter {
        Some(p) => contains_substring(e.path.as_str(), p.as_str()),
        None => true,
    }
}

fn any_service_in(services: &Vec<String>, filter: &Vec<String>) -> (r: bool)
    ensures
        r == exists|k: int|
            0 <= k < string_views(services@).len() && string_views(filter@).contains(
                #[trigger] string_views(services@)[k],
            ),
{
    let mut k: usize = 0;
    while k < services.len()
        invariant
            k <= services@.len(),
            forall|j: int|
                0 <= j < k ==> !string_views(filter@).contains(
                    #[trigger] string_views(services@)[j],
                ),
        decreases services@.len() - k,
    {
        proof {
            assert(string_views(services@)[k as int] == services@[k as int]@);
        }
        if string_vec_contains(filter, services[k].as_str()) {
            return true;
        }
        k = k + 1;
    }
    false
}

fn passes_method_exec(e: &Endpoint, c: &DocConfig) -> (r: bool)
    ensures
        r == passes_method_mode(e@, c@),
{
    if !passes_base_exec(e, c) {
        return false;
    }
    match &c.service_filter {
        Some(ss) => {
            let r = any_service_in(&e.services, ss);
            proof {
                assert(e@.services == string_views(e.services@));
                assert(c@.service_filter == Some(string_views(ss@)));
            }
            r
        },
        None => true,
    }
}

/// Collects, in encounter order, the endpoints that pass the base filter and
/// belong to the named service.
fn collect_for_service(doc: &ApiDocumentation, c: &DocConfig, name: &str) -> (r: Vec<usize>)
    ensures
        r@ == eps_for_service(doc@.endpoints, c@, name@),
        forall|i: int| 0 <= i < r@.len() ==> (#[trigger] r@[i]) < doc.endpoints@.len(),
{
    let ghost eps = doc@.endpoints;
    let ghost p = svc_pred_fn(c@, name@);
    let mut out: Vec<usize> = Vec::new();
    let mut i: usize = 0;
    while i < doc.endpoints.len()
        invariant
            i <= doc.endpoints@.len(),
            eps == doc@.endpoints,
            p == svc_pred_fn(c@, name@),
            eps.len() == doc.endpoints@.len(),
            out@ == filter_idxs(eps, p, i as int),
            forall|k: int| 0 <= k < out@.len() ==> (#[trigger] out@[k]) < i,
        decreases doc.endpoints@.len() - i,
    {
        let ghost pre = out@;
        let e = &doc.endpoints[i];
        proof {
            assert(eps[i as int] == doc.endpoints@[i as int]@);
        }
        let keep_base = passes_base_exec(e, c);
        let keep = keep_base && string_vec_contains(&e.services, name);
        if keep {
            out.push(i);
            proof {
                assert(out@ =~= pre + seq![i]);
            }
        } else {
            proof {
                assert(pre + Seq::<usize>::empty() =~= pre);
            }
        }
        i = i + 1;
    }
    out
}

/// Collects, in encounter order, the endpoints that pass the Method-grouping
/// filter and carry the given method.
fn collect_for_method(doc: &ApiDocumentation, c: &DocConfig, m: &str) -> (r: Vec<usize>)
    ensures
        r@ == eps_for_method(doc@.endpoints, c@, m@),
        forall|i: int| 0 <= i < r@.len() ==> (#[trigger] r@[i]) < doc.endpoints@.len(),
{
    let ghost eps = doc@.endpoints;
    let ghost p = method_pred_fn(c@, m@);
    let mut out: Vec<usize> = Vec::new();
    let mut i: usize = 0;
    while i < doc.endpoints.len()
        invariant
            i <= doc.endpoints@.len(),
            eps == doc@.endpoints,
            p == method_pred_fn(c@, m@),
            eps.len() == doc.endpoints@.len(),
            out@ == filter_idxs(eps, p, i as int),
            forall|k: int| 0 <= k < out@.len() ==> (#[trigger] out@[k]) < i,
        decreases doc.endpoints@.len() - i,
    {
        let ghost pre = out@;
        let e = &doc.endpoints[i];
        proof {
            assert(eps[i as int] == doc.endpoints@[i as int]@);
        }
        let keep_mode = passes_method_exec(e, c);
        let keep = keep_mode && str_eq_str(e.method.as_str(), m);
        if keep {
            out.push(i);
            proof {
                assert(out@ =~= pre + seq![i]);
            }
        } else {
            proof {
                assert(pre + Seq::<usize>::empty() =~= pre);
            }
        }
        i = i + 1;
    }
    out
}

/// Collects, in declaration order, the services that pass the service
/// filter.
fn collect_listed_services(doc: &ApiDocumentation, c: &DocConfig) -> (r: Vec<usize>)
    ensures
        r@ == listed_services(doc@.services, c@),
        forall|i: int| 0 <= i < r@.len() ==> (#[trigger] r@[i]) < doc.services@.len(),
{
    let ghost svcs = doc@.services;
    let ghost p = listed_pred_fn(c@);
    let mut out: Vec<usize> = Vec::new();
    let mut i: usize = 0;
    while i < doc.services.len()
        invariant
            i <= doc.services@.len(),
            svcs == doc@.services,
            p == listed_pred_fn(c@),
            svcs.len() == doc.services@.len(),
            out@ == filter_idxs(svcs, p, i as int),
            forall|k: int| 0 <= k < out@.len() ==> (#[trigger] out@[k]) < i,
        decreases doc.services@.len() - i,
    {
        let ghost pre = out@;
        proof {
            assert(svcs[i as int] == doc.services@[i as int]);
        }
        let keep = match &c.service_filter {
            Some(ss) => string_vec_contains(ss, doc.services[i].name.as_str()),
            None => true,
        };
        if keep {
            out.push(i);
            proof {
                assert(out@ =~= pre + seq![i]);
            }
        } else {
            proof {
                assert(pre + Seq::<usize>::empty() =~= pre);
            }
        }
        i = i + 1;
    }
    out
}

// ------------------------------------------------------------------
// Sorting
// ------------------------------------------------------------------
/// The key a comparator reads from an endpoint.
#[derive(Debug, Clone, Copy, PartialEq, Eq, Structural)]
pub enum SortKey {
    ByOpId,
    BySummary,
    ByPath,
    ByPathLen,
}

/// Whether endpoint `a` sorts at or before endpoint `b` under the key.
/// String keys fall back to the empty string when the field is absent.
pub open spec fn key_le(eps: Seq<EndpointV>, k: SortKey, a: usize, b: usize) -> bool {
    match k {
        SortKey::ByOpId => lex_le(
            opt_or_empty(eps[a as int].operation_id),
            opt_or_empty(eps[b as int].operation_id),
        ),
        SortKey::BySummary => lex_le(
            opt_or_empty(eps[a as int].summary),
            opt_or_empty(eps[b as int].summary),
        ),
        SortKey::ByPath => lex_le(eps[a as int].path, eps[b as int].path),
        SortKey::ByPathLen => eps[a as int].path.len() <= eps[b as int].path.len(),
    }
}

pub open spec fn key_leq_fn(eps: Seq<EndpointV>, k: SortKey) -> spec_fn(usize, usize) -> bool {
    |a: usize, b: usize| key_le(eps, k, a, b)
}

/// The configured ordering of a section's endpoints: a stable sort under the
/// configured comparator; `Unsorted` keeps encounter order.
pub open spec fn sorted_idxs(
    eps: Seq<EndpointV>,
    idxs: Seq<usize>,
    sm: SortMethod,
    alpha: SortKey,
) -> Seq<usize> {
    match sm {
        SortMethod::Alphabetical => sort_by_leq(idxs, key_leq_fn(eps, alpha)),
        SortMethod::PathLength => sort_by_leq(idxs, key_leq_fn(eps, SortKey::ByPathLen)),
        SortMethod::Unsorted => idxs,
    }
}

fn key_le_exec(doc: &ApiDocumentation, k: SortKey, a: usize, b: usize) -> (r: bool)
    requires
        a < doc.endpoints@.len(),
        b < doc.endpoints@.len(),
    ensures
        r == key_le(doc@.endpoints, k, a, b),
{
    proof {
        assert(doc@.endpoints[a as int] == doc.endpoints@[a as int]@);
        assert(doc@.endpoints[b as int] == doc.endpoints@[b as int]@);
    }
    match k {
        SortKey::ByOpId => str_le(
            opt_str(&doc.endpoints[a].operation_id),
            opt_str(&doc.endpoints[b].operation_id),
        ),
        SortKey::BySummary => str_le(
            opt_str(&doc.endpoints[a].summary),
            opt_str(&doc.endpoints[b].summary),
        ),
        SortKey::ByPath => str_le(doc.endpoints[a].path.as_str(), doc.endpoints[b].path.as_str()),
        SortKey::ByPathLen => {
            let la = doc.endpoints[a].path.as_str().unicode_len();
            let lb = doc.endpoints[b].path.as_str().unicode_len();
            la <= lb
        },
    }
}

fn insert_by_key(doc: &ApiDocumentation, arr: &mut Vec<usize>, x: usize, k: SortKey)
    requires
        forall|i: int| 0 <= i < old(arr)@.len() ==> (#[trigger] old(arr)@[i])
            < doc.endpoints@.len(),
        x < doc.endpoints@.len(),
    ensures
        final(arr)@ == insert_sorted(old(arr)@, x, key_leq_fn(doc@.endpoints, k)),
        forall|i: int| 0 <= i < final(arr)@.len() ==> (#[trigger] final(arr)@[i])
            < doc.endpoints@.len(),
{
    let ghost eps = doc@.endpoints;
    let ghost leq = key_leq_fn(eps, k);
    let mut pos: usize = 0;
    let mut scan = true;
    while scan
        invariant
            forall|i: int| 0 <= i < arr@.len() ==> (#[trigger] arr@[i]) < doc.endpoints@.len(),
            x < doc.endpoints@.len(),
            arr@ == old(arr)@,
            eps == doc@.endpoints,
            leq == key_leq_fn(eps, k),
            pos <= arr@.len(),
            forall|j: int| 0 <= j < pos ==> key_le(eps, k, #[trigger] arr@[j], x),
            !scan ==> (pos == arr@.len() || !key_le(eps, k, arr@[pos as int], x)),
        decreases arr@.len() - pos, (if scan {
            1int
        } else {
            0int
        }),
    {
        if pos >= arr.len() {
            scan = false;
        } else if !key_le_exec(doc, k, arr[pos], x) {
            scan = false;
        } else {
            pos = pos + 1;
        }
    }
    proof {
        assert forall|j: int| 0 <= j < pos implies leq(#[trigger] arr@[j], x) by {
            assert(key_le(eps, k, arr@[j], x));
        }
        if pos < arr@.len() {
            assert(!leq(arr@[pos as int], x));
        }
        lemma_insert_sorted_at(arr@, x, leq, pos as int);
    }
    arr.insert(pos, x);
    proof {
        assert forall|i: int| 0 <= i < arr@.len() implies (#[trigger] arr@[i])
            < doc.endpoints@.len() by {
            assert(arr@ == old(arr)@.insert(pos as int, x));
            if i < pos {
                assert(arr@[i] == old(arr)@[i]);
            } else if i == pos {
                assert(arr@[i] == x);
            } else {
                assert(arr@[i] == old(arr)@[i - 1]);
            }
        }
    }
}

/// Sorts a section's endpoint indices as the configuration asks: a stable
/// sort by the given alphabetical key or by path length, or no reordering.
fn sort_endpoint_idxs(doc: &ApiDocumentation, idxs: &Vec<usize>, sm: SortMethod, alpha: SortKey)
    -> (r: Vec<usize>)
    requires
        forall|i: int| 0 <= i < idxs@.len() ==> (#[trigger] idxs@[i]) < doc.endpoints@.len(),
    ensures
        r@ == sorted_idxs(doc@.endpoints, idxs@, sm, alpha),
        forall|i: int| 0 <= i < r@.len() ==> (#[trigger] r@[i]) < doc.endpoints@.len(),
{
    let ghost eps = doc@.endpoints;
    if let SortMethod::Unsorted = sm {
        let mut out: Vec<usize> = Vec::new();
        let mut i: usize = 0;
        while i < idxs.len()
            invariant
                i <= idxs@.len(),
                out@ == idxs@.take(i as int),
            decreases idxs@.len() - i,
        {
            out.push(idxs[i]);
            proof {
                assert(idxs@.take(i + 1) =~= idxs@.take(i as int).push(idxs@[i as int]));
            }
            i = i + 1;
        }
        proof {
            assert(idxs@.take(idxs@.len() as int) =~= idxs@);
        }
        return out;
    }
    let key: SortKey = if let SortMethod::Alphabetical = sm {
        alpha
    } else {
        SortKey::ByPathLen
    };
    let ghost leq = key_leq_fn(eps, key);
    let mut out: Vec<usize> = Vec::new();
    let mut i: usize = 0;
    while i < idxs.len()
        invariant
            i <= idxs@.len(),
            eps == doc@.endpoints,
            leq == key_leq_fn(eps, key),
            forall|j: int| 0 <= j < idxs@.len() ==> (#[trigger] idxs@[j]) < doc.endpoints@.len(),
            out@ == sort_by_leq(idxs@.take(i as int), leq),
            forall|j: int| 0 <= j < out@.len() ==> (#[trigger] out@[j]) < doc.endpoints@.len(),
        decreases idxs@.len() - i,
    {
        insert_by_key(doc, &mut out, idxs[i], key);
        proof {
            assert(idxs@.take(i + 1).drop_last() =~= idxs@.take(i as int));
            assert(idxs@.take(i + 1).last() == idxs@[i as int]);
            assert(sort_by_leq(idxs@.take(i + 1), leq) == insert_sorted(
                sort_by_leq(idxs@.take(i as int), leq),
                idxs@[i as int],
                leq,
            ));
        }
        i = i + 1;
    }
    proof {
        assert(idxs@.take(idxs@.len() as int) =~= idxs@);
        assert(sorted_idxs(eps, idxs@, sm, alpha) == sort_by_leq(idxs@, leq));
    }
    out
}


// ------------------------------------------------------------------
// Markdown text
// ------------------------------------------------------------------
/// The document header: title, optional description, version line.
pub open spec fn header_spec(d: ApiDocumentationV) -> Seq<char> {
    "# "@ + d.title + "\n"@ + (match d.description {
        Some(desc) => "\n"@ + desc + "\n\n"@,
        None => Seq::<char>::empty(),
    }) + "API Version: "@ + d.version + "\n\n"@
}

/// One parameter's table row; empty when the parameter is explicitly not
/// required and only required parameters are asked for. A parameter with no
/// required value is kept, though its row displays "No".
pub open spec fn param_row_fn(c: DocConfigV) -> spec_fn(Parameter) -> Seq<char> {
    |p: Parameter|
        if p.required == Some(false) && c.required_only {
            Seq::<char>::empty()
        } else {
            "| `"@ + p.name@ + "` | "@ + p.parameter_in@ + " | "@ + (if p.required == Some(true) {
                "Yes"@
            } else {
                "No"@
            }) + " | "@ + (match p.description {
                Some(d) => d@,
                None => "-"@,
            }) + " |\n"@
        }
}

/// One response's table row, "-" for a missing description.
pub open spec fn resp_row_fn() -> spec_fn(ResponseEntry) -> Seq<char> {
    |re: ResponseEntry|
        "| "@ + re.code@ + " | "@ + (match re.response.description {
            Some(d) => d@,
            None => "-"@,
        }) + " |\n"@
}

/// The parameter table of one endpoint, absent when it has no parameters.
pub open spec fn param_table_md(e: EndpointV, c: DocConfigV) -> Seq<char> {
    if e.parameters.len() > 0 {
        "\n#### Parameters\n"@ + "| Name | In | Required | Description |\n"@
            + "|------|----|---------:|-------------|\n"@ + concat_map(
            e.parameters,
            param_row_fn(c),
        )
    } else {
        Seq::<char>::empty()
    }
}

/// The response table of one endpoint, listing every declared response.
pub open spec fn resp_table_md(e: EndpointV) -> Seq<char> {
    "\n#### Responses\n"@ + "| Code | Description |\n"@ + "|------|-------------|\n"@
        + concat_map(e.responses, resp_row_fn())
}

/// The detailed part of an endpoint section: parameter and response tables,
/// and placeholder markers at Full detail when asked for.
pub open spec fn endpoint_details_md(e: EndpointV, c: DocConfigV) -> Seq<char> {
    param_table_md(e, c) + resp_table_md(e) + (if c.include_schemas && c.detail_level
        == DetailLevel::Full {
        "\n<!-- Schemas would be included here -->\n"@
    } else {
        Seq::<char>::empty()
    }) + (if c.include_examples && c.detail_level == DetailLevel::Full {
        "\n<!-- Examples would be included here -->\n"@
    } else {
        Seq::<char>::empty()
    })
}

/// The head of an endpoint section: heading, operation line, description
/// line, deprecation banner, operation-id span, in that fixed order.
pub open spec fn endpoint_head_md(e: EndpointV, include_heading: bool) -> Seq<char> {
    (if include_heading {
        "### "@ + short_title_spec(e) + "\n"@
    } else {
        "**"@ + short_title_spec(e) + "**\n"@
    }) + "**Operation:** "@ + e.method + " "@ + e.path + "\n"@ + (match e.description {
        Some(d) => "**Description:** "@ + d + "\n"@,
        None => match e.summary {
            Some(s2) => "**Description:** "@ + s2 + "\n"@,
            None => Seq::<char>::empty(),
        },
    }) + (if e.deprecated {
        "\n> **Deprecated**: This endpoint is deprecated.\n"@
    } else {
        Seq::<char>::empty()
    }) + (match e.operation_id {
        Some(id) => "**Operation ID:** `"@ + id + "`\n"@,
        None => Seq::<char>::empty(),
    })
}

/// The full body of one endpoint: the head, the detailed part at any detail
/// level above Basic, and a closing blank line.
pub open spec fn endpoint_md(e: EndpointV, c: DocConfigV, include_heading: bool) -> Seq<char> {
    endpoint_head_md(e, include_heading) + (if c.detail_level != DetailLevel::Basic {
        endpoint_details_md(e, c)
    } else {
        Seq::<char>::empty()
    }) + "\n"@
}

pub open spec fn ep_render_fn(d: ApiDocumentationV, c: DocConfigV) -> spec_fn(usize) -> Seq<
    char,
> {
    |i: usize| endpoint_md(d.endpoints[i as int], c, true)
}

fn gen_header(doc: &ApiDocumentation) -> (r: String)
    ensures
        r@ == header_spec(doc@),
{
    let mut out = String::new();
    out.append("# ");
    out.append(doc.title.as_str());
    out.append("\n");
    if let Some(d) = &doc.description {
        out.append("\n");
        out.append(d.as_str());
        out.append("\n\n");
    }
    out.append("API Version: ");
    out.append(doc.version.as_str());
    out.append("\n\n");
    proof {
        assert(out@ =~= header_spec(doc@));
    }
    out
}

fn param_row(p: &Parameter, c: &DocConfig) -> (r: String)
    ensures
        r@ == param_row_fn(c@)(*p),
{
    let mut out = String::new();
    let skip = match p.required {
        Some(req) => !req && c.required_only,
        None => false,
    };
    if !skip {
        out.append("| `");
        out.append(p.name.as_str());
        out.append("` | ");
        out.append(p.parameter_in.as_str());
        out.append(" | ");
        match p.required {
            Some(true) => out.append("Yes"),
            _ => out.append("No"),
        }
        out.append(" | ");
        match &p.description {
            Some(d) => out.append(d.as_str()),
            None => out.append("-"),
        }
        out.append(" |\n");
        proof {
            assert(out@ =~= param_row_fn(c@)(*p));
        }
    } else {
        proof {
            assert(out@ =~= param_row_fn(c@)(*p));
        }
    }
    out
}

fn resp_row(re: &ResponseEntry) -> (r: String)
    ensures
        r@ == resp_row_fn()(*re),
{
    let mut out = String::new();
    out.append("| ");
    out.append(re.code.as_str());
    out.append(" | ");
    match &re.response.description {
        Some(d) => out.append(d.as_str()),
        None => out.append("-"),
    }
    out.append(" |\n");
    proof {
        assert(out@ =~= resp_row_fn()(*re));
    }
    out
}

fn param_table(endpoint: &Endpoint, config: &DocConfig) -> (r: String)
    ensures
        r@ == param_table_md(endpoint@, config@),
{
    let mut out = String::new();
    if endpoint.parameters.len() > 0 {
        out.append("\n#### Parameters\n");
        out.append("| Name | In | Required | Description |\n");
        out.append("|------|----|---------:|-------------|\n");
        let ghost base = out@;
        let ghost rows = param_row_fn(config@);
        let mut i: usize = 0;
        while i < endpoint.parameters.len()
            invariant
                i <= endpoint.parameters@.len(),
                rows == param_row_fn(config@),
                out@ == base + concat_map(endpoint.parameters@.take(i as int), rows),
            decreases endpoint.parameters@.len() - i,
        {
            let row = param_row(&endpoint.parameters[i], config);
            out.append(row.as_str());
            proof {
                lemma_concat_map_take_succ(endpoint.parameters@, rows, i as int);
                assert(out@ =~= base + concat_map(endpoint.parameters@.take(i + 1), rows));
            }
            i = i + 1;
        }
        proof {
            assert(endpoint.parameters@.take(endpoint.parameters@.len() as int)
                =~= endpoint.parameters@);
            assert(out@ =~= param_table_md(endpoint@, config@));
        }
    } else {
        proof {
            assert(out@ =~= param_table_md(endpoint@, config@));
        }
    }
    out
}

fn resp_table(endpoint: &Endpoint) -> (r: String)
    ensures
        r@ == resp_table_md(endpoint@),
{
    let mut out = String::new();
    out.append("\n#### Responses\n");
    out.append("| Code | Description |\n");
    out.append("|------|-------------|\n");
    let ghost base = out@;
    let ghost rows = resp_row_fn();
    let mut i: usize = 0;
    while i < endpoint.responses.len()
        invariant
            i <= endpoint.responses@.len(),
            rows == resp_row_fn(),
            out@ == base + concat_map(endpoint.responses@.take(i as int), rows),
        decreases endpoint.responses@.len() - i,
    {
        let row = resp_row(&endpoint.responses[i]);
        out.append(row.as_str());
        proof {
            lemma_concat_map_take_succ(endpoint.responses@, rows, i as int);
            assert(out@ =~= base + concat_map(endpoint.responses@.take(i + 1), rows));
        }
        i = i + 1;
    }
    proof {
        assert(endpoint.responses@.take(endpoint.responses@.len() as int) =~= endpoint.responses@);
        assert(out@ =~= resp_table_md(endpoint@));
    }
    out
}

fn endpoint_head(endpoint: &Endpoint, heading: bool) -> (r: String)
    ensures
        r@ == endpoint_head_md(endpoint@, heading),
{
    let title = get_short_title(endpoint);
    let mut out = String::new();
    if heading {
        out.append("### ");
        out.append(title.as_str());
        out.append("\n");
    } else {
        out.append("**");
        out.append(title.as_str());
        out.append("**\n");
    }
    proof {
        assert(out@ =~= (if heading {
            "### "@ + short_title_spec(endpoint@) + "\n"@
        } else {
            "**"@ + short_title_spec(endpoint@) + "**\n"@
        }));
    }
    let ghost g1 = out@;
    out.append("**Operation:** ");
    out.append(endpoint.method.as_str());
    out.append(" ");
    out.append(endpoint.path.as_str());
    out.append("\n");
    proof {
        assert(out@ =~= g1 + ("**Operation:** "@ + endpoint@.method + " "@ + endpoint@.path
            + "\n"@));
    }
    let ghost g2 = out@;
    if let Some(d) = &endpoint.description {
        out.append("**Description:** ");
        out.append(d.as_str());
        out.append("\n");
        proof {
            assert(out@ =~= g2 + ("**Description:** "@ + d@ + "\n"@));
        }
    } else if let Some(su) = &endpoint.summary {
        out.append("**Description:** ");
        out.append(su.as_str());
        out.append("\n");
        proof {
            assert(out@ =~= g2 + ("**Description:** "@ + su@ + "\n"@));
        }
    }
    let ghost g3 = out@;
    if endpoint.deprecated {
        out.append("\n> **Deprecated**: This endpoint is deprecated.\n");
    }
    let ghost g4 = out@;
    if let Some(id) = &endpoint.operation_id {
        out.append("**Operation ID:** `");
        out.append(id.as_str());
        out.append("`\n");
        proof {
            assert(out@ =~= g4 + ("**Operation ID:** `"@ + id@ + "`\n"@));
        }
    }
    proof {
        assert(out@ =~= endpoint_head_md(endpoint@, heading));
    }
    out
}

/// Renders one endpoint's section: heading or bold title, operation line,
/// description, deprecation banner, operation id, and, above Basic detail,
/// the parameter and response tables and Full-detail placeholders.
pub fn write_endpoint(endpoint: &Endpoint, config: &DocConfig, heading: bool) -> (r: String)
    ensures
        r@ == endpoint_md(endpoint@, config@, heading),
{
    let mut out = endpoint_head(endpoint, heading);
    let ghost head = endpoint_head_md(endpoint@, heading);
    if config.detail_level != DetailLevel::Basic {
        let pt = param_table(endpoint, config);
        out.append(pt.as_str());
        let rt = resp_table(endpoint);
        out.append(rt.as_str());
        if config.include_schemas && config.detail_level == DetailLevel::Full {
            out.append("\n<!-- Schemas would be included here -->\n");
        }
        if config.include_examples && config.detail_level == DetailLevel::Full {
            out.append("\n<!-- Examples would be included here -->\n");
        }
        proof {
            assert(out@ =~= head + endpoint_details_md(endpoint@, config@));
        }
    }
    out.append("\n");
    proof {
        assert(out@ =~= endpoint_md(endpoint@, config@, heading));
    }
    out
}


// ------------------------------------------------------------------
// Grouped sections, table of contents, top-level generation
// ------------------------------------------------------------------
/// One service's table-of-contents block: a link to the service anchor, then
/// one link per passing endpoint, sorted by summary under Alphabetical.
pub open spec fn svc_toc_md(d: ApiDocumentationV, c: DocConfigV, si: usize) -> Seq<char> {
    "- ["@ + d.services[si as int].name@ + "](#"@ + anchor_spec(d.services[si as int].name@)
        + ")\n"@ + ({
        let idxs = eps_for_service(d.endpoints, c, d.services[si as int].name@);
        if idxs.len() == 0 {
            Seq::<char>::empty()
        } else {
            concat_map(
                sorted_idxs(d.endpoints, idxs, c.sort_method, SortKey::BySummary),
                toc_entry_fn(d),
            )
        }
    })
}

pub open spec fn toc_entry_fn(d: ApiDocumentationV) -> spec_fn(usize) -> Seq<char> {
    |i: usize|
        "  * ["@ + short_title_spec(d.endpoints[i as int]) + "](#"@ + anchor_spec(
            short_title_spec(d.endpoints[i as int]),
        ) + ")\n"@
}

pub open spec fn svc_toc_fn(d: ApiDocumentationV, c: DocConfigV) -> spec_fn(usize) -> Seq<char> {
    |si: usize| svc_toc_md(d, c, si)
}

/// One service's body section: heading, optional description, then the
/// passing endpoints sorted by path under Alphabetical, or a no-endpoints
/// line when none pass.
pub open spec fn svc_section_md(d: ApiDocumentationV, c: DocConfigV, si: usize) -> Seq<char> {
    "## "@ + d.services[si as int].name@ + "\n"@ + (match d.services[si as int].description {
        Some(ds) => "\n"@ + ds@ + "\n"@,
        None => Seq::<char>::empty(),
    }) + ({
        let idxs = eps_for_service(d.endpoints, c, d.services[si as int].name@);
        if idxs.len() == 0 {
            "\nNo endpoints found for this service.\n\n"@
        } else {
            concat_map(
                sorted_idxs(d.endpoints, idxs, c.sort_method, SortKey::ByPath),
                ep_render_fn(d, c),
            )
        }
    })
}

pub open spec fn svc_section_fn(d: ApiDocumentationV, c: DocConfigV) -> spec_fn(usize) -> Seq<
    char,
> {
    |si: usize| svc_section_md(d, c, si)
}

/// The whole Service-grouped document: header, optional table of contents
/// over the listed services, then one section per listed service.
pub open spec fn by_service_md(d: ApiDocumentationV, c: DocConfigV) -> Seq<char> {
    header_spec(d) + (if c.include_toc {
        "## Services\n\n"@ + concat_map(listed_services(d.services, c), svc_toc_fn(d, c))
            + "\n"@
    } else {
        Seq::<char>::empty()
    }) + concat_map(listed_services(d.services, c), svc_section_fn(d, c))
}

/// The fixed order in which method sections are emitted.
pub open spec fn render_method_order() -> Seq<Seq<char>> {
    seq!["GET"@, "POST"@, "PUT"@, "DELETE"@, "PATCH"@, "OPTIONS"@, "HEAD"@, "TRACE"@]
}

pub open spec fn method_toc_fn(d: ApiDocumentationV, c: DocConfigV) -> spec_fn(Seq<char>) -> Seq<
    char,
> {
    |m: Seq<char>|
        if eps_for_method(d.endpoints, c, m).len() > 0 {
            "- ["@ + m + "](#"@ + anchor_spec(m) + ")\n"@
        } else {
            Seq::<char>::empty()
        }
}

pub open spec fn method_section_fn(d: ApiDocumentationV, c: DocConfigV) -> spec_fn(
    Seq<char>,
) -> Seq<char> {
    |m: Seq<char>|
        ({
            let idxs = eps_for_method(d.endpoints, c, m);
            if idxs.len() > 0 {
                "## "@ + m + " {"@ + anchor_spec(m) + "}\n"@ + concat_map(
                    sorted_idxs(d.endpoints, idxs, c.sort_method, SortKey::ByPath),
                    ep_render_fn(d, c),
                )
            } else {
                Seq::<char>::empty()
            }
        })
}

/// The whole Method-grouped document: header, optional table of contents of
/// the non-empty methods, then one section per non-empty method, in the
/// fixed method order.
pub open spec fn by_method_md(d: ApiDocumentationV, c: DocConfigV) -> Seq<char> {
    header_spec(d) + (if c.include_toc {
        "## HTTP Methods\n\n"@ + concat_map(render_method_order(), method_toc_fn(d, c)) + "\n"@
    } else {
        Seq::<char>::empty()
    }) + concat_map(render_method_order(), method_section_fn(d, c))
}

/// The compact name of an endpoint in the Summary listing: the operation id
/// with a `"<service>_"` prefix stripped once, or `"<METHOD> <path>"`.
pub open spec fn summary_op_name(e: EndpointV, name: Seq<char>) -> Seq<char> {
    match e.operation_id {
        Some(id) => if has_prefix_spec(id, name + "_"@) {
            id.skip(name.len() as int + 1)
        } else {
            id
        },
        None => e.method + " "@ + e.path,
    }
}

pub open spec fn summary_entry_fn(d: ApiDocumentationV, name: Seq<char>) -> spec_fn(usize) -> Seq<
    char,
> {
    |i: usize| "  * "@ + summary_op_name(d.endpoints[i as int], name) + "\n"@
}

pub open spec fn summary_svc_fn(d: ApiDocumentationV, c: DocConfigV) -> spec_fn(usize) -> Seq<
    char,
> {
    |si: usize|
        "- "@ + d.services[si as int].name@ + "\n"@ + ({
            let idxs = eps_for_service(d.endpoints, c, d.services[si as int].name@);
            if idxs.len() == 0 {
                Seq::<char>::empty()
            } else {
                concat_map(
                    sorted_idxs(d.endpoints, idxs, c.sort_method, SortKey::ByOpId),
                    summary_entry_fn(d, d.services[si as int].name@),
                )
            }
        })
}

/// The Summary-detail document: header, then a compact list of the listed
/// services, each with its passing endpoints' short names, sorted by
/// operation id under Alphabetical.
pub open spec fn summary_md(d: ApiDocumentationV, c: DocConfigV) -> Seq<char> {
    header_spec(d) + "## Services\n"@ + concat_map(
        listed_services(d.services, c),
        summary_svc_fn(d, c),
    )
}

/// Placeholder output of the Path grouping extension point.
pub open spec fn by_path_md() -> Seq<char> {
    "# Path-based grouping not fully implemented yet\n"@
}

/// Placeholder output of the Tag grouping extension point.
pub open spec fn by_tag_md() -> Seq<char> {
    "# Tag-based grouping not fully implemented yet\n"@
}

/// Placeholder output of the Flat listing extension point.
pub open spec fn flat_md() -> Seq<char> {
    "# Flat listing not fully implemented yet\n"@
}

/// The whole document: the Summary listing at Summary detail, else the
/// configured grouping.
pub open spec fn generate_markdown_spec(d: ApiDocumentationV, c: DocConfigV) -> Seq<char> {
    if c.detail_level == DetailLevel::Summary {
        summary_md(d, c)
    } else {
        match c.group_by {
            GroupBy::Service => by_service_md(d, c),
            GroupBy::Method => by_method_md(d, c),
            GroupBy::Path => by_path_md(),
            GroupBy::Tag => by_tag_md(),
            GroupBy::Flat => flat_md(),
        }
    }
}

fn svc_toc(doc: &ApiDocumentation, config: &DocConfig, si: usize) -> (r: String)
    requires
        si < doc.services@.len(),
    ensures
        r@ == svc_toc_md(doc@, config@, si),
{
    let ghost dv = doc@;
    let ghost cv = config@;
    let svc = &doc.services[si];
    let mut out = String::new();
    out.append("- [");
    out.append(svc.name.as_str());
    out.append("](#");
    let a = to_anchor(svc.name.as_str());
    out.append(a.as_str());
    out.append(")\n");
    proof {
        assert(dv.services[si as int] == doc.services@[si as int]);
        assert(out@ =~= "- ["@ + dv.services[si as int].name@ + "](#"@ + anchor_spec(
            dv.services[si as int].name@,
        ) + ")\n"@);
    }
    let ghost base = out@;
    let idxs = collect_for_service(doc, config, svc.name.as_str());
    if idxs.len() > 0 {
        let sorted = sort_endpoint_idxs(doc, &idxs, config.sort_method, SortKey::BySummary);
        let ghost f = toc_entry_fn(dv);
        let mut k: usize = 0;
        while k < sorted.len()
            invariant
                k <= sorted@.len(),
                dv == doc@,
                f == toc_entry_fn(dv),
                forall|j: int|
                    0 <= j < sorted@.len() ==> (#[trigger] sorted@[j]) < doc.endpoints@.len(),
                out@ == base + concat_map(sorted@.take(k as int), f),
            decreases sorted@.len() - k,
        {
            let idx = sorted[k];
            let title = get_short_title(&doc.endpoints[idx]);
            out.append("  * [");
            out.append(title.as_str());
            out.append("](#");
            let ta = to_anchor(title.as_str());
            out.append(ta.as_str());
            out.append(")\n");
            proof {
                assert(dv.endpoints[idx as int] == doc.endpoints@[idx as int]@);
                lemma_concat_map_take_succ(sorted@, f, k as int);
                assert(out@ =~= base + concat_map(sorted@.take(k as int), f) + ("  * ["@
                    + short_title_spec(dv.endpoints[idx as int]) + "](#"@ + anchor_spec(
                    short_title_spec(dv.endpoints[idx as int]),
                ) + ")\n"@));
                assert(out@ =~= base + concat_map(sorted@.take(k + 1), f));
            }
            k = k + 1;
        }
        proof {
            assert(sorted@.take(sorted@.len() as int) =~= sorted@);
        }
    }
    proof {
        assert(out@ =~= svc_toc_md(dv, cv, si));
    }
    out
}

fn svc_section(doc: &ApiDocumentation, config: &DocConfig, si: usize) -> (r: String)
    requires
        si < doc.services@.len(),
    ensures
        r@ == svc_section_md(doc@, config@, si),
{
    let ghost dv = doc@;
    let ghost cv = config@;
    let svc = &doc.services[si];
    let mut out = String::new();
    out.append("## ");
    out.append(svc.name.as_str());
    out.append("\n");
    if let Some(d) = &svc.description {
        out.append("\n");
        out.append(d.as_str());
        out.append("\n");
    }
    proof {
        assert(dv.services[si as int] == doc.services@[si as int]);
        assert(out@ =~= "## "@ + dv.services[si as int].name@ + "\n"@ + (
        match dv.services[si as int].description {
            Some(ds) => "\n"@ + ds@ + "\n"@,
            None => Seq::<char>::empty(),
        }));
    }
    let ghost base = out@;
    let idxs = collect_for_service(doc, config, svc.name.as_str());
    if idxs.len() == 0 {
        out.append("\nNo endpoints found for this service.\n\n");
    } else {
        let sorted = sort_endpoint_idxs(doc, &idxs, config.sort_method, SortKey::ByPath);
        let ghost f = ep_render_fn(dv, cv);
        let mut k: usize = 0;
        while k < sorted.len()
            invariant
                k <= sorted@.len(),
                dv == doc@,
                cv == config@,
                f == ep_render_fn(dv, cv),
                forall|j: int|
                    0 <= j < sorted@.len() ==> (#[trigger] sorted@[j]) < doc.endpoints@.len(),
                out@ == base + concat_map(sorted@.take(k as int), f),
            decreases sorted@.len() - k,
        {
            let idx = sorted[k];
            let ep = write_endpoint(&doc.endpoints[idx], config, true);
            out.append(ep.as_str());
            proof {
                assert(dv.endpoints[idx as int] == doc.endpoints@[idx as int]@);
                lemma_concat_map_take_succ(sorted@, f, k as int);
                assert(out@ =~= base + concat_map(sorted@.take(k + 1), f));
            }
            k = k + 1;
        }
        proof {
            assert(sorted@.take(sorted@.len() as int) =~= sorted@);
        }
    }
    proof {
        assert(out@ =~= svc_section_md(dv, cv, si));
    }
    out
}

/// Renders the Service-grouped document: title block, a table of contents of
/// the listed services and their endpoints when enabled, then one section
/// per listed service.
pub fn generate_by_service(doc: &ApiDocumentation, config: &DocConfig) -> (r: String)
    ensures
        r@ == by_service_md(doc@, config@),
{
    let ghost dv = doc@;
    let ghost cv = config@;
    let mut out = gen_header(doc);
    let ghost g0 = out@;
    let listed = collect_listed_services(doc, config);
    if config.include_toc {
        out.append("## Services\n\n");
        let ghost base = out@;
        let ghost f = svc_toc_fn(dv, cv);
        let mut k: usize = 0;
        while k < listed.len()
            invariant
                k <= listed@.len(),
                dv == doc@,
                cv == config@,
                f == svc_toc_fn(dv, cv),
                forall|j: int|
                    0 <= j < listed@.len() ==> (#[trigger] listed@[j]) < doc.services@.len(),
                out@ == base + concat_map(listed@.take(k as int), f),
            decreases listed@.len() - k,
        {
            let piece = svc_toc(doc, config, listed[k]);
            out.append(piece.as_str());
            proof {
                lemma_concat_map_take_succ(listed@, f, k as int);
                assert(out@ =~= base + concat_map(listed@.take(k + 1), f));
            }
            k = k + 1;
        }
        out.append("\n");
        proof {
            assert(listed@.take(listed@.len() as int) =~= listed@);
        }
    }
    proof {
        assert(out@ =~= g0 + (if cv.include_toc {
            "## Services\n\n"@ + concat_map(listed_services(dv.services, cv), svc_toc_fn(dv, cv))
                + "\n"@
        } else {
            Seq::<char>::empty()
        }));
    }
    let ghost g1 = out@;
    let ghost f2 = svc_section_fn(dv, cv);
    let mut k: usize = 0;
    while k < listed.len()
        invariant
            k <= listed@.len(),
            dv == doc@,
            cv == config@,
            f2 == svc_section_fn(dv, cv),
            forall|j: int|
                0 <= j < listed@.len() ==> (#[trigger] listed@[j]) < doc.services@.len(),
            out@ == g1 + concat_map(listed@.take(k as int), f2),
        decreases listed@.len() - k,
    {
        let piece = svc_section(doc, config, listed[k]);
        out.append(piece.as_str());
        proof {
            lemma_concat_map_take_succ(listed@, f2, k as int);
            assert(out@ =~= g1 + concat_map(listed@.take(k + 1), f2));
        }
        k = k + 1;
    }
    proof {
        assert(listed@.take(listed@.len() as int) =~= listed@);
        assert(out@ =~= by_service_md(dv, cv));
    }
    out
}

fn method_lit(i: usize) -> (r: &'static str)
    requires
        i < 8,
    ensures
        r@ == render_method_order()[i as int],
{
    let m: &'static str = match i {
        0 => "GET",
        1 => "POST",
        2 => "PUT",
        3 => "DELETE",
        4 => "PATCH",
        5 => "OPTIONS",
        6 => "HEAD",
        _ => "TRACE",
    };
    proof {
        assert(render_method_order()[i as int] == m@);
    }
    m
}

fn method_toc_entry(doc: &ApiDocumentation, config: &DocConfig, m: &str) -> (r: String)
    ensures
        r@ == method_toc_fn(doc@, config@)(m@),
{
    let ghost dv = doc@;
    let ghost cv = config@;
    let idxs = collect_for_method(doc, config, m);
    let mut out = String::new();
    if idxs.len() > 0 {
        out.append("- [");
        out.append(m);
        out.append("](#");
        let a = to_anchor(m);
        out.append(a.as_str());
        out.append(")\n");
        proof {
            assert(out@ =~= "- ["@ + m@ + "](#"@ + anchor_spec(m@) + ")\n"@);
        }
    }
    proof {
        assert(out@ =~= method_toc_fn(dv, cv)(m@));
    }
    out
}

fn method_section(doc: &ApiDocumentation, config: &DocConfig, m: &str) -> (r: String)
    ensures
        r@ == method_section_fn(doc@, config@)(m@),
{
    let ghost dv = doc@;
    let ghost cv = config@;
    let idxs = collect_for_method(doc, config, m);
    let mut out = String::new();
    if idxs.len() > 0 {
        out.append("## ");
        out.append(m);
        out.append(" {");
        let a = to_anchor(m);
        out.append(a.as_str());
        out.append("}\n");
        proof {
            assert(out@ =~= "## "@ + m@ + " {"@ + anchor_spec(m@) + "}\n"@);
        }
        let ghost base = out@;
        let sorted = sort_endpoint_idxs(doc, &idxs, config.sort_method, SortKey::ByPath);
        let ghost f = ep_render_fn(dv, cv);
        let mut k: usize = 0;
        while k < sorted.len()
            invariant
                k <= sorted@.len(),
                dv == doc@,
                cv == config@,
                f == ep_render_fn(dv, cv),
                forall|j: int|
                    0 <= j < sorted@.len() ==> (#[trigger] sorted@[j]) < doc.endpoints@.len(),
                out@ == base + concat_map(sorted@.take(k as int), f),
            decreases sorted@.len() - k,
        {
            let idx = sorted[k];
            let ep = write_endpoint(&doc.endpoints[idx], config, true);
            out.append(ep.as_str());
            proof {
                assert(dv.endpoints[idx as int] == doc.endpoints@[idx as int]@);
                lemma_concat_map_take_succ(sorted@, f, k as int);
                assert(out@ =~= base + concat_map(sorted@.take(k + 1), f));
            }
            k = k + 1;
        }
        proof {
            assert(sorted@.take(sorted@.len() as int) =~= sorted@);
        }
    }
    proof {
        assert(out@ =~= method_section_fn(dv, cv)(m@));
    }
    out
}

/// Renders the Method-grouped document: title block, a table of contents of
/// the non-empty methods when enabled, then one section per non-empty
/// method, in the fixed method order.
pub fn generate_by_method(doc: &ApiDocumentation, config: &DocConfig) -> (r: String)
    ensures
        r@ == by_method_md(doc@, config@),
{
    let ghost dv = doc@;
    let ghost cv = config@;
    let mut out = gen_header(doc);
    let ghost g0 = out@;
    if config.include_toc {
        out.append("## HTTP Methods\n\n");
        let ghost base = out@;
        let ghost f = method_toc_fn(dv, cv);
        let mut k: usize = 0;
        while k < 8
            invariant
                k <= 8,
                dv == doc@,
                cv == config@,
                f == method_toc_fn(dv, cv),
                out@ == base + concat_map(render_method_order().take(k as int), f),
            decreases 8 - k,
        {
            let m = method_lit(k);
            let piece = method_toc_entry(doc, config, m);
            out.append(piece.as_str());
            proof {
                lemma_concat_map_take_succ(render_method_order(), f, k as int);
                assert(out@ =~= base + concat_map(render_method_order().take(k + 1), f));
            }
            k = k + 1;
        }
        out.append("\n");
        proof {
            assert(render_method_order().take(8) =~= render_method_order());
        }
    }
    proof {
        assert(out@ =~= g0 + (if cv.include_toc {
            "## HTTP Methods\n\n"@ + concat_map(render_method_order(), method_toc_fn(dv, cv))
                + "\n"@
        } else {
            Seq::<char>::empty()
        }));
    }
    let ghost g1 = out@;
    let ghost f2 = method_section_fn(dv, cv);
    let mut k: usize = 0;
    while k < 8
        invariant
            k <= 8,
            dv == doc@,
            cv == config@,
            f2 == method_section_fn(dv, cv),
            out@ == g1 + concat_map(render_method_order().take(k as int), f2),
        decreases 8 - k,
    {
        let m = method_lit(k);
        let piece = method_section(doc, config, m);
        out.append(piece.as_str());
        proof {
            lemma_concat_map_take_succ(render_method_order(), f2, k as int);
            assert(out@ =~= g1 + concat_map(render_method_order().take(k + 1), f2));
        }
        k = k + 1;
    }
    proof {
        assert(render_method_order().take(8) =~= render_method_order());
        assert(out@ =~= by_method_md(dv, cv));
    }
    out
}

fn summary_entry(doc: &ApiDocumentation, name: &String, i: usize) -> (r: String)
    requires
        i < doc.endpoints@.len(),
    ensures
        r@ == summary_entry_fn(doc@, name@)(i),
{
    let ghost dv = doc@;
    let e = &doc.endpoints[i];
    proof {
        assert(dv.endpoints[i as int] == doc.endpoints@[i as int]@);
    }
    let mut out = String::new();
    out.append("  * ");
    match &e.operation_id {
        Some(id) => {
            let mut prefix = name.clone();
            prefix.append("_");
            proof {
                reveal_strlit("_");
                assert(prefix@ =~= name@ + "_"@);
                assert(prefix@.len() == name@.len() + 1);
            }
            if has_prefix(id.as_str(), prefix.as_str()) {
                let plen = prefix.as_str().unicode_len();
                let ilen = id.as_str().unicode_len();
                let rest = id.as_str().substring_char(plen, ilen);
                out.append(rest);
                proof {
                    assert(id@.subrange(plen as int, ilen as int) =~= id@.skip(name@.len() as int + 1));
                }
            } else {
                out.append(id.as_str());
            }
        },
        None => {
            out.append(e.method.as_str());
            out.append(" ");
            out.append(e.path.as_str());
        },
    }
    out.append("\n");
    proof {
        assert(out@ =~= "  * "@ + summary_op_name(dv.endpoints[i as int], name@) + "\n"@);
    }
    out
}

fn summary_svc(doc: &ApiDocumentation, config: &DocConfig, si: usize) -> (r: String)
    requires
        si < doc.services@.len(),
    ensures
        r@ == summary_svc_fn(doc@, config@)(si),
{
    let ghost dv = doc@;
    let ghost cv = config@;
    let svc = &doc.services[si];
    let mut out = String::new();
    out.append("- ");
    out.append(svc.name.as_str());
    out.append("\n");
    proof {
        assert(dv.services[si as int] == doc.services@[si as int]);
        assert(out@ =~= "- "@ + dv.services[si as int].name@ + "\n"@);
    }
    let ghost base = out@;
    let idxs = collect_for_service(doc, config, svc.name.as_str());
    if idxs.len() > 0 {
        let sorted = sort_endpoint_idxs(doc, &idxs, config.sort_method, SortKey::ByOpId);
        let ghost f = summary_entry_fn(dv, dv.services[si as int].name@);
        let mut k: usize = 0;
        while k < sorted.len()
            invariant
                k <= sorted@.len(),
                dv == doc@,
                si < doc.services@.len(),
                svc.name@ == dv.services[si as int].name@,
                f == summary_entry_fn(dv, dv.services[si as int].name@),
                forall|j: int|
                    0 <= j < sorted@.len() ==> (#[trigger] sorted@[j]) < doc.endpoints@.len(),
                out@ == base + concat_map(sorted@.take(k as int), f),
            decreases sorted@.len() - k,
        {
            let idx = sorted[k];
            let piece = summary_entry(doc, &svc.name, idx);
            out.append(piece.as_str());
            proof {
                lemma_concat_map_take_succ(sorted@, f, k as int);
                assert(out@ =~= base + concat_map(sorted@.take(k + 1), f));
            }
            k = k + 1;
        }
        proof {
            assert(sorted@.take(sorted@.len() as int) =~= sorted@);
        }
    }
    proof {
        assert(out@ =~= summary_svc_fn(dv, cv)(si));
    }
    out
}

/// Renders the Summary-detail document: the title block, then per listed
/// service a compact ordered list of endpoint short names.
pub fn generate_summary(doc: &ApiDocumentation, config: &DocConfig) -> (r: String)
    ensures
        r@ == summary_md(doc@, config@),
{
    let ghost dv = doc@;
    let ghost cv = config@;
    let mut out = gen_header(doc);
    out.append("## Services\n");
    let ghost base = out@;
    let listed = collect_listed_services(doc, config);
    let ghost f = summary_svc_fn(dv, cv);
    let mut k: usize = 0;
    while k < listed.len()
        invariant
            k <= listed@.len(),
            dv == doc@,
            cv == config@,
            f == summary_svc_fn(dv, cv),
            forall|j: int|
                0 <= j < listed@.len() ==> (#[trigger] listed@[j]) < doc.services@.len(),
            out@ == base + concat_map(listed@.take(k as int), f),
        decreases listed@.len() - k,
    {
        let piece = summary_svc(doc, config, listed[k]);
        out.append(piece.as_str());
        proof {
            lemma_concat_map_take_succ(listed@, f, k as int);
            assert(out@ =~= base + concat_map(listed@.take(k + 1), f));
        }
        k = k + 1;
    }
    proof {
        assert(listed@.take(listed@.len() as int) =~= listed@);
        assert(out@ =~= summary_md(dv, cv));
    }
    out
}

/// The Path grouping extension point: a placeholder document.
pub fn generate_by_path(_doc: &ApiDocumentation, _config: &DocConfig) -> (r: String)
    ensures
        r@ == by_path_md(),
{
    let mut out = String::new();
    out.append("# Path-based grouping not fully implemented yet\n");
    proof {
        assert(out@ =~= by_path_md());
    }
    out
}

/// The Tag grouping extension point: a placeholder document.
pub fn generate_by_tag(_doc: &ApiDocumentation, _config: &DocConfig) -> (r: String)
    ensures
        r@ == by_tag_md(),
{
    let mut out = String::new();
    out.append("# Tag-based grouping not fully implemented yet\n");
    proof {
        assert(out@ =~= by_tag_md());
    }
    out
}

/// The Flat listing extension point: a placeholder document.
pub fn generate_flat(_doc: &ApiDocumentation, _config: &DocConfig) -> (r: String)
    ensures
        r@ == flat_md(),
{
    let mut out = String::new();
    out.append("# Flat listing not fully implemented yet\n");
    proof {
        assert(out@ =~= flat_md());
    }
    out
}

/// Renders the whole document for one (model, configuration) pair: the
/// Summary listing at Summary detail, else the configured grouping. The
/// output is a function of the two arguments alone, so rendering the same
/// pair twice yields identical text.
pub fn generate_markdown(doc: &ApiDocumentation, config: &DocConfig) -> (r: String)
    ensures
        r@ == generate_markdown_spec(doc@, config@),
{
    if config.detail_level == DetailLevel::Summary {
        generate_summary(doc, config)
    } else {
        match config.group_by {
            GroupBy::Service => generate_by_service(doc, config),
            GroupBy::Method => generate_by_method(doc, config),
            GroupBy::Path => generate_by_path(doc, config),
            GroupBy::Tag => generate_by_tag(doc, config),
            GroupBy::Flat => generate_flat(doc, config),
        }
    }
}

} // verus!
