//! Laws of the library: properties of model building and rendering that hold
//! for every document and configuration, stated and proved once here.

use vstd::prelude::*;
use crate::models::{ApiDocumentationV, DocConfigV, EndpointV, OpenApiSpecV, OperationV,
    PathEntryV, PathItemV, Service, SortMethod, endpoint_wf, service_names};
use crate::builder::{all_tags, endpoints_spec, endpoint_of, has_declared_tags,
    inferred_service_names, item_endpoints, item_tags, lemma_dedup_contains, lemma_dedup_unique,
    op_tags, services_built, slot_endpoints};
use crate::markdown::{SortKey, anchor_char, anchor_piece, anchor_spec, eps_for_method,
    eps_for_service, generate_markdown_spec, is_anchor_keep, key_leq_fn, method_section_fn,
    method_toc_fn, short_title_spec, sorted_idxs};
use crate::strutil::{concat_map, lemma_sort_by_leq_contains};

verus! {

/// How many operations one slot holds: one or none.
pub open spec fn slot_count(o: Option<OperationV>) -> int {
    if o is Some {
        1
    } else {
        0
    }
}

/// How many method slots of one path are present.
pub open spec fn present_count(it: PathItemV) -> int {
    slot_count(it.get) + slot_count(it.post) + slot_count(it.put) + slot_count(it.delete)
        + slot_count(it.options) + slot_count(it.head) + slot_count(it.patch) + slot_count(
        it.trace,
    )
}

/// How many method slots of the whole document are present.
pub open spec fn total_present(paths: Seq<PathEntryV>) -> int
    decreases paths.len(),
{
    if paths.len() == 0 {
        0int
    } else {
        present_count(paths[0].item) + total_present(paths.drop_first())
    }
}

proof fn lemma_slot_endpoints_wf(path: Seq<char>, m: Seq<char>, o: Option<OperationV>, known: Seq<
    Seq<char>,
>)
    requires
        crate::is_canonical_method(m),
    ensures
        slot_endpoints(path, m, o, known).len() == slot_count(o),
        forall|i: int|
            0 <= i < slot_endpoints(path, m, o, known).len() ==> endpoint_wf(
                #[trigger] slot_endpoints(path, m, o, known)[i],
            ),
{
    if let Some(op) = o {
        let e = endpoint_of(path, m, op, known);
        assert(e.services.len() > 0) by {
            match op.tags {
                Some(ts) => {
                    let kept = concat_map(
                        ts,
                        |t: Seq<char>|
                            if known.contains(t) {
                                seq![t]
                            } else {
                                Seq::<Seq<char>>::empty()
                            },
                    );
                    if kept.len() == 0 {
                        assert(e.services =~= seq!["Untagged"@]);
                    }
                },
                None => {
                    assert(e.services =~= seq!["Untagged"@]);
                },
            }
        }
    }
}

proof fn lemma_item_endpoints_wf(e: PathEntryV, known: Seq<Seq<char>>)
    ensures
        item_endpoints(e, known).len() == present_count(e.item),
        forall|i: int|
            0 <= i < item_endpoints(e, known).len() ==> endpoint_wf(
                #[trigger] item_endpoints(e, known)[i],
            ),
{
    let cm = crate::canonical_methods();
    assert(cm[0] == "GET"@ && cm[1] == "POST"@ && cm[2] == "PUT"@ && cm[3] == "DELETE"@ && cm[4]
        == "OPTIONS"@ && cm[5] == "HEAD"@ && cm[6] == "PATCH"@ && cm[7] == "TRACE"@);
    lemma_slot_endpoints_wf(e.path, "GET"@, e.item.get, known);
    lemma_slot_endpoints_wf(e.path, "POST"@, e.item.post, known);
    lemma_slot_endpoints_wf(e.path, "PUT"@, e.item.put, known);
    lemma_slot_endpoints_wf(e.path, "DELETE"@, e.item.delete, known);
    lemma_slot_endpoints_wf(e.path, "OPTIONS"@, e.item.options, known);
    lemma_slot_endpoints_wf(e.path, "HEAD"@, e.item.head, known);
    lemma_slot_endpoints_wf(e.path, "PATCH"@, e.item.patch, known);
    lemma_slot_endpoints_wf(e.path, "TRACE"@, e.item.trace, known);
}

/// Every present method slot under a path produces exactly one endpoint, and
/// every produced endpoint is well formed: its method is one of the eight
/// canonical verbs and it belongs to at least one service, whatever the scan
/// order and whatever the known service names.
pub proof fn lemma_one_endpoint_per_slot(paths: Seq<PathEntryV>, known: Seq<Seq<char>>)
    ensures
        endpoints_spec(paths, known).len() == total_present(paths),
        forall|i: int|
            0 <= i < endpoints_spec(paths, known).len() ==> endpoint_wf(
                #[trigger] endpoints_spec(paths, known)[i],
            ),
    decreases paths.len(),
{
    if paths.len() > 0 {
        lemma_item_endpoints_wf(paths[0], known);
        lemma_one_endpoint_per_slot(paths.drop_first(), known);
        let f = |e: PathEntryV| item_endpoints(e, known);
        assert(endpoints_spec(paths, known) == f(paths[0]) + endpoints_spec(
            paths.drop_first(),
            known,
        ));
    }
}

proof fn lemma_slot_untagged(p: Seq<char>, m: Seq<char>, o: Option<OperationV>, known: Seq<Seq<char>>)
    requires
        op_tags(o).len() == 0,
    ensures
        forall|i: int|
            0 <= i < slot_endpoints(p, m, o, known).len() ==> (#[trigger] slot_endpoints(
                p,
                m,
                o,
                known,
            )[i]).services == seq!["Untagged"@],
{
    if let Some(op) = o {
        match op.tags {
            Some(ts) => {
                assert(ts.len() == 0);
                assert(concat_map(
                    ts,
                    |t: Seq<char>|
                        if known.contains(t) {
                            seq![t]
                        } else {
                            Seq::<Seq<char>>::empty()
                        },
                ).len() == 0);
            },
            None => {},
        }
    }
}

proof fn lemma_item_untagged(e: PathEntryV, known: Seq<Seq<char>>)
    requires
        item_tags(e.item).len() == 0,
    ensures
        forall|i: int|
            0 <= i < item_endpoints(e, known).len() ==> (#[trigger] item_endpoints(e, known)[i])
                .services == seq!["Untagged"@],
{
    lemma_slot_untagged(e.path, "GET"@, e.item.get, known);
    lemma_slot_untagged(e.path, "POST"@, e.item.post, known);
    lemma_slot_untagged(e.path, "PUT"@, e.item.put, known);
    lemma_slot_untagged(e.path, "DELETE"@, e.item.delete, known);
    lemma_slot_untagged(e.path, "OPTIONS"@, e.item.options, known);
    lemma_slot_untagged(e.path, "HEAD"@, e.item.head, known);
    lemma_slot_untagged(e.path, "PATCH"@, e.item.patch, known);
    lemma_slot_untagged(e.path, "TRACE"@, e.item.trace, known);
}

/// If no tags are declared at the document root, the built service set holds
/// exactly the names that occur as operation-level tags; if additionally no
/// operation declares a tag, the service list is empty and every endpoint
/// belongs to the sentinel service alone.
pub proof fn lemma_inferred_services(sv: OpenApiSpecV, services: Seq<Service>)
    requires
        !has_declared_tags(sv),
        services_built(sv, services),
    ensures
        forall|t: Seq<char>|
            #[trigger] service_names(services).contains(t) <==> all_tags(sv.paths).contains(t),
        forall|i: int, j: int|
            0 <= i < j < services.len() ==> service_names(services)[i] != service_names(
                services,
            )[j],
        all_tags(sv.paths).len() == 0 ==> services.len() == 0,
        all_tags(sv.paths).len() == 0 ==> forall|i: int|
            0 <= i < endpoints_spec(sv.paths, service_names(services)).len() ==> (
            #[trigger] endpoints_spec(sv.paths, service_names(services))[i]).services == seq![
                "Untagged"@,
            ],
{
    assert forall|t: Seq<char>|
        #[trigger] service_names(services).contains(t) <==> all_tags(sv.paths).contains(t) by {
        lemma_dedup_contains(Seq::empty(), all_tags(sv.paths), t);
        assert(!Seq::<Seq<char>>::empty().contains(t));
    }
    lemma_dedup_unique(Seq::empty(), all_tags(sv.paths));
    if all_tags(sv.paths).len() == 0 {
        assert(all_tags(sv.paths) =~= Seq::<Seq<char>>::empty());
        assert(inferred_service_names(sv.paths) == Seq::<Seq<char>>::empty());
        assert(services.len() == service_names(services).len());
        lemma_all_untagged(sv.paths, service_names(services));
    }
}

proof fn lemma_all_untagged(paths: Seq<PathEntryV>, known: Seq<Seq<char>>)
    requires
        all_tags(paths).len() == 0,
    ensures
        forall|i: int|
            0 <= i < endpoints_spec(paths, known).len() ==> (#[trigger] endpoints_spec(
                paths,
                known,
            )[i]).services == seq!["Untagged"@],
    decreases paths.len(),
{
    if paths.len() > 0 {
        let ft = |e: PathEntryV| item_tags(e.item);
        assert(all_tags(paths) == ft(paths[0]) + all_tags(paths.drop_first()));
        assert(item_tags(paths[0].item).len() == 0);
        lemma_item_untagged(paths[0], known);
        lemma_all_untagged(paths.drop_first(), known);
        let f = |e: PathEntryV| item_endpoints(e, known);
        assert(endpoints_spec(paths, known) == f(paths[0]) + endpoints_spec(
            paths.drop_first(),
            known,
        ));
    }
}

/// An ASCII letter, digit, space or hyphen: the characters of a simple title.
pub open spec fn is_simple_title_char(c: char) -> bool {
    (65 <= c as u32 <= 90) || (97 <= c as u32 <= 122) || (48 <= c as u32 <= 57) || c == ' ' || c
        == '-'
}

/// For a title made of letters, digits, spaces and hyphens alone, the anchor
/// is exactly the title lower-cased with every space replaced by a hyphen:
/// nothing is dropped.
pub proof fn lemma_anchor_of_simple_title(title: Seq<char>)
    requires
        forall|i: int| 0 <= i < title.len() ==> is_simple_title_char(#[trigger] title[i]),
    ensures
        anchor_spec(title) == Seq::new(title.len(), |i: int| anchor_char(title[i])),
    decreases title.len(),
{
    let expect = Seq::new(title.len(), |i: int| anchor_char(title[i]));
    if title.len() == 0 {
        assert(anchor_spec(title) =~= expect);
    } else {
        assert(is_simple_title_char(title[0]));
        assert(is_anchor_keep(anchor_char(title[0])));
        assert forall|i: int|
            0 <= i < title.drop_first().len() implies is_simple_title_char(
            #[trigger] title.drop_first()[i],
        ) by {
            assert(title.drop_first()[i] == title[i + 1]);
        }
        lemma_anchor_of_simple_title(title.drop_first());
        assert(anchor_spec(title) == anchor_piece()(title[0]) + anchor_spec(title.drop_first()));
        assert(anchor_spec(title) =~= expect);
    }
}

/// No anchor, for any title, holds a character outside `[a-z0-9-]`.
pub proof fn lemma_anchor_chars(title: Seq<char>)
    ensures
        forall|i: int|
            0 <= i < anchor_spec(title).len() ==> is_anchor_keep(#[trigger] anchor_spec(title)[i]),
    decreases title.len(),
{
    if title.len() > 0 {
        lemma_anchor_chars(title.drop_first());
        assert(anchor_spec(title) == anchor_piece()(title[0]) + anchor_spec(title.drop_first()));
    }
}

/// The set of endpoint-title anchors a list of endpoint indices produces.
pub open spec fn title_anchor_set(d: ApiDocumentationV, idxs: Seq<usize>) -> Set<Seq<char>> {
    Set::new(
        |a: Seq<char>|
            exists|k: int|
                0 <= k < idxs.len() && a == anchor_spec(
                    short_title_spec(d.endpoints[(#[trigger] idxs[k]) as int]),
                ),
    )
}

/// The endpoint order a service's table-of-contents block lists.
pub open spec fn svc_toc_order(d: ApiDocumentationV, c: DocConfigV, si: usize) -> Seq<
    usize,
> {
    sorted_idxs(
        d.endpoints,
        eps_for_service(d.endpoints, c, d.services[si as int].name@),
        c.sort_method,
        SortKey::BySummary,
    )
}

/// The endpoint order a service's body section emits.
pub open spec fn svc_body_order(d: ApiDocumentationV, c: DocConfigV, si: usize) -> Seq<
    usize,
> {
    sorted_idxs(
        d.endpoints,
        eps_for_service(d.endpoints, c, d.services[si as int].name@),
        c.sort_method,
        SortKey::ByPath,
    )
}

proof fn lemma_sorted_same_elements(eps: Seq<EndpointV>, idxs: Seq<usize>, sm: SortMethod, k1: SortKey, k2: SortKey, x: usize)
    ensures
        sorted_idxs(eps, idxs, sm, k1).contains(x) <==> sorted_idxs(eps, idxs, sm, k2).contains(x),
{
    match sm {
        SortMethod::Alphabetical => {
            lemma_sort_by_leq_contains(idxs, key_leq_fn(eps, k1), x);
            lemma_sort_by_leq_contains(idxs, key_leq_fn(eps, k2), x);
        },
        SortMethod::PathLength => {
            lemma_sort_by_leq_contains(idxs, key_leq_fn(eps, SortKey::ByPathLen), x);
        },
        SortMethod::Unsorted => {},
    }
}

/// Table-of-contents/body consistency under Service grouping: both walk the
/// same listed services, and for each service the set of endpoint-title
/// anchors in its table-of-contents block equals the set of endpoint-title
/// anchors in its body section, though the two are sorted by different keys.
pub proof fn lemma_toc_body_consistent_service(
    d: ApiDocumentationV,
    c: DocConfigV,
    si: usize,
)
    requires
        si < d.services.len(),
    ensures
        title_anchor_set(d, svc_toc_order(d, c, si)) == title_anchor_set(d, svc_body_order(d, c, si)),
{
    let t = svc_toc_order(d, c, si);
    let b = svc_body_order(d, c, si);
    assert forall|a: Seq<char>|
        title_anchor_set(d, t).contains(a) <==> title_anchor_set(d, b).contains(a) by {
        if title_anchor_set(d, t).contains(a) {
            let k = choose|k: int|
                0 <= k < t.len() && a == anchor_spec(short_title_spec(d.endpoints[t[k] as int]));
            assert(t.contains(t[k]));
            lemma_sorted_same_elements(
                d.endpoints,
                eps_for_service(d.endpoints, c, d.services[si as int].name@),
                c.sort_method,
                SortKey::BySummary,
                SortKey::ByPath,
                t[k],
            );
            assert(b.contains(t[k]));
            let m = choose|m: int| 0 <= m < b.len() && b[m] == t[k];
            assert(a == anchor_spec(short_title_spec(d.endpoints[(b[m]) as int])));
            assert(title_anchor_set(d, b).contains(a));
        }
        if title_anchor_set(d, b).contains(a) {
            let k = choose|k: int|
                0 <= k < b.len() && a == anchor_spec(short_title_spec(d.endpoints[b[k] as int]));
            assert(b.contains(b[k]));
            lemma_sorted_same_elements(
                d.endpoints,
                eps_for_service(d.endpoints, c, d.services[si as int].name@),
                c.sort_method,
                SortKey::BySummary,
                SortKey::ByPath,
                b[k],
            );
            assert(t.contains(b[k]));
            let m = choose|m: int| 0 <= m < t.len() && t[m] == b[k];
            assert(a == anchor_spec(short_title_spec(d.endpoints[(t[m]) as int])));
            assert(title_anchor_set(d, t).contains(a));
        }
    }
    assert(title_anchor_set(d, t) =~= title_anchor_set(d, b));
}

/// Table-of-contents/body consistency under Method grouping: a method has a
/// table-of-contents entry exactly when it has a body section, so the two
/// list the same method anchors.
pub proof fn lemma_toc_body_consistent_method(
    d: ApiDocumentationV,
    c: DocConfigV,
    m: Seq<char>,
)
    ensures
        method_toc_fn(d, c)(m).len() > 0 <==> method_section_fn(d, c)(m).len() > 0,
{
    reveal_strlit("- [");
    reveal_strlit("## ");
    let idxs = eps_for_method(d.endpoints, c, m);
    if idxs.len() > 0 {
        assert(method_toc_fn(d, c)(m).len() > 0);
        assert(method_section_fn(d, c)(m).len() > 0);
    }
}

/// Rendering is a pure function of the canonical model and the
/// configuration: two renders of the same pair yield identical text. The
/// renderer's own contract pins its output to this function, so repeated
/// runs cannot differ.
pub proof fn lemma_render_deterministic(
    d: ApiDocumentationV,
    c: DocConfigV,
    r1: Seq<char>,
    r2: Seq<char>,
)
    requires
        r1 == generate_markdown_spec(d, c),
        r2 == generate_markdown_spec(d, c),
    ensures
        r1 == r2,
{
}

} // verus!
