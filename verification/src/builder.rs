//! Model builder: turns the raw document into the canonical documentation
//! model, inferring services from operation tags when none are declared at
//! the document root.

use vstd::prelude::*;
use vstd::string::StringExecFns;
use crate::models::{
    ApiDocumentation, Endpoint, EndpointV, OpenApiSpec, OpenApiSpecV, Operation, OperationV,
    PathEntry, PathEntryV, PathItemV, Service, clone_opt_string, clone_parameters,
    clone_responses, endpoint_views, opt_op_view, service_names, string_views,
};
use crate::strutil::{concat_map, lemma_concat_map_take_succ, string_vec_contains};

verus! {

/// The tags one operation slot contributes to service inference.
pub open spec fn op_tags(o: Option<OperationV>) -> Seq<Seq<char>> {
    match o {
        Some(op) => match op.tags {
            Some(ts) => ts,
            None => Seq::empty(),
        },
        None => Seq::empty(),
    }
}

/// The tags of all eight slots of one path, in slot-scan order.
pub open spec fn item_tags(it: PathItemV) -> Seq<Seq<char>> {
    op_tags(it.get) + op_tags(it.post) + op_tags(it.put) + op_tags(it.delete) + op_tags(it.options)
        + op_tags(it.head) + op_tags(it.patch) + op_tags(it.trace)
}

/// Every operation-level tag of the document, in scan order, repeats kept.
pub open spec fn all_tags(paths: Seq<PathEntryV>) -> Seq<Seq<char>> {
    concat_map(paths, |e: PathEntryV| item_tags(e.item))
}

/// Appends to `acc` each element of `s` not seen before, keeping first-seen
/// order.
pub open spec fn dedup_into(acc: Seq<Seq<char>>, s: Seq<Seq<char>>) -> Seq<Seq<char>>
    decreases s.len(),
{
    if s.len() == 0 {
        acc
    } else {
        dedup_into(
            if acc.contains(s[0]) {
                acc
            } else {
                acc.push(s[0])
            },
            s.drop_first(),
        )
    }
}

/// The inferred service names: the distinct operation-level tags, in
/// first-seen scan order (made deterministic on purpose).
pub open spec fn inferred_service_names(paths: Seq<PathEntryV>) -> Seq<Seq<char>> {
    dedup_into(Seq::empty(), all_tags(paths))
}

pub proof fn lemma_dedup_split(acc: Seq<Seq<char>>, a: Seq<Seq<char>>, b: Seq<Seq<char>>)
    ensures
        dedup_into(acc, a + b) == dedup_into(dedup_into(acc, a), b),
    decreases a.len(),
{
    if a.len() == 0 {
        assert(a + b =~= b);
    } else {
        assert((a + b)[0] == a[0]);
        assert((a + b).drop_first() =~= a.drop_first() + b);
        let acc1 = if acc.contains(a[0]) {
            acc
        } else {
            acc.push(a[0])
        };
        lemma_dedup_split(acc1, a.drop_first(), b);
    }
}

/// Deduplication keeps exactly the elements of `acc` and `s`.
pub proof fn lemma_dedup_contains(acc: Seq<Seq<char>>, s: Seq<Seq<char>>, x: Seq<char>)
    ensures
        dedup_into(acc, s).contains(x) <==> (acc.contains(x) || s.contains(x)),
    decreases s.len(),
{
    if s.len() > 0 {
        let acc1 = if acc.contains(s[0]) {
            acc
        } else {
            acc.push(s[0])
        };
        lemma_dedup_contains(acc1, s.drop_first(), x);
        if !acc.contains(s[0]) {
            if acc.contains(x) {
                let k = choose|k: int| 0 <= k < acc.len() && acc[k] == x;
                assert(acc1[k] == x);
            }
            if acc1.contains(x) && x != s[0] {
                let k = choose|k: int| 0 <= k < acc1.len() && acc1[k] == x;
                assert(k < acc.len());
                assert(acc[k] == x);
            }
            assert(acc1.contains(s[0])) by {
                assert(acc1[acc.len() as int] == s[0]);
            }
        }
        if s.contains(x) && x != s[0] {
            let k = choose|k: int| 0 <= k < s.len() && s[k] == x;
            assert(s.drop_first()[k - 1] == x);
            assert(s.drop_first().contains(x));
        }
        if s.drop_first().contains(x) {
            let k = choose|k: int| 0 <= k < s.drop_first().len() && s.drop_first()[k] == x;
            assert(s[k + 1] == x);
            assert(s.contains(x));
        }
        if x == s[0] {
            assert(s.contains(x));
        }
    }
}

/// Distinct elements stay distinct under deduplication.
pub proof fn lemma_dedup_unique(acc: Seq<Seq<char>>, s: Seq<Seq<char>>)
    requires
        forall|i: int, j: int| 0 <= i < j < acc.len() ==> acc[i] != acc[j],
    ensures
        forall|i: int, j: int|
            0 <= i < j < dedup_into(acc, s).len() ==> dedup_into(acc, s)[i] != dedup_into(
                acc,
                s,
            )[j],
    decreases s.len(),
{
    if s.len() == 0 {
        assert(dedup_into(acc, s) == acc);
    } else {
        let acc1 = if acc.contains(s[0]) {
            acc
        } else {
            acc.push(s[0])
        };
        assert forall|i: int, j: int| 0 <= i < j < acc1.len() implies acc1[i] != acc1[j] by {
            if !acc.contains(s[0]) && j == acc.len() {
                if acc1[i] == acc1[j] {
                    assert(acc[i] == s[0]);
                    assert(acc.contains(s[0]));
                }
            }
        }
        lemma_dedup_unique(acc1, s.drop_first());
        assert(dedup_into(acc, s) == dedup_into(acc1, s.drop_first()));
    }
}

/// Whether the document declares a non-empty tag list at its root.
pub open spec fn has_declared_tags(sv: OpenApiSpecV) -> bool {
    match sv.tags {
        Some(ts) => ts.len() > 0,
        None => false,
    }
}

/// What `extract_services` returns: the declared tags as services when any
/// are declared, else one undescribed service per distinct operation tag.
pub open spec fn services_built(sv: OpenApiSpecV, services: Seq<Service>) -> bool {
    if has_declared_tags(sv) {
        let ts = sv.tags->0;
        &&& services.len() == ts.len()
        &&& forall|i: int|
            0 <= i < ts.len() ==> (#[trigger] services[i]).name == ts[i].name && services[i]
                .description == ts[i].description
    } else {
        &&& service_names(services) == inferred_service_names(sv.paths)
        &&& forall|i: int| 0 <= i < services.len() ==> (#[trigger] services[i]).description is None
    }
}

/// The service names of one endpoint: the operation's tags that name a known
/// service; the sentinel name when there are no tags or none match.
pub open spec fn endpoint_service_names(
    tags: Option<Seq<Seq<char>>>,
    known: Seq<Seq<char>>,
) -> Seq<Seq<char>> {
    match tags {
        Some(ts) => {
            let kept = concat_map(
                ts,
                |t: Seq<char>|
                    if known.contains(t) {
                        seq![t]
                    } else {
                        Seq::<Seq<char>>::empty()
                    },
            );
            if kept.len() == 0 {
                seq!["Untagged"@]
            } else {
                kept
            }
        },
        None => seq!["Untagged"@],
    }
}

/// The canonical endpoint built from one present operation slot.
pub open spec fn endpoint_of(
    path: Seq<char>,
    method: Seq<char>,
    op: OperationV,
    known: Seq<Seq<char>>,
) -> EndpointV {
    EndpointV {
        path: path,
        method: method,
        services: endpoint_service_names(op.tags, known),
        summary: op.summary,
        description: op.description,
        operation_id: op.operation_id,
        parameters: match op.parameters {
            Some(ps) => ps,
            None => Seq::empty(),
        },
        responses: op.responses,
        deprecated: match op.deprecated {
            Some(b) => b,
            None => false,
        },
    }
}

/// The endpoints one slot yields: exactly one per present operation.
pub open spec fn slot_endpoints(
    path: Seq<char>,
    method: Seq<char>,
    o: Option<OperationV>,
    known: Seq<Seq<char>>,
) -> Seq<EndpointV> {
    match o {
        Some(op) => seq![endpoint_of(path, method, op, known)],
        None => Seq::empty(),
    }
}

/// The endpoints of one path entry, slots scanned in canonical order.
pub open spec fn item_endpoints(e: PathEntryV, known: Seq<Seq<char>>) -> Seq<EndpointV> {
    slot_endpoints(e.path, "GET"@, e.item.get, known) + slot_endpoints(
        e.path,
        "POST"@,
        e.item.post,
        known,
    ) + slot_endpoints(e.path, "PUT"@, e.item.put, known) + slot_endpoints(
        e.path,
        "DELETE"@,
        e.item.delete,
        known,
    ) + slot_endpoints(e.path, "OPTIONS"@, e.item.options, known) + slot_endpoints(
        e.path,
        "HEAD"@,
        e.item.head,
        known,
    ) + slot_endpoints(e.path, "PATCH"@, e.item.patch, known) + slot_endpoints(
        e.path,
        "TRACE"@,
        e.item.trace,
        known,
    )
}

/// All endpoints of the document, paths in order, slots in canonical order.
pub open spec fn endpoints_spec(paths: Seq<PathEntryV>, known: Seq<Seq<char>>) -> Seq<EndpointV> {
    concat_map(paths, |e: PathEntryV| item_endpoints(e, known))
}

/// Collects into `names` the not-yet-seen tags of one operation slot.
fn add_op_tags(names: &mut Vec<String>, op: &Option<Operation>)
    ensures
        string_views(final(names)@) == dedup_into(
            string_views(old(names)@),
            op_tags(opt_op_view(*op)),
        ),
{
    let ghost acc0 = string_views(old(names)@);
    let ghost otags = op_tags(opt_op_view(*op));
    if let Some(o) = op {
        if let Some(ts) = &o.tags {
            proof {
                assert(otags == string_views(ts@));
            }
            let mut j: usize = 0;
            while j < ts.len()
                invariant
                    j <= ts@.len(),
                    otags == string_views(ts@),
                    string_views(names@) == dedup_into(acc0, otags.take(j as int)),
                decreases ts@.len() - j,
            {
                let ghost x = otags[j as int];
                let ghost dj = dedup_into(acc0, otags.take(j as int));
                proof {
                    assert(x == ts@[j as int]@);
                }
                if !string_vec_contains(names, ts[j].as_str()) {
                    names.push(ts[j].clone());
                    proof {
                        assert(string_views(names@) =~= dj.push(x));
                    }
                }
                proof {
                    let acc1 = if dj.contains(x) {
                        dj
                    } else {
                        dj.push(x)
                    };
                    assert(string_views(names@) == acc1);
                    lemma_dedup_split(acc0, otags.take(j as int), seq![x]);
                    assert(otags.take(j + 1) =~= otags.take(j as int) + seq![x]);
                    assert(seq![x].drop_first() =~= Seq::<Seq<char>>::empty());
                    assert(dedup_into(acc1, seq![x].drop_first()) == acc1);
                    assert(dedup_into(dj, seq![x]) == acc1);
                    assert(dedup_into(acc0, otags.take(j + 1)) == acc1);
                }
                j = j + 1;
            }
            proof {
                assert(otags.take(otags.len() as int) =~= otags);
            }
        } else {
            proof {
                assert(otags =~= Seq::<Seq<char>>::empty());
            }
        }
    } else {
        proof {
            assert(otags =~= Seq::<Seq<char>>::empty());
        }
    }
}

/// Collects the not-yet-seen tags of all eight slots of one path.
fn add_item_tags(names: &mut Vec<String>, e: &PathEntry)
    ensures
        string_views(final(names)@) == dedup_into(string_views(old(names)@), item_tags(e.item@)),
{
    let ghost acc0 = string_views(old(names)@);
    let ghost it = e.item@;
    let ghost t1 = op_tags(it.get);
    let ghost t2 = op_tags(it.post);
    let ghost t3 = op_tags(it.put);
    let ghost t4 = op_tags(it.delete);
    let ghost t5 = op_tags(it.options);
    let ghost t6 = op_tags(it.head);
    let ghost t7 = op_tags(it.patch);
    let ghost t8 = op_tags(it.trace);
    add_op_tags(names, &e.item.get);
    add_op_tags(names, &e.item.post);
    add_op_tags(names, &e.item.put);
    add_op_tags(names, &e.item.delete);
    add_op_tags(names, &e.item.options);
    add_op_tags(names, &e.item.head);
    add_op_tags(names, &e.item.patch);
    add_op_tags(names, &e.item.trace);
    proof {
        lemma_dedup_split(acc0, t1, t2);
        lemma_dedup_split(acc0, t1 + t2, t3);
        lemma_dedup_split(acc0, t1 + t2 + t3, t4);
        lemma_dedup_split(acc0, t1 + t2 + t3 + t4, t5);
        lemma_dedup_split(acc0, t1 + t2 + t3 + t4 + t5, t6);
        lemma_dedup_split(acc0, t1 + t2 + t3 + t4 + t5 + t6, t7);
        lemma_dedup_split(acc0, t1 + t2 + t3 + t4 + t5 + t6 + t7, t8);
    }
}

/// Builds the service list of the canonical model: the declared tags when
/// any are present, else services inferred from operation-level tags, one
/// per distinct name in first-seen scan order.
pub fn extract_services(spec: &OpenApiSpec) -> (r: Vec<Service>)
    ensures
        services_built(spec@, r@),
{
    let mut services: Vec<Service> = Vec::new();
    if let Some(tags) = &spec.tags {
        let mut i: usize = 0;
        while i < tags.len()
            invariant
                i <= tags@.len(),
                services@.len() == i,
                forall|j: int|
                    0 <= j < i ==> (#[trigger] services@[j]).name == tags@[j].name
                        && services@[j].description == tags@[j].description,
            decreases tags@.len() - i,
        {
            services.push(
                Service {
                    name: tags[i].name.clone(),
                    description: clone_opt_string(&tags[i].description),
                },
            );
            i = i + 1;
        }
    }
    if services.len() == 0 {
        let ghost pv = spec@.paths;
        let ghost f = |e: PathEntryV| item_tags(e.item);
        let mut names: Vec<String> = Vec::new();
        let mut i: usize = 0;
        while i < spec.paths.len()
            invariant
                i <= spec.paths@.len(),
                pv == spec@.paths,
                f == (|e: PathEntryV| item_tags(e.item)),
                pv.len() == spec.paths@.len(),
                string_views(names@) == dedup_into(Seq::empty(), concat_map(pv.take(i as int), f)),
            decreases spec.paths@.len() - i,
        {
            proof {
                lemma_concat_map_take_succ(pv, f, i as int);
                assert(pv[i as int] == spec.paths@[i as int]@);
                lemma_dedup_split(
                    Seq::empty(),
                    concat_map(pv.take(i as int), f),
                    item_tags(pv[i as int].item),
                );
            }
            add_item_tags(&mut names, &spec.paths[i]);
            i = i + 1;
        }
        proof {
            assert(pv.take(pv.len() as int) =~= pv);
        }
        let mut k: usize = 0;
        while k < names.len()
            invariant
                k <= names@.len(),
                services@.len() == k,
                forall|j: int|
                    0 <= j < k ==> (#[trigger] services@[j]).name@ == names@[j]@ && services@[j]
                        .description is None,
            decreases names@.len() - k,
        {
            services.push(Service { name: names[k].clone(), description: None });
            k = k + 1;
        }
        proof {
            assert(service_names(services@) =~= string_views(names@));
        }
    }
    services
}

/// Builds one canonical endpoint from a present operation slot.
fn build_endpoint(path: &String, method: &str, op: &Operation, names: &Vec<String>) -> (r: Endpoint)
    ensures
        r@ == endpoint_of(path@, method@, op@, string_views(names@)),
{
    let ghost known = string_views(names@);
    let svc: Vec<String> = match &op.tags {
        Some(ts) => {
            let ghost tviews = string_views(ts@);
            let ghost g = |t: Seq<char>|
                if known.contains(t) {
                    seq![t]
                } else {
                    Seq::<Seq<char>>::empty()
                };
            let mut kept: Vec<String> = Vec::new();
            let mut j: usize = 0;
            while j < ts.len()
                invariant
                    j <= ts@.len(),
                    tviews == string_views(ts@),
                    known == string_views(names@),
                    g == (|t: Seq<char>|
                        if known.contains(t) {
                            seq![t]
                        } else {
                            Seq::<Seq<char>>::empty()
                        }),
                    tviews.len() == ts@.len(),
                    string_views(kept@) == concat_map(tviews.take(j as int), g),
                decreases ts@.len() - j,
            {
                let ghost pre = string_views(kept@);
                proof {
                    lemma_concat_map_take_succ(tviews, g, j as int);
                    assert(tviews[j as int] == ts@[j as int]@);
                }
                if string_vec_contains(names, ts[j].as_str()) {
                    kept.push(ts[j].clone());
                    proof {
                        assert(string_views(kept@) =~= pre.push(ts@[j as int]@));
                        assert(pre.push(ts@[j as int]@) =~= pre + seq![ts@[j as int]@]);
                    }
                } else {
                    proof {
                        assert(pre + Seq::<Seq<char>>::empty() =~= pre);
                    }
                }
                j = j + 1;
            }
            proof {
                assert(tviews.take(tviews.len() as int) =~= tviews);
            }
            if kept.len() == 0 {
                let mut u: Vec<String> = Vec::new();
                u.push(String::from_str("Untagged"));
                proof {
                    assert(string_views(u@) =~= seq!["Untagged"@]);
                }
                u
            } else {
                kept
            }
        },
        None => {
            let mut u: Vec<String> = Vec::new();
            u.push(String::from_str("Untagged"));
            proof {
                assert(string_views(u@) =~= seq!["Untagged"@]);
            }
            u
        },
    };
    let r = Endpoint {
        path: path.clone(),
        method: String::from_str(method),
        services: svc,
        summary: clone_opt_string(&op.summary),
        description: clone_opt_string(&op.description),
        operation_id: clone_opt_string(&op.operation_id),
        parameters: match &op.parameters {
            Some(ps) => clone_parameters(ps),
            None => Vec::new(),
        },
        responses: clone_responses(&op.responses),
        deprecated: match op.deprecated {
            Some(b) => b,
            None => false,
        },
    };
    proof {
        assert(r@ =~= endpoint_of(path@, method@, op@, string_views(names@)));
    }
    r
}

/// Appends the endpoint of one slot, when its operation is present.
fn add_slot(
    out: &mut Vec<Endpoint>,
    path: &String,
    method: &str,
    op: &Option<Operation>,
    names: &Vec<String>,
)
    ensures
        endpoint_views(final(out)@) == endpoint_views(old(out)@) + slot_endpoints(
            path@,
            method@,
            opt_op_view(*op),
            string_views(names@),
        ),
{
    let ghost pre = endpoint_views(old(out)@);
    if let Some(o) = op {
        let e = build_endpoint(path, method, o, names);
        out.push(e);
        proof {
            assert(endpoint_views(out@) =~= pre.push(e@));
            assert(pre.push(e@) =~= pre + seq![e@]);
        }
    } else {
        proof {
            assert(pre + Seq::<EndpointV>::empty() =~= pre);
        }
    }
}

/// Builds every endpoint of the document: one per present method slot, paths
/// in order, slots in the fixed canonical order, with the slot's verb
/// uppercased and services resolved against the known service names.
/// Appends the endpoints of all eight slots of one path entry.
#[verifier::rlimit(50)]
fn add_item_endpoints(out: &mut Vec<Endpoint>, entry: &PathEntry, names: &Vec<String>)
    ensures
        endpoint_views(final(out)@) == endpoint_views(old(out)@) + item_endpoints(
            entry@,
            string_views(names@),
        ),
{
    let ghost known = string_views(names@);
    let ghost ev = entry@;
    let ghost s1 = slot_endpoints(ev.path, "GET"@, ev.item.get, known);
    let ghost s2 = slot_endpoints(ev.path, "POST"@, ev.item.post, known);
    let ghost s3 = slot_endpoints(ev.path, "PUT"@, ev.item.put, known);
    let ghost s4 = slot_endpoints(ev.path, "DELETE"@, ev.item.delete, known);
    let ghost s5 = slot_endpoints(ev.path, "OPTIONS"@, ev.item.options, known);
    let ghost s6 = slot_endpoints(ev.path, "HEAD"@, ev.item.head, known);
    let ghost s7 = slot_endpoints(ev.path, "PATCH"@, ev.item.patch, known);
    let ghost s8 = slot_endpoints(ev.path, "TRACE"@, ev.item.trace, known);
    let ghost pre = endpoint_views(old(out)@);
    add_slot(out, &entry.path, "GET", &entry.item.get, names);
    add_slot(out, &entry.path, "POST", &entry.item.post, names);
    add_slot(out, &entry.path, "PUT", &entry.item.put, names);
    add_slot(out, &entry.path, "DELETE", &entry.item.delete, names);
    add_slot(out, &entry.path, "OPTIONS", &entry.item.options, names);
    add_slot(out, &entry.path, "HEAD", &entry.item.head, names);
    add_slot(out, &entry.path, "PATCH", &entry.item.patch, names);
    add_slot(out, &entry.path, "TRACE", &entry.item.trace, names);
    proof {
        assert(pre + s1 + s2 + s3 + s4 + s5 + s6 + s7 + s8 =~= pre + (s1 + s2 + s3 + s4 + s5 + s6
            + s7 + s8));
        assert(item_endpoints(ev, known) == s1 + s2 + s3 + s4 + s5 + s6 + s7 + s8);
    }
}

pub fn extract_endpoints(spec: &OpenApiSpec, services: &Vec<Service>) -> (r: Vec<Endpoint>)
    ensures
        endpoint_views(r@) == endpoints_spec(spec@.paths, service_names(services@)),
{
    let mut names: Vec<String> = Vec::new();
    let mut k: usize = 0;
    while k < services.len()
        invariant
            k <= services@.len(),
            names@.len() == k,
            forall|j: int| 0 <= j < k ==> (#[trigger] names@[j])@ == services@[j].name@,
        decreases services@.len() - k,
    {
        names.push(services[k].name.clone());
        k = k + 1;
    }
    proof {
        assert(string_views(names@) =~= service_names(services@));
    }
    let ghost known = service_names(services@);
    let ghost pv = spec@.paths;
    let ghost f = |e: PathEntryV| item_endpoints(e, known);
    let mut out: Vec<Endpoint> = Vec::new();
    let mut i: usize = 0;
    while i < spec.paths.len()
        invariant
            i <= spec.paths@.len(),
            pv == spec@.paths,
            known == service_names(services@),
            string_views(names@) == known,
            f == (|e: PathEntryV| item_endpoints(e, known)),
            pv.len() == spec.paths@.len(),
            endpoint_views(out@) == concat_map(pv.take(i as int), f),
        decreases spec.paths@.len() - i,
    {
        proof {
            assert(pv[i as int] == spec.paths@[i as int]@);
        }
        add_item_endpoints(&mut out, &spec.paths[i], &names);
        proof {
            lemma_concat_map_take_succ(pv, f, i as int);
        }
        i = i + 1;
    }
    proof {
        assert(pv.take(pv.len() as int) =~= pv);
    }
    out
}

/// Builds the canonical documentation model from a raw document whose
/// required fields are already present: title and version are carried over,
/// services are taken or inferred, and one endpoint is built per present
/// method slot.
pub fn build_documentation(spec: OpenApiSpec) -> (r: ApiDocumentation)
    ensures
        r@.title == spec@.title,
        r@.version == spec@.version,
        r@.description == spec@.description,
        services_built(spec@, r@.services),
        r@.endpoints == endpoints_spec(spec@.paths, service_names(r@.services)),
{
    let services = extract_services(&spec);
    let endpoints = extract_endpoints(&spec, &services);
    ApiDocumentation {
        title: spec.info.title,
        version: spec.info.version,
        description: spec.info.description,
        services,
        endpoints,
    }
}

} // verus!
