use vimanam::builder::{build_documentation, extract_endpoints, extract_services};
use vimanam::config::{build_config, Cli, DetailLevelArg, FormatArg, GroupByArg, SortArg};
use vimanam::models::{
    DetailLevel, GroupBy, Info, OpenApiSpec, Operation, OutputFormat, PathEntry, PathItem,
    Response, ResponseEntry, SortMethod, Tag,
};

fn no_ops() -> PathItem {
    PathItem {
        get: None,
        put: None,
        post: None,
        delete: None,
        options: None,
        head: None,
        patch: None,
        trace: None,
    }
}

fn simple_op(tags: Option<Vec<&str>>, op_id: Option<&str>, deprecated: Option<bool>) -> Operation {
    Operation {
        tags: tags.map(|ts| ts.into_iter().map(|t| t.to_string()).collect()),
        summary: None,
        description: None,
        operation_id: op_id.map(|s| s.to_string()),
        parameters: None,
        responses: vec![ResponseEntry {
            code: "200".to_string(),
            response: Response {
                description: Some("OK".to_string()),
                schema: None,
            },
        }],
        deprecated,
    }
}

fn raw_spec(tags: Option<Vec<(&str, Option<&str>)>>, paths: Vec<(&str, PathItem)>) -> OpenApiSpec {
    OpenApiSpec {
        swagger: "2.0".to_string(),
        info: Info {
            title: "Sample".to_string(),
            version: "0.1".to_string(),
            description: None,
        },
        tags: tags.map(|ts| {
            ts.into_iter()
                .map(|(n, d)| Tag {
                    name: n.to_string(),
                    description: d.map(|x| x.to_string()),
                })
                .collect()
        }),
        paths: paths
            .into_iter()
            .map(|(p, item)| PathEntry {
                path: p.to_string(),
                item,
            })
            .collect(),
    }
}

fn base_cli() -> Cli {
    Cli {
        input: "api.json".to_string(),
        output: None,
        method: false,
        group_by: None,
        flat: false,
        service_filter: None,
        path_filter: None,
        method_filter: None,
        exclude_deprecated: false,
        required_only: false,
        detail: DetailLevelArg::Summary,
        include_schemas: false,
        include_examples: false,
        include_auth: false,
        no_toc: false,
        format: FormatArg::Markdown,
        template: None,
        sort: SortArg::Alpha,
    }
}

#[test]
fn one_endpoint_per_present_slot_in_canonical_order() {
    let mut item = no_ops();
    item.get = Some(simple_op(None, Some("g"), None));
    item.post = Some(simple_op(None, Some("p"), None));
    item.delete = Some(simple_op(None, Some("d"), None));
    let spec = raw_spec(None, vec![("/things", item)]);
    let services = extract_services(&spec);
    let endpoints = extract_endpoints(&spec, &services);
    assert_eq!(endpoints.len(), 3);
    let methods: Vec<&str> = endpoints.iter().map(|e| e.method.as_str()).collect();
    assert_eq!(methods, vec!["GET", "POST", "DELETE"]);
    for e in &endpoints {
        assert!(["GET", "PUT", "POST", "DELETE", "OPTIONS", "HEAD", "PATCH", "TRACE"]
            .contains(&e.method.as_str()));
        assert!(!e.services.is_empty());
    }
}

#[test]
fn declared_tags_become_services_in_order() {
    let spec = raw_spec(
        Some(vec![("Users", Some("user ops")), ("Pets", None)]),
        vec![],
    );
    let services = extract_services(&spec);
    assert_eq!(services.len(), 2);
    assert_eq!(services[0].name.as_str(), "Users");
    assert_eq!(services[0].description.as_deref(), Some("user ops"));
    assert_eq!(services[1].name.as_str(), "Pets");
    assert_eq!(services[1].description, None);
}

#[test]
fn services_inferred_from_operation_tags_first_seen() {
    let mut item1 = no_ops();
    item1.get = Some(simple_op(Some(vec!["b"]), None, None));
    let mut item2 = no_ops();
    item2.get = Some(simple_op(Some(vec!["a", "b"]), None, None));
    let spec = raw_spec(None, vec![("/one", item1), ("/two", item2)]);
    let services = extract_services(&spec);
    let names: Vec<&str> = services.iter().map(|s| s.name.as_str()).collect();
    assert_eq!(names, vec!["b", "a"]);
    assert!(services.iter().all(|s| s.description.is_none()));
}

#[test]
fn empty_declared_tag_list_falls_back_to_inference() {
    let mut item = no_ops();
    item.get = Some(simple_op(Some(vec!["x"]), None, None));
    let spec = raw_spec(Some(vec![]), vec![("/one", item)]);
    let services = extract_services(&spec);
    assert_eq!(services.len(), 1);
    assert_eq!(services[0].name.as_str(), "x");
}

#[test]
fn untagged_endpoints_get_sentinel_service() {
    let mut item = no_ops();
    item.get = Some(simple_op(None, None, None));
    let spec = raw_spec(None, vec![("/one", item)]);
    let services = extract_services(&spec);
    assert!(services.is_empty());
    let endpoints = extract_endpoints(&spec, &services);
    assert_eq!(endpoints.len(), 1);
    assert_eq!(endpoints[0].services, vec!["Untagged".to_string()]);
}

#[test]
fn non_matching_tags_get_sentinel_service() {
    let mut item = no_ops();
    item.get = Some(simple_op(Some(vec!["Ghosts"]), None, None));
    let spec = raw_spec(Some(vec![("Users", None)]), vec![("/one", item)]);
    let services = extract_services(&spec);
    let endpoints = extract_endpoints(&spec, &services);
    assert_eq!(endpoints[0].services, vec!["Untagged".to_string()]);
}

#[test]
fn matching_tags_are_kept_in_order() {
    let mut item = no_ops();
    item.get = Some(simple_op(Some(vec!["Pets", "Ghosts", "Users"]), None, None));
    let spec = raw_spec(
        Some(vec![("Users", None), ("Pets", None)]),
        vec![("/one", item)],
    );
    let services = extract_services(&spec);
    let endpoints = extract_endpoints(&spec, &services);
    assert_eq!(
        endpoints[0].services,
        vec!["Pets".to_string(), "Users".to_string()]
    );
}

#[test]
fn deprecated_defaults_to_false() {
    let mut item = no_ops();
    item.get = Some(simple_op(None, None, None));
    item.post = Some(simple_op(None, None, Some(true)));
    let spec = raw_spec(None, vec![("/one", item)]);
    let doc = build_documentation(spec);
    assert_eq!(doc.title.as_str(), "Sample");
    assert_eq!(doc.version.as_str(), "0.1");
    assert!(!doc.endpoints[0].deprecated);
    assert!(doc.endpoints[1].deprecated);
}

#[test]
fn grouping_precedence_flat_over_method_over_named() {
    let mut cli = base_cli();
    cli.flat = true;
    cli.method = true;
    cli.group_by = Some(GroupByArg::Path);
    assert_eq!(build_config(&cli).group_by, GroupBy::Flat);
    cli.flat = false;
    assert_eq!(build_config(&cli).group_by, GroupBy::Method);
    cli.method = false;
    assert_eq!(build_config(&cli).group_by, GroupBy::Path);
    cli.group_by = None;
    assert_eq!(build_config(&cli).group_by, GroupBy::Service);
}

#[test]
fn config_carries_flags_and_toc_inversion() {
    let mut cli = base_cli();
    cli.no_toc = true;
    cli.exclude_deprecated = true;
    cli.required_only = true;
    cli.detail = DetailLevelArg::Full;
    cli.sort = SortArg::Unsorted;
    cli.service_filter = Some(vec!["Users".to_string()]);
    let c = build_config(&cli);
    assert!(!c.include_toc);
    assert!(c.exclude_deprecated);
    assert!(c.required_only);
    assert_eq!(c.detail_level, DetailLevel::Full);
    assert_eq!(c.sort_method, SortMethod::Unsorted);
    assert_eq!(c.output_format, OutputFormat::Markdown);
    assert_eq!(c.service_filter, Some(vec!["Users".to_string()]));
}
