use vimanam::markdown::{
    generate_by_method, generate_by_service, generate_flat, generate_markdown, generate_summary,
    get_short_title, to_anchor, write_endpoint,
};
use vimanam::models::{
    ApiDocumentation, DetailLevel, DocConfig, Endpoint, GroupBy, OutputFormat, Parameter, Response,
    ResponseEntry, Service, SortMethod,
};

fn cfg(group_by: GroupBy, detail: DetailLevel) -> DocConfig {
    DocConfig {
        group_by,
        service_filter: None,
        path_filter: None,
        method_filter: None,
        exclude_deprecated: false,
        required_only: false,
        detail_level: detail,
        include_schemas: false,
        include_examples: false,
        include_auth: false,
        include_toc: true,
        output_format: OutputFormat::Markdown,
        sort_method: SortMethod::Alphabetical,
    }
}

fn ep(path: &str, method: &str, service: &str, op_id: Option<&str>) -> Endpoint {
    Endpoint {
        path: path.to_string(),
        method: method.to_string(),
        services: vec![service.to_string()],
        summary: None,
        description: None,
        operation_id: op_id.map(|s| s.to_string()),
        parameters: Vec::new(),
        responses: vec![ResponseEntry {
            code: "200".to_string(),
            response: Response {
                description: Some("OK".to_string()),
                schema: None,
            },
        }],
        deprecated: false,
    }
}

fn users_doc() -> ApiDocumentation {
    ApiDocumentation {
        title: "Users API".to_string(),
        version: "1.0".to_string(),
        description: None,
        services: vec![Service {
            name: "Users".to_string(),
            description: None,
        }],
        endpoints: vec![ep("/users", "GET", "Users", Some("Users_list"))],
    }
}

#[test]
fn anchor_lowercases_and_hyphenates() {
    assert_eq!(to_anchor("Hello World").as_str(), "hello-world");
    assert_eq!(to_anchor("API Version 2").as_str(), "api-version-2");
    assert_eq!(to_anchor("GET").as_str(), "get");
}

#[test]
fn anchor_drops_other_characters() {
    assert_eq!(to_anchor("Foo_Bar!").as_str(), "foobar");
    assert_eq!(to_anchor("a  b").as_str(), "a--b");
    assert_eq!(to_anchor("already-fine-9").as_str(), "already-fine-9");
    assert_eq!(to_anchor("???").as_str(), "");
}

#[test]
fn short_title_prefers_operation_id() {
    let e = ep("/users", "GET", "Users", Some("Users_list"));
    assert_eq!(get_short_title(&e).as_str(), "Users_list");
}

#[test]
fn short_title_takes_identifier_like_first_token() {
    let mut e = ep("/users", "GET", "Users", None);
    e.summary = Some("GetUsers from the store".to_string());
    assert_eq!(get_short_title(&e).as_str(), "GetUsers");
    e.summary = Some("list the users".to_string());
    assert_eq!(get_short_title(&e).as_str(), "list the users");
    e.summary = None;
    assert_eq!(get_short_title(&e).as_str(), "GET /users");
}

#[test]
fn scenario_users_service_section_and_toc() {
    let doc = users_doc();
    let out = generate_by_service(&doc, &cfg(GroupBy::Service, DetailLevel::Standard));
    assert!(out.contains("# Users API"));
    assert!(out.contains("## Users"));
    assert!(out.contains("- [Users](#users)"));
    assert!(out.contains("### Users_list"));
    assert!(out.contains("**Operation:** GET /users"));
}

#[test]
fn scenario_users_summary_strips_service_prefix() {
    let doc = users_doc();
    let out = generate_summary(&doc, &cfg(GroupBy::Service, DetailLevel::Summary));
    assert!(out.contains("- Users"));
    assert!(out.contains("  * list\n"));
    assert!(!out.contains("  * Users_list"));
}

#[test]
fn summary_keeps_foreign_prefix() {
    let mut doc = users_doc();
    doc.endpoints[0].operation_id = Some("Other_list".to_string());
    let out = generate_summary(&doc, &cfg(GroupBy::Service, DetailLevel::Summary));
    assert!(out.contains("  * Other_list\n"));
}

#[test]
fn scenario_deprecated_excluded_everywhere() {
    let mut doc = users_doc();
    doc.endpoints[0].deprecated = true;
    for group in [GroupBy::Service, GroupBy::Method] {
        let mut c = cfg(group, DetailLevel::Standard);
        c.exclude_deprecated = true;
        let out = generate_markdown(&doc, &c);
        assert!(!out.contains("Users_list"), "{out}");
    }
    let mut c = cfg(GroupBy::Service, DetailLevel::Summary);
    c.exclude_deprecated = true;
    let out = generate_markdown(&doc, &c);
    assert!(!out.contains("* list"));
}

#[test]
fn deprecated_banner_when_kept() {
    let mut doc = users_doc();
    doc.endpoints[0].deprecated = true;
    let out = generate_by_service(&doc, &cfg(GroupBy::Service, DetailLevel::Standard));
    assert!(out.contains("> **Deprecated**: This endpoint is deprecated."));
}

#[test]
fn scenario_basic_detail_has_no_tables() {
    let mut doc = users_doc();
    doc.endpoints[0].parameters = vec![Parameter {
        name: "id".to_string(),
        description: None,
        parameter_in: "query".to_string(),
        required: Some(true),
        schema: None,
    }];
    let out = generate_by_service(&doc, &cfg(GroupBy::Service, DetailLevel::Basic));
    assert!(out.contains("**Operation:** GET /users"));
    assert!(out.contains("**Operation ID:** `Users_list`"));
    assert!(!out.contains("#### Parameters"));
    assert!(!out.contains("#### Responses"));
}

#[test]
fn scenario_required_only_keeps_unspecified() {
    let mut e = ep("/users", "GET", "Users", Some("Users_list"));
    e.parameters = vec![
        Parameter {
            name: "optional".to_string(),
            description: None,
            parameter_in: "query".to_string(),
            required: Some(false),
            schema: None,
        },
        Parameter {
            name: "unspecified".to_string(),
            description: None,
            parameter_in: "query".to_string(),
            required: None,
            schema: None,
        },
        Parameter {
            name: "needed".to_string(),
            description: Some("the key".to_string()),
            parameter_in: "path".to_string(),
            required: Some(true),
            schema: None,
        },
    ];
    let mut c = cfg(GroupBy::Service, DetailLevel::Standard);
    c.required_only = true;
    let out = write_endpoint(&e, &c, true);
    assert!(!out.contains("| `optional` |"));
    assert!(out.contains("| `unspecified` | query | No | - |"));
    assert!(out.contains("| `needed` | path | Yes | the key |"));
}

#[test]
fn required_column_shows_no_for_unspecified() {
    let mut e = ep("/x", "GET", "S", None);
    e.parameters = vec![Parameter {
        name: "q".to_string(),
        description: None,
        parameter_in: "query".to_string(),
        required: None,
        schema: None,
    }];
    let out = write_endpoint(&e, &cfg(GroupBy::Service, DetailLevel::Standard), true);
    assert!(out.contains("| `q` | query | No | - |"));
}

#[test]
fn response_rows_use_dash_for_missing_description() {
    let mut e = ep("/x", "GET", "S", None);
    e.responses = vec![ResponseEntry {
        code: "404".to_string(),
        response: Response {
            description: None,
            schema: None,
        },
    }];
    let out = write_endpoint(&e, &cfg(GroupBy::Service, DetailLevel::Standard), true);
    assert!(out.contains("| 404 | - |"));
}

#[test]
fn full_detail_emits_placeholders() {
    let doc = users_doc();
    let mut c = cfg(GroupBy::Service, DetailLevel::Full);
    c.include_schemas = true;
    c.include_examples = true;
    let out = generate_by_service(&doc, &c);
    assert!(out.contains("<!-- Schemas would be included here -->"));
    assert!(out.contains("<!-- Examples would be included here -->"));
}

#[test]
fn method_grouping_lists_nonempty_methods_in_fixed_order() {
    let mut doc = users_doc();
    doc.endpoints.push(ep("/users", "POST", "Users", Some("Users_create")));
    let out = generate_by_method(&doc, &cfg(GroupBy::Method, DetailLevel::Standard));
    assert!(out.contains("## HTTP Methods"));
    assert!(out.contains("- [GET](#get)"));
    assert!(out.contains("- [POST](#post)"));
    assert!(out.contains("## GET {get}"));
    assert!(out.contains("## POST {post}"));
    assert!(!out.contains("## DELETE"));
    let g = out.find("## GET {get}").unwrap();
    let p = out.find("## POST {post}").unwrap();
    assert!(g < p);
}

#[test]
fn toc_and_body_list_the_same_sections() {
    let mut doc = users_doc();
    doc.endpoints.push(ep("/users", "POST", "Users", Some("Users_create")));
    let out = generate_by_service(&doc, &cfg(GroupBy::Service, DetailLevel::Standard));
    for (toc_entry, body_heading) in [
        ("- [Users](#users)", "## Users"),
        ("* [Users_list](#userslist)", "### Users_list"),
        ("* [Users_create](#userscreate)", "### Users_create"),
    ] {
        assert_eq!(out.contains(toc_entry), out.contains(body_heading));
    }
}

#[test]
fn no_toc_when_disabled() {
    let doc = users_doc();
    let mut c = cfg(GroupBy::Service, DetailLevel::Standard);
    c.include_toc = false;
    let out = generate_by_service(&doc, &c);
    assert!(!out.contains("- [Users](#users)"));
    assert!(out.contains("## Users"));
}

#[test]
fn rendering_twice_is_identical() {
    let mut doc = users_doc();
    doc.endpoints.push(ep("/users/{id}", "DELETE", "Users", None));
    for group in [GroupBy::Service, GroupBy::Method, GroupBy::Flat] {
        let c = cfg(group, DetailLevel::Standard);
        let a = generate_markdown(&doc, &c);
        let b = generate_markdown(&doc, &c);
        assert_eq!(a, b);
    }
}

#[test]
fn summary_sorts_alphabetically_by_operation_id() {
    let mut doc = users_doc();
    doc.endpoints = vec![
        ep("/b", "GET", "Users", Some("b_op")),
        ep("/a", "GET", "Users", Some("a_op")),
    ];
    let out = generate_summary(&doc, &cfg(GroupBy::Service, DetailLevel::Summary));
    let a = out.find("  * a_op").unwrap();
    let b = out.find("  * b_op").unwrap();
    assert!(a < b);
}

#[test]
fn path_length_sort_orders_sections() {
    let mut doc = users_doc();
    doc.endpoints = vec![
        ep("/quite/long", "GET", "Users", Some("long_op")),
        ep("/a", "GET", "Users", Some("short_op")),
    ];
    let mut c = cfg(GroupBy::Method, DetailLevel::Standard);
    c.sort_method = SortMethod::PathLength;
    let out = generate_by_method(&doc, &c);
    let a = out.find("### short_op").unwrap();
    let b = out.find("### long_op").unwrap();
    assert!(a < b);
}

#[test]
fn unsorted_keeps_encounter_order() {
    let mut doc = users_doc();
    doc.endpoints = vec![
        ep("/b", "GET", "Users", Some("b_op")),
        ep("/a", "GET", "Users", Some("a_op")),
    ];
    let mut c = cfg(GroupBy::Method, DetailLevel::Standard);
    c.sort_method = SortMethod::Unsorted;
    let out = generate_by_method(&doc, &c);
    assert!(out.find("### b_op").unwrap() < out.find("### a_op").unwrap());
}

#[test]
fn service_filter_narrows_listed_services() {
    let mut doc = users_doc();
    doc.services.push(Service {
        name: "Pets".to_string(),
        description: None,
    });
    doc.endpoints.push(ep("/pets", "GET", "Pets", Some("Pets_list")));
    let mut c = cfg(GroupBy::Service, DetailLevel::Standard);
    c.service_filter = Some(vec!["Users".to_string()]);
    let out = generate_by_service(&doc, &c);
    assert!(out.contains("## Users"));
    assert!(!out.contains("## Pets"));
    assert!(!out.contains("### Pets_list"));
}

#[test]
fn service_filter_tests_membership_under_method_grouping() {
    let mut doc = users_doc();
    doc.services.push(Service {
        name: "Pets".to_string(),
        description: None,
    });
    doc.endpoints.push(ep("/pets", "GET", "Pets", Some("Pets_list")));
    let mut c = cfg(GroupBy::Method, DetailLevel::Standard);
    c.service_filter = Some(vec!["Users".to_string()]);
    let out = generate_by_method(&doc, &c);
    assert!(out.contains("### Users_list"));
    assert!(!out.contains("### Pets_list"));
}

#[test]
fn path_and_method_filters_drop_endpoints() {
    let mut doc = users_doc();
    doc.endpoints.push(ep("/pets", "POST", "Users", Some("Users_addPet")));
    let mut c = cfg(GroupBy::Service, DetailLevel::Standard);
    c.path_filter = Some("users".to_string());
    let out = generate_by_service(&doc, &c);
    assert!(out.contains("### Users_list"));
    assert!(!out.contains("### Users_addPet"));
    let mut c2 = cfg(GroupBy::Service, DetailLevel::Standard);
    c2.method_filter = Some(vec!["POST".to_string()]);
    let out2 = generate_by_service(&doc, &c2);
    assert!(!out2.contains("### Users_list"));
    assert!(out2.contains("### Users_addPet"));
}

#[test]
fn empty_service_gets_no_endpoints_line() {
    let mut doc = users_doc();
    doc.endpoints.clear();
    let out = generate_by_service(&doc, &cfg(GroupBy::Service, DetailLevel::Standard));
    assert!(out.contains("No endpoints found for this service."));
}

#[test]
fn placeholder_groupings_say_so() {
    let doc = users_doc();
    let out = generate_flat(&doc, &cfg(GroupBy::Flat, DetailLevel::Standard));
    assert_eq!(out.as_str(), "# Flat listing not fully implemented yet\n");
    let c = cfg(GroupBy::Tag, DetailLevel::Standard);
    let out2 = generate_markdown(&doc, &c);
    assert_eq!(out2.as_str(), "# Tag-based grouping not fully implemented yet\n");
}

#[test]
fn header_carries_title_description_and_version() {
    let mut doc = users_doc();
    doc.description = Some("All about users.".to_string());
    let out = generate_by_service(&doc, &cfg(GroupBy::Service, DetailLevel::Standard));
    assert!(out.starts_with("# Users API\n\nAll about users.\n\nAPI Version: 1.0\n\n"));
}

#[test]
fn golden_basic_document() {
    let doc = ApiDocumentation {
        title: "T".to_string(),
        version: "1".to_string(),
        description: None,
        services: vec![Service {
            name: "S".to_string(),
            description: None,
        }],
        endpoints: vec![ep("/x", "GET", "S", Some("op"))],
    };
    let mut c = cfg(GroupBy::Service, DetailLevel::Basic);
    c.include_toc = false;
    let out = generate_by_service(&doc, &c);
    assert_eq!(
        out.as_str(),
        "# T\nAPI Version: 1\n\n## S\n### op\n**Operation:** GET /x\n**Operation ID:** `op`\n\n"
    );
}

#[test]
fn golden_summary_document() {
    let doc = ApiDocumentation {
        title: "T".to_string(),
        version: "1".to_string(),
        description: None,
        services: vec![Service {
            name: "S".to_string(),
            description: None,
        }],
        endpoints: vec![ep("/x", "GET", "S", Some("op"))],
    };
    let out = generate_summary(&doc, &cfg(GroupBy::Service, DetailLevel::Summary));
    assert_eq!(
        out.as_str(),
        "# T\nAPI Version: 1\n\n## Services\n- S\n  * op\n"
    );
}

#[test]
fn golden_standard_endpoint_body() {
    let mut e = ep("/x", "GET", "S", Some("op"));
    e.parameters = vec![Parameter {
        name: "q".to_string(),
        description: None,
        parameter_in: "query".to_string(),
        required: Some(true),
        schema: None,
    }];
    let out = write_endpoint(&e, &cfg(GroupBy::Service, DetailLevel::Standard), true);
    assert_eq!(
        out.as_str(),
        "### op\n**Operation:** GET /x\n**Operation ID:** `op`\n\
         \n#### Parameters\n| Name | In | Required | Description |\n\
         |------|----|---------:|-------------|\n| `q` | query | Yes | - |\n\
         \n#### Responses\n| Code | Description |\n|------|-------------|\n| 200 | OK |\n\n"
    );
}
