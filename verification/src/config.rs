//! Caller-facing options and their translation into a run configuration,
//! including the precedence among competing grouping requests.

use vstd::prelude::*;
use crate::models::{
    DetailLevel, DocConfig, DocConfigV, GroupBy, OutputFormat, SortMethod, clone_opt_string,
    clone_opt_string_vec, opt_string_views, opt_view,
};

verus! {

/// Command-line level options, as plain values; reading them off a real
/// command line is a collaborator's concern.
#[derive(Debug)]
pub struct Cli {
    pub input: String,
    pub output: Option<String>,
    pub method: bool,
    pub group_by: Option<GroupByArg>,
    pub flat: bool,
    pub service_filter: Option<Vec<String>>,
    pub path_filter: Option<String>,
    pub method_filter: Option<Vec<String>>,
    pub exclude_deprecated: bool,
    pub required_only: bool,
    pub detail: DetailLevelArg,
    pub include_schemas: bool,
    pub include_examples: bool,
    pub include_auth: bool,
    pub no_toc: bool,
    pub format: FormatArg,
    pub template: Option<String>,
    pub sort: SortArg,
}

#[derive(Debug, Clone, Copy, PartialEq, Eq, Structural)]
pub enum GroupByArg {
    Service,
    Method,
    Path,
    Tag,
}

#[derive(Debug, Clone, Copy, PartialEq, Eq, Structural)]
pub enum DetailLevelArg {
    Summary,
    Basic,
    Standard,
    Full,
}

#[derive(Debug, Clone, Copy, PartialEq, Eq, Structural)]
pub enum FormatArg {
    Markdown,
    Html,
    Docusaurus,
}

#[derive(Debug, Clone, Copy, PartialEq, Eq, Structural)]
pub enum SortArg {
    Alpha,
    PathLength,
    Unsorted,
}

pub open spec fn group_by_of(a: GroupByArg) -> GroupBy {
    match a {
        GroupByArg::Service => GroupBy::Service,
        GroupByArg::Method => GroupBy::Method,
        GroupByArg::Path => GroupBy::Path,
        GroupByArg::Tag => GroupBy::Tag,
    }
}

pub open spec fn detail_level_of(a: DetailLevelArg) -> DetailLevel {
    match a {
        DetailLevelArg::Summary => DetailLevel::Summary,
        DetailLevelArg::Basic => DetailLevel::Basic,
        DetailLevelArg::Standard => DetailLevel::Standard,
        DetailLevelArg::Full => DetailLevel::Full,
    }
}

pub open spec fn output_format_of(a: FormatArg) -> OutputFormat {
    match a {
        FormatArg::Markdown => OutputFormat::Markdown,
        FormatArg::Html => OutputFormat::Html,
        FormatArg::Docusaurus => OutputFormat::Docusaurus,
    }
}

pub open spec fn sort_method_of(a: SortArg) -> SortMethod {
    match a {
        SortArg::Alpha => SortMethod::Alphabetical,
        SortArg::PathLength => SortMethod::PathLength,
        SortArg::Unsorted => SortMethod::Unsorted,
    }
}

impl From<GroupByArg> for GroupBy {
    fn from(arg: GroupByArg) -> (r: Self) {
        match arg {
            GroupByArg::Service => GroupBy::Service,
            GroupByArg::Method => GroupBy::Method,
            GroupByArg::Path => GroupBy::Path,
            GroupByArg::Tag => GroupBy::Tag,
        }
    }
}

impl vstd::std_specs::convert::FromSpecImpl<GroupByArg> for GroupBy {
    open spec fn obeys_from_spec() -> bool {
        true
    }

    open spec fn from_spec(arg: GroupByArg) -> Self {
        group_by_of(arg)
    }
}

impl From<DetailLevelArg> for DetailLevel {
    fn from(arg: DetailLevelArg) -> (r: Self) {
        match arg {
            DetailLevelArg::Summary => DetailLevel::Summary,
            DetailLevelArg::Basic => DetailLevel::Basic,
            DetailLevelArg::Standard => DetailLevel::Standard,
            DetailLevelArg::Full => DetailLevel::Full,
        }
    }
}

impl vstd::std_specs::convert::FromSpecImpl<DetailLevelArg> for DetailLevel {
    open spec fn obeys_from_spec() -> bool {
        true
    }

    open spec fn from_spec(arg: DetailLevelArg) -> Self {
        detail_level_of(arg)
    }
}

impl From<FormatArg> for OutputFormat {
    fn from(arg: FormatArg) -> (r: Self) {
        match arg {
            FormatArg::Markdown => OutputFormat::Markdown,
            FormatArg::Html => OutputFormat::Html,
            FormatArg::Docusaurus => OutputFormat::Docusaurus,
        }
    }
}

impl vstd::std_specs::convert::FromSpecImpl<FormatArg> for OutputFormat {
    open spec fn obeys_from_spec() -> bool {
        true
    }

    open spec fn from_spec(arg: FormatArg) -> Self {
        output_format_of(arg)
    }
}

impl From<SortArg> for SortMethod {
    fn from(arg: SortArg) -> (r: Self) {
        match arg {
            SortArg::Alpha => SortMethod::Alphabetical,
            SortArg::PathLength => SortMethod::PathLength,
            SortArg::Unsorted => SortMethod::Unsorted,
        }
    }
}

impl vstd::std_specs::convert::FromSpecImpl<SortArg> for SortMethod {
    open spec fn obeys_from_spec() -> bool {
        true
    }

    open spec fn from_spec(arg: SortArg) -> Self {
        sort_method_of(arg)
    }
}

/// The grouping mode the options ask for: an explicit flat listing overrides
/// a by-method request, which overrides any named grouping mode, which
/// overrides the default (Service).
pub open spec fn group_by_choice(cli: Cli) -> GroupBy {
    if cli.flat {
        GroupBy::Flat
    } else if cli.method {
        GroupBy::Method
    } else {
        match cli.group_by {
            Some(g) => group_by_of(g),
            None => GroupBy::Service,
        }
    }
}

/// The configuration the options describe, field by field.
pub open spec fn config_of(cli: Cli) -> DocConfigV {
    DocConfigV {
        group_by: group_by_choice(cli),
        service_filter: opt_string_views(cli.service_filter),
        path_filter: opt_view(cli.path_filter),
        method_filter: opt_string_views(cli.method_filter),
        exclude_deprecated: cli.exclude_deprecated,
        required_only: cli.required_only,
        detail_level: detail_level_of(cli.detail),
        include_schemas: cli.include_schemas,
        include_examples: cli.include_examples,
        include_auth: cli.include_auth,
        include_toc: !cli.no_toc,
        output_format: output_format_of(cli.format),
        sort_method: sort_method_of(cli.sort),
    }
}

/// Builds the run configuration from the options, applying the grouping
/// precedence and turning `no_toc` into `include_toc`.
pub fn build_config(cli: &Cli) -> (r: DocConfig)
    ensures
        r@ == config_of(*cli),
{
    let group_by = if cli.flat {
        GroupBy::Flat
    } else if cli.method {
        GroupBy::Method
    } else if let Some(g) = cli.group_by {
        GroupBy::from(g)
    } else {
        GroupBy::Service
    };
    let r = DocConfig {
        group_by,
        service_filter: clone_opt_string_vec(&cli.service_filter),
        path_filter: clone_opt_string(&cli.path_filter),
        method_filter: clone_opt_string_vec(&cli.method_filter),
        exclude_deprecated: cli.exclude_deprecated,
        required_only: cli.required_only,
        detail_level: DetailLevel::from(cli.detail),
        include_schemas: cli.include_schemas,
        include_examples: cli.include_examples,
        include_auth: cli.include_auth,
        include_toc: !cli.no_toc,
        output_format: OutputFormat::from(cli.format),
        sort_method: SortMethod::from(cli.sort),
    };
    proof {
        assert(r@ =~= config_of(*cli));
    }
    r
}

} // verus!
