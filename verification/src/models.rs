//! Raw document model (mirroring the wire format) and the canonical
//! documentation model the pipeline and renderer consume, together with the
//! mathematical views the contracts are stated over.

use vstd::prelude::*;

verus! {

/// Raw API description: the subset of an OpenAPI-style document needed for
/// documentation. Path entries keep the order the caller supplies.
#[derive(Debug)]
pub struct OpenApiSpec {
    pub swagger: String,
    pub info: Info,
    pub tags: Option<Vec<Tag>>,
    pub paths: Vec<PathEntry>,
}

/// One path entry of the raw document: the path string and its method slots.
#[derive(Debug)]
pub struct PathEntry {
    pub path: String,
    pub item: PathItem,
}

#[derive(Debug)]
pub struct Info {
    pub title: String,
    pub version: String,
    pub description: Option<String>,
}

#[derive(Debug)]
pub struct Tag {
    pub name: String,
    pub description: Option<String>,
}

/// The fixed method slots of one path, one per canonical HTTP verb.
#[derive(Debug)]
pub struct PathItem {
    pub get: Option<Operation>,
    pub put: Option<Operation>,
    pub post: Option<Operation>,
    pub delete: Option<Operation>,
    pub options: Option<Operation>,
    pub head: Option<Operation>,
    pub patch: Option<Operation>,
    pub trace: Option<Operation>,
}

#[derive(Debug)]
pub struct Operation {
    pub tags: Option<Vec<String>>,
    pub summary: Option<String>,
    pub description: Option<String>,
    pub operation_id: Option<String>,
    pub parameters: Option<Vec<Parameter>>,
    pub responses: Vec<ResponseEntry>,
    pub deprecated: Option<bool>,
}

#[derive(Debug)]
pub struct Parameter {
    pub name: String,
    pub description: Option<String>,
    pub parameter_in: String,
    pub required: Option<bool>,
    pub schema: Option<Schema>,
}

#[derive(Debug)]
pub struct Schema {
    pub schema_type: Option<String>,
    pub reference: Option<String>,
}

#[derive(Debug)]
pub struct Response {
    pub description: Option<String>,
    pub schema: Option<Schema>,
}

/// One declared response of an operation: status-code string and record.
/// Entries keep the order the caller supplies, so rendering is deterministic.
#[derive(Debug)]
pub struct ResponseEntry {
    pub code: String,
    pub response: Response,
}

/// Canonical documentation model: what the pipeline and renderer consume.
#[derive(Debug)]
pub struct ApiDocumentation {
    pub title: String,
    pub version: String,
    pub description: Option<String>,
    pub services: Vec<Service>,
    pub endpoints: Vec<Endpoint>,
}

#[derive(Debug)]
pub struct Service {
    pub name: String,
    pub description: Option<String>,
}

#[derive(Debug)]
pub struct Endpoint {
    pub path: String,
    pub method: String,
    pub services: Vec<String>,
    pub summary: Option<String>,
    pub description: Option<String>,
    pub operation_id: Option<String>,
    pub parameters: Vec<Parameter>,
    pub responses: Vec<ResponseEntry>,
    pub deprecated: bool,
}

/// Configuration for one documentation run; read-only once built.
#[derive(Debug)]
pub struct DocConfig {
    pub group_by: GroupBy,
    pub service_filter: Option<Vec<String>>,
    pub path_filter: Option<String>,
    pub method_filter: Option<Vec<String>>,
    pub exclude_deprecated: bool,
    pub required_only: bool,
    pub detail_level: DetailLevel,
    pub include_schemas: bool,
    pub include_examples: bool,
    pub include_auth: bool,
    pub include_toc: bool,
    pub output_format: OutputFormat,
    pub sort_method: SortMethod,
}

#[derive(Debug, Clone, Copy, PartialEq, Eq, Structural)]
pub enum GroupBy {
    Service,
    Method,
    Path,
    Tag,
    Flat,
}

#[derive(Debug, Clone, Copy, PartialEq, Eq, Structural)]
pub enum DetailLevel {
    Summary,
    Basic,
    Standard,
    Full,
}

#[derive(Debug, Clone, Copy, PartialEq, Eq, Structural)]
pub enum OutputFormat {
    Markdown,
    Html,
    Docusaurus,
}

#[derive(Debug, Clone, Copy, PartialEq, Eq, Structural)]
pub enum SortMethod {
    Alphabetical,
    PathLength,
    Unsorted,
}

/// The view of an optional string: its characters, if present.
pub open spec fn opt_view(o: Option<String>) -> Option<Seq<char>> {
    match o {
        Some(s) => Some(s@),
        None => None,
    }
}

/// The views of a string list, in order.
pub open spec fn string_views(s: Seq<String>) -> Seq<Seq<char>> {
    s.map_values(|x: String| x@)
}

/// The view of an optional string list.
pub open spec fn opt_string_views(o: Option<Vec<String>>) -> Option<Seq<Seq<char>>> {
    match o {
        Some(v) => Some(string_views(v@)),
        None => None,
    }
}

/// The names of a service list, as character sequences, in order.
pub open spec fn service_names(s: Seq<Service>) -> Seq<Seq<char>> {
    s.map_values(|sv: Service| sv.name@)
}

/// The views of an endpoint list, in order.
pub open spec fn endpoint_views(s: Seq<Endpoint>) -> Seq<EndpointV> {
    s.map_values(|e: Endpoint| e@)
}

/// Mathematical view of an `Operation`.
#[verifier::ext_equal]
pub struct OperationV {
    pub tags: Option<Seq<Seq<char>>>,
    pub summary: Option<Seq<char>>,
    pub description: Option<Seq<char>>,
    pub operation_id: Option<Seq<char>>,
    pub parameters: Option<Seq<Parameter>>,
    pub responses: Seq<ResponseEntry>,
    pub deprecated: Option<bool>,
}

impl View for Operation {
    type V = OperationV;

    open spec fn view(&self) -> OperationV {
        OperationV {
            tags: opt_string_views(self.tags),
            summary: opt_view(self.summary),
            description: opt_view(self.description),
            operation_id: opt_view(self.operation_id),
            parameters: match self.parameters {
                Some(ps) => Some(ps@),
                None => None,
            },
            responses: self.responses@,
            deprecated: self.deprecated,
        }
    }
}

/// Mathematical view of a `PathItem`: its eight slots.
#[verifier::ext_equal]
pub struct PathItemV {
    pub get: Option<OperationV>,
    pub put: Option<OperationV>,
    pub post: Option<OperationV>,
    pub delete: Option<OperationV>,
    pub options: Option<OperationV>,
    pub head: Option<OperationV>,
    pub patch: Option<OperationV>,
    pub trace: Option<OperationV>,
}

/// The view of an optional operation.
pub open spec fn opt_op_view(o: Option<Operation>) -> Option<OperationV> {
    match o {
        Some(op) => Some(op@),
        None => None,
    }
}

impl View for PathItem {
    type V = PathItemV;

    open spec fn view(&self) -> PathItemV {
        PathItemV {
            get: opt_op_view(self.get),
            put: opt_op_view(self.put),
            post: opt_op_view(self.post),
            delete: opt_op_view(self.delete),
            options: opt_op_view(self.options),
            head: opt_op_view(self.head),
            patch: opt_op_view(self.patch),
            trace: opt_op_view(self.trace),
        }
    }
}

/// Mathematical view of a `PathEntry`.
#[verifier::ext_equal]
pub struct PathEntryV {
    pub path: Seq<char>,
    pub item: PathItemV,
}

impl View for PathEntry {
    type V = PathEntryV;

    open spec fn view(&self) -> PathEntryV {
        PathEntryV { path: self.path@, item: self.item@ }
    }
}

/// Mathematical view of the raw document.
#[verifier::ext_equal]
pub struct OpenApiSpecV {
    pub swagger: Seq<char>,
    pub title: Seq<char>,
    pub version: Seq<char>,
    pub description: Option<Seq<char>>,
    pub tags: Option<Seq<Tag>>,
    pub paths: Seq<PathEntryV>,
}

impl View for OpenApiSpec {
    type V = OpenApiSpecV;

    open spec fn view(&self) -> OpenApiSpecV {
        OpenApiSpecV {
            swagger: self.swagger@,
            title: self.info.title@,
            version: self.info.version@,
            description: opt_view(self.info.description),
            tags: match self.tags {
                Some(ts) => Some(ts@),
                None => None,
            },
            paths: self.paths@.map_values(|p: PathEntry| p@),
        }
    }
}

/// Mathematical view of an `Endpoint`.
#[verifier::ext_equal]
pub struct EndpointV {
    pub path: Seq<char>,
    pub method: Seq<char>,
    pub services: Seq<Seq<char>>,
    pub summary: Option<Seq<char>>,
    pub description: Option<Seq<char>>,
    pub operation_id: Option<Seq<char>>,
    pub parameters: Seq<Parameter>,
    pub responses: Seq<ResponseEntry>,
    pub deprecated: bool,
}

impl View for Endpoint {
    type V = EndpointV;

    open spec fn view(&self) -> EndpointV {
        EndpointV {
            path: self.path@,
            method: self.method@,
            services: string_views(self.services@),
            summary: opt_view(self.summary),
            description: opt_view(self.description),
            operation_id: opt_view(self.operation_id),
            parameters: self.parameters@,
            responses: self.responses@,
            deprecated: self.deprecated,
        }
    }
}

/// Mathematical view of the canonical documentation model.
#[verifier::ext_equal]
pub struct ApiDocumentationV {
    pub title: Seq<char>,
    pub version: Seq<char>,
    pub description: Option<Seq<char>>,
    pub services: Seq<Service>,
    pub endpoints: Seq<EndpointV>,
}

impl View for ApiDocumentation {
    type V = ApiDocumentationV;

    open spec fn view(&self) -> ApiDocumentationV {
        ApiDocumentationV {
            title: self.title@,
            version: self.version@,
            description: opt_view(self.description),
            services: self.services@,
            endpoints: self.endpoints@.map_values(|e: Endpoint| e@),
        }
    }
}

/// Mathematical view of a configuration.
#[verifier::ext_equal]
pub struct DocConfigV {
    pub group_by: GroupBy,
    pub service_filter: Option<Seq<Seq<char>>>,
    pub path_filter: Option<Seq<char>>,
    pub method_filter: Option<Seq<Seq<char>>>,
    pub exclude_deprecated: bool,
    pub required_only: bool,
    pub detail_level: DetailLevel,
    pub include_schemas: bool,
    pub include_examples: bool,
    pub include_auth: bool,
    pub include_toc: bool,
    pub output_format: OutputFormat,
    pub sort_method: SortMethod,
}

impl View for DocConfig {
    type V = DocConfigV;

    open spec fn view(&self) -> DocConfigV {
        DocConfigV {
            group_by: self.group_by,
            service_filter: opt_string_views(self.service_filter),
            path_filter: opt_view(self.path_filter),
            method_filter: opt_string_views(self.method_filter),
            exclude_deprecated: self.exclude_deprecated,
            required_only: self.required_only,
            detail_level: self.detail_level,
            include_schemas: self.include_schemas,
            include_examples: self.include_examples,
            include_auth: self.include_auth,
            include_toc: self.include_toc,
            output_format: self.output_format,
            sort_method: self.sort_method,
        }
    }
}

/// A well-formed endpoint view: canonical method, at least one service name.
pub open spec fn endpoint_wf(e: EndpointV) -> bool {
    &&& crate::is_canonical_method(e.method)
    &&& e.services.len() > 0
}

/// Service names are pairwise distinct.
pub open spec fn services_unique(s: Seq<Service>) -> bool {
    forall|i: int, j: int| 0 <= i < j < s.len() ==> s[i].name@ != s[j].name@
}

/// A well-formed documentation model.
pub open spec fn documentation_wf(d: ApiDocumentationV) -> bool {
    &&& forall|i: int| 0 <= i < d.endpoints.len() ==> endpoint_wf(#[trigger] d.endpoints[i])
    &&& services_unique(d.services)
}

pub(crate) fn clone_opt_string(o: &Option<String>) -> (r: Option<String>)
    ensures
        r == *o,
{
    match o {
        Some(s) => Some(s.clone()),
        None => None,
    }
}

pub(crate) fn clone_string_vec(v: &Vec<String>) -> (r: Vec<String>)
    ensures
        r@ == v@,
{
    let mut out: Vec<String> = Vec::new();
    let mut i: usize = 0;
    while i < v.len()
        invariant
            i <= v.len(),
            out@ == v@.take(i as int),
        decreases v.len() - i,
    {
        out.push(v[i].clone());
        i = i + 1;
        proof {
            assert(v@.take(i as int) =~= v@.take(i as int - 1).push(v@[i - 1]));
        }
    }
    proof {
        assert(v@.take(v@.len() as int) =~= v@);
    }
    out
}

pub(crate) fn clone_opt_string_vec(o: &Option<Vec<String>>) -> (r: Option<Vec<String>>)
    ensures
        match *o {
            Some(v) => r is Some && r->0@ == v@,
            None => r is None,
        },
{
    match o {
        Some(v) => Some(clone_string_vec(v)),
        None => None,
    }
}

impl Clone for Schema {
    fn clone(&self) -> (r: Self)
        ensures
            r == *self,
    {
        Schema {
            schema_type: clone_opt_string(&self.schema_type),
            reference: clone_opt_string(&self.reference),
        }
    }
}

pub(crate) fn clone_opt_schema(o: &Option<Schema>) -> (r: Option<Schema>)
    ensures
        r == *o,
{
    match o {
        Some(s) => Some(s.clone()),
        None => None,
    }
}

impl Clone for Parameter {
    fn clone(&self) -> (r: Self)
        ensures
            r == *self,
    {
        Parameter {
            name: self.name.clone(),
            description: clone_opt_string(&self.description),
            parameter_in: self.parameter_in.clone(),
            required: self.required,
            schema: clone_opt_schema(&self.schema),
        }
    }
}

impl Clone for Response {
    fn clone(&self) -> (r: Self)
        ensures
            r == *self,
    {
        Response {
            description: clone_opt_string(&self.description),
            schema: clone_opt_schema(&self.schema),
        }
    }
}

impl Clone for ResponseEntry {
    fn clone(&self) -> (r: Self)
        ensures
            r == *self,
    {
        ResponseEntry { code: self.code.clone(), response: self.response.clone() }
    }
}

impl Clone for Tag {
    fn clone(&self) -> (r: Self)
        ensures
            r == *self,
    {
        Tag { name: self.name.clone(), description: clone_opt_string(&self.description) }
    }
}

impl Clone for Service {
    fn clone(&self) -> (r: Self)
        ensures
            r == *self,
    {
        Service { name: self.name.clone(), description: clone_opt_string(&self.description) }
    }
}

pub(crate) fn clone_parameters(v: &Vec<Parameter>) -> (r: Vec<Parameter>)
    ensures
        r@ == v@,
{
    let mut out: Vec<Parameter> = Vec::new();
    let mut i: usize = 0;
    while i < v.len()
        invariant
            i <= v.len(),
            out@ == v@.take(i as int),
        decreases v.len() - i,
    {
        out.push(v[i].clone());
        i = i + 1;
        proof {
            assert(v@.take(i as int) =~= v@.take(i as int - 1).push(v@[i - 1]));
        }
    }
    proof {
        assert(v@.take(v@.len() as int) =~= v@);
    }
    out
}

pub(crate) fn clone_responses(v: &Vec<ResponseEntry>) -> (r: Vec<ResponseEntry>)
    ensures
        r@ == v@,
{
    let mut out: Vec<ResponseEntry> = Vec::new();
    let mut i: usize = 0;
    while i < v.len()
        invariant
            i <= v.len(),
            out@ == v@.take(i as int),
        decreases v.len() - i,
    {
        out.push(v[i].clone());
        i = i + 1;
        proof {
            assert(v@.take(i as int) =~= v@.take(i as int - 1).push(v@[i - 1]));
        }
    }
    proof {
        assert(v@.take(v@.len() as int) =~= v@);
    }
    out
}

} // verus!
