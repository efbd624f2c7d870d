//! OpenAPI 3.0 document model.

use vstd::prelude::*;
use indexmap::IndexMap;
use crate::maps::{distinct_texts, has_key, insert_entry, keys_are, keys_distinct, lookup, lemma_insert_entry, lemma_insert_entry_twice, lemma_keys_are_distinct};
use crate::schema::{Components, Schema};
use crate::text::owned;

verus! {

/// The entries of a path map, in order.
pub uninterp spec fn path_entries(m: IndexMap<String, PathItem>) -> Seq<(Seq<char>, PathItem)>;

/// The entries of a response map, in order.
pub uninterp spec fn response_entries(m: IndexMap<String, Response>) -> Seq<(Seq<char>, Response)>;

/// Calls `IndexMap::new` for a path map.
#[verifier::external_body]
fn path_map_new() -> (m: IndexMap<String, PathItem>)
    ensures
        path_entries(m) == Seq::<(Seq<char>, PathItem)>::empty(),
{
    IndexMap::new()
}

/// Calls `IndexMap::insert` on a path map: an existing key keeps its place and
/// its value is replaced (the old value is returned); a new key goes last.
#[verifier::external_body]
fn path_map_insert(m: &mut IndexMap<String, PathItem>, key: String, value: PathItem) -> (prev: Option<PathItem>)
    ensures
        path_entries(*final(m)) == insert_entry(path_entries(*old(m)), key@, value),
        prev == lookup(path_entries(*old(m)), key@),
{
    m.insert(key, value)
}

/// Calls `IndexMap::keys` on a path map and collects copies of the keys, in
/// order.
#[verifier::external_body]
fn path_map_keys(m: &IndexMap<String, PathItem>) -> (ks: Vec<String>)
    ensures
        keys_are(ks@, path_entries(*m)),
{
    m.keys().cloned().collect()
}

/// Calls `IndexMap::new` for a response map.
#[verifier::external_body]
fn response_map_new() -> (m: IndexMap<String, Response>)
    ensures
        response_entries(m) == Seq::<(Seq<char>, Response)>::empty(),
{
    IndexMap::new()
}

/// Calls `IndexMap::insert` on a response map: an existing key keeps its place
/// and its value is replaced (the old value is returned); a new key goes last.
#[verifier::external_body]
fn response_map_insert(m: &mut IndexMap<String, Response>, key: String, value: Response) -> (prev: Option<Response>)
    ensures
        response_entries(*final(m)) == insert_entry(response_entries(*old(m)), key@, value),
        prev == lookup(response_entries(*old(m)), key@),
{
    m.insert(key, value)
}

/// An empty map of responses keyed by status code.
pub fn new_responses() -> (m: IndexMap<String, Response>)
    ensures
        response_entries(m) == Seq::<(Seq<char>, Response)>::empty(),
{
    response_map_new()
}

/// Inserts a response under a status code (an existing code keeps its place
/// and gets the new response).
pub fn insert_response(m: &mut IndexMap<String, Response>, status: String, response: Response)
    ensures
        response_entries(*final(m)) == insert_entry(response_entries(*old(m)), status@, response),
        keys_distinct(response_entries(*old(m))) ==> keys_distinct(response_entries(*final(m))),
{
    let ghost k = status@;
    let ghost v = response;
    response_map_insert(m, status, response);
    proof {
        if keys_distinct(response_entries(*old(m))) {
            lemma_insert_entry(response_entries(*old(m)), k, v);
        }
    }
}

/// The first option if the second is absent, else the second.
pub open spec fn overwrite<T>(a: Option<T>, b: Option<T>) -> Option<T> {
    if b is Some {
        b
    } else {
        a
    }
}

/// The OpenAPI version every document declares.
pub open spec fn spec_openapi_version() -> Seq<char> {
    "3.0.3"@
}

/// The root OpenAPI document.
pub struct OpenApi {
    pub openapi: String,
    pub info: Info,
    pub servers: Vec<Server>,
    pub paths: IndexMap<String, PathItem>,
    pub components: Option<ComponentsObject>,
    pub tags: Vec<Tag>,
}

/// The `components` object, wrapping named reusable objects.
pub struct ComponentsObject {
    pub schemas: Components,
}

impl Default for ComponentsObject {
    fn default() -> (c: ComponentsObject)
        ensures
            c.schemas@ == Seq::<(Seq<char>, Schema)>::empty(),
            c.schemas.wf(),
    {
        ComponentsObject { schemas: Components::new() }
    }
}

impl Default for OpenApi {
    fn default() -> (d: OpenApi)
        ensures
            d.openapi@ == spec_openapi_version(),
            d.info.title@ == Seq::<char>::empty(),
            d.info.version@ == Seq::<char>::empty(),
            d.info.description is None,
            d.servers@ == Seq::<Server>::empty(),
            path_entries(d.paths) == Seq::<(Seq<char>, PathItem)>::empty(),
            d.components is None,
            d.tags@ == Seq::<Tag>::empty(),
    {
        OpenApi {
            openapi: owned("3.0.3"),
            info: Info::default(),
            servers: Vec::new(),
            paths: path_map_new(),
            components: None,
            tags: Vec::new(),
        }
    }
}

/// Merging one path item into the path map: an existing path merges the item
/// into its own (in place); a new path goes last.
pub open spec fn merge_path_entry(
    s: Seq<(Seq<char>, PathItem)>,
    k: Seq<char>,
    item: PathItem,
) -> Seq<(Seq<char>, PathItem)> {
    match lookup(s, k) {
        Some(existing) => insert_entry(s, k, existing.merged(item)),
        None => insert_entry(s, k, item),
    }
}

/// Merging path items in order.
pub open spec fn merge_path_entries(
    s: Seq<(Seq<char>, PathItem)>,
    items: Seq<(Seq<char>, PathItem)>,
) -> Seq<(Seq<char>, PathItem)>
    decreases items.len(),
{
    if items.len() == 0 {
        s
    } else {
        merge_path_entry(merge_path_entries(s, items.drop_last()), items.last().0, items.last().1)
    }
}

/// Adding a schema under a name unless the name is taken.
pub open spec fn add_if_absent(s: Seq<(Seq<char>, Schema)>, k: Seq<char>, v: Schema) -> Seq<(Seq<char>, Schema)> {
    if has_key(s, k) {
        s
    } else {
        s.push((k, v))
    }
}

/// Adding schemas in order, each unless its name is taken.
pub open spec fn add_all_if_absent(
    s: Seq<(Seq<char>, Schema)>,
    items: Seq<(Seq<char>, Schema)>,
) -> Seq<(Seq<char>, Schema)>
    decreases items.len(),
{
    if items.len() == 0 {
        s
    } else {
        add_if_absent(add_all_if_absent(s, items.drop_last()), items.last().0, items.last().1)
    }
}

/// The component schemas of a document (empty when it has no components).
pub open spec fn component_entries(c: Option<ComponentsObject>) -> Seq<(Seq<char>, Schema)> {
    match c {
        Some(co) => co.schemas@,
        None => Seq::empty(),
    }
}

/// The string keys of entries, with views taken.
pub open spec fn path_pairs(v: Seq<(String, PathItem)>) -> Seq<(Seq<char>, PathItem)> {
    v.map_values(|e: (String, PathItem)| (e.0@, e.1))
}

impl OpenApi {
    /// The document's path map is well formed: no path occurs twice.
    pub open spec fn wf(&self) -> bool {
        &&& keys_distinct(path_entries(self.paths))
        &&& (self.components matches Some(c) ==> c.schemas.wf())
    }

    /// Whether the document is well formed: no path, and no component schema
    /// name, occurs twice.
    pub fn is_well_formed(&self) -> (b: bool)
        ensures
            b == self.wf(),
    {
        let ks = path_map_keys(&self.paths);
        proof {
            lemma_keys_are_distinct(ks@, path_entries(self.paths));
        }
        if !distinct_texts(&ks) {
            return false;
        }
        match &self.components {
            Some(c) => c.schemas.has_distinct_keys(),
            None => true,
        }
    }

    /// Starts building an OpenAPI document.
    pub fn builder() -> (b: OpenApiBuilder)
        ensures
            b@ == OpenApiBuilderView::empty(),
    {
        OpenApiBuilder::default()
    }

    /// Merges paths and component schemas contributed by a controller.
    ///
    /// A path already in the document has the new item merged into it (see
    /// [`PathItem::merge`]); a new path is added last. A component schema is
    /// added only under a name not yet taken: existing schemas are never
    /// replaced. With no component schemas, `components` is left as it is.
    pub fn merge(&mut self, paths: Vec<(String, PathItem)>, components: Components)
        requires
            old(self).wf(),
        ensures
            final(self).wf(),
            path_entries(final(self).paths) == merge_path_entries(
                path_entries(old(self).paths),
                path_pairs(paths@),
            ),
            components@.len() == 0 ==> final(self).components == old(self).components,
            components@.len() > 0 ==> final(self).components is Some,
            component_entries(final(self).components) == add_all_if_absent(
                component_entries(old(self).components),
                components@,
            ),
            final(self).openapi == old(self).openapi,
            final(self).info == old(self).info,
            final(self).servers == old(self).servers,
            final(self).tags == old(self).tags,
    {
        let ghost items = path_pairs(paths@);
        let ghost start = path_entries(self.paths);
        assert(items.take(0) == Seq::<(Seq<char>, PathItem)>::empty());
        for e in it: paths.into_iter()
            invariant
                items == path_pairs(it.seq()),
                path_entries(self.paths) == merge_path_entries(start, items.take(it.index() as int)),
                keys_distinct(path_entries(self.paths)),
                self.components == old(self).components,
                self.openapi == old(self).openapi,
                self.info == old(self).info,
                self.servers == old(self).servers,
                self.tags == old(self).tags,
        {
            let ghost i = it.index();
            let (path, item) = e;
            let ghost k = path@;
            let ghost before = path_entries(self.paths);
            let key = path.clone();
            let prev = path_map_insert(&mut self.paths, path, PathItem::default());
            proof {
                lemma_insert_entry(before, k, PathItem::empty());
            }
            let merged = match prev {
                Some(mut existing) => {
                    existing.merge(item);
                    existing
                },
                None => item,
            };
            let ghost mid = path_entries(self.paths);
            path_map_insert(&mut self.paths, key, merged);
            proof {
                assert(items.take(i + 1).drop_last() == items.take(i as int));
                assert(items.take(i + 1).last() == (k, items[i as int].1));
                lemma_insert_entry_twice(before, k, PathItem::empty(), merged);
                lemma_insert_entry(before, k, merged);
            }
        }
        assert(items.take(items.len() as int) == items);
        if !components.is_empty() {
            if self.components.is_none() {
                self.components = Some(ComponentsObject::default());
            }
            let ghost base = component_entries(old(self).components);
            let ghost adds = components@;
            let entries = components.into_entries();
            let mut target = self.components.take().unwrap();
            assert(adds.take(0) == Seq::<(Seq<char>, Schema)>::empty());
            for e in it: entries.into_iter()
                invariant
                    adds == it.seq().map_values(|e: (String, Schema)| (e.0@, e.1)),
                    target.schemas@ == add_all_if_absent(base, adds.take(it.index() as int)),
                    target.schemas.wf(),
            {
                let ghost i = it.index();
                let (name, schema) = e;
                let ghost before = target.schemas@;
                if target.schemas.get(name.as_str()).is_none() {
                    target.schemas.insert(name, schema);
                    assert(!has_key(before, adds[i as int].0));
                } else {
                    assert(has_key(before, adds[i as int].0));
                }
                assert(adds.take(i + 1).drop_last() == adds.take(i as int));
            }
            assert(adds.take(adds.len() as int) == adds);
            self.components = Some(target);
        }
    }
}

/// What an [`OpenApiBuilder`] has collected so far.
pub struct OpenApiBuilderView {
    pub name: Option<Seq<char>>,
    pub version: Option<Seq<char>>,
    pub description: Option<Seq<char>>,
    pub servers: Seq<Server>,
    pub tags: Seq<Tag>,
}

impl OpenApiBuilderView {
    /// Nothing collected.
    pub open spec fn empty() -> OpenApiBuilderView {
        OpenApiBuilderView {
            name: None,
            version: None,
            description: None,
            servers: Seq::empty(),
            tags: Seq::empty(),
        }
    }
}

impl View for OpenApiBuilder {
    type V = OpenApiBuilderView;

    closed spec fn view(&self) -> OpenApiBuilderView {
        OpenApiBuilderView {
            name: crate::schema::opt_view(self.name),
            version: crate::schema::opt_view(self.version),
            description: crate::schema::opt_view(self.description),
            servers: self.servers@,
            tags: self.tags@,
        }
    }
}

/// Builder for [`OpenApi`].
pub struct OpenApiBuilder {
    name: Option<String>,
    version: Option<String>,
    description: Option<String>,
    servers: Vec<Server>,
    tags: Vec<Tag>,
}

impl Default for OpenApiBuilder {
    fn default() -> (b: OpenApiBuilder)
        ensures
            b@ == OpenApiBuilderView::empty(),
    {
        OpenApiBuilder { name: None, version: None, description: None, servers: Vec::new(), tags: Vec::new() }
    }
}

/// The text of an optional string, or `default` when absent.
pub open spec fn text_or(o: Option<Seq<char>>, default: Seq<char>) -> Seq<char> {
    match o {
        Some(t) => t,
        None => default,
    }
}

impl OpenApiBuilder {
    /// The API title.
    pub fn name(self, name: &str) -> (b: Self)
        ensures
            b@ == (OpenApiBuilderView { name: Some(name@), ..self@ }),
    {
        let mut b = self;
        b.name = Some(owned(name));
        b
    }

    /// The API version.
    pub fn version(self, version: &str) -> (b: Self)
        ensures
            b@ == (OpenApiBuilderView { version: Some(version@), ..self@ }),
    {
        let mut b = self;
        b.version = Some(owned(version));
        b
    }

    /// A short description of the API.
    pub fn description(self, description: &str) -> (b: Self)
        ensures
            b@ == (OpenApiBuilderView { description: Some(description@), ..self@ }),
    {
        let mut b = self;
        b.description = Some(owned(description));
        b
    }

    /// Adds a server.
    pub fn server(self, server: Server) -> (b: Self)
        ensures
            b@ == (OpenApiBuilderView { servers: self@.servers.push(server), ..self@ }),
    {
        let mut b = self;
        b.servers.push(server);
        b
    }

    /// Adds a tag.
    pub fn tag(self, tag: Tag) -> (b: Self)
        ensures
            b@ == (OpenApiBuilderView { tags: self@.tags.push(tag), ..self@ }),
    {
        let mut b = self;
        b.tags.push(tag);
        b
    }

    /// Builds the [`OpenApi`] document: OpenAPI `3.0.3`, the name as title
    /// (empty when unset), the version (`0.1.0` when unset), the description,
    /// servers and tags as given, and no paths or components yet.
    pub fn build(self) -> (d: OpenApi)
        ensures
            d.openapi@ == spec_openapi_version(),
            d.info.title@ == text_or(self@.name, Seq::empty()),
            d.info.version@ == text_or(self@.version, "0.1.0"@),
            crate::schema::opt_view(d.info.description) == self@.description,
            d.servers@ == self@.servers,
            path_entries(d.paths) == Seq::<(Seq<char>, PathItem)>::empty(),
            d.components is None,
            d.tags@ == self@.tags,
            d.wf(),
    {
        let title = match self.name {
            Some(n) => n,
            None => String::new(),
        };
        let version = match self.version {
            Some(v) => v,
            None => owned("0.1.0"),
        };
        OpenApi {
            openapi: owned("3.0.3"),
            info: Info { title, version, description: self.description },
            servers: self.servers,
            paths: path_map_new(),
            components: None,
            tags: self.tags,
        }
    }
}

/// OpenAPI info object.
pub struct Info {
    pub title: String,
    pub version: String,
    pub description: Option<String>,
}

impl Default for Info {
    fn default() -> (i: Info)
        ensures
            i.title@ == Seq::<char>::empty(),
            i.version@ == Seq::<char>::empty(),
            i.description is None,
    {
        Info { title: String::new(), version: String::new(), description: None }
    }
}

/// OpenAPI server object.
pub struct Server {
    pub url: String,
    pub description: Option<String>,
}

impl Server {
    /// Starts building a server object.
    pub fn builder() -> (b: ServerBuilder)
        ensures
            b@ == (ServerBuilderView { url: None, description: None }),
    {
        ServerBuilder { url: None, description: None }
    }
}

/// What a [`ServerBuilder`] has collected so far.
pub struct ServerBuilderView {
    pub url: Option<Seq<char>>,
    pub description: Option<Seq<char>>,
}

/// Builder for [`Server`].
pub struct ServerBuilder {
    url: Option<String>,
    description: Option<String>,
}

impl View for ServerBuilder {
    type V = ServerBuilderView;

    closed spec fn view(&self) -> ServerBuilderView {
        ServerBuilderView {
            url: crate::schema::opt_view(self.url),
            description: crate::schema::opt_view(self.description),
        }
    }
}

impl Default for ServerBuilder {
    fn default() -> (b: ServerBuilder)
        ensures
            b@ == (ServerBuilderView { url: None, description: None }),
    {
        ServerBuilder { url: None, description: None }
    }
}

impl ServerBuilder {
    /// The server URL.
    pub fn url(self, url: &str) -> (b: Self)
        ensures
            b@ == (ServerBuilderView { url: Some(url@), ..self@ }),
    {
        let mut b = self;
        b.url = Some(owned(url));
        b
    }

    /// An optional description.
    pub fn description(self, description: &str) -> (b: Self)
        ensures
            b@ == (ServerBuilderView { description: Some(description@), ..self@ }),
    {
        let mut b = self;
        b.description = Some(owned(description));
        b
    }

    /// Builds the [`Server`]: the URL (empty when unset) and the description.
    pub fn build(self) -> (s: Server)
        ensures
            s.url@ == text_or(self@.url, Seq::empty()),
            crate::schema::opt_view(s.description) == self@.description,
    {
        Server {
            url: match self.url {
                Some(u) => u,
                None => String::new(),
            },
            description: self.description,
        }
    }
}

/// OpenAPI tag object.
pub struct Tag {
    pub name: String,
    pub description: Option<String>,
}

/// A path item holding operations for each HTTP method.
pub struct PathItem {
    pub summary: Option<String>,
    pub description: Option<String>,
    pub get: Option<Operation>,
    pub post: Option<Operation>,
    pub put: Option<Operation>,
    pub delete: Option<Operation>,
    pub patch: Option<Operation>,
    pub options: Option<Operation>,
    pub head: Option<Operation>,
}

impl Default for PathItem {
    fn default() -> (p: PathItem)
        ensures
            p == PathItem::empty(),
    {
        PathItem {
            summary: None,
            description: None,
            get: None,
            post: None,
            put: None,
            delete: None,
            patch: None,
            options: None,
            head: None,
        }
    }
}

impl PathItem {
    /// The path item with nothing set.
    pub open spec fn empty() -> PathItem {
        PathItem {
            summary: None,
            description: None,
            get: None,
            post: None,
            put: None,
            delete: None,
            patch: None,
            options: None,
            head: None,
        }
    }

    /// `self` with every field that `other` has replaced by `other`'s.
    pub open spec fn merged(self, other: PathItem) -> PathItem {
        PathItem {
            summary: overwrite(self.summary, other.summary),
            description: overwrite(self.description, other.description),
            get: overwrite(self.get, other.get),
            post: overwrite(self.post, other.post),
            put: overwrite(self.put, other.put),
            delete: overwrite(self.delete, other.delete),
            patch: overwrite(self.patch, other.patch),
            options: overwrite(self.options, other.options),
            head: overwrite(self.head, other.head),
        }
    }

    /// Merges `other` into `self`, overwriting any present fields.
    pub fn merge(&mut self, other: PathItem)
        ensures
            *final(self) == old(self).merged(other),
    {
        if other.summary.is_some() {
            self.summary = other.summary;
        }
        if other.description.is_some() {
            self.description = other.description;
        }
        if other.get.is_some() {
            self.get = other.get;
        }
        if other.post.is_some() {
            self.post = other.post;
        }
        if other.put.is_some() {
            self.put = other.put;
        }
        if other.delete.is_some() {
            self.delete = other.delete;
        }
        if other.patch.is_some() {
            self.patch = other.patch;
        }
        if other.options.is_some() {
            self.options = other.options;
        }
        if other.head.is_some() {
            self.head = other.head;
        }
    }
}

/// A single API operation.
pub struct Operation {
    pub summary: Option<String>,
    pub description: Option<String>,
    pub operation_id: Option<String>,
    pub tags: Vec<String>,
    pub deprecated: bool,
    pub parameters: Vec<Parameter>,
    pub request_body: Option<RequestBody>,
    pub responses: IndexMap<String, Response>,
}

impl Default for Operation {
    fn default() -> (o: Operation)
        ensures
            o.summary is None,
            o.description is None,
            o.operation_id is None,
            o.tags@ == Seq::<String>::empty(),
            !o.deprecated,
            o.parameters@ == Seq::<Parameter>::empty(),
            o.request_body is None,
            response_entries(o.responses) == Seq::<(Seq<char>, Response)>::empty(),
    {
        Operation {
            summary: None,
            description: None,
            operation_id: None,
            tags: Vec::new(),
            deprecated: false,
            parameters: Vec::new(),
            request_body: None,
            responses: response_map_new(),
        }
    }
}

/// Where a parameter appears.
#[derive(Debug, Clone, Copy, PartialEq, Eq, Structural)]
pub enum ParameterIn {
    Query,
    Path,
    Header,
    Cookie,
}

impl Default for ParameterIn {
    fn default() -> (p: ParameterIn)
        ensures
            p == ParameterIn::Query,
    {
        ParameterIn::Query
    }
}

/// An operation parameter.
pub struct Parameter {
    pub name: String,
    pub location: ParameterIn,
    pub required: bool,
    pub description: Option<String>,
    pub example: Option<serde_json::Value>,
    pub schema: Option<Schema>,
}

impl Default for Parameter {
    fn default() -> (p: Parameter)
        ensures
            p.name@ == Seq::<char>::empty(),
            p.location == ParameterIn::Query,
            !p.required,
            p.description is None,
            p.example is None,
            p.schema is None,
    {
        Parameter {
            name: String::new(),
            location: ParameterIn::Query,
            required: false,
            description: None,
            example: None,
            schema: None,
        }
    }
}

/// A request body.
pub struct RequestBody {
    pub required: bool,
    pub description: Option<String>,
    pub content: Content,
}

/// Media type content for a body or response.
pub struct Content {
    pub json: Option<MediaType>,
}

impl Content {
    /// Creates `application/json` content for the given schema.
    pub fn json(schema: Schema) -> (c: Content)
        ensures
            c.json matches Some(m) && m.schema == Some(schema) && m.example is None,
    {
        Content { json: Some(MediaType { schema: Some(schema), example: None }) }
    }
}

/// A media type descriptor.
pub struct MediaType {
    pub schema: Option<Schema>,
    pub example: Option<serde_json::Value>,
}

/// A response descriptor.
pub struct Response {
    pub description: String,
    pub content: Option<Content>,
}

} // verus!

verus! {

/// Merging with an empty path item changes nothing.
pub proof fn lemma_path_item_merge_empty(p: PathItem)
    ensures
        p.merged(PathItem::empty()) == p,
        PathItem::empty().merged(p) == p,
{
}

/// Merging takes each field that `other` has, and keeps `self`'s where
/// `other` has none.
pub proof fn lemma_path_item_merge_fields(a: PathItem, b: PathItem)
    ensures
        b.summary is Some ==> a.merged(b).summary == b.summary,
        b.summary is None ==> a.merged(b).summary == a.summary,
        b.description is Some ==> a.merged(b).description == b.description,
        b.description is None ==> a.merged(b).description == a.description,
        b.get is Some ==> a.merged(b).get == b.get,
        b.get is None ==> a.merged(b).get == a.get,
        b.post is Some ==> a.merged(b).post == b.post,
        b.post is None ==> a.merged(b).post == a.post,
        b.put is Some ==> a.merged(b).put == b.put,
        b.put is None ==> a.merged(b).put == a.put,
        b.delete is Some ==> a.merged(b).delete == b.delete,
        b.delete is None ==> a.merged(b).delete == a.delete,
        b.patch is Some ==> a.merged(b).patch == b.patch,
        b.patch is None ==> a.merged(b).patch == a.patch,
        b.options is Some ==> a.merged(b).options == b.options,
        b.options is None ==> a.merged(b).options == a.options,
        b.head is Some ==> a.merged(b).head == b.head,
        b.head is None ==> a.merged(b).head == a.head,
{
}

/// Merging a path item into itself changes nothing.
pub proof fn lemma_path_item_merge_idempotent(p: PathItem)
    ensures
        p.merged(p) == p,
{
}

/// Merging is associative: merging `b` then `c` into `a` is merging
/// `b`-merged-with-`c` into `a`.
pub proof fn lemma_path_item_merge_associative(a: PathItem, b: PathItem, c: PathItem)
    ensures
        a.merged(b).merged(c) == a.merged(b.merged(c)),
{
}

/// Merging one path item keeps the keys distinct.
proof fn lemma_merge_path_entry_distinct(s: Seq<(Seq<char>, PathItem)>, k: Seq<char>, item: PathItem)
    requires
        keys_distinct(s),
    ensures
        keys_distinct(merge_path_entry(s, k, item)),
        lookup(merge_path_entry(s, k, item), k) == combine_items(lookup(s, k), item),
        forall|k2: Seq<char>| k2 != k ==> lookup(merge_path_entry(s, k, item), k2) == lookup(s, k2),
        forall|i: int| 0 <= i < s.len() ==> (#[trigger] merge_path_entry(s, k, item)[i]).0 == s[i].0,
        merge_path_entry(s, k, item).len() >= s.len(),
        has_key(merge_path_entry(s, k, item), k),
{
    match lookup(s, k) {
        Some(existing) => {
            lemma_insert_entry(s, k, existing.merged(item));
            assert(has_key(s, k));
            let ix = crate::maps::key_index(s, k);
            assert forall|i: int| 0 <= i < s.len() implies (#[trigger] merge_path_entry(s, k, item)[i]).0 == s[i].0 by {
                if i == ix {
                } else {
                }
            }
        },
        None => {
            lemma_insert_entry(s, k, item);
        },
    }
    let r = merge_path_entry(s, k, item);
    assert(lookup(r, k) is Some);
}

/// One more item merged into what a path already holds.
pub open spec fn combine_items(acc: Option<PathItem>, item: PathItem) -> Option<PathItem> {
    match acc {
        Some(a) => Some(a.merged(item)),
        None => Some(item),
    }
}

/// What merging `items` in order leaves under path `k`, starting from `acc`.
pub open spec fn merged_under(acc: Option<PathItem>, items: Seq<(Seq<char>, PathItem)>, k: Seq<char>) -> Option<PathItem>
    decreases items.len(),
{
    if items.len() == 0 {
        acc
    } else {
        let a = merged_under(acc, items.drop_last(), k);
        if items.last().0 == k {
            combine_items(a, items.last().1)
        } else {
            a
        }
    }
}

/// Merging path items into the document: no path occurs twice, the paths
/// already there keep their places, every merged path is present, and what a
/// path holds afterwards is what it held merged with each of its items in
/// turn, so operations of different methods on one path are all kept.
pub proof fn lemma_merge_paths(s: Seq<(Seq<char>, PathItem)>, items: Seq<(Seq<char>, PathItem)>)
    requires
        keys_distinct(s),
    ensures
        keys_distinct(merge_path_entries(s, items)),
        merge_path_entries(s, items).len() >= s.len(),
        forall|i: int| 0 <= i < s.len() ==> (#[trigger] merge_path_entries(s, items)[i]).0 == s[i].0,
        forall|j: int| 0 <= j < items.len() ==> has_key(merge_path_entries(s, items), #[trigger] items[j].0),
        forall|k: Seq<char>| lookup(merge_path_entries(s, items), k) == merged_under(lookup(s, k), items, k),
    decreases items.len(),
{
    if items.len() > 0 {
        let prev = items.drop_last();
        lemma_merge_paths(s, prev);
        let m = merge_path_entries(s, prev);
        let (k, item) = items.last();
        lemma_merge_path_entry_distinct(m, k, item);
        let r = merge_path_entries(s, items);
        assert(r == merge_path_entry(m, k, item));
        assert forall|i: int| 0 <= i < s.len() implies (#[trigger] r[i]).0 == s[i].0 by {
            assert(m[i].0 == s[i].0);
            assert(r[i].0 == m[i].0);
        }
        assert forall|j: int| 0 <= j < items.len() implies has_key(r, #[trigger] items[j].0) by {
            if j < items.len() - 1 {
                assert(prev[j] == items[j]);
                assert(has_key(m, prev[j].0));
                let kj = items[j].0;
                if kj != k {
                    assert(lookup(r, kj) == lookup(m, kj));
                    assert(lookup(m, kj) is Some);
                }
            }
        }
        assert forall|k2: Seq<char>| lookup(r, k2) == merged_under(lookup(s, k2), items, k2) by {
            assert(lookup(m, k2) == merged_under(lookup(s, k2), prev, k2));
        }
    }
}

/// Adding component schemas: names already taken keep their schemas and
/// places, and every added name is present afterwards.
pub proof fn lemma_add_components(s: Seq<(Seq<char>, Schema)>, adds: Seq<(Seq<char>, Schema)>)
    requires
        keys_distinct(s),
    ensures
        keys_distinct(add_all_if_absent(s, adds)),
        add_all_if_absent(s, adds).len() >= s.len(),
        forall|i: int| 0 <= i < s.len() ==> #[trigger] add_all_if_absent(s, adds)[i] == s[i],
        forall|k: Seq<char>| has_key(s, k) ==> lookup(add_all_if_absent(s, adds), k) == lookup(s, k),
        forall|j: int| 0 <= j < adds.len() ==> has_key(add_all_if_absent(s, adds), #[trigger] adds[j].0),
    decreases adds.len(),
{
    if adds.len() > 0 {
        let prev = adds.drop_last();
        lemma_add_components(s, prev);
        let m = add_all_if_absent(s, prev);
        let (k, v) = adds.last();
        let r = add_all_if_absent(s, adds);
        assert(r == add_if_absent(m, k, v));
        if !has_key(m, k) {
            assert(r == m.push((k, v)));
            assert(r[m.len() as int].0 == k);
            assert forall|k2: Seq<char>| has_key(s, k2) implies lookup(r, k2) == lookup(s, k2) by {
                assert(lookup(m, k2) == lookup(s, k2));
                let ix = crate::maps::key_index(m, k2);
                assert(m[ix].0 == k2);
                assert(r[ix].0 == k2);
                assert(has_key(r, k2));
                let jx = crate::maps::key_index(r, k2);
                if jx != ix {
                    assert(r[jx].0 == r[ix].0);
                }
            }
        }
        assert forall|j: int| 0 <= j < adds.len() implies has_key(r, #[trigger] adds[j].0) by {
            if j < adds.len() - 1 {
                assert(prev[j] == adds[j]);
                assert(has_key(m, prev[j].0));
                let ix = choose|ix: int| 0 <= ix < m.len() && #[trigger] m[ix].0 == prev[j].0;
                assert(r[ix] == m[ix]);
            }
        }
    }
}

} // verus!
