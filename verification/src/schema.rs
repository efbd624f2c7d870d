//! OpenAPI 3.0 schema objects and the [`ToSchema`] trait.

use vstd::prelude::*;
use indexmap::IndexMap;
use std::collections::HashMap;
use crate::maps::{distinct_texts, insert_all, insert_entry, keys_are, keys_distinct, lookup, lemma_insert_entry, lemma_keys_are_distinct};
use crate::text::push_str;

verus! {

#[verifier::external_type_specification]
#[verifier::external_body]
pub struct ExJsonValue(serde_json::Value);

/// `serde_json::Value`'s `Clone` gives back an equal value.
pub assume_specification[ <serde_json::Value as Clone>::clone ](v: &serde_json::Value) -> (r: serde_json::Value)
    ensures
        r == *v,
;

/// The `type` value of an OpenAPI schema object.
#[derive(Debug, Clone, Copy, PartialEq, Eq, Structural)]
pub enum SchemaType {
    String,
    Number,
    Integer,
    Boolean,
    Object,
    Array,
    Null,
}

/// A map of named schemas, kept in insertion order.
#[verifier::external_body]
pub struct Components {
    map: IndexMap<String, Schema>,
}

/// The entries of a [`Components`] map, in order.
pub uninterp spec fn components_entries(m: Components) -> Seq<(Seq<char>, Schema)>;

impl View for Components {
    type V = Seq<(Seq<char>, Schema)>;

    open spec fn view(&self) -> Seq<(Seq<char>, Schema)> {
        components_entries(*self)
    }
}

/// Calls `IndexMap::new`: an empty map.
#[verifier::external_body]
fn index_map_new() -> (m: Components)
    ensures
        components_entries(m) == Seq::<(Seq<char>, Schema)>::empty(),
{
    Components { map: IndexMap::new() }
}

/// Calls `IndexMap::insert`: an existing key keeps its place and its value is
/// replaced (the old value is returned); a new key is appended last.
#[verifier::external_body]
fn index_map_insert(m: &mut Components, key: String, value: Schema) -> (prev: Option<Schema>)
    ensures
        components_entries(*final(m)) == insert_entry(components_entries(*old(m)), key@, value),
        prev == lookup(components_entries(*old(m)), key@),
{
    m.map.insert(key, value)
}

/// Calls `IndexMap::get`: the value under `key`, if any.
#[verifier::external_body]
fn index_map_get<'a>(m: &'a Components, key: &str) -> (v: Option<&'a Schema>)
    ensures
        match v {
            Some(s) => lookup(components_entries(*m), key@) == Some(*s),
            None => lookup(components_entries(*m), key@) is None,
        },
{
    m.map.get(key)
}

/// Calls `IndexMap::len`: the number of entries.
#[verifier::external_body]
fn index_map_len(m: &Components) -> (n: usize)
    ensures
        n == components_entries(*m).len(),
{
    m.map.len()
}

/// Calls `IndexMap::keys` and collects copies of the keys, in order.
#[verifier::external_body]
fn index_map_keys(m: &Components) -> (ks: Vec<String>)
    ensures
        keys_are(ks@, components_entries(*m)),
{
    m.map.keys().cloned().collect()
}

/// Calls `IndexMap::into_iter` and collects the entries in order.
#[verifier::external_body]
fn index_map_into_entries(m: Components) -> (v: Vec<(String, Schema)>)
    ensures
        v@.map_values(|e: (String, Schema)| (e.0@, e.1)) == components_entries(m),
{
    m.map.into_iter().collect()
}

impl Components {
    /// Every key occurs once.
    pub open spec fn wf(&self) -> bool {
        keys_distinct(self@)
    }

    /// An empty map.
    pub fn new() -> (m: Components)
        ensures
            m@ == Seq::<(Seq<char>, Schema)>::empty(),
            m.wf(),
    {
        index_map_new()
    }

    /// Inserts `value` under `key`: an existing key keeps its place and gets
    /// the new value (the old one is returned); a new key goes last.
    pub fn insert(&mut self, key: String, value: Schema) -> (prev: Option<Schema>)
        ensures
            final(self)@ == insert_entry(old(self)@, key@, value),
            prev == lookup(old(self)@, key@),
            old(self).wf() ==> final(self).wf(),
    {
        let ghost k = key@;
        let ghost v = value;
        let prev = index_map_insert(self, key, value);
        proof {
            if keys_distinct(old(self)@) {
                lemma_insert_entry(old(self)@, k, v);
            }
        }
        prev
    }

    /// Whether no key occurs twice.
    pub fn has_distinct_keys(&self) -> (b: bool)
        ensures
            b == self.wf(),
    {
        let ks = index_map_keys(self);
        proof {
            lemma_keys_are_distinct(ks@, self@);
        }
        distinct_texts(&ks)
    }

    /// The schema stored under `key`, if any.
    pub fn get(&self, key: &str) -> (v: Option<&Schema>)
        ensures
            match v {
                Some(s) => lookup(self@, key@) == Some(*s),
                None => lookup(self@, key@) is None,
            },
    {
        index_map_get(self, key)
    }

    /// The number of entries.
    pub fn len(&self) -> (n: usize)
        ensures
            n == self@.len(),
    {
        index_map_len(self)
    }

    /// Whether the map has no entries.
    pub fn is_empty(&self) -> (b: bool)
        ensures
            b == (self@.len() == 0),
    {
        index_map_len(self) == 0
    }

    /// The entries, in order.
    pub fn into_entries(self) -> (v: Vec<(String, Schema)>)
        ensures
            v@.map_values(|e: (String, Schema)| (e.0@, e.1)) == self@,
    {
        index_map_into_entries(self)
    }

    /// A map built by inserting the pairs in order (a later duplicate key
    /// replaces the value but keeps the first position).
    pub fn from_pairs(pairs: Vec<(String, Schema)>) -> (m: Components)
        ensures
            m@ == insert_all(
                Seq::<(Seq<char>, Schema)>::empty(),
                pairs@.map_values(|e: (String, Schema)| (e.0@, e.1)),
            ),
            m.wf(),
    {
        let ghost ps = pairs@.map_values(|e: (String, Schema)| (e.0@, e.1));
        let ghost empty = Seq::<(Seq<char>, Schema)>::empty();
        let mut m = Components::new();
        let ghost orig = pairs@;
        assert(ps.take(0) == Seq::<(Seq<char>, Schema)>::empty());
        for e in it: pairs.into_iter()
            invariant
                it.seq() == orig,
                ps == orig.map_values(|e: (String, Schema)| (e.0@, e.1)),
                m@ == insert_all(empty, ps.take(it.index() as int)),
                m.wf(),
        {
            let ghost i = it.index();
            let (k, v) = e;
            m.insert(k, v);
            assert(ps.take(i + 1).drop_last() == ps.take(i as int));
        }
        assert(ps.take(orig.len() as int) == ps);
        m
    }
}

/// The string content of an optional string.
pub open spec fn opt_view(o: Option<String>) -> Option<Seq<char>> {
    match o {
        Some(s) => Some(s@),
        None => None,
    }
}

/// What a [`Schema`] holds, with strings as character sequences. `items` and
/// `additional_properties` are followed into their own views; the named
/// properties and the `allOf`/`oneOf`/`anyOf` lists hold the schemas themselves.
pub struct SchemaView {
    pub reference: Option<Seq<char>>,
    pub schema_type: Option<SchemaType>,
    pub format: Option<Seq<char>>,
    pub title: Option<Seq<char>>,
    pub description: Option<Seq<char>>,
    pub example: Option<serde_json::Value>,
    pub default: Option<serde_json::Value>,
    pub nullable: bool,
    pub deprecated: bool,
    pub required: Seq<Seq<char>>,
    pub properties: Seq<(Seq<char>, Schema)>,
    pub items: Option<Box<SchemaView>>,
    pub minimum: Option<u64>,
    pub maximum: Option<u64>,
    pub min_length: Option<usize>,
    pub max_length: Option<usize>,
    pub pattern: Option<Seq<char>>,
    pub multiple_of: Option<u64>,
    pub min_items: Option<usize>,
    pub max_items: Option<usize>,
    pub enum_values: Option<Seq<serde_json::Value>>,
    pub all_of: Seq<Schema>,
    pub one_of: Seq<Schema>,
    pub any_of: Seq<Schema>,
    pub additional_properties: Option<Box<SchemaView>>,
}

impl SchemaView {
    /// The schema with nothing set.
    pub open spec fn empty() -> SchemaView {
        SchemaView {
            reference: None,
            schema_type: None,
            format: None,
            title: None,
            description: None,
            example: None,
            default: None,
            nullable: false,
            deprecated: false,
            required: Seq::empty(),
            properties: Seq::empty(),
            items: None,
            minimum: None,
            maximum: None,
            min_length: None,
            max_length: None,
            pattern: None,
            multiple_of: None,
            min_items: None,
            max_items: None,
            enum_values: None,
            all_of: Seq::empty(),
            one_of: Seq::empty(),
            any_of: Seq::empty(),
            additional_properties: None,
        }
    }

    /// The schema with only its `type` set.
    pub open spec fn of_type(t: SchemaType) -> SchemaView {
        SchemaView { schema_type: Some(t), ..SchemaView::empty() }
    }
}

/// An OpenAPI 3.0 schema object.
///
/// `minimum`, `maximum` and `multiple_of` hold the IEEE-754 bit patterns of
/// the `f64` bounds (`f64::to_bits`).
pub struct Schema {
    pub reference: Option<String>,
    pub schema_type: Option<SchemaType>,
    pub format: Option<String>,
    pub title: Option<String>,
    pub description: Option<String>,
    pub example: Option<serde_json::Value>,
    pub default: Option<serde_json::Value>,
    pub nullable: bool,
    pub deprecated: bool,
    pub required: Vec<String>,
    pub properties: Components,
    pub items: Option<Box<Schema>>,
    pub minimum: Option<u64>,
    pub maximum: Option<u64>,
    pub min_length: Option<usize>,
    pub max_length: Option<usize>,
    pub pattern: Option<String>,
    pub multiple_of: Option<u64>,
    pub min_items: Option<usize>,
    pub max_items: Option<usize>,
    pub enum_values: Option<Vec<serde_json::Value>>,
    pub all_of: Vec<Schema>,
    pub one_of: Vec<Schema>,
    pub any_of: Vec<Schema>,
    pub additional_properties: Option<Box<Schema>>,
}

impl View for Schema {
    type V = SchemaView;

    open spec fn view(&self) -> SchemaView
        decreases self,
    {
        SchemaView {
            reference: opt_view(self.reference),
            schema_type: self.schema_type,
            format: opt_view(self.format),
            title: opt_view(self.title),
            description: opt_view(self.description),
            example: self.example,
            default: self.default,
            nullable: self.nullable,
            deprecated: self.deprecated,
            required: self.required@.map_values(|s: String| s@),
            properties: self.properties@,
            items: match self.items {
                Some(b) => Some(Box::new((*b).view())),
                None => None,
            },
            minimum: self.minimum,
            maximum: self.maximum,
            min_length: self.min_length,
            max_length: self.max_length,
            pattern: opt_view(self.pattern),
            multiple_of: self.multiple_of,
            min_items: self.min_items,
            max_items: self.max_items,
            enum_values: match self.enum_values {
                Some(v) => Some(v@),
                None => None,
            },
            all_of: self.all_of@,
            one_of: self.one_of@,
            any_of: self.any_of@,
            additional_properties: match self.additional_properties {
                Some(b) => Some(Box::new((*b).view())),
                None => None,
            },
        }
    }
}

impl Default for Schema {
    fn default() -> (s: Schema)
        ensures
            s@ == SchemaView::empty(),
    {
        let s = Schema {
            reference: None,
            schema_type: None,
            format: None,
            title: None,
            description: None,
            example: None,
            default: None,
            nullable: false,
            deprecated: false,
            required: Vec::new(),
            properties: Components::new(),
            items: None,
            minimum: None,
            maximum: None,
            min_length: None,
            max_length: None,
            pattern: None,
            multiple_of: None,
            min_items: None,
            max_items: None,
            enum_values: None,
            all_of: Vec::new(),
            one_of: Vec::new(),
            any_of: Vec::new(),
            additional_properties: None,
        };
        assert(s.required@.map_values(|r: String| r@) == Seq::<Seq<char>>::empty());
        s
    }
}

/// The `$ref` target of a named component schema.
pub open spec fn reference_target(name: Seq<char>) -> Seq<char> {
    "#/components/schemas/"@ + name
}

impl Schema {
    /// The schema with only its `type` set.
    fn of_type(t: SchemaType) -> (s: Schema)
        ensures
            s@ == SchemaView::of_type(t),
    {
        let mut s = Schema::default();
        s.schema_type = Some(t);
        s
    }

    /// A `$ref` to a named component schema.
    pub fn reference(name: &str) -> (s: Schema)
        ensures
            s@ == (SchemaView { reference: Some(reference_target(name@)), ..SchemaView::empty() }),
    {
        let mut target = String::new();
        push_str(&mut target, "#/components/schemas/");
        push_str(&mut target, name);
        let mut s = Schema::default();
        s.reference = Some(target);
        s
    }

    /// An object schema with the given properties (inserted in order, a later
    /// duplicate name replacing the earlier schema) and required names.
    pub fn object(properties: Vec<(String, Schema)>, required: Vec<String>) -> (s: Schema)
        ensures
            s@ == (SchemaView {
                schema_type: Some(SchemaType::Object),
                properties: insert_all(
                    Seq::<(Seq<char>, Schema)>::empty(),
                    properties@.map_values(|e: (String, Schema)| (e.0@, e.1)),
                ),
                required: required@.map_values(|r: String| r@),
                ..SchemaView::empty()
            }),
            s.properties.wf(),
    {
        let mut s = Schema::default();
        s.schema_type = Some(SchemaType::Object);
        s.properties = Components::from_pairs(properties);
        s.required = required;
        s
    }
}

/// Types that can produce an OpenAPI schema.
///
/// * Primitives and containers return inline schemas.
/// * Named types return a `$ref` from [`ToSchema::schema`] and register
///   themselves (and any nested types) via [`ToSchema::schemas`].
pub trait ToSchema {
    /// Returns the OpenAPI schema object for this type.
    fn schema() -> Schema;

    /// Registers this type and any nested types into `components`.
    ///
    /// The default implementation registers nothing, which is right for
    /// primitives and unit enums: the components are left as they were.
    fn schemas(components: &mut Components)
        default_ensures
            *final(components) == *old(components),
    {
    }
}

impl ToSchema for bool {
    fn schema() -> (s: Schema)
        ensures
            s@ == SchemaView::of_type(SchemaType::Boolean),
    {
        Schema::of_type(SchemaType::Boolean)
    }
}

impl ToSchema for i8 {
    fn schema() -> (s: Schema)
        ensures
            s@ == SchemaView::of_type(SchemaType::Integer),
    {
        Schema::of_type(SchemaType::Integer)
    }
}

impl ToSchema for i16 {
    fn schema() -> (s: Schema)
        ensures
            s@ == SchemaView::of_type(SchemaType::Integer),
    {
        Schema::of_type(SchemaType::Integer)
    }
}

impl ToSchema for i32 {
    fn schema() -> (s: Schema)
        ensures
            s@ == SchemaView::of_type(SchemaType::Integer),
    {
        Schema::of_type(SchemaType::Integer)
    }
}

impl ToSchema for i64 {
    fn schema() -> (s: Schema)
        ensures
            s@ == SchemaView::of_type(SchemaType::Integer),
    {
        Schema::of_type(SchemaType::Integer)
    }
}

impl ToSchema for i128 {
    fn schema() -> (s: Schema)
        ensures
            s@ == SchemaView::of_type(SchemaType::Integer),
    {
        Schema::of_type(SchemaType::Integer)
    }
}

impl ToSchema for isize {
    fn schema() -> (s: Schema)
        ensures
            s@ == SchemaView::of_type(SchemaType::Integer),
    {
        Schema::of_type(SchemaType::Integer)
    }
}

impl ToSchema for u8 {
    fn schema() -> (s: Schema)
        ensures
            s@ == SchemaView::of_type(SchemaType::Integer),
    {
        Schema::of_type(SchemaType::Integer)
    }
}

impl ToSchema for u16 {
    fn schema() -> (s: Schema)
        ensures
            s@ == SchemaView::of_type(SchemaType::Integer),
    {
        Schema::of_type(SchemaType::Integer)
    }
}

impl ToSchema for u32 {
    fn schema() -> (s: Schema)
        ensures
            s@ == SchemaView::of_type(SchemaType::Integer),
    {
        Schema::of_type(SchemaType::Integer)
    }
}

impl ToSchema for u64 {
    fn schema() -> (s: Schema)
        ensures
            s@ == SchemaView::of_type(SchemaType::Integer),
    {
        Schema::of_type(SchemaType::Integer)
    }
}

impl ToSchema for u128 {
    fn schema() -> (s: Schema)
        ensures
            s@ == SchemaView::of_type(SchemaType::Integer),
    {
        Schema::of_type(SchemaType::Integer)
    }
}

impl ToSchema for usize {
    fn schema() -> (s: Schema)
        ensures
            s@ == SchemaView::of_type(SchemaType::Integer),
    {
        Schema::of_type(SchemaType::Integer)
    }
}

impl ToSchema for String {
    fn schema() -> (s: Schema)
        ensures
            s@ == SchemaView::of_type(SchemaType::String),
    {
        Schema::of_type(SchemaType::String)
    }
}

impl ToSchema for &'static str {
    fn schema() -> (s: Schema)
        ensures
            s@ == SchemaView::of_type(SchemaType::String),
    {
        <String as ToSchema>::schema()
    }
}

impl ToSchema for () {
    fn schema() -> (s: Schema)
        ensures
            s@ == SchemaView::empty(),
    {
        Schema::default()
    }
}

impl ToSchema for serde_json::Value {
    fn schema() -> (s: Schema)
        ensures
            s@ == SchemaView::empty(),
    {
        Schema::default()
    }
}

impl<T: ToSchema> ToSchema for Option<T> {
    fn schema() -> (s: Schema)
        ensures
            exists|t: Schema| call_ensures(T::schema, (), t) && s@ == (SchemaView { nullable: true, ..t@ }),
    {
        let mut schema = T::schema();
        schema.nullable = true;
        schema
    }

    fn schemas(components: &mut Components)
        ensures
            exists|r: &mut Components|
                #[trigger] call_ensures(T::schemas, (r,), ()) && *r == *old(components) && *final(r) == *final(components),
    {
        T::schemas(components);
    }
}

impl<T: ToSchema> ToSchema for Vec<T> {
    fn schema() -> (s: Schema)
        ensures
            exists|t: Schema|
                call_ensures(T::schema, (), t) && s@ == (SchemaView {
                    schema_type: Some(SchemaType::Array),
                    items: Some(Box::new(t@)),
                    ..SchemaView::empty()
                }),
    {
        let mut s = Schema::of_type(SchemaType::Array);
        s.items = Some(Box::new(T::schema()));
        s
    }

    fn schemas(components: &mut Components)
        ensures
            exists|r: &mut Components|
                #[trigger] call_ensures(T::schemas, (r,), ()) && *r == *old(components) && *final(r) == *final(components),
    {
        T::schemas(components);
    }
}

impl<V: ToSchema> ToSchema for HashMap<String, V> {
    fn schema() -> (s: Schema)
        ensures
            exists|t: Schema|
                call_ensures(V::schema, (), t) && s@ == (SchemaView {
                    schema_type: Some(SchemaType::Object),
                    additional_properties: Some(Box::new(t@)),
                    ..SchemaView::empty()
                }),
    {
        let mut s = Schema::of_type(SchemaType::Object);
        s.additional_properties = Some(Box::new(V::schema()));
        s
    }

    fn schemas(components: &mut Components)
        ensures
            exists|r: &mut Components|
                #[trigger] call_ensures(V::schemas, (r,), ()) && *r == *old(components) && *final(r) == *final(components),
    {
        V::schemas(components);
    }
}

} // verus!
