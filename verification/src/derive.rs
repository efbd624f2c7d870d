//! The rules behind `#[derive(ToSchema)]`: how a request or response type's
//! fields become OpenAPI properties, parameters and request bodies.

use vstd::prelude::*;
use crate::text::{ascii_lowercase, char_to_uppercase, chars_of, push_char, push_str, to_ascii_lowercase, to_uppercase};
use crate::extract::Source;
use crate::maps::insert_all;
use crate::openapi::{overwrite, Content, Parameter, ParameterIn, RequestBody};
use crate::schema::{opt_view, Schema, SchemaType, SchemaView};

verus! {

/// A separator between the words of an identifier.
pub open spec fn is_word_sep(c: char) -> bool {
    c == '_' || c == '-'
}

/// The pieces of `s` between separators (empty pieces included), as
/// `str::split` yields them.
pub open spec fn split_words(s: Seq<char>) -> Seq<Seq<char>>
    decreases s.len(),
{
    if s.len() == 0 {
        seq![Seq::empty()]
    } else {
        let ws = split_words(s.drop_last());
        let c = s.last();
        if is_word_sep(c) {
            ws.push(Seq::empty())
        } else {
            ws.update(ws.len() - 1, ws.last().push(c))
        }
    }
}

/// A word with its first character upper-cased.
pub open spec fn capitalize(w: Seq<char>) -> Seq<char> {
    char_to_uppercase(w[0]) + w.drop_first()
}

/// The words joined by `-`.
pub open spec fn join_dash(ws: Seq<Seq<char>>) -> Seq<char>
    decreases ws.len(),
{
    if ws.len() == 0 {
        Seq::empty()
    } else if ws.len() == 1 {
        ws[0]
    } else {
        join_dash(ws.drop_last()) + seq!['-'] + ws.last()
    }
}

/// The non-empty words of an identifier.
pub open spec fn nonempty_words(ws: Seq<Seq<char>>) -> Seq<Seq<char>> {
    ws.filter(|w: Seq<char>| w.len() > 0)
}

/// `snake_case` or `kebab-case` as `Upper-Camel-Case`: the non-empty words,
/// each capitalised, joined by `-`.
pub open spec fn spec_upper_camel_case(s: Seq<char>) -> Seq<char> {
    join_dash(nonempty_words(split_words(s)).map_values(|w: Seq<char>| capitalize(w)))
}

/// The header name of a field: the rename if given, else `X-` followed by the
/// field name in `Upper-Camel-Case`.
pub open spec fn spec_header_name(ident: Seq<char>, rename: Option<Seq<char>>) -> Seq<char> {
    match rename {
        Some(r) => r,
        None => seq!['X', '-'] + spec_upper_camel_case(ident),
    }
}

proof fn lemma_split_words_nonempty(s: Seq<char>)
    ensures
        split_words(s).len() >= 1,
    decreases s.len(),
{
    if s.len() > 0 {
        lemma_split_words_nonempty(s.drop_last());
    }
}

proof fn lemma_nonempty_words_push(ws: Seq<Seq<char>>, w: Seq<char>)
    ensures
        nonempty_words(ws.push(w)) == if w.len() > 0 {
            nonempty_words(ws).push(w)
        } else {
            nonempty_words(ws)
        },
{
    reveal(Seq::filter);
    assert(ws.push(w).drop_last() == ws);
}

proof fn lemma_join_dash_push(ws: Seq<Seq<char>>, w: Seq<char>)
    ensures
        join_dash(ws.push(w)) == if ws.len() == 0 {
            w
        } else {
            join_dash(ws) + seq!['-'] + w
        },
{
    assert(ws.push(w).drop_last() == ws);
}

/// Splitting text that ends in a word without separators: that word is added
/// to the last piece.
proof fn lemma_split_words_append(p: Seq<char>, w: Seq<char>)
    requires
        forall|i: int| 0 <= i < w.len() ==> !is_word_sep(#[trigger] w[i]),
    ensures
        split_words(p + w) == split_words(p).update(
            split_words(p).len() - 1,
            split_words(p).last() + w,
        ),
    decreases w.len(),
{
    lemma_split_words_nonempty(p);
    if w.len() == 0 {
        assert(p + w == p);
        assert(split_words(p).last() + w == split_words(p).last());
        assert(split_words(p).update(split_words(p).len() - 1, split_words(p).last()) == split_words(p));
    } else {
        let v = w.drop_last();
        assert forall|i: int| 0 <= i < v.len() implies !is_word_sep(#[trigger] v[i]) by {
            assert(v[i] == w[i]);
        }
        lemma_split_words_append(p, v);
        assert((p + w).drop_last() == p + v);
        assert((p + w).last() == w.last());
        assert(!is_word_sep(w[w.len() - 1]));
        let pp = split_words(p);
        let ws = split_words(p + v);
        assert(ws.len() == pp.len());
        assert(ws.last() == pp.last() + v);
        assert((pp.last() + v).push(w.last()) == pp.last() + w);
        assert(split_words(p + w) == ws.update(ws.len() - 1, ws.last().push(w.last())));
        assert(ws.update(ws.len() - 1, ws.last().push(w.last())) == pp.update(pp.len() - 1, pp.last() + w));
    }
}

/// An identifier's words are capitalised and joined by `-`: a word without
/// separators is capitalised, and two such words joined by `_` or `-` become
/// the two capitalised words joined by `-`.
pub proof fn lemma_upper_camel_case_words(w1: Seq<char>, w2: Seq<char>, sep: char)
    requires
        w1.len() > 0,
        w2.len() > 0,
        forall|i: int| 0 <= i < w1.len() ==> !is_word_sep(#[trigger] w1[i]),
        forall|i: int| 0 <= i < w2.len() ==> !is_word_sep(#[trigger] w2[i]),
        is_word_sep(sep),
    ensures
        spec_upper_camel_case(w1) == capitalize(w1),
        spec_upper_camel_case(w1 + seq![sep] + w2) == capitalize(w1) + seq!['-'] + capitalize(w2),
{
    let e = Seq::<char>::empty();
    lemma_split_words_append(e, w1);
    assert(e + w1 == w1);
    assert(split_words(e) == seq![e]);
    let ws1 = split_words(w1);
    assert(ws1 == seq![w1]);
    let x = w1 + seq![sep];
    assert(x.drop_last() == w1);
    assert(split_words(x) == seq![w1, e]);
    lemma_split_words_append(x, w2);
    let ws2 = split_words(x + w2);
    assert(ws2 == seq![w1, w2]);
    assert(w1 + seq![sep] + w2 == x + w2);
    reveal(Seq::filter);
    lemma_nonempty_words_push(Seq::<Seq<char>>::empty(), w1);
    assert(seq![w1] == Seq::<Seq<char>>::empty().push(w1));
    assert(nonempty_words(Seq::<Seq<char>>::empty()) == Seq::<Seq<char>>::empty());
    assert(nonempty_words(seq![w1]) == seq![w1]);
    lemma_nonempty_words_push(seq![w1], w2);
    assert(seq![w1, w2] == seq![w1].push(w2));
    assert(nonempty_words(seq![w1, w2]) == seq![w1, w2]);
    let cap = |w: Seq<char>| capitalize(w);
    assert(seq![w1].map_values(cap) == seq![capitalize(w1)]);
    assert(seq![w1, w2].map_values(cap) == seq![capitalize(w1), capitalize(w2)]);
    lemma_join_dash_push(seq![capitalize(w1)], capitalize(w2));
    assert(seq![capitalize(w1)].push(capitalize(w2)) == seq![capitalize(w1), capitalize(w2)]);
}

/// Capitalises a non-empty word.
fn capitalize_word(w: &Vec<char>) -> (r: String)
    requires
        w@.len() > 0,
    ensures
        r@ == capitalize(w@),
{
    let mut r = to_uppercase(w[0]);
    let mut k: usize = 1;
    while k < w.len()
        invariant
            1 <= k <= w@.len(),
            r@ == char_to_uppercase(w@[0]) + w@.subrange(1, k as int),
        decreases w@.len() - k,
    {
        push_char(&mut r, w[k]);
        assert(w@.subrange(1, k + 1) == w@.subrange(1, k as int).push(w@[k as int]));
        k = k + 1;
    }
    assert(w@.subrange(1, w@.len() as int) == w@.drop_first());
    r
}

/// Converts `snake_case`/`kebab-case` to `Upper-Camel-Case` (words joined by `-`).
pub fn upper_camel_case(input: &str) -> (out: String)
    ensures
        out@ == spec_upper_camel_case(input@),
{
    let cs = chars_of(input);
    let ghost s = input@;
    let ghost cap = |w: Seq<char>| capitalize(w);
    let mut out = String::new();
    let mut cur: Vec<char> = Vec::new();
    let mut count: usize = 0;
    let mut i: usize = 0;
    proof {
        assert(s.take(0) == Seq::<char>::empty());
        reveal(Seq::filter);
        assert(split_words(s.take(0)).drop_last() == Seq::<Seq<char>>::empty());
    }
    while i < cs.len()
        invariant
            cs@ == s,
            cap == (|w: Seq<char>| capitalize(w)),
            i <= s.len(),
            count <= i,
            split_words(s.take(i as int)).len() >= 1,
            split_words(s.take(i as int)).last() == cur@,
            nonempty_words(split_words(s.take(i as int)).drop_last()).len() == count,
            out@ == join_dash(
                nonempty_words(split_words(s.take(i as int)).drop_last()).map_values(cap),
            ),
        decreases s.len() - i,
    {
        let c = cs[i];
        let ghost ws = split_words(s.take(i as int));
        proof {
            assert(s.take(i + 1).drop_last() == s.take(i as int));
            assert(s.take(i + 1).last() == c);
            lemma_split_words_nonempty(s.take(i as int));
        }
        if c == '_' || c == '-' {
            let ghost done = nonempty_words(ws.drop_last());
            let ghost ws2 = split_words(s.take(i + 1));
            assert(ws2 == ws.push(Seq::empty()));
            assert(ws2.drop_last() == ws);
            assert(ws == ws.drop_last().push(cur@));
            proof {
                lemma_nonempty_words_push(ws.drop_last(), cur@);
            }
            if cur.len() > 0 {
                let word = capitalize_word(&cur);
                proof {
                    assert(done.push(cur@).map_values(cap) == done.map_values(cap).push(
                        capitalize(cur@),
                    ));
                    lemma_join_dash_push(done.map_values(cap), capitalize(cur@));
                }
                if count > 0 {
                    push_char(&mut out, '-');
                }
                push_str(&mut out, word.as_str());
                count = count + 1;
            }
            cur = Vec::new();
        } else {
            let ghost ws2 = split_words(s.take(i + 1));
            assert(ws2 == ws.update(ws.len() - 1, ws.last().push(c)));
            assert(ws2.drop_last() == ws.drop_last());
            cur.push(c);
        }
        i = i + 1;
    }
    proof {
        assert(s.take(s.len() as int) == s);
        let ws = split_words(s);
        lemma_split_words_nonempty(s);
        assert(ws == ws.drop_last().push(cur@));
        lemma_nonempty_words_push(ws.drop_last(), cur@);
    }
    if cur.len() > 0 {
        let ghost done = nonempty_words(split_words(s).drop_last());
        let word = capitalize_word(&cur);
        proof {
            assert(done.push(cur@).map_values(cap) == done.map_values(cap).push(
                capitalize(cur@),
            ));
            lemma_join_dash_push(done.map_values(cap), capitalize(cur@));
        }
        if count > 0 {
            push_char(&mut out, '-');
        }
        push_str(&mut out, word.as_str());
    }
    out
}

/// `X-MyField` header name for a snake_case field, unless renamed.
pub fn header_name(ident: &str, rename: Option<&str>) -> (h: String)
    ensures
        rename matches Some(r) ==> h@ == spec_header_name(ident@, Some(r@)),
        rename is None ==> h@ == spec_header_name(ident@, None),
{
    match rename {
        Some(r) => crate::text::owned(r),
        None => {
            let mut h = String::new();
            push_str(&mut h, "X-");
            proof {
                reveal_strlit("X-");
            }
            let camel = upper_camel_case(ident);
            push_str(&mut h, camel.as_str());
            h
        },
    }
}


/// The text of a `#[schema(...)]` rename, if any.
pub open spec fn rename_view(a: SchemaAttr) -> Option<Seq<char>> {
    opt_view(a.rename)
}

/// The header name under which a header field is looked up (lower case, as
/// HTTP header maps store names).
pub open spec fn spec_header_lookup_name(ident: Seq<char>, rename: Option<Seq<char>>) -> Seq<char> {
    ascii_lowercase(spec_header_name(ident, rename))
}

/// The lower-case header name a header field is read from.
pub fn header_lookup_name(ident: &str, rename: Option<&str>) -> (h: String)
    ensures
        rename matches Some(r) ==> h@ == spec_header_lookup_name(ident@, Some(r@)),
        rename is None ==> h@ == spec_header_lookup_name(ident@, None),
{
    let name = header_name(ident, rename);
    to_ascii_lowercase(name.as_str())
}

/// Parsed `#[schema(...)]` settings of a field or of a container, with
/// literal values already turned into JSON values.
///
/// `minimum` and `maximum` hold the IEEE-754 bit patterns of the `f64` bounds.
pub struct SchemaAttr {
    pub source: Option<Source>,
    pub example: Option<serde_json::Value>,
    pub description: Option<String>,
    pub status_code: Option<u16>,
    pub rename: Option<String>,
    pub required: Option<bool>,
    pub default: Option<serde_json::Value>,
    pub format: Option<String>,
    pub deprecated: bool,
    pub minimum: Option<u64>,
    pub maximum: Option<u64>,
    pub min_length: Option<usize>,
    pub max_length: Option<usize>,
    pub pattern: Option<String>,
    pub title: Option<String>,
}

impl Default for SchemaAttr {
    fn default() -> (a: SchemaAttr)
        ensures
            a == SchemaAttr::empty(),
    {
        SchemaAttr {
            source: None,
            example: None,
            description: None,
            status_code: None,
            rename: None,
            required: None,
            default: None,
            format: None,
            deprecated: false,
            minimum: None,
            maximum: None,
            min_length: None,
            max_length: None,
            pattern: None,
            title: None,
        }
    }
}

impl SchemaAttr {
    /// No settings.
    pub open spec fn empty() -> SchemaAttr {
        SchemaAttr {
            source: None,
            example: None,
            description: None,
            status_code: None,
            rename: None,
            required: None,
            default: None,
            format: None,
            deprecated: false,
            minimum: None,
            maximum: None,
            min_length: None,
            max_length: None,
            pattern: None,
            title: None,
        }
    }
}

/// One named field of a request or response struct: its name, whether its
/// type is an `Option`, the schema of its type and its `#[schema(...)]`
/// settings.
pub struct FieldSpec {
    pub ident: String,
    pub is_option: bool,
    pub schema: Schema,
    pub attrs: SchemaAttr,
}

/// The source a field is read from (the body unless set).
pub open spec fn field_source(f: FieldSpec) -> Source {
    match f.attrs.source {
        Some(s) => s,
        None => Source::Body,
    }
}

/// The name a field has in the document and on the wire.
pub open spec fn property_name(f: FieldSpec) -> Seq<char> {
    match f.attrs.rename {
        Some(r) => r@,
        None => f.ident@,
    }
}

/// Whether a field is required: a non-`Option` field unless
/// `required = false` is set.
pub open spec fn field_required(f: FieldSpec) -> bool {
    !f.is_option && match f.attrs.required {
        Some(r) => r,
        None => true,
    }
}

/// The field's type schema with the `#[schema(...)]` settings applied.
pub open spec fn decorate(base: Schema, a: SchemaAttr) -> Schema {
    Schema {
        description: overwrite(base.description, a.description),
        example: overwrite(base.example, a.example),
        format: overwrite(base.format, a.format),
        title: overwrite(base.title, a.title),
        default: overwrite(base.default, a.default),
        deprecated: base.deprecated || a.deprecated,
        minimum: overwrite(base.minimum, a.minimum),
        maximum: overwrite(base.maximum, a.maximum),
        min_length: overwrite(base.min_length, a.min_length),
        max_length: overwrite(base.max_length, a.max_length),
        pattern: overwrite(base.pattern, a.pattern),
        ..base
    }
}

/// Applies a field's `#[schema(...)]` settings to the schema of its type.
pub fn decorated_schema(base: Schema, attrs: &SchemaAttr) -> (s: Schema)
    ensures
        s == decorate(base, *attrs),
{
    let mut s = base;
    if attrs.description.is_some() {
        s.description = attrs.description.clone();
    }
    if attrs.example.is_some() {
        s.example = attrs.example.clone();
    }
    if attrs.format.is_some() {
        s.format = attrs.format.clone();
    }
    if attrs.title.is_some() {
        s.title = attrs.title.clone();
    }
    if attrs.default.is_some() {
        s.default = attrs.default.clone();
    }
    if attrs.deprecated {
        s.deprecated = true;
    }
    if attrs.minimum.is_some() {
        s.minimum = attrs.minimum;
    }
    if attrs.maximum.is_some() {
        s.maximum = attrs.maximum;
    }
    if attrs.min_length.is_some() {
        s.min_length = attrs.min_length;
    }
    if attrs.max_length.is_some() {
        s.max_length = attrs.max_length;
    }
    if attrs.pattern.is_some() {
        s.pattern = attrs.pattern.clone();
    }
    s
}

/// Every setting a field carries shows up in its schema: each of the
/// description, example, format, title, default, bounds, lengths and pattern
/// is the setting's value when set and the type schema's otherwise; a field
/// marked deprecated is deprecated; nothing else of the type schema changes.
pub proof fn lemma_decorate_applies_settings(base: Schema, a: SchemaAttr)
    ensures
        a.description is Some ==> decorate(base, a).description == a.description,
        a.description is None ==> decorate(base, a).description == base.description,
        a.example is Some ==> decorate(base, a).example == a.example,
        a.example is None ==> decorate(base, a).example == base.example,
        a.format is Some ==> decorate(base, a).format == a.format,
        a.format is None ==> decorate(base, a).format == base.format,
        a.title is Some ==> decorate(base, a).title == a.title,
        a.title is None ==> decorate(base, a).title == base.title,
        a.default is Some ==> decorate(base, a).default == a.default,
        a.default is None ==> decorate(base, a).default == base.default,
        a.minimum is Some ==> decorate(base, a).minimum == a.minimum,
        a.minimum is None ==> decorate(base, a).minimum == base.minimum,
        a.maximum is Some ==> decorate(base, a).maximum == a.maximum,
        a.maximum is None ==> decorate(base, a).maximum == base.maximum,
        a.min_length is Some ==> decorate(base, a).min_length == a.min_length,
        a.min_length is None ==> decorate(base, a).min_length == base.min_length,
        a.max_length is Some ==> decorate(base, a).max_length == a.max_length,
        a.max_length is None ==> decorate(base, a).max_length == base.max_length,
        a.pattern is Some ==> decorate(base, a).pattern == a.pattern,
        a.pattern is None ==> decorate(base, a).pattern == base.pattern,
        decorate(base, a).deprecated == (base.deprecated || a.deprecated),
        decorate(base, a).reference == base.reference,
        decorate(base, a).schema_type == base.schema_type,
        decorate(base, a).nullable == base.nullable,
        decorate(base, a).required == base.required,
        decorate(base, a).properties == base.properties,
        decorate(base, a).items == base.items,
        decorate(base, a).multiple_of == base.multiple_of,
        decorate(base, a).min_items == base.min_items,
        decorate(base, a).max_items == base.max_items,
        decorate(base, a).enum_values == base.enum_values,
        decorate(base, a).all_of == base.all_of,
        decorate(base, a).one_of == base.one_of,
        decorate(base, a).any_of == base.any_of,
        decorate(base, a).additional_properties == base.additional_properties,
{
}

/// How a field's settings decide where it is read from, what it is called
/// and whether it is required: the body unless a source is set; the rename if
/// given, else the field's own name; required unless the type is an `Option`
/// or `required = false` is set.
pub proof fn lemma_field_rules(f: FieldSpec)
    ensures
        f.attrs.source is None ==> field_source(f) == Source::Body,
        f.attrs.source matches Some(src) ==> field_source(f) == src,
        f.attrs.rename matches Some(r) ==> property_name(f) == r@,
        f.attrs.rename is None ==> property_name(f) == f.ident@,
        f.is_option ==> !field_required(f),
        !f.is_option && f.attrs.required is None ==> field_required(f),
        !f.is_option && f.attrs.required == Some(true) ==> field_required(f),
        f.attrs.required == Some(false) ==> !field_required(f),
        parameter_in(Source::Query) == ParameterIn::Query,
        parameter_in(Source::Path) == ParameterIn::Path,
        parameter_in(Source::Header) == ParameterIn::Header,
{
}

/// A renamed header keeps its rename; any other header name is `X-`
/// followed by the field name in `Upper-Camel-Case`.
pub proof fn lemma_header_name_prefix(ident: Seq<char>, rename: Option<Seq<char>>)
    ensures
        rename matches Some(r) ==> spec_header_name(ident, rename) == r,
        rename is None ==> spec_header_name(ident, rename).len() >= 2,
        rename is None ==> spec_header_name(ident, rename)[0] == 'X',
        rename is None ==> spec_header_name(ident, rename)[1] == '-',
        rename is None ==> spec_header_name(ident, rename).skip(2) == spec_upper_camel_case(ident),
{
    if rename is None {
        let h = spec_header_name(ident, rename);
        assert(h.skip(2) =~= spec_upper_camel_case(ident));
    }
}

/// A response is `200` with description `OK` unless its settings say
/// otherwise, and takes the status code and description set.
pub proof fn lemma_response_defaults(a: SchemaAttr)
    ensures
        a.status_code is None ==> spec_response_status(a) == 200,
        a.status_code matches Some(c) ==> spec_response_status(a) == c,
        a.description is None ==> spec_response_description(a) == "OK"@,
        a.description matches Some(d) ==> spec_response_description(a) == d@,
{
}

/// Filtering a sequence with one more element.
pub proof fn lemma_filter_push<A>(s: Seq<A>, x: A, p: spec_fn(A) -> bool)
    ensures
        s.push(x).filter(p) == if p(x) {
            s.filter(p).push(x)
        } else {
            s.filter(p)
        },
{
    reveal(Seq::filter);
    assert(s.push(x).drop_last() == s);
}

/// The fields documented as parameters (query, path and header fields), in order.
pub open spec fn param_fields(fs: Seq<FieldSpec>) -> Seq<FieldSpec> {
    fs.filter(|f: FieldSpec| field_source(f) != Source::Body)
}

/// The fields carried in the JSON body, in order.
pub open spec fn body_fields(fs: Seq<FieldSpec>) -> Seq<FieldSpec> {
    fs.filter(|f: FieldSpec| field_source(f) == Source::Body)
}

/// The names of the required fields, in order.
pub open spec fn required_names(fs: Seq<FieldSpec>) -> Seq<Seq<char>> {
    fs.filter(|f: FieldSpec| field_required(f)).map_values(|f: FieldSpec| property_name(f))
}

/// Each field's name with its decorated schema, in order.
pub open spec fn property_pairs(fs: Seq<FieldSpec>) -> Seq<(Seq<char>, Schema)> {
    fs.map_values(|f: FieldSpec| (property_name(f), decorate(f.schema, f.attrs)))
}

/// An object schema with the given properties (inserted in order) and
/// required names.
pub open spec fn object_view(pairs: Seq<(Seq<char>, Schema)>, required: Seq<Seq<char>>) -> SchemaView {
    SchemaView {
        schema_type: Some(SchemaType::Object),
        properties: insert_all(Seq::<(Seq<char>, Schema)>::empty(), pairs),
        required: required,
        ..SchemaView::empty()
    }
}

/// Where a parameter field appears.
pub open spec fn parameter_in(s: Source) -> ParameterIn {
    match s {
        Source::Path => ParameterIn::Path,
        Source::Header => ParameterIn::Header,
        _ => ParameterIn::Query,
    }
}

/// `p` documents the parameter field `f`: its name (the header name for a
/// header field), location, whether it is required (path parameters always
/// are), description, example and decorated schema.
pub open spec fn documents_param(p: Parameter, f: FieldSpec) -> bool {
    &&& p.name@ == (if field_source(f) == Source::Header {
        spec_header_name(f.ident@, rename_view(f.attrs))
    } else {
        property_name(f)
    })
    &&& p.location == parameter_in(field_source(f))
    &&& p.required == (field_source(f) == Source::Path || field_required(f))
    &&& p.description == f.attrs.description
    &&& p.example == f.attrs.example
    &&& p.schema == Some(decorate(f.schema, f.attrs))
}

/// `b` is the request body of `fields`: required when some body field is,
/// with no description, and JSON content whose schema is the object of the
/// body fields.
pub open spec fn documents_body(b: RequestBody, fields: Seq<FieldSpec>) -> bool {
    let body = body_fields(fields);
    &&& b.required == (required_names(body).len() > 0)
    &&& b.description is None
    &&& b.content.json matches Some(m)
    &&& m.example is None
    &&& m.schema matches Some(s)
    &&& s@ == object_view(property_pairs(body), required_names(body))
}

/// The property name of a field.
fn field_property_name(ident: &String, attrs: &SchemaAttr) -> (n: String)
    ensures
        n@ == (match attrs.rename {
            Some(r) => r@,
            None => ident@,
        }),
{
    match &attrs.rename {
        Some(r) => r.clone(),
        None => ident.clone(),
    }
}

/// Whether a field is required.
fn field_is_required(is_option: bool, attrs: &SchemaAttr) -> (b: bool)
    ensures
        b == (!is_option && match attrs.required {
            Some(r) => r,
            None => true,
        }),
{
    !is_option && match attrs.required {
        Some(r) => r,
        None => true,
    }
}

/// The OpenAPI parameters and request body of a request struct.
///
/// Query, path and header fields become parameters, in field order; body
/// fields become the properties of the JSON request body, which is present
/// only when there are body fields and required when some body field is.
pub fn request_schema(fields: Vec<FieldSpec>) -> (r: (Vec<Parameter>, Option<RequestBody>))
    ensures
        r.0@.len() == param_fields(fields@).len(),
        forall|j: int| 0 <= j < r.0@.len() ==> documents_param(#[trigger] r.0@[j], param_fields(fields@)[j]),
        r.1 is None <==> body_fields(fields@).len() == 0,
        r.1 matches Some(b) ==> documents_body(b, fields@),
{
    let ghost fs = fields@;
    let mut params: Vec<Parameter> = Vec::new();
    let mut body_props: Vec<(String, Schema)> = Vec::new();
    let mut body_required: Vec<String> = Vec::new();
    let mut has_required_body = false;
    let ghost body_pred = |f: FieldSpec| field_source(f) == Source::Body;
    let ghost param_pred = |f: FieldSpec| field_source(f) != Source::Body;
    let ghost req_pred = |f: FieldSpec| field_required(f);
    let ghost name_of = |f: FieldSpec| property_name(f);
    let ghost pair_of = |f: FieldSpec| (property_name(f), decorate(f.schema, f.attrs));
    assert(fs.take(0) == Seq::<FieldSpec>::empty());
    proof {
        reveal(Seq::filter);
    }
    for f in it: fields.into_iter()
        invariant
            it.seq() == fs,
            body_pred == (|f: FieldSpec| field_source(f) == Source::Body),
            param_pred == (|f: FieldSpec| field_source(f) != Source::Body),
            req_pred == (|f: FieldSpec| field_required(f)),
            name_of == (|f: FieldSpec| property_name(f)),
            pair_of == (|f: FieldSpec| (property_name(f), decorate(f.schema, f.attrs))),
            params@.len() == param_fields(fs.take(it.index() as int)).len(),
            forall|j: int| 0 <= j < params@.len() ==> documents_param(#[trigger] params@[j], param_fields(fs.take(it.index() as int))[j]),
            body_props@.map_values(|e: (String, Schema)| (e.0@, e.1)) == property_pairs(body_fields(fs.take(it.index() as int))),
            body_required@.map_values(|r: String| r@) == required_names(body_fields(fs.take(it.index() as int))),
            has_required_body == (body_required@.len() > 0),
    {
        let ghost i = it.index();
        let ghost pre = fs.take(i as int);
        let ghost ff = f;
        proof {
            assert(fs.take(i + 1) == pre.push(ff));
            lemma_filter_push(pre, ff, param_pred);
            lemma_filter_push(pre, ff, body_pred);
            lemma_filter_push(body_fields(pre), ff, req_pred);
        }
        let FieldSpec { ident, is_option, schema, attrs } = f;
        let source = match attrs.source {
            Some(s) => s,
            None => Source::Body,
        };
        let required = field_is_required(is_option, &attrs);
        let name = field_property_name(&ident, &attrs);
        let schema = decorated_schema(schema, &attrs);
        let ghost old_params = params@;
        match source {
            Source::Query => {
                params.push(Parameter {
                    name,
                    location: ParameterIn::Query,
                    required,
                    description: attrs.description,
                    example: attrs.example,
                    schema: Some(schema),
                });
            },
            Source::Path => {
                params.push(Parameter {
                    name,
                    location: ParameterIn::Path,
                    required: true,
                    description: attrs.description,
                    example: attrs.example,
                    schema: Some(schema),
                });
            },
            Source::Header => {
                let header = match &attrs.rename {
                    Some(r) => header_name(ident.as_str(), Some(r.as_str())),
                    None => header_name(ident.as_str(), None),
                };
                params.push(Parameter {
                    name: header,
                    location: ParameterIn::Header,
                    required,
                    description: attrs.description,
                    example: attrs.example,
                    schema: Some(schema),
                });
            },
            Source::Body => {
                let ghost old_props = body_props@;
                let ghost old_req = body_required@;
                if required {
                    body_required.push(name.clone());
                    has_required_body = true;
                    assert(body_required@.map_values(|r: String| r@) == old_req.map_values(|r: String| r@).push(name@));
                    assert(body_fields(pre).push(ff).filter(req_pred) == body_fields(pre).filter(req_pred).push(ff));
                    assert(body_fields(pre).push(ff).filter(req_pred).map_values(name_of) == body_fields(pre).filter(req_pred).map_values(name_of).push(name_of(ff)));
                }
                body_props.push((name, schema));
                assert(body_props@.map_values(|e: (String, Schema)| (e.0@, e.1)) == old_props.map_values(|e: (String, Schema)| (e.0@, e.1)).push(pair_of(ff)));
                assert(body_fields(pre).push(ff).map_values(pair_of) == body_fields(pre).map_values(pair_of).push(pair_of(ff)));
            },
        }
        proof {
            if field_source(ff) != Source::Body {
                assert forall|j: int| 0 <= j < params@.len() implies documents_param(#[trigger] params@[j], param_fields(fs.take(i + 1))[j]) by {
                    if j < old_params.len() {
                        assert(params@[j] == old_params[j]);
                    }
                }
            } else {
                assert(params@ == old_params);
            }
        }
    }
    proof {
        assert(fs.take(fs.len() as int) == fs);
    }
    if body_props.len() == 0 {
        assert(body_fields(fs).len() == 0);
        (params, None)
    } else {
        let object = Schema::object(body_props, body_required);
        (params, Some(RequestBody { required: has_required_body, description: None, content: Content::json(object) }))
    }
}

/// The component schema of a struct: an object with every field as a
/// property (named and decorated as set) and the required fields listed.
pub fn struct_component(fields: Vec<FieldSpec>) -> (s: Schema)
    ensures
        s@ == object_view(property_pairs(fields@), required_names(fields@)),
{
    let ghost fs = fields@;
    let ghost req_pred = |f: FieldSpec| field_required(f);
    let ghost name_of = |f: FieldSpec| property_name(f);
    let ghost pair_of = |f: FieldSpec| (property_name(f), decorate(f.schema, f.attrs));
    let mut props: Vec<(String, Schema)> = Vec::new();
    let mut required: Vec<String> = Vec::new();
    assert(fs.take(0) == Seq::<FieldSpec>::empty());
    proof {
        reveal(Seq::filter);
    }
    for f in it: fields.into_iter()
        invariant
            it.seq() == fs,
            req_pred == (|f: FieldSpec| field_required(f)),
            name_of == (|f: FieldSpec| property_name(f)),
            pair_of == (|f: FieldSpec| (property_name(f), decorate(f.schema, f.attrs))),
            props@.map_values(|e: (String, Schema)| (e.0@, e.1)) == property_pairs(fs.take(it.index() as int)),
            required@.map_values(|r: String| r@) == required_names(fs.take(it.index() as int)),
    {
        let ghost i = it.index();
        let ghost pre = fs.take(i as int);
        let ghost ff = f;
        proof {
            assert(fs.take(i + 1) == pre.push(ff));
            lemma_filter_push(pre, ff, req_pred);
        }
        let FieldSpec { ident, is_option, schema, attrs } = f;
        let is_required = field_is_required(is_option, &attrs);
        let name = field_property_name(&ident, &attrs);
        let schema = decorated_schema(schema, &attrs);
        let ghost old_req = required@;
        let ghost old_props = props@;
        if is_required {
            required.push(name.clone());
            assert(required@.map_values(|r: String| r@) == old_req.map_values(|r: String| r@).push(name@));
            assert(pre.push(ff).filter(req_pred).map_values(name_of) == pre.filter(req_pred).map_values(name_of).push(name_of(ff)));
        }
        props.push((name, schema));
        assert(props@.map_values(|e: (String, Schema)| (e.0@, e.1)) == old_props.map_values(|e: (String, Schema)| (e.0@, e.1)).push(pair_of(ff)));
        assert(pre.push(ff).map_values(pair_of) == pre.map_values(pair_of).push(pair_of(ff)));
    }
    proof {
        assert(fs.take(fs.len() as int) == fs);
    }
    Schema::object(props, required)
}

/// The JSON string value `s`.
pub uninterp spec fn json_string_value(s: Seq<char>) -> serde_json::Value;

/// Builds `serde_json::Value::String(s)`.
#[verifier::external_body]
fn json_string(s: String) -> (v: serde_json::Value)
    ensures
        v == json_string_value(s@),
{
    serde_json::Value::String(s)
}

/// The schema of a unit-variant enum: a string restricted to the variant
/// names, in declaration order.
pub fn enum_schema(variants: Vec<String>) -> (s: Schema)
    ensures
        s@ == (SchemaView {
            schema_type: Some(SchemaType::String),
            enum_values: Some(variants@.map_values(|v: String| json_string_value(v@))),
            ..SchemaView::empty()
        }),
{
    let ghost vs = variants@;
    let mut values: Vec<serde_json::Value> = Vec::new();
    for v in it: variants.into_iter()
        invariant
            it.seq() == vs,
            values@ == vs.take(it.index() as int).map_values(|v: String| json_string_value(v@)),
    {
        let ghost i = it.index();
        values.push(json_string(v));
        assert(vs.take(i + 1) == vs.take(i as int).push(vs[i as int]));
    }
    assert(vs.take(vs.len() as int) == vs);
    let mut s = Schema::default();
    s.schema_type = Some(SchemaType::String);
    s.enum_values = Some(values);
    s
}

/// The status code of a response type (`200` unless set).
pub open spec fn spec_response_status(a: SchemaAttr) -> u16 {
    match a.status_code {
        Some(c) => c,
        None => 200,
    }
}

/// The description of a response type (`OK` unless set).
pub open spec fn spec_response_description(a: SchemaAttr) -> Seq<char> {
    match a.description {
        Some(d) => d@,
        None => "OK"@,
    }
}

/// The status code and description a response type declares with its
/// container-level `#[schema(...)]`: `200` and `OK` unless set.
pub fn response_settings(container: &SchemaAttr) -> (r: (u16, String))
    ensures
        r.0 == spec_response_status(*container),
        r.1@ == spec_response_description(*container),
{
    let status = match container.status_code {
        Some(c) => c,
        None => 200,
    };
    let description = match &container.description {
        Some(d) => d.clone(),
        None => crate::text::owned("OK"),
    };
    (status, description)
}

} // verus!
