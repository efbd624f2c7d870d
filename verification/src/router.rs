//! Assembling the served OpenAPI document and the router's settings.

use vstd::prelude::*;
use crate::openapi::{add_all_if_absent, component_entries, merge_path_entries, path_entries, path_pairs, OpenApi, PathItem};
use crate::schema::{Components, Schema};
use crate::text::owned;

verus! {

/// The address served on when none is set.
pub const DEFAULT_BIND: &'static str = "127.0.0.1:3000";

/// Without a bind address set, the router serves on `127.0.0.1:3000`.
pub proof fn lemma_default_bind()
    ensures
        DEFAULT_BIND@ == "127.0.0.1:3000"@,
{
}

/// The address to serve on: the one set, else `127.0.0.1:3000`.
pub fn bind_address(bind: Option<String>) -> (a: String)
    ensures
        bind matches Some(b) ==> a == b,
        bind is None ==> a@ == DEFAULT_BIND@,
{
    match bind {
        Some(b) => b,
        None => owned(DEFAULT_BIND),
    }
}

/// The paths and component schemas one controller contributes.
pub open spec fn contribution_view(c: (Vec<(String, PathItem)>, Components)) -> (
    Seq<(Seq<char>, PathItem)>,
    Seq<(Seq<char>, Schema)>,
) {
    (path_pairs(c.0@), c.1@)
}

/// The paths after merging each contribution in turn.
pub open spec fn merged_paths(
    s: Seq<(Seq<char>, PathItem)>,
    cs: Seq<(Seq<(Seq<char>, PathItem)>, Seq<(Seq<char>, Schema)>)>,
) -> Seq<(Seq<char>, PathItem)>
    decreases cs.len(),
{
    if cs.len() == 0 {
        s
    } else {
        merge_path_entries(merged_paths(s, cs.drop_last()), cs.last().0)
    }
}

/// The component schemas after adding each contribution's in turn.
pub open spec fn merged_components(
    s: Seq<(Seq<char>, Schema)>,
    cs: Seq<(Seq<(Seq<char>, PathItem)>, Seq<(Seq<char>, Schema)>)>,
) -> Seq<(Seq<char>, Schema)>
    decreases cs.len(),
{
    if cs.len() == 0 {
        s
    } else {
        add_all_if_absent(merged_components(s, cs.drop_last()), cs.last().1)
    }
}

/// Whether some contribution brings component schemas.
pub open spec fn some_components(cs: Seq<(Seq<(Seq<char>, PathItem)>, Seq<(Seq<char>, Schema)>)>) -> bool {
    exists|i: int| 0 <= i < cs.len() && #[trigger] cs[i].1.len() > 0
}

/// The OpenAPI document the router serves: the base document with each
/// controller's paths and component schemas merged in, in order (see
/// [`OpenApi::merge`]).
pub fn assemble_openapi(base: OpenApi, contributions: Vec<(Vec<(String, PathItem)>, Components)>) -> (d: OpenApi)
    requires
        base.wf(),
    ensures
        d.wf(),
        path_entries(d.paths) == merged_paths(
            path_entries(base.paths),
            contributions@.map_values(|c: (Vec<(String, PathItem)>, Components)| contribution_view(c)),
        ),
        component_entries(d.components) == merged_components(
            component_entries(base.components),
            contributions@.map_values(|c: (Vec<(String, PathItem)>, Components)| contribution_view(c)),
        ),
        d.components is Some <==> (base.components is Some || some_components(
            contributions@.map_values(|c: (Vec<(String, PathItem)>, Components)| contribution_view(c)),
        )),
        d.openapi == base.openapi,
        d.info == base.info,
        d.servers == base.servers,
        d.tags == base.tags,
{
    let ghost cs = contributions@.map_values(|c: (Vec<(String, PathItem)>, Components)| contribution_view(c));
    let mut doc = base;
    assert(cs.take(0) == Seq::<(Seq<(Seq<char>, PathItem)>, Seq<(Seq<char>, Schema)>)>::empty());
    for c in it: contributions.into_iter()
        invariant
            cs == it.seq().map_values(|c: (Vec<(String, PathItem)>, Components)| contribution_view(c)),
            doc.wf(),
            path_entries(doc.paths) == merged_paths(path_entries(base.paths), cs.take(it.index() as int)),
            component_entries(doc.components) == merged_components(component_entries(base.components), cs.take(it.index() as int)),
            doc.components is Some <==> (base.components is Some || some_components(cs.take(it.index() as int))),
            doc.openapi == base.openapi,
            doc.info == base.info,
            doc.servers == base.servers,
            doc.tags == base.tags,
    {
        let ghost i = it.index();
        let ghost pre = cs.take(i as int);
        let (paths, components) = c;
        assert(cs.take(i + 1).drop_last() == pre);
        assert(cs.take(i + 1).last() == (path_pairs(paths@), components@));
        doc.merge(paths, components);
        assert(some_components(cs.take(i + 1)) == (some_components(pre) || components@.len() > 0)) by {
            if some_components(pre) {
                let j = choose|j: int| 0 <= j < pre.len() && #[trigger] pre[j].1.len() > 0;
                assert(cs.take(i + 1)[j] == pre[j]);
            }
            if some_components(cs.take(i + 1)) {
                let j = choose|j: int| 0 <= j < cs.take(i + 1).len() && #[trigger] cs.take(i + 1)[j].1.len() > 0;
                if j < i {
                    assert(pre[j] == cs.take(i + 1)[j]);
                }
            }
            if components@.len() > 0 {
                assert(cs.take(i + 1)[i as int].1.len() > 0);
            }
        }
    }
    assert(cs.take(cs.len() as int) == cs);
    doc
}

} // verus!
