//! Global properties of the rendering pipeline, stated and proved over the
//! spec functions that the executable functions' contracts use.

use vstd::prelude::*;

use crate::markdown::{
    distinct_indices, docs_list, docs_rec, is_query_bound, name_in, prop_views, query_order,
    sorted_by_name, spec_document, spec_url_fields, url_owner,
};
use crate::model::{canonical_parts, ServiceSpec, ServiceSpecV, SpecPropV, URLPart};

verus! {

/// Law: rendering is deterministic.  The document (and with it the resolved
/// URL template) is a function of the spec's mathematical content alone, so
/// specs with identical content render byte-identical documents on every
/// run.
pub proof fn lemma_render_deterministic(a: ServiceSpec, b: ServiceSpec)
    requires
        a@ == b@,
    ensures
        spec_document(a@) == spec_document(b@),
{
}

/// A role's owner is always a URL-positional property that declares the
/// role, at an index below `n`.
pub proof fn lemma_url_owner_props(props: Seq<SpecPropV>, part: URLPart, n: int)
    requires
        n <= props.len(),
        props.len() <= usize::MAX,
    ensures
        url_owner(props, part, n) matches Some(y) ==> y < n && !is_query_bound(
            props[y as int],
        ) && props[y as int].url_parts.contains(part),
    decreases n,
{
    if n > 0 {
        lemma_url_owner_props(props, part, n - 1);
    }
}

/// Law: a property that occupies no URL role never appears in the URL
/// Fields mapping; it always appears among the query-bound properties,
/// which are sorted by name and hold each property at most once.
pub proof fn lemma_query_round_trip(s: ServiceSpecV, i: usize)
    requires
        i < s.props.len(),
        s.props.len() <= usize::MAX,
        prop_views(s.props)[i as int].url_parts.len() == 0,
    ensures
        forall|k: int| 0 <= k < 11 ==> spec_url_fields(s)[k] != Some(i),
        query_order(prop_views(s.props), s.props.len() as int).contains(i),
        sorted_by_name(
            prop_views(s.props),
            query_order(prop_views(s.props), s.props.len() as int),
        ),
        distinct_indices(query_order(prop_views(s.props), s.props.len() as int)),
{
    let pv = prop_views(s.props);
    let n = s.props.len() as int;
    crate::markdown::lemma_query_order(pv, n);
    assert forall|k: int| 0 <= k < 11 implies spec_url_fields(s)[k] != Some(i) by {
        lemma_url_owner_props(pv, canonical_parts()[k], n);
    }
}

/// Property names are pairwise distinct in a well-formed spec: the names
/// equal the keys, and the keys are unique.
pub proof fn lemma_wf_names_unique(s: ServiceSpecV)
    requires
        s.wf(),
    ensures
        forall|i: int, j: int|
            0 <= i < j < s.props.len() ==> prop_views(s.props)[i].name != prop_views(
                s.props,
            )[j].name,
{
    assert forall|i: int, j: int| 0 <= i < j < s.props.len() implies prop_views(s.props)[i].name
        != prop_views(s.props)[j].name by {
        assert(s.props[i].1.name == s.props[i].0);
        assert(s.props[j].1.name == s.props[j].0);
    }
}

spec fn names_unique(props: Seq<SpecPropV>) -> bool {
    forall|i: int, j: int|
        0 <= i < j < props.len() ==> props[i].name != props[j].name
}

proof fn lemma_docs_rec_once(
    props: Seq<SpecPropV>,
    urls: Seq<Option<usize>>,
    k: int,
    acc: Seq<usize>,
)
    requires
        urls.len() == 11,
        0 <= k <= 11,
        names_unique(props),
        forall|m: int| 0 <= m < 11 && urls[m] is Some ==> urls[m]->0 < props.len(),
        distinct_indices(acc),
        forall|j: int| 0 <= j < acc.len() ==> acc[j] < props.len(),
        forall|y: usize|
            acc.contains(y) ==> exists|m: int| 0 <= m < k && urls[m] == Some(y),
        forall|m: int|
            0 <= m < k && #[trigger] urls[m] is Some ==> acc.contains(urls[m]->0),
    ensures
        distinct_indices(docs_rec(props, urls, k, acc)),
        forall|j: int|
            0 <= j < docs_rec(props, urls, k, acc).len() ==> docs_rec(props, urls, k, acc)[j]
                < props.len(),
        forall|y: usize|
            docs_rec(props, urls, k, acc).contains(y) <==> exists|m: int|
                0 <= m < 11 && urls[m] == Some(y),
    decreases 11 - k,
{
    if k >= 11 {
        assert forall|y: usize| acc.contains(y) <==> exists|m: int|
            0 <= m < 11 && urls[m] == Some(y) by {
            if exists|m: int| 0 <= m < 11 && urls[m] == Some(y) {
                let m = choose|m: int| 0 <= m < 11 && urls[m] == Some(y);
                assert(urls[m] is Some);
                assert(acc.contains(urls[m]->0));
            }
        }
    } else {
        match urls[k] {
            None => {
                assert forall|m: int| 0 <= m < k + 1 && #[trigger] urls[m] is Some implies
                    acc.contains(urls[m]->0) by {}
                lemma_docs_rec_once(props, urls, k + 1, acc);
            },
            Some(i) => {
                if name_in(props, acc, props[i as int].name) {
                    // Under unique names, a matching name in `acc` is `i`
                    // itself: the property is already listed.
                    let j = choose|j: int|
                        0 <= j < acc.len() && props[acc[j] as int].name == props[i as int].name;
                    assert(acc[j] == i);
                    assert(acc.contains(i)) by {
                        assert(acc[j] == i);
                    }
                    lemma_docs_rec_once(props, urls, k + 1, acc);
                } else {
                    let acc2 = acc.push(i);
                    assert(!acc.contains(i)) by {
                        if acc.contains(i) {
                            let j = choose|j: int| 0 <= j < acc.len() && acc[j] == i;
                            assert(props[acc[j] as int].name == props[i as int].name);
                        }
                    }
                    assert(distinct_indices(acc2)) by {
                        assert forall|a: int, b: int| 0 <= a < b < acc2.len() implies acc2[a]
                            != acc2[b] by {
                            if b < acc.len() {
                                assert(acc2[a] == acc[a] && acc2[b] == acc[b]);
                            } else {
                                assert(acc2[b] == i);
                                assert(acc.contains(acc[a]));
                            }
                        }
                    }
                    assert forall|y: usize| acc2.contains(y) implies exists|m: int|
                        0 <= m < k + 1 && urls[m] == Some(y) by {
                        let j = choose|j: int| 0 <= j < acc2.len() && acc2[j] == y;
                        if j < acc.len() {
                            assert(acc.contains(y));
                            let m = choose|m: int| 0 <= m < k && urls[m] == Some(y);
                            assert(0 <= m < k + 1 && urls[m] == Some(y));
                        } else {
                            assert(y == i);
                            assert(urls[k] == Some(y));
                        }
                    }
                    assert forall|m: int| 0 <= m < k + 1 && #[trigger] urls[m] is Some implies
                        acc2.contains(urls[m]->0) by {
                        if m < k {
                            assert(acc.contains(urls[m]->0));
                            let j = choose|j: int|
                                0 <= j < acc.len() && acc[j] == urls[m]->0;
                            assert(acc2[j] == urls[m]->0);
                        } else {
                            assert(acc2[acc.len() as int] == i);
                        }
                    }
                    lemma_docs_rec_once(props, urls, k + 1, acc2);
                }
            },
        }
    }
}

/// Law: in a well-formed spec, every property that owns at least one URL
/// role is documented exactly once in the URL Fields section — its index
/// appears in the documentation list, and that list holds no index twice.
/// (Each listed property's annotation emphasizes exactly the roles in its
/// own `url_parts`: see `url_blocks` and `emphasized`.)
pub proof fn lemma_url_docs_once(s: ServiceSpecV, i: usize)
    requires
        s.wf(),
        s.props.len() <= usize::MAX,
        exists|k: int| 0 <= k < 11 && spec_url_fields(s)[k] == Some(i),
    ensures
        docs_list(prop_views(s.props), spec_url_fields(s)).contains(i),
        distinct_indices(docs_list(prop_views(s.props), spec_url_fields(s))),
{
    let pv = prop_views(s.props);
    let urls = spec_url_fields(s);
    lemma_wf_names_unique(s);
    assert forall|m: int| 0 <= m < 11 && urls[m] is Some implies urls[m]->0 < pv.len() by {
        lemma_url_owner_props(pv, canonical_parts()[m], s.props.len() as int);
    }
    lemma_docs_rec_once(pv, urls, 0, Seq::empty());
    assert forall|y: usize| !Seq::<usize>::empty().contains(y) by {}
}


/// Two role lists naming the same set of roles.
pub open spec fn parts_equiv(a: Seq<URLPart>, b: Seq<URLPart>) -> bool {
    forall|p: URLPart| a.contains(p) == b.contains(p)
}

/// Two properties equal in every field, except that their role lists may
/// order (or repeat) the same roles differently.
pub open spec fn prop_equiv(a: SpecPropV, b: SpecPropV) -> bool {
    &&& a.prop_type == b.prop_type
    &&& a.description == b.description
    &&& a.name == b.name
    &&& a.default_value == b.default_value
    &&& a.template == b.template
    &&& a.required == b.required
    &&& parts_equiv(a.url_parts, b.url_parts)
    &&& a.keys == b.keys
    &&& a.credential == b.credential
    &&& a.value_separator == b.value_separator
}

/// Two specs equal except for the order of each property's role list.
pub open spec fn spec_equiv(a: ServiceSpecV, b: ServiceSpecV) -> bool {
    &&& a.version == b.version
    &&& a.scheme == b.scheme
    &&& a.options == b.options
    &&& a.props.len() == b.props.len()
    &&& forall|i: int|
        0 <= i < a.props.len() ==> (#[trigger] a.props[i]).0 == b.props[i].0 && prop_equiv(
            a.props[i].1,
            b.props[i].1,
        )
}

proof fn lemma_qb_equiv(a: SpecPropV, b: SpecPropV)
    requires
        parts_equiv(a.url_parts, b.url_parts),
    ensures
        is_query_bound(a) == is_query_bound(b),
{
    if a.url_parts.len() > 0 {
        assert(a.url_parts.contains(a.url_parts[0]));
        assert(b.url_parts.contains(a.url_parts[0]));
    }
    if b.url_parts.len() > 0 {
        assert(b.url_parts.contains(b.url_parts[0]));
        assert(a.url_parts.contains(b.url_parts[0]));
    }
}

proof fn lemma_url_owner_equiv(p1: Seq<SpecPropV>, p2: Seq<SpecPropV>, part: URLPart, n: int)
    requires
        p1.len() == p2.len(),
        forall|i: int| 0 <= i < p1.len() ==> prop_equiv(#[trigger] p1[i], p2[i]),
        n <= p1.len(),
    ensures
        url_owner(p1, part, n) == url_owner(p2, part, n),
    decreases n,
{
    if n > 0 {
        lemma_qb_equiv(p1[n - 1], p2[n - 1]);
        lemma_url_owner_equiv(p1, p2, part, n - 1);
    }
}

proof fn lemma_insert_equiv(p1: Seq<SpecPropV>, p2: Seq<SpecPropV>, s: Seq<usize>, x: usize)
    requires
        p1.len() == p2.len(),
        forall|i: int| 0 <= i < p1.len() ==> prop_equiv(#[trigger] p1[i], p2[i]),
        x < p1.len(),
        forall|j: int| 0 <= j < s.len() ==> s[j] < p1.len(),
    ensures
        crate::markdown::insert_by_name(p1, s, x) == crate::markdown::insert_by_name(p2, s, x),
    decreases s.len(),
{
    if s.len() > 0 {
        assert(s.contains(s[0]));
        assert forall|j: int| 0 <= j < s.drop_first().len() implies s.drop_first()[j]
            < p1.len() by {
            assert(s.drop_first()[j] == s[j + 1]);
        }
        lemma_insert_equiv(p1, p2, s.drop_first(), x);
    }
}

proof fn lemma_query_order_equiv(p1: Seq<SpecPropV>, p2: Seq<SpecPropV>, n: int)
    requires
        p1.len() == p2.len(),
        p1.len() <= usize::MAX,
        forall|i: int| 0 <= i < p1.len() ==> prop_equiv(#[trigger] p1[i], p2[i]),
        0 <= n <= p1.len(),
    ensures
        query_order(p1, n) == query_order(p2, n),
    decreases n,
{
    if n > 0 {
        lemma_query_order_equiv(p1, p2, n - 1);
        lemma_qb_equiv(p1[n - 1], p2[n - 1]);
        if is_query_bound(p1[n - 1]) {
            crate::markdown::lemma_query_order(p1, n - 1);
            let rest = query_order(p1, n - 1);
            assert forall|j: int| 0 <= j < rest.len() implies #[trigger] rest[j] < p1.len() by {
                assert(rest.contains(rest[j]));
            }
            lemma_insert_equiv(p1, p2, query_order(p1, n - 1), (n - 1) as usize);
        }
    }
}

proof fn lemma_rendered_prefix_hl(
    slugs: Seq<Option<(Seq<char>, Seq<char>)>>,
    h1: Seq<URLPart>,
    h2: Seq<URLPart>,
    k: int,
)
    requires
        parts_equiv(h1, h2),
    ensures
        crate::url::rendered_prefix(slugs, h1, k) == crate::url::rendered_prefix(slugs, h2, k),
    decreases k,
{
    if k > 0 {
        lemma_rendered_prefix_hl(slugs, h1, h2, k - 1);
    }
}

proof fn lemma_render_template_hl(
    slugs: Seq<Option<(Seq<char>, Seq<char>)>>,
    h1: Seq<URLPart>,
    h2: Seq<URLPart>,
)
    requires
        parts_equiv(h1, h2),
    ensures
        crate::url::spec_render_template(slugs, h1) == crate::url::spec_render_template(
            slugs,
            h2,
        ),
{
    lemma_rendered_prefix_hl(slugs, h1, h2, 11);
}

proof fn lemma_docs_rec_equiv(
    p1: Seq<SpecPropV>,
    p2: Seq<SpecPropV>,
    urls: Seq<Option<usize>>,
    k: int,
    acc: Seq<usize>,
)
    requires
        p1.len() == p2.len(),
        forall|i: int| 0 <= i < p1.len() ==> prop_equiv(#[trigger] p1[i], p2[i]),
        urls.len() == 11,
        0 <= k <= 11,
        forall|m: int| 0 <= m < 11 && urls[m] is Some ==> urls[m]->0 < p1.len(),
        forall|j: int| 0 <= j < acc.len() ==> acc[j] < p1.len(),
    ensures
        docs_rec(p1, urls, k, acc) == docs_rec(p2, urls, k, acc),
    decreases 11 - k,
{
    if k < 11 {
        match urls[k] {
            None => {
                lemma_docs_rec_equiv(p1, p2, urls, k + 1, acc);
            },
            Some(i) => {
                assert(name_in(p1, acc, p1[i as int].name) == name_in(
                    p2,
                    acc,
                    p2[i as int].name,
                )) by {
                    if name_in(p1, acc, p1[i as int].name) {
                        let j = choose|j: int|
                            0 <= j < acc.len() && p1[acc[j] as int].name == p1[i as int].name;
                        assert(p2[acc[j] as int].name == p2[i as int].name);
                    }
                    if name_in(p2, acc, p2[i as int].name) {
                        let j = choose|j: int|
                            0 <= j < acc.len() && p2[acc[j] as int].name == p2[i as int].name;
                        assert(p1[acc[j] as int].name == p1[i as int].name);
                    }
                }
                if name_in(p1, acc, p1[i as int].name) {
                    lemma_docs_rec_equiv(p1, p2, urls, k + 1, acc);
                } else {
                    assert forall|j: int| 0 <= j < acc.push(i).len() implies acc.push(i)[j]
                        < p1.len() by {
                        if j < acc.len() {
                            assert(acc.push(i)[j] == acc[j]);
                        }
                    }
                    lemma_docs_rec_equiv(p1, p2, urls, k + 1, acc.push(i));
                }
            },
        }
    }
}

proof fn lemma_docs_bounds(
    props: Seq<SpecPropV>,
    urls: Seq<Option<usize>>,
    k: int,
    acc: Seq<usize>,
)
    requires
        urls.len() == 11,
        0 <= k <= 11,
        forall|m: int| 0 <= m < 11 && urls[m] is Some ==> urls[m]->0 < props.len(),
        forall|j: int| 0 <= j < acc.len() ==> acc[j] < props.len(),
    ensures
        forall|j: int|
            0 <= j < docs_rec(props, urls, k, acc).len() ==> docs_rec(props, urls, k, acc)[j]
                < props.len(),
    decreases 11 - k,
{
    let r = docs_rec(props, urls, k, acc);
    if k < 11 {
        match urls[k] {
            None => {
                lemma_docs_bounds(props, urls, k + 1, acc);
                assert(r == docs_rec(props, urls, k + 1, acc));
                assert forall|j: int| 0 <= j < r.len() implies r[j] < props.len() by {
                    assert(docs_rec(props, urls, k + 1, acc)[j] < props.len());
                }
            },
            Some(i) => {
                if name_in(props, acc, props[i as int].name) {
                    lemma_docs_bounds(props, urls, k + 1, acc);
                    assert(r == docs_rec(props, urls, k + 1, acc));
                    assert forall|j: int| 0 <= j < r.len() implies r[j] < props.len() by {
                        assert(docs_rec(props, urls, k + 1, acc)[j] < props.len());
                    }
                } else {
                    let acc2 = acc.push(i);
                    assert forall|j: int| 0 <= j < acc2.len() implies acc2[j] < props.len() by {
                        if j < acc.len() {
                            assert(acc2[j] == acc[j]);
                        }
                    }
                    lemma_docs_bounds(props, urls, k + 1, acc2);
                    assert(r == docs_rec(props, urls, k + 1, acc2));
                    assert forall|j: int| 0 <= j < r.len() implies r[j] < props.len() by {
                        assert(docs_rec(props, urls, k + 1, acc2)[j] < props.len());
                    }
                }
            },
        }
    } else {
        assert(r == acc);
    }
}

proof fn lemma_url_blocks_equiv(
    a: ServiceSpecV,
    b: ServiceSpecV,
    urls: Seq<Option<usize>>,
    docs: Seq<usize>,
    m: int,
)
    requires
        spec_equiv(a, b),
        urls.len() == 11,
        forall|q: int| 0 <= q < 11 && urls[q] is Some ==> urls[q]->0 < a.props.len(),
        m <= docs.len(),
        forall|j: int| 0 <= j < docs.len() ==> docs[j] < a.props.len(),
    ensures
        crate::markdown::url_blocks(a, urls, docs, m) == crate::markdown::url_blocks(
            b,
            urls,
            docs,
            m,
        ),
    decreases m,
{
    if m > 0 {
        lemma_url_blocks_equiv(a, b, urls, docs, m - 1);
        let i = docs[m - 1] as int;
        assert(prop_equiv(prop_views(a.props)[i], prop_views(b.props)[i]));
        assert(crate::markdown::url_field_names(a.props, urls) =~= crate::markdown::url_field_names(
            b.props,
            urls,
        ));
        assert(crate::markdown::spec_slugs(a, urls) =~= crate::markdown::spec_slugs(b, urls));
        lemma_render_template_hl(
            crate::markdown::spec_slugs(a, urls),
            prop_views(a.props)[i].url_parts,
            prop_views(b.props)[i].url_parts,
        );
        assert(crate::fields::spec_primary(prop_views(a.props)[i]) == crate::fields::spec_primary(
            prop_views(b.props)[i],
        ));
    }
}

proof fn lemma_query_blocks_equiv(a: ServiceSpecV, b: ServiceSpecV, q: Seq<usize>, m: int)
    requires
        spec_equiv(a, b),
        m <= q.len(),
        forall|j: int| 0 <= j < q.len() ==> q[j] < a.props.len(),
    ensures
        crate::markdown::query_blocks(a.props, q, m) == crate::markdown::query_blocks(
            b.props,
            q,
            m,
        ),
    decreases m,
{
    if m > 0 {
        lemma_query_blocks_equiv(a, b, q, m - 1);
        let i = q[m - 1] as int;
        assert(prop_equiv(prop_views(a.props)[i], prop_views(b.props)[i]));
    }
}

/// Law: the canonical role order is invariant.  Two specs that differ only
/// in how each property's `url_parts` lists its roles (order or repetition,
/// same set of roles) render byte-identical documents: the template always
/// presents the roles in the fixed canonical order.
pub proof fn lemma_role_order_invariant(a: ServiceSpecV, b: ServiceSpecV)
    requires
        spec_equiv(a, b),
        a.props.len() <= usize::MAX,
    ensures
        spec_document(a) == spec_document(b),
{
    let p1 = prop_views(a.props);
    let p2 = prop_views(b.props);
    let n = a.props.len() as int;
    assert forall|i: int| 0 <= i < p1.len() implies prop_equiv(#[trigger] p1[i], p2[i]) by {
        assert(a.props[i].1 == p1[i]);
        assert(b.props[i].1 == p2[i]);
    }

    // Same role owners, hence the same URL-field mapping and slugs.
    assert forall|k: int| 0 <= k < 11 implies spec_url_fields(a)[k] == spec_url_fields(
        b,
    )[k] by {
        lemma_url_owner_equiv(p1, p2, canonical_parts()[k], n);
    }
    assert(spec_url_fields(a) =~= spec_url_fields(b));
    let urls = spec_url_fields(a);
    assert forall|q: int| 0 <= q < 11 && urls[q] is Some implies urls[q]->0 < a.props.len() by {
        lemma_url_owner_props(p1, canonical_parts()[q], n);
    }

    // Same documentation list in the URL Fields section.
    lemma_docs_rec_equiv(p1, p2, urls, 0, Seq::empty());
    let docs = docs_list(p1, urls);
    lemma_docs_bounds(p1, urls, 0, Seq::empty());
    lemma_url_blocks_equiv(a, b, urls, docs, docs.len() as int);

    // Same query list and blocks.
    lemma_query_order_equiv(p1, p2, n);
    let q = query_order(p1, n);
    crate::markdown::lemma_query_order(p1, n);
    assert forall|j: int| 0 <= j < q.len() implies q[j] < a.props.len() by {
        assert(q.contains(q[j]));
    }
    lemma_query_blocks_equiv(a, b, q, q.len() as int);
}

} // verus!
