//! The documentation generator: classifies properties into query-bound and
//! URL-positional, resolves slugs, and assembles the rendered document.

use vstd::prelude::*;

use crate::fields::{spec_extras, spec_primary, write_extras, write_primary};
use crate::model::{canonical_parts, ServiceSpec, ServiceSpecV, SpecPropV, URLPart};
use crate::text::{spec_str_le, str_le, str_eq, lemma_str_le_total, lemma_str_le_transitive};
use crate::url::{contains_part, get_slugs, resolved_slug, spec_render_template, view_slugs, write_url_map};

verus! {

/// The generation targets a spec can be rendered for.
#[derive(Clone, Copy, Debug, PartialEq, Eq, Structural)]
pub enum GenTarget {
    ECMAScript,
    Go,
    Rust,
    Markdown,
}

/// A property is query-bound when it occupies no URL role, or when one of
/// its roles is `Query`.
pub open spec fn is_query_bound(p: SpecPropV) -> bool {
    p.url_parts.len() == 0 || p.url_parts.contains(URLPart::Query)
}

/// Just the property views of a spec's property list.
pub open spec fn prop_views(props: Seq<(Seq<char>, SpecPropV)>) -> Seq<SpecPropV> {
    props.map_values(|e: (Seq<char>, SpecPropV)| e.1)
}

/// The index of the property owning a URL role, among the first `n`
/// properties: the last URL-positional property whose roles include `part`.
pub open spec fn url_owner(props: Seq<SpecPropV>, part: URLPart, n: int) -> Option<usize>
    decreases n,
{
    if n <= 0 {
        None
    } else if !is_query_bound(props[n - 1]) && props[n - 1].url_parts.contains(part) {
        Some((n - 1) as usize)
    } else {
        url_owner(props, part, n - 1)
    }
}

/// `a` sorts strictly before `b` by name.
pub open spec fn name_lt(props: Seq<SpecPropV>, a: usize, b: usize) -> bool {
    !spec_str_le(props[b as int].name, props[a as int].name)
}

/// Insert `x` into the name-sorted index list `s`, after any entry whose
/// name does not sort strictly after `x`'s (a stable insertion).
pub open spec fn insert_by_name(props: Seq<SpecPropV>, s: Seq<usize>, x: usize) -> Seq<usize>
    decreases s.len(),
{
    if s.len() == 0 {
        seq![x]
    } else if name_lt(props, x, s[0]) {
        seq![x] + s
    } else {
        seq![s[0]] + insert_by_name(props, s.drop_first(), x)
    }
}

/// The query-bound properties among the first `n`, as indices sorted by
/// property name (stable: equal names keep declaration order).
pub open spec fn query_order(props: Seq<SpecPropV>, n: int) -> Seq<usize>
    decreases n,
{
    if n <= 0 {
        Seq::empty()
    } else {
        let rest = query_order(props, n - 1);
        if is_query_bound(props[n - 1]) {
            insert_by_name(props, rest, (n - 1) as usize)
        } else {
            rest
        }
    }
}

/// Index lists sorted (weakly) by property name.
pub open spec fn sorted_by_name(props: Seq<SpecPropV>, s: Seq<usize>) -> bool {
    forall|i: int, j: int|
        0 <= i < j < s.len() ==> spec_str_le(
            props[#[trigger] s[i] as int].name,
            props[#[trigger] s[j] as int].name,
        )
}

/// No index occurs twice.
pub open spec fn distinct_indices(s: Seq<usize>) -> bool {
    forall|i: int, j: int| 0 <= i < j < s.len() ==> s[i] != s[j]
}

proof fn lemma_cons_contains(h: usize, t: Seq<usize>, y: usize)
    ensures
        (seq![h] + t).contains(y) <==> (y == h || t.contains(y)),
{
    if (seq![h] + t).contains(y) {
        let i = choose|i: int| 0 <= i < (seq![h] + t).len() && (seq![h] + t)[i] == y;
        if i > 0 {
            assert(t[i - 1] == y);
            assert(t.contains(y));
        }
    }
    if y == h {
        assert((seq![h] + t)[0] == y);
    }
    if t.contains(y) {
        let i = choose|i: int| 0 <= i < t.len() && t[i] == y;
        assert((seq![h] + t)[i + 1] == y);
    }
}

pub proof fn lemma_insert_by_name_contains(props: Seq<SpecPropV>, s: Seq<usize>, x: usize)
    ensures
        insert_by_name(props, s, x).len() == s.len() + 1,
        forall|y: usize|
            insert_by_name(props, s, x).contains(y) <==> (s.contains(y) || y == x),
    decreases s.len(),
{
    if s.len() == 0 {
        assert forall|y: usize| insert_by_name(props, s, x).contains(y) <==> (s.contains(y) || y
            == x) by {
            if y == x {
                assert(insert_by_name(props, s, x)[0] == x);
            }
            if insert_by_name(props, s, x).contains(y) {
                assert(insert_by_name(props, s, x) == seq![x]);
            }
        }
    } else if name_lt(props, x, s[0]) {
        assert forall|y: usize| insert_by_name(props, s, x).contains(y) <==> (s.contains(y) || y
            == x) by {
            lemma_cons_contains(x, s, y);
        }
    } else {
        lemma_insert_by_name_contains(props, s.drop_first(), x);
        assert forall|y: usize| insert_by_name(props, s, x).contains(y) <==> (s.contains(y) || y
            == x) by {
            lemma_cons_contains(s[0], insert_by_name(props, s.drop_first(), x), y);
            lemma_cons_contains(s[0], s.drop_first(), y);
            assert(seq![s[0]] + s.drop_first() =~= s);
        }
    }
}

pub proof fn lemma_insert_by_name_sorted(props: Seq<SpecPropV>, s: Seq<usize>, x: usize)
    requires
        sorted_by_name(props, s),
    ensures
        sorted_by_name(props, insert_by_name(props, s, x)),
    decreases s.len(),
{
    let r = insert_by_name(props, s, x);
    if s.len() == 0 {
    } else if name_lt(props, x, s[0]) {
        assert forall|i: int, j: int| 0 <= i < j < r.len() implies spec_str_le(
            props[#[trigger] r[i] as int].name,
            props[#[trigger] r[j] as int].name,
        ) by {
            assert(r[0] == x);
            if i == 0 {
                assert(r[j] == s[j - 1]);
                lemma_str_le_total(props[x as int].name, props[s[0] as int].name);
                if j > 1 {
                    lemma_str_le_transitive(
                        props[x as int].name,
                        props[s[0] as int].name,
                        props[s[j - 1] as int].name,
                    );
                }
            } else {
                assert(r[i] == s[i - 1]);
                assert(r[j] == s[j - 1]);
            }
        }
    } else {
        let t = s.drop_first();
        assert forall|i: int, j: int| 0 <= i < j < t.len() implies spec_str_le(
            props[#[trigger] t[i] as int].name,
            props[#[trigger] t[j] as int].name,
        ) by {
            assert(t[i] == s[i + 1]);
            assert(t[j] == s[j + 1]);
        }
        lemma_insert_by_name_sorted(props, t, x);
        lemma_insert_by_name_contains(props, t, x);
        let rt = insert_by_name(props, t, x);
        assert forall|i: int, j: int| 0 <= i < j < r.len() implies spec_str_le(
            props[#[trigger] r[i] as int].name,
            props[#[trigger] r[j] as int].name,
        ) by {
            if i == 0 {
                assert(r[0] == s[0]);
                assert(r[j] == rt[j - 1]);
                assert(rt.contains(rt[j - 1]));
                let y = rt[j - 1];
                if y == x {
                    lemma_str_le_total(props[s[0] as int].name, props[x as int].name);
                } else {
                    assert(t.contains(y));
                    let m = choose|m: int| 0 <= m < t.len() && t[m] == y;
                    assert(s[m + 1] == y);
                }
            } else {
                assert(r[i] == rt[i - 1]);
                assert(r[j] == rt[j - 1]);
            }
        }
    }
}

pub proof fn lemma_insert_by_name_distinct(props: Seq<SpecPropV>, s: Seq<usize>, x: usize)
    requires
        distinct_indices(s),
        !s.contains(x),
    ensures
        distinct_indices(insert_by_name(props, s, x)),
    decreases s.len(),
{
    let r = insert_by_name(props, s, x);
    if s.len() == 0 {
    } else if name_lt(props, x, s[0]) {
        assert forall|i: int, j: int| 0 <= i < j < r.len() implies r[i] != r[j] by {
            if i == 0 {
                assert(r[j] == s[j - 1]);
                assert(s.contains(s[j - 1]));
            } else {
                assert(r[i] == s[i - 1]);
                assert(r[j] == s[j - 1]);
            }
        }
    } else {
        let t = s.drop_first();
        assert(!t.contains(x)) by {
            if t.contains(x) {
                let m = choose|m: int| 0 <= m < t.len() && t[m] == x;
                assert(s[m + 1] == x);
            }
        }
        assert(distinct_indices(t)) by {
            assert forall|i: int, j: int| 0 <= i < j < t.len() implies t[i] != t[j] by {
                assert(t[i] == s[i + 1]);
                assert(t[j] == s[j + 1]);
            }
        }
        lemma_insert_by_name_distinct(props, t, x);
        lemma_insert_by_name_contains(props, t, x);
        let rt = insert_by_name(props, t, x);
        assert forall|i: int, j: int| 0 <= i < j < r.len() implies r[i] != r[j] by {
            if i == 0 {
                assert(r[0] == s[0]);
                assert(r[j] == rt[j - 1]);
                assert(rt.contains(rt[j - 1]));
                let y = rt[j - 1];
                if y == x {
                    assert(!s.contains(x));
                    assert(s[0] != x) by {
                        assert(s.contains(s[0]));
                    }
                } else {
                    assert(t.contains(y));
                    let m = choose|m: int| 0 <= m < t.len() && t[m] == y;
                    assert(s[m + 1] == y);
                }
            } else {
                assert(r[i] == rt[i - 1]);
                assert(r[j] == rt[j - 1]);
            }
        }
    }
}

/// What the query list holds: exactly the query-bound property indices,
/// each once, sorted by name.
pub proof fn lemma_query_order(props: Seq<SpecPropV>, n: int)
    requires
        0 <= n <= props.len(),
        props.len() <= usize::MAX,
    ensures
        sorted_by_name(props, query_order(props, n)),
        distinct_indices(query_order(props, n)),
        forall|y: usize|
            query_order(props, n).contains(y) <==> (y < n && is_query_bound(
                props[y as int],
            )),
    decreases n,
{
    if n > 0 {
        lemma_query_order(props, n - 1);
        let rest = query_order(props, n - 1);
        if is_query_bound(props[n - 1]) {
            assert(!rest.contains((n - 1) as usize));
            lemma_insert_by_name_sorted(props, rest, (n - 1) as usize);
            lemma_insert_by_name_distinct(props, rest, (n - 1) as usize);
            lemma_insert_by_name_contains(props, rest, (n - 1) as usize);
            assert forall|y: usize| query_order(props, n).contains(y) <==> (y < n
                && is_query_bound(props[y as int])) by {
                assert(query_order(props, n).contains(y) <==> (rest.contains(y) || y == (n
                    - 1) as usize));
                assert(rest.contains(y) <==> (y < n - 1 && is_query_bound(props[y as int])));
            }
        } else {
            assert forall|y: usize| query_order(props, n).contains(y) <==> (y < n
                && is_query_bound(props[y as int])) by {
                assert(rest.contains(y) <==> (y < n - 1 && is_query_bound(props[y as int])));
                if y == (n - 1) as usize {
                    assert(!is_query_bound(props[y as int]));
                }
            }
        }
    } else {
        assert forall|y: usize| !query_order(props, n).contains(y) by {
            assert(query_order(props, n).len() == 0);
        }
    }
}

/// Classify a spec's properties: the first component lists the query-bound
/// properties (indices into `spec.props`, sorted by name); the second maps
/// each canonical URL role to the property occupying it, the last declared
/// one winning when two properties claim the same role.
pub fn classify(spec: &ServiceSpec) -> (r: (Vec<usize>, Vec<Option<usize>>))
    ensures
        r.0@ == query_order(prop_views(spec@.props), spec@.props.len() as int),
        r.1@.len() == 11,
        forall|k: int|
            0 <= k < 11 ==> r.1@[k] == url_owner(
                prop_views(spec@.props),
                canonical_parts()[k],
                spec@.props.len() as int,
            ),
        forall|j: int| 0 <= j < r.0@.len() ==> r.0@[j] < spec@.props.len(),
        forall|k: int|
            0 <= k < 11 && r.1@[k] is Some ==> r.1@[k]->0 < spec@.props.len(),
{
    let ghost pv = prop_views(spec@.props);
    let n = spec.props.len();

    // Query-bound properties, kept sorted by name as they are inserted.
    let mut query_idx: Vec<usize> = Vec::new();
    let mut i: usize = 0;
    while i < n
        invariant
            n == spec@.props.len(),
            pv == prop_views(spec@.props),
            i <= n,
            query_idx@ == query_order(pv, i as int),
            forall|j: int| 0 <= j < query_idx@.len() ==> query_idx@[j] < i,
        decreases n - i,
    {
        let prop = &spec.props[i].1;
        proof {
            assert(prop@ == pv[i as int]);
        }
        if prop.url_parts.len() == 0 || contains_part(&prop.url_parts, URLPart::Query) {
            let pos = sorted_position(spec, &query_idx, i);
            let ghost old_q = query_idx@;
            query_idx.insert(pos, i);
            proof {
                lemma_insert_at_position(pv, old_q, i, pos as int);
                assert(query_idx@ =~= old_q.take(pos as int) + seq![i] + old_q.skip(pos as int));
            }
        }
        i = i + 1;
    }

    // For each canonical role, the last URL-positional property claiming it.
    let parts = URLPart::iter();
    let mut url_fields: Vec<Option<usize>> = Vec::new();
    let mut k: usize = 0;
    while k < 11
        invariant
            n == spec@.props.len(),
            pv == prop_views(spec@.props),
            parts@ == canonical_parts(),
            k <= 11,
            url_fields@.len() == k,
            forall|m: int| 0 <= m < k ==> url_fields@[m] == url_owner(pv, canonical_parts()[m], n as int),
            forall|m: int|
                0 <= m < k && url_fields@[m] is Some ==> url_fields@[m]->0 < n,
        decreases 11 - k,
    {
        let part = parts[k];
        let mut found: Option<usize> = None;
        let mut j = n;
        while j > 0
            invariant
                n == spec@.props.len(),
                pv == prop_views(spec@.props),
                j <= n,
                found is None ==> url_owner(pv, part, n as int) == url_owner(pv, part, j as int),
                found matches Some(f) ==> url_owner(pv, part, n as int) == Some(f) && f < n,
            decreases j,
        {
            j = j - 1;
            if found.is_none() {
                let prop = &spec.props[j].1;
                proof {
                    assert(prop@ == pv[j as int]);
                }
                let qb = prop.url_parts.len() == 0 || contains_part(
                    &prop.url_parts,
                    URLPart::Query,
                );
                if !qb && contains_part(&prop.url_parts, part) {
                    found = Some(j);
                    proof {
                        assert(url_owner(pv, part, j + 1) == Some(j));
                    }
                }
            }
        }
        proof {
            if found is None {
                assert(url_owner(pv, part, 0) == None::<usize>);
            }
        }
        url_fields.push(found);
        k = k + 1;
    }
    (query_idx, url_fields)
}

/// `insert_by_name` puts `x` at the first position whose entry's name sorts
/// strictly after `x`'s.
proof fn lemma_insert_at_position(props: Seq<SpecPropV>, s: Seq<usize>, x: usize, pos: int)
    requires
        0 <= pos <= s.len(),
        forall|j: int| 0 <= j < pos ==> !name_lt(props, x, #[trigger] s[j]),
        pos < s.len() ==> name_lt(props, x, s[pos]),
    ensures
        insert_by_name(props, s, x) == s.take(pos) + seq![x] + s.skip(pos),
    decreases s.len(),
{
    if s.len() == 0 {
        assert(insert_by_name(props, s, x) =~= s.take(pos) + seq![x] + s.skip(pos));
    } else if pos == 0 {
        assert(name_lt(props, x, s[0]));
        assert(s.take(0) + seq![x] + s.skip(0) =~= seq![x] + s);
    } else {
        let t = s.drop_first();
        assert forall|j: int| 0 <= j < pos - 1 implies !name_lt(props, x, #[trigger] t[j]) by {
            assert(t[j] == s[j + 1]);
        }
        if pos - 1 < t.len() {
            assert(t[pos - 1] == s[pos]);
        }
        lemma_insert_at_position(props, t, x, pos - 1);
        assert(seq![s[0]] + (t.take(pos - 1) + seq![x] + t.skip(pos - 1)) =~= s.take(pos)
            + seq![x] + s.skip(pos));
    }
}

/// Find the insertion position of property `x` in the name-sorted list `q`.
fn sorted_position(spec: &ServiceSpec, q: &Vec<usize>, x: usize) -> (pos: usize)
    requires
        x < spec@.props.len(),
        forall|j: int| 0 <= j < q@.len() ==> q@[j] < spec@.props.len(),
    ensures
        pos <= q@.len(),
        forall|j: int|
            0 <= j < pos ==> !name_lt(prop_views(spec@.props), x, #[trigger] q@[j]),
        pos < q@.len() ==> name_lt(prop_views(spec@.props), x, q@[pos as int]),
{
    let ghost pv = prop_views(spec@.props);
    let mut pos: usize = 0;
    while pos < q.len()
        invariant
            pos <= q@.len(),
            x < spec@.props.len(),
            pv == prop_views(spec@.props),
            forall|j: int| 0 <= j < q@.len() ==> q@[j] < spec@.props.len(),
            forall|j: int| 0 <= j < pos ==> !name_lt(pv, x, #[trigger] q@[j]),
        decreases q@.len() - pos,
    {
        let qi = q[pos];
        let lt = !str_le(spec.props[qi].1.name.as_str(), spec.props[x].1.name.as_str());
        proof {
            assert(spec.props@[qi as int].1@ == pv[qi as int]);
            assert(spec.props@[x as int].1@ == pv[x as int]);
        }
        if lt {
            return pos;
        }
        pos = pos + 1;
    }
    pos
}


/// The name of the property occupying each canonical role, if any.
pub open spec fn url_field_names(
    props: Seq<(Seq<char>, SpecPropV)>,
    urls: Seq<Option<usize>>,
) -> Seq<Option<Seq<char>>> {
    Seq::new(
        11,
        |k: int|
            match urls[k] {
                Some(i) => Some(prop_views(props)[i as int].name),
                None => None,
            },
    )
}

/// The resolved slug map of a spec, role by role.
pub open spec fn spec_slugs(s: ServiceSpecV, urls: Seq<Option<usize>>) -> Seq<
    Option<(Seq<char>, Seq<char>)>,
> {
    Seq::new(11, |k: int| resolved_slug(s.scheme, url_field_names(s.props, urls), k))
}

/// Some entry of `acc` already carries this property name.
pub open spec fn name_in(props: Seq<SpecPropV>, acc: Seq<usize>, nm: Seq<char>) -> bool {
    exists|j: int| 0 <= j < acc.len() && props[#[trigger] acc[j] as int].name == nm
}

/// The properties documented in the URL Fields section, in canonical role
/// order, each name kept only at its first occurrence.
pub open spec fn docs_rec(
    props: Seq<SpecPropV>,
    urls: Seq<Option<usize>>,
    k: int,
    acc: Seq<usize>,
) -> Seq<usize>
    decreases 11 - k,
{
    if k >= 11 {
        acc
    } else {
        match urls[k] {
            None => docs_rec(props, urls, k + 1, acc),
            Some(i) => if name_in(props, acc, props[i as int].name) {
                docs_rec(props, urls, k + 1, acc)
            } else {
                docs_rec(props, urls, k + 1, acc.push(i))
            },
        }
    }
}

pub open spec fn docs_list(props: Seq<SpecPropV>, urls: Seq<Option<usize>>) -> Seq<usize> {
    docs_rec(props, urls, 0, Seq::empty())
}

/// The documentation blocks of the first `m` properties of `docs`: primary
/// block, then the property's own roles rendered inside the full template.
pub open spec fn url_blocks(
    s: ServiceSpecV,
    urls: Seq<Option<usize>>,
    docs: Seq<usize>,
    m: int,
) -> Seq<char>
    decreases m,
{
    if m <= 0 {
        Seq::empty()
    } else {
        let p = prop_views(s.props)[docs[m - 1] as int];
        url_blocks(s, urls, docs, m - 1) + spec_primary(p)
            + "  URL part: <code class=\"service-url\">"@ + spec_render_template(
            spec_slugs(s, urls),
            p.url_parts,
        ) + "</code>  \n"@
    }
}

/// The URL Fields section of the document.
pub open spec fn spec_url_tokens(s: ServiceSpecV, urls: Seq<Option<usize>>) -> Seq<char> {
    let docs = docs_list(prop_views(s.props), urls);
    "### URL Fields\n\n"@ + url_blocks(s, urls, docs, docs.len() as int)
}

/// The blocks of the first `m` query-bound properties: primary block,
/// extras block, blank line.
pub open spec fn query_blocks(
    props: Seq<(Seq<char>, SpecPropV)>,
    q: Seq<usize>,
    m: int,
) -> Seq<char>
    decreases m,
{
    if m <= 0 {
        Seq::empty()
    } else {
        let p = prop_views(props)[q[m - 1] as int];
        query_blocks(props, q, m - 1) + spec_primary(p) + spec_extras(p) + "\n"@
    }
}

/// The Query/Param Props section of the document.
pub open spec fn spec_query_tokens(
    props: Seq<(Seq<char>, SpecPropV)>,
    q: Seq<usize>,
) -> Seq<char> {
    "### Query/Param Props\n"@ + "\n"@
        + "Props can be either supplied using the params argument, or through the URL using  \n`?key=value&key=value` etc.\n"@
        + "\n"@ + query_blocks(props, q, q.len() as int)
}

/// The role-to-owner map of a whole spec.
pub open spec fn spec_url_fields(s: ServiceSpecV) -> Seq<Option<usize>> {
    Seq::new(11, |k: int| url_owner(prop_views(s.props), canonical_parts()[k], s.props.len() as int))
}

/// The whole rendered document: the URL Fields section, then the
/// Query/Param Props section, each followed by one blank line.
pub open spec fn spec_document(s: ServiceSpecV) -> Seq<char> {
    spec_url_tokens(s, spec_url_fields(s)) + "\n"@ + spec_query_tokens(
        s.props,
        query_order(prop_views(s.props), s.props.len() as int),
    ) + "\n"@
}

/// Is the name of property `x` already among the printed ones?
fn name_printed(spec: &ServiceSpec, printed: &Vec<usize>, x: usize) -> (r: bool)
    requires
        x < spec@.props.len(),
        forall|j: int| 0 <= j < printed@.len() ==> printed@[j] < spec@.props.len(),
    ensures
        r == name_in(prop_views(spec@.props), printed@, prop_views(spec@.props)[x as int].name),
{
    let ghost pv = prop_views(spec@.props);
    let mut j: usize = 0;
    while j < printed.len()
        invariant
            j <= printed@.len(),
            x < spec@.props.len(),
            pv == prop_views(spec@.props),
            forall|m: int| 0 <= m < printed@.len() ==> printed@[m] < spec@.props.len(),
            forall|m: int| 0 <= m < j ==> pv[#[trigger] printed@[m] as int].name != pv[x as int].name,
        decreases printed@.len() - j,
    {
        let p = printed[j];
        if str_eq(spec.props[p].1.name.as_str(), spec.props[x].1.name.as_str()) {
            proof {
                assert(spec.props@[p as int].1@ == pv[p as int]);
                assert(spec.props@[x as int].1@ == pv[x as int]);
            }
            return true;
        }
        proof {
            assert(spec.props@[p as int].1@ == pv[p as int]);
            assert(spec.props@[x as int].1@ == pv[x as int]);
        }
        j = j + 1;
    }
    false
}

/// A longer docs prefix renders the same first `m` blocks.
proof fn lemma_url_blocks_agree(
    s: ServiceSpecV,
    urls: Seq<Option<usize>>,
    d1: Seq<usize>,
    d2: Seq<usize>,
    m: int,
)
    requires
        m <= d1.len(),
        m <= d2.len(),
        forall|j: int| 0 <= j < m ==> d1[j] == d2[j],
    ensures
        url_blocks(s, urls, d1, m) == url_blocks(s, urls, d2, m),
    decreases m,
{
    if m > 0 {
        lemma_url_blocks_agree(s, urls, d1, d2, m - 1);
    }
}

/// Render the URL Fields section: each URL-positional property once (the
/// first of its name, in canonical role order), its primary block followed
/// by the URL template with the property's own roles emphasized.
pub fn gen_url_tokens(spec: &ServiceSpec, url_fields: &Vec<Option<usize>>) -> (r: String)
    requires
        url_fields@.len() == 11,
        forall|k: int|
            0 <= k < 11 && url_fields@[k] is Some ==> url_fields@[k]->0 < spec@.props.len(),
    ensures
        r@ == spec_url_tokens(spec@, url_fields@),
{
    let ghost pv = prop_views(spec@.props);
    let ghost urls = url_fields@;

    // The name of each role's owner, for slug resolution.
    let mut names: Vec<Option<String>> = Vec::new();
    let mut k: usize = 0;
    while k < 11
        invariant
            url_fields@.len() == 11,
            pv == prop_views(spec@.props),
            urls == url_fields@,
            forall|m: int| 0 <= m < 11 && urls[m] is Some ==> urls[m]->0 < spec@.props.len(),
            k <= 11,
            names@.len() == k,
            forall|m: int|
                0 <= m < k ==> crate::url::view_names(names@)[m] == url_field_names(
                    spec@.props,
                    urls,
                )[m],
        decreases 11 - k,
    {
        let ghost old_names = names@;
        match &url_fields[k] {
            Some(i) => {
                let nm = spec.props[*i].1.name.clone();
                proof {
                    assert(spec.props@[*i as int].1@ == pv[*i as int]);
                }
                names.push(Some(nm));
            },
            None => {
                names.push(None);
            },
        }
        proof {
            assert forall|m: int| 0 <= m < k + 1 implies crate::url::view_names(names@)[m]
                == url_field_names(spec@.props, urls)[m] by {
                if m < k {
                    assert(names@[m] == old_names[m]);
                    assert(crate::url::view_names(old_names)[m] == url_field_names(
                        spec@.props,
                        urls,
                    )[m]);
                }
            }
        }
        k = k + 1;
    }
    proof {
        assert(crate::url::view_names(names@) =~= url_field_names(spec@.props, urls));
    }

    let slug_map = get_slugs(spec.scheme.as_str(), &names);
    proof {
        assert(view_slugs(slug_map@) =~= spec_slugs(spec@, urls));
    }

    let mut output = String::from_str("### URL Fields\n\n");
    let mut printed: Vec<usize> = Vec::new();
    let mut k2: usize = 0;
    while k2 < 11
        invariant
            url_fields@.len() == 11,
            pv == prop_views(spec@.props),
            urls == url_fields@,
            forall|m: int| 0 <= m < 11 && urls[m] is Some ==> urls[m]->0 < spec@.props.len(),
            slug_map@.len() == 11,
            view_slugs(slug_map@) == spec_slugs(spec@, urls),
            k2 <= 11,
            forall|j: int| 0 <= j < printed@.len() ==> printed@[j] < spec@.props.len(),
            docs_rec(pv, urls, k2 as int, printed@) == docs_list(pv, urls),
            output@ == "### URL Fields\n\n"@ + url_blocks(
                spec@,
                urls,
                printed@,
                printed@.len() as int,
            ),
        decreases 11 - k2,
    {
        match &url_fields[k2] {
            None => {},
            Some(i) => {
                if !name_printed(spec, &printed, *i) {
                    let ghost old_printed = printed@;
                    let ghost old_out = output@;
                    write_primary(&mut output, &spec.props[*i].1);
                    proof {
                        assert(spec.props@[*i as int].1@ == pv[*i as int]);
                    }
                    output.append("  URL part: <code class=\"service-url\">");
                    write_url_map(&mut output, &spec.props[*i].1.url_parts, &slug_map);
                    output.append("</code>  \n");
                    printed.push(*i);
                    proof {
                        lemma_url_blocks_agree(
                            spec@,
                            urls,
                            old_printed,
                            printed@,
                            old_printed.len() as int,
                        );
                        assert(printed@[printed@.len() - 1] == *i);
                        assert(output@ =~= "### URL Fields\n\n"@ + url_blocks(
                            spec@,
                            urls,
                            printed@,
                            printed@.len() as int,
                        ));
                    }
                }
            },
        }
        k2 = k2 + 1;
    }
    proof {
        assert(docs_rec(pv, urls, 11, printed@) == printed@);
    }
    output
}

/// Render the Query/Param Props section: an explanatory header, then each
/// query-bound property's primary and extras blocks, in the given order.
pub fn gen_query_tokens(spec: &ServiceSpec, query_fields: &Vec<usize>) -> (r: String)
    requires
        forall|j: int| 0 <= j < query_fields@.len() ==> query_fields@[j] < spec@.props.len(),
    ensures
        r@ == spec_query_tokens(spec@.props, query_fields@),
{
    let ghost pv = prop_views(spec@.props);
    let mut output = String::from_str("### Query/Param Props\n");
    output.append("\n");
    output.append(
        "Props can be either supplied using the params argument, or through the URL using  \n`?key=value&key=value` etc.\n",
    );
    output.append("\n");
    let ghost header = output@;
    let mut i: usize = 0;
    while i < query_fields.len()
        invariant
            forall|j: int| 0 <= j < query_fields@.len() ==> query_fields@[j] < spec@.props.len(),
            pv == prop_views(spec@.props),
            i <= query_fields@.len(),
            header == "### Query/Param Props\n"@ + "\n"@
                + "Props can be either supplied using the params argument, or through the URL using  \n`?key=value&key=value` etc.\n"@
                + "\n"@,
            output@ == header + query_blocks(spec@.props, query_fields@, i as int),
        decreases query_fields@.len() - i,
    {
        let q = query_fields[i];
        write_primary(&mut output, &spec.props[q].1);
        write_extras(&mut output, &spec.props[q].1);
        output.append("\n");
        proof {
            assert(spec.props@[q as int].1@ == pv[q as int]);
            assert(output@ =~= header + query_blocks(spec@.props, query_fields@, i + 1));
        }
        i = i + 1;
    }
    proof {
        assert(output@ =~= spec_query_tokens(spec@.props, query_fields@));
    }
    output
}

/// Render the whole document for a spec: classification, slug resolution,
/// the URL Fields section, then the Query/Param Props section.
pub fn generate(spec: &ServiceSpec) -> (r: String)
    ensures
        r@ == spec_document(spec@),
{
    let (query_fields, url_fields) = classify(spec);
    let url_tokens = gen_url_tokens(spec, &url_fields);
    let query_tokens = gen_query_tokens(spec, &query_fields);
    proof {
        assert(url_fields@ =~= spec_url_fields(spec@));
    }
    let mut r = url_tokens;
    r.append("\n");
    r.append(query_tokens.as_str());
    r.append("\n");
    proof {
        assert(r@ =~= spec_document(spec@));
    }
    r
}

} // verus!
