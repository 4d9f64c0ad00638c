//! Slug resolution and URL-template rendering.
//!
//! `get_slugs` decides, for every URL role a spec occupies, the display text
//! (slug) and the separator that follows it; `write_url_map` walks the 11
//! roles in canonical order and concatenates the resolved slugs into the
//! canonical URL template.

use vstd::prelude::*;

use crate::model::{canonical_parts, URLPart};
use crate::text::{ascii_lower_seq, is_ascii_seq, lower_of, lowercase, str_eq};

verus! {

/// View of a role-indexed vector of optional property names.
pub open spec fn view_names(v: Seq<Option<String>>) -> Seq<Option<Seq<char>>> {
    v.map_values(
        |e: Option<String>|
            match e {
                Some(s) => Some(s@),
                None => None,
            },
    )
}

/// View of a role-indexed vector of resolved (slug, separator) entries.
pub open spec fn view_slugs(v: Seq<Option<(String, String)>>) -> Seq<
    Option<(Seq<char>, Seq<char>)>,
> {
    v.map_values(
        |e: Option<(String, String)>|
            match e {
                Some(p) => Some((p.0@, p.1@)),
                None => None,
            },
    )
}

/// The slug resolution table, before lowercasing: for the role at canonical
/// position `k`, the display text and following separator, or `None` when
/// the role is absent from the template.  `names[part_index(p)]` is the name
/// of the property occupying role `p`, if any.
pub open spec fn raw_slug(
    scheme: Seq<char>,
    names: Seq<Option<Seq<char>>>,
    k: int,
) -> Option<(Seq<char>, Seq<char>)>
    recommends
        names.len() == 11,
        0 <= k < 11,
{
    let has_port = names[5] is Some;
    let has_pass = names[3] is Some;
    let has_auth = names[2] is Some || has_pass;
    match canonical_parts()[k] {
        URLPart::Scheme => Some((scheme, "://"@)),
        URLPart::Host => match names[4] {
            None => if has_port {
                Some((scheme, ":"@))
            } else {
                Some((scheme, "/"@))
            },
            Some(n) => if has_port {
                Some((n, ":"@))
            } else {
                Some((n, "/"@))
            },
        },
        URLPart::User => match names[2] {
            Some(n) => if has_pass {
                Some((n, ":"@))
            } else {
                Some((n, "@"@))
            },
            None => if has_auth && has_pass {
                Some((Seq::<char>::empty(), ":"@))
            } else if has_auth {
                Some((Seq::<char>::empty(), "@"@))
            } else {
                None
            },
        },
        URLPart::Password => match names[3] {
            Some(n) => Some((n, "@"@)),
            None => None,
        },
        URLPart::Port => match names[5] {
            Some(_) => Some(("port"@, "/"@)),
            None => None,
        },
        _ => match names[k] {
            Some(n) => Some((n, "/"@)),
            None => None,
        },
    }
}

/// The resolved entry for canonical position `k`: the raw slug, lowercased.
pub open spec fn resolved_slug(
    scheme: Seq<char>,
    names: Seq<Option<Seq<char>>>,
    k: int,
) -> Option<(Seq<char>, Seq<char>)> {
    match raw_slug(scheme, names, k) {
        Some(e) => Some((lower_of(e.0), e.1)),
        None => None,
    }
}

/// Resolve the slug and separator of every URL role, per the resolution
/// table: presence of Port, Password and User properties decides how the
/// host and credential roles are rendered, and every slug is lowercased.
pub fn get_slugs(scheme: &str, url_fields: &Vec<Option<String>>) -> (r: Vec<
    Option<(String, String)>,
>)
    requires
        url_fields@.len() == 11,
    ensures
        r@.len() == 11,
        forall|k: int|
            0 <= k < 11 ==> #[trigger] view_slugs(r@)[k] == resolved_slug(
                scheme@,
                view_names(url_fields@),
                k,
            ),
        forall|k: int|
            0 <= k < 11 && raw_slug(scheme@, view_names(url_fields@), k) is Some && is_ascii_seq(
                raw_slug(scheme@, view_names(url_fields@), k)->Some_0.0,
            ) ==> lower_of(#[trigger] raw_slug(scheme@, view_names(url_fields@), k)->Some_0.0)
                == ascii_lower_seq(raw_slug(scheme@, view_names(url_fields@), k)->Some_0.0),
{
    let ghost names = view_names(url_fields@);
    let has_port = url_fields[5].is_some();
    let has_pass = url_fields[3].is_some();
    let has_user = url_fields[2].is_some();
    let has_auth = has_user || has_pass;
    let parts = URLPart::iter();
    let mut r: Vec<Option<(String, String)>> = Vec::new();
    let mut k: usize = 0;
    while k < 11
        invariant
            url_fields@.len() == 11,
            names == view_names(url_fields@),
            has_port == names[5] is Some,
            has_pass == names[3] is Some,
            has_auth == (names[2] is Some || names[3] is Some),
            parts@ == canonical_parts(),
            r@.len() == k,
            k <= 11,
            forall|j: int|
                0 <= j < k ==> #[trigger] view_slugs(r@)[j] == resolved_slug(scheme@, names, j),
            forall|j: int|
                0 <= j < k && raw_slug(scheme@, names, j) is Some && is_ascii_seq(
                    raw_slug(scheme@, names, j)->Some_0.0,
                ) ==> lower_of(#[trigger] raw_slug(scheme@, names, j)->Some_0.0) == ascii_lower_seq(
                    raw_slug(scheme@, names, j)->Some_0.0,
                ),
        decreases 11 - k,
    {
        let part = parts[k];
        proof {
            crate::model::lemma_part_index_injective(k as int);
        }
        let ghost raw = raw_slug(scheme@, names, k as int);
        let entry: Option<(String, String)>;
        match part {
            URLPart::Scheme => {
                proof {
                    assert(raw == Some((scheme@, "://"@)));
                }
                entry = Some((lowercase(scheme), sep_str("://")));
            },
            URLPart::Host => {
                let sep = sep_str(if has_port { ":" } else { "/" });
                match &url_fields[4] {
                    None => {
                        proof {
                            assert(names[4] is None);
                            assert(raw == Some((scheme@, sep@)));
                        }
                        entry = Some((lowercase(scheme), sep));
                    },
                    Some(n) => {
                        proof {
                            assert(names[4] == Some(n@));
                            assert(raw == Some((n@, sep@)));
                        }
                        entry = Some((lowercase(n.as_str()), sep));
                    },
                }
            },
            URLPart::User => {
                let sep = sep_str(if has_pass { ":" } else { "@" });
                match &url_fields[2] {
                    Some(n) => {
                        proof {
                            assert(names[2] == Some(n@));
                            assert(raw == Some((n@, sep@)));
                        }
                        entry = Some((lowercase(n.as_str()), sep));
                    },
                    None => {
                        proof {
                            assert(names[2] is None);
                        }
                        if has_auth {
                            proof {
                                reveal_strlit("");
                                assert(""@ =~= Seq::<char>::empty());
                                assert(raw == Some((Seq::<char>::empty(), sep@)));
                            }
                            entry = Some((lowercase(""), sep));
                        } else {
                            proof {
                                assert(raw is None);
                            }
                            entry = None;
                        }
                    },
                }
            },
            URLPart::Password => {
                match &url_fields[3] {
                    Some(n) => {
                        proof {
                            assert(names[3] == Some(n@));
                            assert(raw == Some((n@, "@"@)));
                        }
                        entry = Some((lowercase(n.as_str()), sep_str("@")));
                    },
                    None => {
                        proof {
                            assert(raw is None);
                        }
                        entry = None;
                    },
                }
            },
            URLPart::Port => {
                match &url_fields[5] {
                    Some(_) => {
                        proof {
                            assert(raw == Some(("port"@, "/"@)));
                        }
                        entry = Some((lowercase("port"), sep_str("/")));
                    },
                    None => {
                        proof {
                            assert(raw is None);
                        }
                        entry = None;
                    },
                }
            },
            _ => {
                match &url_fields[k] {
                    Some(n) => {
                        proof {
                            assert(names[k as int] == Some(n@));
                            assert(raw == Some((n@, "/"@)));
                        }
                        entry = Some((lowercase(n.as_str()), sep_str("/")));
                    },
                    None => {
                        proof {
                            assert(names[k as int] is None);
                            assert(raw is None);
                        }
                        entry = None;
                    },
                }
            },
        };
        let ghost old_r = r@;
        let ghost ge = entry;
        proof {
            assert((match ge {
                Some(p) => Some((p.0@, p.1@)),
                None => None::<(Seq<char>, Seq<char>)>,
            }) == resolved_slug(scheme@, names, k as int));
        }
        r.push(entry);
        proof {
            assert(view_slugs(r@)[k as int] == match ge {
                Some(p) => Some((p.0@, p.1@)),
                None => None::<(Seq<char>, Seq<char>)>,
            });
            assert(view_slugs(r@)[k as int] == resolved_slug(scheme@, names, k as int));
            assert(raw_slug(scheme@, names, k as int) is Some && is_ascii_seq(
                raw_slug(scheme@, names, k as int)->Some_0.0,
            ) ==> lower_of(raw_slug(scheme@, names, k as int)->Some_0.0) == ascii_lower_seq(
                raw_slug(scheme@, names, k as int)->Some_0.0,
            ));
            assert forall|j: int| 0 <= j < k + 1 implies #[trigger] view_slugs(r@)[j]
                == resolved_slug(scheme@, names, j) by {
                if j < k {
                    assert(r@[j] == old_r[j]);
                    assert(view_slugs(old_r)[j] == resolved_slug(scheme@, names, j));
                }
            }
        }
        k = k + 1;
    }
    r
}

/// Build one separator string.
fn sep_str(s: &str) -> (r: String)
    ensures
        r@ == s@,
{
    String::from_str(s)
}

/// The separator waiting to be emitted after the roles before canonical
/// position `k` have been rendered: the separator of the last present role.
pub open spec fn pending_sep(slugs: Seq<Option<(Seq<char>, Seq<char>)>>, k: int) -> Option<
    Seq<char>,
>
    decreases k,
{
    if k <= 0 {
        None
    } else {
        match slugs[k - 1] {
            Some(e) => Some(e.1),
            None => pending_sep(slugs, k - 1),
        }
    }
}

/// A slug, wrapped in an emphasis marker when its role is highlighted.
pub open spec fn emphasized(slug: Seq<char>, on: bool) -> Seq<char> {
    if on {
        "<strong>"@ + slug + "</strong>"@
    } else {
        slug
    }
}

/// The template text produced by the first `k` canonical roles: each present
/// role emits the pending separator of the roles before it, then its slug.
pub open spec fn rendered_prefix(
    slugs: Seq<Option<(Seq<char>, Seq<char>)>>,
    highlights: Seq<URLPart>,
    k: int,
) -> Seq<char>
    decreases k,
{
    if k <= 0 {
        Seq::empty()
    } else {
        let rest = rendered_prefix(slugs, highlights, k - 1);
        match slugs[k - 1] {
            Some(e) => rest + (match pending_sep(slugs, k - 1) {
                Some(s) => s,
                None => Seq::<char>::empty(),
            }) + emphasized(e.0, highlights.contains(canonical_parts()[k - 1])),
            None => rest,
        }
    }
}

/// The canonical URL template: all 11 roles in canonical order, and a
/// trailing separator only when it is `/`.
pub open spec fn spec_render_template(
    slugs: Seq<Option<(Seq<char>, Seq<char>)>>,
    highlights: Seq<URLPart>,
) -> Seq<char> {
    rendered_prefix(slugs, highlights, 11) + (if pending_sep(slugs, 11) == Some("/"@) {
        "/"@
    } else {
        Seq::<char>::empty()
    })
}

/// Does a role list contain the given role?
pub fn contains_part(v: &Vec<URLPart>, p: URLPart) -> (r: bool)
    ensures
        r == v@.contains(p),
{
    let mut i: usize = 0;
    while i < v.len()
        invariant
            i <= v@.len(),
            forall|j: int| 0 <= j < i ==> v@[j] != p,
        decreases v@.len() - i,
    {
        if v[i] == p {
            return true;
        }
        i = i + 1;
    }
    false
}

/// Append the canonical URL template to `output`: walk the 11 roles in
/// canonical order, emit each present role's slug (emphasized when its role
/// is highlighted) preceded by the previous present role's separator, and
/// keep a trailing separator only when it is `/`.
pub fn write_url_map(
    output: &mut String,
    highlight_parts: &Vec<URLPart>,
    slug_map: &Vec<Option<(String, String)>>,
)
    requires
        slug_map@.len() == 11,
    ensures
        final(output)@ == old(output)@ + spec_render_template(
            view_slugs(slug_map@),
            highlight_parts@,
        ),
{
    let ghost slugs = view_slugs(slug_map@);
    let ghost hl = highlight_parts@;
    let parts = URLPart::iter();
    let mut prev_sep: Option<&String> = None;
    let mut k: usize = 0;
    while k < 11
        invariant
            slug_map@.len() == 11,
            slugs == view_slugs(slug_map@),
            hl == highlight_parts@,
            parts@ == canonical_parts(),
            k <= 11,
            output@ == old(output)@ + rendered_prefix(slugs, hl, k as int),
            pending_sep(slugs, k as int) == match prev_sep {
                Some(s) => Some(s@),
                None => None::<Seq<char>>,
            },
        decreases 11 - k,
    {
        match &slug_map[k] {
            None => {
                proof {
                    assert(slugs[k as int] is None);
                }
            },
            Some(entry) => {
                proof {
                    assert(slugs[k as int] == Some((entry.0@, entry.1@)));
                }
                if let Some(ps) = prev_sep {
                    output.append(ps.as_str());
                }
                if contains_part(highlight_parts, parts[k]) {
                    output.append("<strong>");
                    output.append(entry.0.as_str());
                    output.append("</strong>");
                } else {
                    output.append(entry.0.as_str());
                }
                prev_sep = Some(&entry.1);
                proof {
                    assert(output@ =~= old(output)@ + rendered_prefix(slugs, hl, k + 1));
                }
            },
        }
        k = k + 1;
    }
    if let Some(ps) = prev_sep {
        if str_eq(ps.as_str(), "/") {
            output.append(ps.as_str());
        }
    }
    proof {
        assert(output@ =~= old(output)@ + spec_render_template(slugs, hl));
    }
}

} // verus!
