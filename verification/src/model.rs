//! The service specification model: URL roles, property types, properties,
//! and the spec itself, together with the boolean-token parser used when a
//! document writes a flag as `yes`, `no`, `1` or `0`.

use vstd::prelude::*;

use crate::text::{eq_ignore_ascii_case, spec_eq_ignore_ascii_case};

verus! {

/// One of the 11 fixed positions a property can occupy in the canonical URL.
/// The declaration order below is the canonical render order and is
/// load-bearing: slug resolution and template rendering walk it in order.
#[derive(Clone, Copy, Debug, PartialEq, Eq, Hash, Structural)]
pub enum URLPart {
    Scheme,
    Query,
    User,
    Password,
    Host,
    Port,
    Path1,
    Path2,
    Path3,
    Path4,
    Path,
}

/// The canonical order of the 11 URL roles.
pub open spec fn canonical_parts() -> Seq<URLPart> {
    seq![
        URLPart::Scheme,
        URLPart::Query,
        URLPart::User,
        URLPart::Password,
        URLPart::Host,
        URLPart::Port,
        URLPart::Path1,
        URLPart::Path2,
        URLPart::Path3,
        URLPart::Path4,
        URLPart::Path,
    ]
}

/// The position of a role in the canonical order.
pub open spec fn part_index(p: URLPart) -> int {
    match p {
        URLPart::Scheme => 0,
        URLPart::Query => 1,
        URLPart::User => 2,
        URLPart::Password => 3,
        URLPart::Host => 4,
        URLPart::Port => 5,
        URLPart::Path1 => 6,
        URLPart::Path2 => 7,
        URLPart::Path3 => 8,
        URLPart::Path4 => 9,
        URLPart::Path => 10,
    }
}

pub proof fn lemma_part_index_injective(k: int)
    requires
        0 <= k < 11,
    ensures
        part_index(canonical_parts()[k]) == k,
{
}

impl URLPart {
    /// All 11 roles, in canonical order.
    pub fn iter() -> (r: [URLPart; 11])
        ensures
            r@ == canonical_parts(),
    {
        let r = [
            URLPart::Scheme,
            URLPart::Query,
            URLPart::User,
            URLPart::Password,
            URLPart::Host,
            URLPart::Port,
            URLPart::Path1,
            URLPart::Path2,
            URLPart::Path3,
            URLPart::Path4,
            URLPart::Path,
        ];
        proof {
            assert(r@ =~= canonical_parts());
        }
        r
    }
}

/// Payload of a `Number`-typed property: an optional numeric base.
#[derive(Debug, Hash, PartialEq, Eq)]
pub struct NumberSpecProp {
    pub base: Option<i32>,
}

/// Payload of an `Option`-typed property: the closed set of allowed values.
#[derive(Debug, Hash, PartialEq, Eq)]
pub struct OptionSpecProp {
    pub values: Vec<String>,
}

/// Payload of a `Custom`-typed property: an optional custom type name.
#[derive(Debug, Hash, PartialEq, Eq)]
pub struct CustomSpecProp {
    pub custom_type: Option<String>,
}

/// Payload of a `Map`-typed property: an optional item separator.
#[derive(Debug, Hash, PartialEq, Eq)]
pub struct MapSpecProp {
    pub item_separator: Option<String>,
}

/// The closed set of property types.  Exactly one variant per property;
/// variant payloads are mutually exclusive by construction.
#[derive(Debug, Hash, PartialEq, Eq)]
pub enum PropType {
    Text,
    Number(NumberSpecProp),
    List,
    Toggle,
    Option(OptionSpecProp),
    Color,
    Custom(CustomSpecProp),
    Mapping(MapSpecProp),
}

/// Mathematical image of a `PropType`: payload strings as character
/// sequences.
pub ghost enum PropTypeV {
    Text,
    Number { base: Option<i32> },
    List,
    Toggle,
    Choices { values: Seq<Seq<char>> },
    Color,
    Custom { custom_type: Option<Seq<char>> },
    Mapping { item_separator: Option<Seq<char>> },
}

impl View for PropType {
    type V = PropTypeV;

    open spec fn view(&self) -> PropTypeV {
        match self {
            PropType::Text => PropTypeV::Text,
            PropType::Number(n) => PropTypeV::Number { base: n.base },
            PropType::List => PropTypeV::List,
            PropType::Toggle => PropTypeV::Toggle,
            PropType::Option(o) => PropTypeV::Choices {
                values: o.values@.map_values(|v: String| v@),
            },
            PropType::Color => PropTypeV::Color,
            PropType::Custom(c) => PropTypeV::Custom {
                custom_type: match c.custom_type {
                    Some(t) => Some(t@),
                    None => None,
                },
            },
            PropType::Mapping(m) => PropTypeV::Mapping {
                item_separator: match m.item_separator {
                    Some(s) => Some(s@),
                    None => None,
                },
            },
        }
    }
}

/// One declared configuration field of a service.
#[derive(Debug, Hash, PartialEq, Eq)]
pub struct SpecProp {
    pub prop_type: PropType,
    pub description: String,
    /// Derived: equals the property's key in `ServiceSpec::props` once
    /// `init_props` has run; never set independently by a document.
    pub name: String,
    pub default_value: Option<String>,
    pub template: Option<String>,
    pub required: bool,
    /// The URL roles this property occupies; empty means query-bound.
    pub url_parts: Vec<URLPart>,
    /// Accepted aliases; the first entry is the primary key.
    pub keys: Vec<String>,
    pub credential: bool,
    pub value_separator: Option<String>,
}

/// Mathematical image of a `SpecProp`.
pub ghost struct SpecPropV {
    pub prop_type: PropTypeV,
    pub description: Seq<char>,
    pub name: Seq<char>,
    pub default_value: Option<Seq<char>>,
    pub template: Option<Seq<char>>,
    pub required: bool,
    pub url_parts: Seq<URLPart>,
    pub keys: Seq<Seq<char>>,
    pub credential: bool,
    pub value_separator: Option<Seq<char>>,
}

pub open spec fn view_opt_string(s: Option<String>) -> Option<Seq<char>> {
    match s {
        Some(v) => Some(v@),
        None => None,
    }
}

impl View for SpecProp {
    type V = SpecPropV;

    open spec fn view(&self) -> SpecPropV {
        SpecPropV {
            prop_type: self.prop_type@,
            description: self.description@,
            name: self.name@,
            default_value: view_opt_string(self.default_value),
            template: view_opt_string(self.template),
            required: self.required,
            url_parts: self.url_parts@,
            keys: self.keys@.map_values(|k: String| k@),
            credential: self.credential,
            value_separator: view_opt_string(self.value_separator),
        }
    }
}

/// Global option flags of a spec; carried through unchanged for downstream
/// consumers.
#[derive(Clone, Copy, Debug, PartialEq, Eq, Structural)]
pub struct SpecOptions {
    pub reverse_path_prio: bool,
    pub custom_query_vars: bool,
}

impl Default for SpecOptions {
    /// Both flags default to off when a document omits them.
    fn default() -> (r: SpecOptions)
        ensures
            !r.reverse_path_prio,
            !r.custom_query_vars,
    {
        SpecOptions { reverse_path_prio: false, custom_query_vars: false }
    }
}

/// A whole service spec: scheme, options, and the declared properties as a
/// key-ordered association list (document order, keys unique).
#[derive(Debug)]
pub struct ServiceSpec {
    pub version: u32,
    pub scheme: String,
    pub options: SpecOptions,
    pub props: Vec<(String, SpecProp)>,
}

/// Mathematical image of a `ServiceSpec`.
pub ghost struct ServiceSpecV {
    pub version: u32,
    pub scheme: Seq<char>,
    pub options: SpecOptions,
    pub props: Seq<(Seq<char>, SpecPropV)>,
}

impl View for ServiceSpec {
    type V = ServiceSpecV;

    open spec fn view(&self) -> ServiceSpecV {
        ServiceSpecV {
            version: self.version,
            scheme: self.scheme@,
            options: self.options,
            props: self.props@.map_values(|e: (String, SpecProp)| (e.0@, e.1@)),
        }
    }
}

impl ServiceSpecV {
    /// Property keys are pairwise distinct.
    pub open spec fn keys_unique(self) -> bool {
        forall|i: int, j: int|
            0 <= i < j < self.props.len() ==> self.props[i].0 != self.props[j].0
    }

    /// Every property's `name` equals its key: what `init_props` establishes.
    pub open spec fn names_initialized(self) -> bool {
        forall|i: int| 0 <= i < self.props.len() ==> #[trigger] self.props[i].1.name == self.props[i].0
    }

    /// A well-formed, fully initialized spec.
    pub open spec fn wf(self) -> bool {
        self.keys_unique() && self.names_initialized()
    }
}

/// The value of a property entry after name back-filling.
pub open spec fn backfilled(e: (String, SpecProp)) -> (String, SpecProp) {
    (e.0, SpecProp { name: e.0, ..e.1 })
}

impl ServiceSpec {
    /// Back-fill every property's `name` from its key.  Invoked exactly once
    /// after a spec is loaded; afterwards the spec satisfies
    /// `names_initialized` and nothing else about it has changed.
    pub fn init_props(&mut self)
        ensures
            final(self).props@.len() == old(self).props@.len(),
            forall|i: int|
                0 <= i < final(self).props@.len() ==> final(self).props@[i] == backfilled(
                    #[trigger] old(self).props@[i],
                ),
            final(self)@.names_initialized(),
            final(self).version == old(self).version,
            final(self).scheme == old(self).scheme,
            final(self).options == old(self).options,
    {
        let ghost orig: Seq<(String, SpecProp)> = self.props@;
        let n = self.props.len();
        let mut rev: Vec<(String, SpecProp)> = Vec::new();
        while self.props.len() > 0
            invariant
                orig.len() == n,
                rev@.len() + self.props@.len() == n,
                self.props@ == orig.take(self.props@.len() as int),
                forall|j: int|
                    0 <= j < rev@.len() ==> rev@[j] == backfilled(#[trigger] orig[n - 1 - j]),
                self.version == old(self).version,
                self.scheme == old(self).scheme,
                self.options == old(self).options,
            decreases self.props.len(),
        {
            let ghost plen = self.props@.len() as int;
            let entry = self.props.pop().unwrap();
            let (key, mut prop) = entry;
            proof {
                assert(orig.take(plen)[plen - 1] == orig[plen - 1]);
                assert(orig.take(plen).take(plen - 1) =~= orig.take(plen - 1));
            }
            prop.name = key.clone();
            rev.push((key, prop));
        }
        while rev.len() > 0
            invariant
                orig.len() == n,
                self.props@.len() + rev@.len() == n,
                forall|i: int|
                    0 <= i < self.props@.len() ==> self.props@[i] == backfilled(#[trigger] orig[i]),
                forall|j: int|
                    0 <= j < rev@.len() ==> rev@[j] == backfilled(#[trigger] orig[n - 1 - j]),
                self.version == old(self).version,
                self.scheme == old(self).scheme,
                self.options == old(self).options,
            decreases rev.len(),
        {
            let ghost rlen = rev@.len() as int;
            let ghost prev_rev = rev@;
            let entry = rev.pop().unwrap();
            let ghost ge = entry;
            self.props.push(entry);
            proof {
                assert(ge == prev_rev[rlen - 1]);
                assert(ge == backfilled(orig[n - 1 - (rlen - 1)]));
                assert(self.props@[n - rlen] == ge);
            }
        }
        proof {
            assert forall|i: int| 0 <= i < self@.props.len() implies #[trigger] self@.props[i].1.name
                == self@.props[i].0 by {
                assert(self.props@[i] == backfilled(old(self).props@[i]));
            }
        }
    }
}

/// The boolean value a scalar token denotes: `yes`, `true` and `1` mean
/// true, `no`, `false` and `0` mean false (all case-insensitive); anything
/// else is no boolean at all.
pub open spec fn spec_parse_bool(s: Seq<char>) -> Option<bool> {
    if spec_eq_ignore_ascii_case(s, "yes"@) || spec_eq_ignore_ascii_case(s, "true"@)
        || spec_eq_ignore_ascii_case(s, "1"@) {
        Some(true)
    } else if spec_eq_ignore_ascii_case(s, "no"@) || spec_eq_ignore_ascii_case(s, "false"@)
        || spec_eq_ignore_ascii_case(s, "0"@) {
        Some(false)
    } else {
        None
    }
}

/// Parse a boolean-like scalar token; `None` rejects the token.
pub fn parse_bool(v: &str) -> (r: Option<bool>)
    ensures
        r == spec_parse_bool(v@),
{
    if eq_ignore_ascii_case(v, "yes") || eq_ignore_ascii_case(v, "true")
        || eq_ignore_ascii_case(v, "1") {
        Some(true)
    } else if eq_ignore_ascii_case(v, "no") || eq_ignore_ascii_case(v, "false")
        || eq_ignore_ascii_case(v, "0") {
        Some(false)
    } else {
        None
    }
}

/// True exactly when the flag is off; tells a serializer which flags to omit.
pub fn is_false(v: &bool) -> (r: bool)
    ensures
        r == !*v,
{
    !*v
}

} // verus!
