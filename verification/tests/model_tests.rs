//! Tests of the spec model: name back-filling, role order, boolean tokens,
//! and the per-field documentation blocks.

use shoutrrr_spec::fields::{write_extras, write_primary};
use shoutrrr_spec::model::{
    is_false, parse_bool, OptionSpecProp, PropType, ServiceSpec, SpecOptions, SpecProp, URLPart,
};

fn prop() -> SpecProp {
    SpecProp {
        prop_type: PropType::Text,
        description: String::new(),
        name: String::new(),
        default_value: None,
        template: None,
        required: false,
        url_parts: Vec::new(),
        keys: Vec::new(),
        credential: false,
        value_separator: None,
    }
}

#[test]
fn init_props_backfills_names() {
    let mut spec = ServiceSpec {
        version: 2,
        scheme: "svc".to_string(),
        options: SpecOptions { reverse_path_prio: true, custom_query_vars: false },
        props: vec![
            ("alpha".to_string(), prop()),
            ("beta".to_string(), prop()),
        ],
    };
    spec.init_props();
    assert_eq!(spec.props.len(), 2);
    assert_eq!(spec.props[0].0, "alpha");
    assert_eq!(spec.props[0].1.name, "alpha");
    assert_eq!(spec.props[1].0, "beta");
    assert_eq!(spec.props[1].1.name, "beta");
    assert_eq!(spec.version, 2);
    assert_eq!(spec.scheme, "svc");
    assert!(spec.options.reverse_path_prio);
}

#[test]
fn url_part_iter_canonical_order() {
    let parts = URLPart::iter();
    assert_eq!(
        parts,
        [
            URLPart::Scheme,
            URLPart::Query,
            URLPart::User,
            URLPart::Password,
            URLPart::Host,
            URLPart::Port,
            URLPart::Path1,
            URLPart::Path2,
            URLPart::Path3,
            URLPart::Path4,
            URLPart::Path,
        ]
    );
}

#[test]
fn bool_tokens_accepted() {
    assert_eq!(parse_bool("yes"), Some(true));
    assert_eq!(parse_bool("true"), Some(true));
    assert_eq!(parse_bool("1"), Some(true));
    assert_eq!(parse_bool("no"), Some(false));
    assert_eq!(parse_bool("false"), Some(false));
    assert_eq!(parse_bool("0"), Some(false));
    assert_eq!(parse_bool("YES"), Some(true));
    assert_eq!(parse_bool("True"), Some(true));
    assert_eq!(parse_bool("FaLsE"), Some(false));
    assert_eq!(parse_bool("NO"), Some(false));
}

#[test]
fn bool_tokens_rejected() {
    assert_eq!(parse_bool("maybe"), None);
    assert_eq!(parse_bool(""), None);
    assert_eq!(parse_bool("2"), None);
    assert_eq!(parse_bool("yess"), None);
    assert_eq!(parse_bool("tru"), None);
}

#[test]
fn is_false_flags() {
    assert!(is_false(&false));
    assert!(!is_false(&true));
}

#[test]
fn primary_block_required() {
    let mut p = prop();
    p.name = "token".to_string();
    p.description = "API token".to_string();
    p.required = true;
    let mut out = String::new();
    write_primary(&mut out, &p);
    assert_eq!(out, "*  __token__ - API token (**Required**)  \n");
}

#[test]
fn primary_block_default_value() {
    let mut p = prop();
    p.name = "port".to_string();
    p.default_value = Some("25".to_string());
    let mut out = String::new();
    write_primary(&mut out, &p);
    assert_eq!(out, "*  __port__  \n  Default: `25`  \n");
}

#[test]
fn primary_block_no_default() {
    let mut p = prop();
    p.name = "host".to_string();
    let mut out = String::new();
    write_primary(&mut out, &p);
    assert_eq!(out, "*  __host__  \n  Default: *empty*  \n");
}

#[test]
fn extras_block_option_values() {
    let mut p = prop();
    p.name = "mode".to_string();
    p.prop_type = PropType::Option(OptionSpecProp {
        values: vec!["a".to_string(), "b".to_string()],
    });
    let mut out = String::new();
    write_extras(&mut out, &p);
    assert_eq!(out, "  Possible values: `a`, `b`  \n");
}

#[test]
fn extras_block_aliases_skip_primary() {
    let mut p = prop();
    p.name = "host".to_string();
    p.keys = vec!["host".to_string(), "hostname".to_string(), "server".to_string()];
    let mut out = String::new();
    write_extras(&mut out, &p);
    assert_eq!(out, "  Aliases: `hostname`, `server`  \n");
}

#[test]
fn extras_block_empty() {
    let mut p = prop();
    p.name = "host".to_string();
    p.keys = vec!["host".to_string()];
    let mut out = String::new();
    write_extras(&mut out, &p);
    assert_eq!(out, "");
}
