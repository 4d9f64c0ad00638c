//! Per-field documentation blocks: the primary block (name, description,
//! required/default) and the extras block (aliases and allowed values).

use vstd::prelude::*;

use crate::model::{PropTypeV, SpecProp, SpecPropV};

verus! {

/// `items`, joined left to right with `sep` between consecutive items.
pub open spec fn spec_join(items: Seq<Seq<char>>, sep: Seq<char>) -> Seq<char>
    decreases items.len(),
{
    if items.len() == 0 {
        Seq::empty()
    } else if items.len() == 1 {
        items[0]
    } else {
        spec_join(items.drop_last(), sep) + sep + items.last()
    }
}

/// Join the strings of `v` from index `start` on, separated by `sep`.
pub fn join_from(v: &Vec<String>, start: usize, sep: &str) -> (r: String)
    requires
        start <= v@.len(),
    ensures
        r@ == spec_join(v@.map_values(|s: String| s@).skip(start as int), sep@),
{
    let ghost items = v@.map_values(|s: String| s@);
    let mut r = String::new();
    if start >= v.len() {
        proof {
            assert(items.skip(start as int).len() == 0);
        }
        return r;
    }
    r.append(v[start].as_str());
    let mut i: usize = start + 1;
    proof {
        assert(items.skip(start as int).take(1) =~= seq![items[start as int]]);
        assert(spec_join(items.skip(start as int).take(1), sep@) == items[start as int]);
    }
    while i < v.len()
        invariant
            start < i <= v@.len(),
            items == v@.map_values(|s: String| s@),
            r@ == spec_join(items.skip(start as int).take(i - start), sep@),
        decreases v@.len() - i,
    {
        r.append(sep);
        r.append(v[i].as_str());
        proof {
            let pre = items.skip(start as int).take(i - start);
            let cur = items.skip(start as int).take(i + 1 - start);
            assert(cur.drop_last() =~= pre);
            assert(cur.last() == items[i as int]);
            assert(cur.len() >= 2);
            assert(r@ =~= spec_join(cur, sep@));
        }
        i = i + 1;
    }
    proof {
        assert(items.skip(start as int).take(i - start) =~= items.skip(start as int));
    }
    r
}

/// The primary documentation block of one property: bolded name, optional
/// description, then either a required marker or a default line (an
/// explicit empty-marker when no default exists).
pub open spec fn spec_primary(p: SpecPropV) -> Seq<char> {
    "*  __"@ + p.name + "__"@ + (if p.description.len() > 0 {
        " - "@ + p.description
    } else {
        Seq::<char>::empty()
    }) + (if p.required {
        " (**Required**)  \n"@
    } else {
        "  \n  Default: "@ + (match p.default_value {
            None => "*empty*  \n"@,
            Some(d) => "`"@ + d + "`  \n"@,
        })
    })
}

/// Append the primary documentation block of `prop` to `output`.
pub fn write_primary(output: &mut String, prop: &SpecProp)
    ensures
        final(output)@ == old(output)@ + spec_primary(prop@),
{
    output.append("*  __");
    output.append(prop.name.as_str());
    output.append("__");
    if !prop.description.as_str().is_empty() {
        output.append(" - ");
        output.append(prop.description.as_str());
    }
    if prop.required {
        output.append(" (**Required**)  \n");
    } else {
        output.append("  \n  Default: ");
        match &prop.default_value {
            None => output.append("*empty*  \n"),
            Some(d) => {
                output.append("`");
                output.append(d.as_str());
                output.append("`  \n");
            },
        }
    }
    proof {
        assert(output@ =~= old(output)@ + spec_primary(prop@));
    }
}

/// The extras block of one property: the non-primary aliases when there are
/// any, and the allowed values when the property is `Option`-typed.  Either
/// sub-block is omitted when empty.
pub open spec fn spec_extras(p: SpecPropV) -> Seq<char> {
    (if p.keys.len() > 1 {
        "  Aliases: `"@ + spec_join(p.keys.skip(1), "`, `"@) + "`  \n"@
    } else {
        Seq::<char>::empty()
    }) + (match p.prop_type {
        PropTypeV::Choices { values } => "  Possible values: `"@ + spec_join(values, "`, `"@)
            + "`  \n"@,
        _ => Seq::<char>::empty(),
    })
}

/// Append the extras block of `prop` to `output`: all aliases except the
/// primary one, and the allowed value set of an `Option`-typed property.
pub fn write_extras(output: &mut String, prop: &SpecProp)
    ensures
        final(output)@ == old(output)@ + spec_extras(prop@),
{
    if prop.keys.len() > 1 {
        let joined = join_from(&prop.keys, 1, "`, `");
        output.append("  Aliases: `");
        output.append(joined.as_str());
        output.append("`  \n");
    }
    match &prop.prop_type {
        crate::model::PropType::Option(opt) => {
            let joined = join_from(&opt.values, 0, "`, `");
            proof {
                assert(opt.values@.map_values(|s: String| s@).skip(0) =~= opt.values@.map_values(
                    |s: String| s@,
                ));
            }
            output.append("  Possible values: `");
            output.append(joined.as_str());
            output.append("`  \n");
        },
        _ => {},
    }
    proof {
        assert(prop@.keys.len() == prop.keys@.len());
        assert(output@ =~= old(output)@ + spec_extras(prop@));
    }
}

} // verus!
