//! The synthetic aggregator generator: renders, from the discovered
//! entry-point names, the source of a small program that binds and calls
//! every entry point and combines the fragments into one document.
//!
//! The text around the name-dependent parts is handed in by the caller; the
//! renderer splices one binding declaration and one call per name between
//! them, in the callers' (sorted) order, so the output is deterministic.

use vstd::prelude::*;
use vstd::string::StringSliceAdditionalSpecFns;
use crate::symbols::views_of;
use crate::text::{append_bytes, append_str_bytes};

verus! {

/// The binding declaration for one entry-point name.
pub open spec fn decl_of(name: Seq<u8>) -> Seq<u8> {
    "fn ".spec_bytes() + name + "() -> near_sdk::__private::AbiRoot;\n".spec_bytes()
}

/// The call expression for one entry-point name.
pub open spec fn call_of(name: Seq<u8>) -> Seq<u8> {
    name + "(), ".spec_bytes()
}

/// All binding declarations, one per name, in order.
pub open spec fn decls_text(names: Seq<Seq<u8>>) -> Seq<u8>
    decreases names.len(),
{
    if names.len() == 0 {
        Seq::empty()
    } else {
        decls_text(names.drop_last()) + decl_of(names.last())
    }
}

/// All call expressions, one per name, in order.
pub open spec fn calls_text(names: Seq<Seq<u8>>) -> Seq<u8>
    decreases names.len(),
{
    if names.len() == 0 {
        Seq::empty()
    } else {
        calls_text(names.drop_last()) + call_of(names.last())
    }
}

/// The whole generated program: the caller's fixed sections with the
/// declarations and the calls spliced in between.
pub open spec fn aggregator_source(
    header: Seq<u8>,
    middle: Seq<u8>,
    footer: Seq<u8>,
    names: Seq<Seq<u8>>,
) -> Seq<u8> {
    header + decls_text(names) + middle + calls_text(names) + footer
}

/// Renders the binding declarations for `names`.
pub fn generate_decls(names: &Vec<Vec<u8>>) -> (r: Vec<u8>)
    ensures
        r@ == decls_text(views_of(names@)),
{
    let ghost all = views_of(names@);
    let mut out: Vec<u8> = Vec::new();
    let mut i: usize = 0;
    while i < names.len()
        invariant
            i <= names@.len(),
            all == views_of(names@),
            out@ == decls_text(all.subrange(0, i as int)),
        decreases names@.len() - i,
    {
        proof {
            assert(all.subrange(0, i + 1 as int).drop_last() =~= all.subrange(0, i as int));
            assert(all.subrange(0, i + 1 as int).last() == names@[i as int]@);
        }
        append_str_bytes(&mut out, "fn ");
        append_bytes(&mut out, &names[i]);
        append_str_bytes(&mut out, "() -> near_sdk::__private::AbiRoot;\n");
        proof {
            assert(out@ =~= decls_text(all.subrange(0, i + 1 as int)));
        }
        i = i + 1;
    }
    proof {
        assert(all.subrange(0, all.len() as int) =~= all);
    }
    out
}

/// Renders the call expressions for `names`.
pub fn generate_calls(names: &Vec<Vec<u8>>) -> (r: Vec<u8>)
    ensures
        r@ == calls_text(views_of(names@)),
{
    let ghost all = views_of(names@);
    let mut out: Vec<u8> = Vec::new();
    let mut i: usize = 0;
    while i < names.len()
        invariant
            i <= names@.len(),
            all == views_of(names@),
            out@ == calls_text(all.subrange(0, i as int)),
        decreases names@.len() - i,
    {
        proof {
            assert(all.subrange(0, i + 1 as int).drop_last() =~= all.subrange(0, i as int));
            assert(all.subrange(0, i + 1 as int).last() == names@[i as int]@);
        }
        append_bytes(&mut out, &names[i]);
        append_str_bytes(&mut out, "(), ");
        proof {
            assert(out@ =~= calls_text(all.subrange(0, i + 1 as int)));
        }
        i = i + 1;
    }
    proof {
        assert(all.subrange(0, all.len() as int) =~= all);
    }
    out
}

/// Renders the whole aggregator program for the given fixed sections and
/// entry-point names.
pub fn generate_aggregator_source(
    header: &Vec<u8>,
    middle: &Vec<u8>,
    footer: &Vec<u8>,
    names: &Vec<Vec<u8>>,
) -> (r: Vec<u8>)
    ensures
        r@ == aggregator_source(header@, middle@, footer@, views_of(names@)),
{
    let mut out: Vec<u8> = Vec::new();
    append_bytes(&mut out, header);
    let decls = generate_decls(names);
    append_bytes(&mut out, &decls);
    append_bytes(&mut out, middle);
    let calls = generate_calls(names);
    append_bytes(&mut out, &calls);
    append_bytes(&mut out, footer);
    proof {
        assert(out@ =~= aggregator_source(header@, middle@, footer@, views_of(names@)));
    }
    out
}

/// One binding is declared and one call is made per entry-point name, each
/// exactly once and in the given order: the declarations text is the
/// concatenation of `decl_of` over the names, and the calls text the
/// concatenation of `call_of`, so a list of `n` distinct names yields
/// exactly `n` bindings and `n` calls.
pub proof fn lemma_aggregator_shape(names: Seq<Seq<u8>>)
    requires
        names.len() > 0,
    ensures
        decls_text(names) == decls_text(names.drop_last()) + decl_of(names.last()),
        calls_text(names) == calls_text(names.drop_last()) + call_of(names.last()),
        decl_of(names.last()).len() == names.last().len() + 39,
        call_of(names.last()).len() == names.last().len() + 4,
{
    broadcast use vstd::string::is_ascii_spec_bytes;

    assert("fn ".spec_bytes().len() == 3) by {
        reveal_strlit("fn ");
        assert(vstd::string::is_ascii("fn "));
    }
    assert("() -> near_sdk::__private::AbiRoot;\n".spec_bytes().len() == 36) by {
        reveal_strlit("() -> near_sdk::__private::AbiRoot;\n");
        assert(vstd::string::is_ascii("() -> near_sdk::__private::AbiRoot;\n"));
    }
    assert("(), ".spec_bytes().len() == 4) by {
        reveal_strlit("(), ");
        assert(vstd::string::is_ascii("(), "));
    }
}

} // verus!
