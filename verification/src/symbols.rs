//! Symbol extraction: enumerates the exported symbols of the compiled
//! artifact and reduces them to the canonical, sorted list of ABI entry
//! points.

use vstd::prelude::*;
use crate::errors::PipelineError;
use crate::text::{is_prefix_of, starts_with, str_to_bytes, bytes_eq};
use vstd::string::StringSliceAdditionalSpecFns;

verus! {

/// The required prefix of an ABI entry-point symbol name.
pub open spec fn abi_prefix() -> Seq<u8> {
    "__near_abi_".spec_bytes()
}

/// Builds the entry-point prefix as bytes.
pub fn abi_prefix_bytes() -> (r: Vec<u8>)
    ensures
        r@ == abi_prefix(),
{
    str_to_bytes("__near_abi_")
}

/// The exported symbol names of an object file, or nothing when the bytes
/// parse as no known object format: a function of the bytes alone, so
/// scanning the same artifact twice yields the same names.
pub uninterp spec fn symbol_scan_of(data: Seq<u8>) -> Option<Seq<Seq<u8>>>;

/// Relies on `symbolic_debuginfo::Object::parse` (format auto-detection over
/// the artifact bytes) and `Object::symbols` (enumeration of the symbol
/// table): the names are a function of the bytes alone; exactly the bytes
/// that parse as no known object format are reported as an error.
#[verifier::external_body]
pub fn object_symbol_names(data: &Vec<u8>) -> (r: Result<Vec<Vec<u8>>, PipelineError>)
    ensures
        r matches Ok(v) ==> symbol_scan_of(data@) == Some(v@.map_values(|s: Vec<u8>| s@)),
        r matches Err(e) ==> e matches PipelineError::UnrecognizedBinaryFormat && symbol_scan_of(
            data@,
        ) is None,
{
    match symbolic_debuginfo::Object::parse(data.as_slice()) {
        Ok(object) => {
            let mut names: Vec<Vec<u8>> = Vec::new();
            for sym in object.symbols() {
                if let Some(name) = sym.name {
                    names.push(name.into_owned().into_bytes());
                }
            }
            Ok(names)
        }
        Err(_) => Err(PipelineError::UnrecognizedBinaryFormat),
    }
}

/// Lexicographic order on byte strings.
pub open spec fn lex_le(a: Seq<u8>, b: Seq<u8>) -> bool
    decreases a.len(),
{
    if a.len() == 0 {
        true
    } else if b.len() == 0 {
        false
    } else if a[0] < b[0] {
        true
    } else if a[0] > b[0] {
        false
    } else {
        lex_le(a.drop_first(), b.drop_first())
    }
}

/// Strict lexicographic order.
pub open spec fn lex_lt(a: Seq<u8>, b: Seq<u8>) -> bool {
    lex_le(a, b) && a != b
}

/// Strictly ascending: sorted and free of duplicates.
pub open spec fn strictly_sorted(s: Seq<Seq<u8>>) -> bool {
    forall|i: int, j: int| 0 <= i < j < s.len() ==> lex_lt(s[i], s[j])
}

/// The views of a vector of byte vectors.
pub open spec fn views_of(v: Seq<Vec<u8>>) -> Seq<Seq<u8>> {
    v.map_values(|x: Vec<u8>| x@)
}

/// The set of entry-point names among `syms`: those with the ABI prefix.
pub open spec fn abi_symbol_set(syms: Seq<Seq<u8>>) -> Set<Seq<u8>> {
    syms.to_set().filter(|s: Seq<u8>| is_prefix_of(abi_prefix(), s))
}

/// The order is total: any two byte strings compare one way or the other.
pub proof fn lemma_lex_le_total(a: Seq<u8>, b: Seq<u8>)
    ensures
        lex_le(a, b) || lex_le(b, a),
    decreases a.len(),
{
    if a.len() == 0 {
    } else if b.len() == 0 {
    } else if a[0] == b[0] {
        lemma_lex_le_total(a.drop_first(), b.drop_first());
    }
}

/// Two byte strings each at most the other are equal.
pub proof fn lemma_lex_le_antisym(a: Seq<u8>, b: Seq<u8>)
    requires
        lex_le(a, b),
        lex_le(b, a),
    ensures
        a == b,
    decreases a.len(),
{
    if a.len() == 0 {
        assert(b.len() == 0);
        assert(a =~= b);
    } else {
        assert(b.len() > 0);
        assert(a[0] == b[0]);
        lemma_lex_le_antisym(a.drop_first(), b.drop_first());
        assert(a.drop_first() == b.drop_first());
        assert(a.drop_first().len() == a.len() - 1);
        assert(b.drop_first().len() == b.len() - 1);
        assert forall|i: int| 0 <= i < a.len() implies a[i] == b[i] by {
            if i >= 1 {
                assert(a[i] == a.drop_first()[i - 1]);
                assert(b[i] == b.drop_first()[i - 1]);
            }
        }
        assert(a =~= b);
    }
}

/// The order is transitive.
pub proof fn lemma_lex_le_trans(a: Seq<u8>, b: Seq<u8>, c: Seq<u8>)
    requires
        lex_le(a, b),
        lex_le(b, c),
    ensures
        lex_le(a, c),
    decreases a.len(),
{
    if a.len() == 0 {
    } else {
        assert(b.len() > 0);
        assert(c.len() > 0);
        if a[0] == c[0] {
            assert(a[0] == b[0] && b[0] == c[0]);
            lemma_lex_le_trans(a.drop_first(), b.drop_first(), c.drop_first());
        }
    }
}

/// Comparing from position `i` on: when the first `i` bytes agree, the order
/// is decided by the remainders.
proof fn lemma_lex_skip(a: Seq<u8>, b: Seq<u8>, i: int)
    requires
        0 <= i <= a.len(),
        i <= b.len(),
        forall|j: int| 0 <= j < i ==> a[j] == b[j],
    ensures
        lex_le(a, b) == lex_le(a.skip(i), b.skip(i)),
    decreases i,
{
    if i == 0 {
        assert(a.skip(0) =~= a);
        assert(b.skip(0) =~= b);
    } else {
        assert(a[0] == b[0]);
        assert(lex_le(a, b) == lex_le(a.drop_first(), b.drop_first()));
        assert(a.drop_first() =~= a.skip(1));
        assert(b.drop_first() =~= b.skip(1));
        lemma_lex_skip(a.drop_first(), b.drop_first(), i - 1);
        assert(a.drop_first().skip(i - 1) =~= a.skip(i));
        assert(b.drop_first().skip(i - 1) =~= b.skip(i));
    }
}

/// Lexicographic comparison of two byte vectors.
pub fn lex_le_vec(a: &Vec<u8>, b: &Vec<u8>) -> (r: bool)
    ensures
        r == lex_le(a@, b@),
{
    let na: usize = a.len();
    let nb: usize = b.len();
    let mut i: usize = 0;
    while i < na && i < nb
        invariant
            i <= na,
            i <= nb,
            na == a@.len(),
            nb == b@.len(),
            forall|j: int| 0 <= j < i ==> a@[j] == b@[j],
        decreases na - i,
    {
        if a[i] < b[i] {
            proof {
                lemma_lex_skip(a@, b@, i as int);
                assert(a@.skip(i as int)[0] == a@[i as int]);
                assert(b@.skip(i as int)[0] == b@[i as int]);
            }
            return true;
        }
        if a[i] > b[i] {
            proof {
                lemma_lex_skip(a@, b@, i as int);
                assert(a@.skip(i as int)[0] == a@[i as int]);
                assert(b@.skip(i as int)[0] == b@[i as int]);
            }
            return false;
        }
        i = i + 1;
    }
    proof {
        lemma_lex_skip(a@, b@, i as int);
        if i == na {
            assert(a@.skip(i as int).len() == 0);
        } else {
            assert(b@.skip(i as int).len() == 0);
            assert(a@.skip(i as int).len() > 0);
        }
    }
    i == na
}

/// Inserts `x` into the strictly sorted vector `r`, keeping it strictly
/// sorted; a name already present is not inserted twice.
fn insert_unique(r: &mut Vec<Vec<u8>>, x: Vec<u8>)
    requires
        strictly_sorted(views_of(old(r)@)),
    ensures
        strictly_sorted(views_of(final(r)@)),
        views_of(final(r)@).to_set() == views_of(old(r)@).to_set().insert(x@),
{
    let ghost vs = views_of(r@);
    let n: usize = r.len();
    let mut i: usize = 0;
    while i < n && !lex_le_vec(&x, &r[i])
        invariant
            i <= n,
            n == r@.len(),
            r@ == old(r)@,
            vs == views_of(r@),
            forall|j: int| 0 <= j < i ==> lex_lt(#[trigger] vs[j], x@),
        decreases n - i,
    {
        proof {
            lemma_lex_le_total(x@, vs[i as int]);
            if vs[i as int] == x@ {
                assert(lex_le(x@, vs[i as int])) by {
                    lemma_lex_le_total(x@, x@);
                }
            }
            assert(lex_lt(vs[i as int], x@));
        }
        i = i + 1;
    }
    if i < n {
        let same = bytes_eq(&x, &r[i]);
        if same {
            proof {
                assert(vs[i as int] == x@);
                assert(views_of(r@).to_set().contains(x@));
                assert(views_of(r@).to_set() =~= views_of(old(r)@).to_set().insert(x@));
            }
            return ;
        }
    }
    assert(i < n ==> lex_lt(x@, vs[i as int]));
    r.insert(i, x);
    proof {
        let nvs = views_of(r@);
        assert(r@ == old(r)@.insert(i as int, x));
        assert(nvs =~= vs.insert(i as int, x@)) by {
            assert(nvs.len() == vs.len() + 1);
            assert(forall|k: int| 0 <= k < nvs.len() ==> nvs[k] == #[trigger] r@[k]@);
        }
        assert(strictly_sorted(nvs)) by {
            assert(forall|p: int, q: int| 0 <= p < q < nvs.len() ==> lex_lt(nvs[p], nvs[q])) by {
                assert forall|p: int, q: int| 0 <= p < q < nvs.len() implies lex_lt(
                    nvs[p],
                    nvs[q],
                ) by {
                    let ii = i as int;
                    if q < ii {
                        assert(nvs[p] == vs[p] && nvs[q] == vs[q]);
                    } else if p < ii && q == ii {
                        assert(nvs[p] == vs[p] && nvs[q] == x@);
                    } else if p < ii && q > ii {
                        assert(nvs[p] == vs[p] && nvs[q] == vs[q - 1]);
                        assert(lex_lt(vs[p], x@));
                        assert(lex_lt(x@, vs[ii]));
                        if q - 1 > ii {
                            assert(lex_lt(vs[ii], vs[q - 1]));
                            lemma_lex_le_trans(x@, vs[ii], vs[q - 1]);
                        }
                        assert(lex_le(x@, vs[q - 1]));
                        lemma_lex_le_trans(vs[p], x@, vs[q - 1]);
                        if vs[p] == vs[q - 1] {
                            lemma_lex_le_antisym(vs[p], x@);
                        }
                    } else if p == ii {
                        assert(nvs[p] == x@ && nvs[q] == vs[q - 1]);
                        assert(lex_lt(x@, vs[ii]));
                        if q - 1 > ii {
                            assert(lex_lt(vs[ii], vs[q - 1]));
                            lemma_lex_le_trans(x@, vs[ii], vs[q - 1]);
                            if x@ == vs[q - 1] {
                                lemma_lex_le_antisym(x@, vs[ii]);
                            }
                        }
                    } else {
                        assert(nvs[p] == vs[p - 1] && nvs[q] == vs[q - 1]);
                    }
                }
            }
        }
        assert(nvs.to_set() =~= vs.to_set().insert(x@)) by {
            assert forall|e: Seq<u8>| nvs.to_set().contains(e) implies vs.to_set().insert(
                x@,
            ).contains(e) by {
                let k = choose|k: int| 0 <= k < nvs.len() && nvs[k] == e;
                if k < i as int {
                    assert(vs[k] == e);
                } else if k == i as int {
                } else {
                    assert(vs[k - 1] == e);
                }
            }
            assert forall|e: Seq<u8>| vs.to_set().insert(x@).contains(e) implies nvs.to_set()
                .contains(e) by {
                if e == x@ {
                    assert(nvs[i as int] == e);
                } else {
                    let k = choose|k: int| 0 <= k < vs.len() && vs[k] == e;
                    if k < i as int {
                        assert(nvs[k] == e);
                    } else {
                        assert(nvs[k + 1] == e);
                    }
                }
            }
        }
    }
}

/// Reduces the exported symbol names to the canonical entry-point list:
/// exactly the names with the ABI prefix, without duplicates, in ascending
/// lexicographic order.
pub fn filter_abi_symbols(syms: &Vec<Vec<u8>>) -> (r: Vec<Vec<u8>>)
    ensures
        strictly_sorted(views_of(r@)),
        views_of(r@).to_set() == abi_symbol_set(views_of(syms@)),
{
    let prefix = abi_prefix_bytes();
    let mut out: Vec<Vec<u8>> = Vec::new();
    let mut i: usize = 0;
    while i < syms.len()
        invariant
            i <= syms@.len(),
            prefix@ == abi_prefix(),
            strictly_sorted(views_of(out@)),
            views_of(out@).to_set() == abi_symbol_set(views_of(syms@).subrange(0, i as int)),
        decreases syms@.len() - i,
    {
        let ghost pre = views_of(syms@).subrange(0, i as int);
        let ghost post = views_of(syms@).subrange(0, i + 1 as int);
        proof {
            assert(post =~= pre.push(syms@[i as int]@));
            assert(post.to_set() =~= pre.to_set().insert(syms@[i as int]@)) by {
                assert forall|e: Seq<u8>| post.to_set().contains(e) implies pre.to_set().insert(
                    syms@[i as int]@,
                ).contains(e) by {
                    let k = choose|k: int| 0 <= k < post.len() && post[k] == e;
                    if k < i as int {
                        assert(pre[k] == e);
                    }
                }
                assert forall|e: Seq<u8>|
                    pre.to_set().insert(syms@[i as int]@).contains(e) implies post.to_set()
                    .contains(e) by {
                    if e == syms@[i as int]@ {
                        assert(post[i as int] == e);
                    } else {
                        let k = choose|k: int| 0 <= k < pre.len() && pre[k] == e;
                        assert(post[k] == e);
                    }
                }
            }
        }
        if starts_with(&syms[i], &prefix) {
            insert_unique(&mut out, syms[i].clone());
            proof {
                assert(syms[i as int]@ == views_of(syms@)[i as int]);
                assert(abi_symbol_set(post) =~= abi_symbol_set(pre).insert(syms@[i as int]@));
                assert(views_of(out@).to_set() =~= abi_symbol_set(post));
            }
        } else {
            proof {
                assert(abi_symbol_set(post) =~= abi_symbol_set(pre));
            }
        }
        i = i + 1;
    }
    proof {
        assert(views_of(syms@).subrange(0, syms@.len() as int) =~= views_of(syms@));
    }
    out
}

/// The canonical entry-point list over the exported names `found`: the
/// unique strictly sorted sequence holding exactly the names with the ABI
/// prefix.
pub open spec fn canonical_entry_points(found: Seq<Seq<u8>>) -> Seq<Seq<u8>> {
    choose|ns: Seq<Seq<u8>>| strictly_sorted(ns) && ns.to_set() == abi_symbol_set(found)
}

/// A strictly sorted list holding exactly the prefixed names among `found`
/// is the canonical entry-point list.
pub proof fn lemma_filter_is_canonical(names: Seq<Seq<u8>>, found: Seq<Seq<u8>>)
    requires
        strictly_sorted(names),
        names.to_set() == abi_symbol_set(found),
    ensures
        names == canonical_entry_points(found),
{
    assert(exists|ns: Seq<Seq<u8>>| strictly_sorted(ns) && ns.to_set() == abi_symbol_set(found))
        by {
        assert(strictly_sorted(names) && names.to_set() == abi_symbol_set(found));
    }
    let w = canonical_entry_points(found);
    assert(strictly_sorted(w) && w.to_set() == abi_symbol_set(found));
    lemma_canonical_list_unique(names, w);
}

/// Two strictly sorted name lists with the same elements are identical:
/// the canonical entry-point list depends only on the discovered set, not
/// on the order in which symbols were enumerated.
pub proof fn lemma_canonical_list_unique(x: Seq<Seq<u8>>, y: Seq<Seq<u8>>)
    requires
        strictly_sorted(x),
        strictly_sorted(y),
        x.to_set() == y.to_set(),
    ensures
        x == y,
    decreases x.len(),
{
    broadcast use vstd::seq_lib::group_seq_properties;

    if x.len() == 0 {
        if y.len() > 0 {
            assert(x.to_set().contains(y[0])) by {
                assert(y.to_set().contains(y[0]));
            }
            assert(false);
        }
        assert(x =~= y);
    } else if y.len() == 0 {
        assert(y.to_set().contains(x[0])) by {
            assert(x.to_set().contains(x[0]));
        }
        assert(false);
    } else {
        assert(y.to_set().contains(x[0])) by {
            assert(x.to_set().contains(x[0]));
        }
        assert(x.to_set().contains(y[0])) by {
            assert(y.to_set().contains(y[0]));
        }
        let kx = choose|k: int| 0 <= k < y.len() && y[k] == x[0];
        let ky = choose|k: int| 0 <= k < x.len() && x[k] == y[0];
        if kx > 0 {
            assert(lex_lt(y[0], y[kx]));
        }
        if ky > 0 {
            assert(lex_lt(x[0], x[ky]));
        }
        if x[0] != y[0] {
            lemma_lex_le_antisym(x[0], y[0]);
            assert(false);
        }
        let xt = x.drop_first();
        let yt = y.drop_first();
        assert(strictly_sorted(xt)) by {
            assert(forall|i: int, j: int|
                0 <= i < j < xt.len() ==> xt[i] == x[i + 1] && xt[j] == x[j + 1]);
        }
        assert(strictly_sorted(yt)) by {
            assert(forall|i: int, j: int|
                0 <= i < j < yt.len() ==> yt[i] == y[i + 1] && yt[j] == y[j + 1]);
        }
        assert(xt.to_set() =~= x.to_set().remove(x[0])) by {
            assert forall|e: Seq<u8>| xt.to_set().contains(e) implies x.to_set().remove(
                x[0],
            ).contains(e) by {
                let k = choose|k: int| 0 <= k < xt.len() && xt[k] == e;
                assert(x[k + 1] == e);
                assert(lex_lt(x[0], x[k + 1]));
            }
            assert forall|e: Seq<u8>| x.to_set().remove(x[0]).contains(e) implies xt.to_set()
                .contains(e) by {
                let k = choose|k: int| 0 <= k < x.len() && x[k] == e;
                assert(k > 0);
                assert(xt[k - 1] == e);
            }
        }
        assert(yt.to_set() =~= y.to_set().remove(y[0])) by {
            assert forall|e: Seq<u8>| yt.to_set().contains(e) implies y.to_set().remove(
                y[0],
            ).contains(e) by {
                let k = choose|k: int| 0 <= k < yt.len() && yt[k] == e;
                assert(y[k + 1] == e);
                assert(lex_lt(y[0], y[k + 1]));
            }
            assert forall|e: Seq<u8>| y.to_set().remove(y[0]).contains(e) implies yt.to_set()
                .contains(e) by {
                let k = choose|k: int| 0 <= k < y.len() && y[k] == e;
                assert(k > 0);
                assert(yt[k - 1] == e);
            }
        }
        lemma_canonical_list_unique(xt, yt);
        assert(x =~= y) by {
            assert(forall|i: int| 1 <= i < x.len() ==> x[i] == xt[i - 1] && y[i] == yt[i - 1]);
        }
    }
}

} // verus!
