//! The structured build-manifest model and its edits.
//!
//! Snapshot mutation never rewrites manifest text directly: a manifest is
//! parsed into this model, edited by the pure operations below, and rendered
//! back. Every edit is idempotent: applying it to a manifest that already
//! satisfies it returns the same manifest.
//!
//! The model is two-level: a manifest is a list of named sections, a section
//! holds named items, and an item is a plain value or a one-level table,
//! which covers every part a mutation touches; anything else is carried
//! through opaquely as a rendered fragment.

use vstd::prelude::*;
use vstd::string::StringSliceAdditionalSpecFns;
use crate::symbols::views_of;
use crate::text::{bytes_eq, str_to_bytes};

verus! {

/// A plain manifest value.
#[derive(Debug)]
pub enum TomlLeaf {
    Text(Vec<u8>),
    Truth(bool),
    Number(i64),
    TextList(Vec<Vec<u8>>),
    /// Any other value, carried through as rendered manifest text.
    Fragment(Vec<u8>),
}

/// A section entry: a plain value or a one-level table of plain values.
#[derive(Debug)]
pub enum TomlItem {
    Leaf(TomlLeaf),
    Table(Vec<(Vec<u8>, TomlLeaf)>),
}

/// A named manifest section.
#[derive(Debug)]
pub struct TomlSection {
    pub name: Vec<u8>,
    pub entries: Vec<(Vec<u8>, TomlItem)>,
}

/// A parsed build manifest.
#[derive(Debug)]
pub struct Manifest {
    pub sections: Vec<TomlSection>,
}

/// The mathematical model of a plain value.
#[verifier::ext_equal]
pub enum LeafModel {
    Text(Seq<u8>),
    Truth(bool),
    Number(i64),
    TextList(Seq<Seq<u8>>),
    Fragment(Seq<u8>),
}

/// The mathematical model of a section entry.
#[verifier::ext_equal]
pub enum ItemModel {
    Leaf(LeafModel),
    Table(Seq<(Seq<u8>, LeafModel)>),
}

pub open spec fn leaf_model(l: TomlLeaf) -> LeafModel {
    match l {
        TomlLeaf::Text(t) => LeafModel::Text(t@),
        TomlLeaf::Truth(b) => LeafModel::Truth(b),
        TomlLeaf::Number(n) => LeafModel::Number(n),
        TomlLeaf::TextList(v) => LeafModel::TextList(views_of(v@)),
        TomlLeaf::Fragment(f) => LeafModel::Fragment(f@),
    }
}

pub open spec fn table_model(t: Seq<(Vec<u8>, TomlLeaf)>) -> Seq<(Seq<u8>, LeafModel)> {
    t.map_values(|p: (Vec<u8>, TomlLeaf)| (p.0@, leaf_model(p.1)))
}

pub open spec fn item_model(i: TomlItem) -> ItemModel {
    match i {
        TomlItem::Leaf(l) => ItemModel::Leaf(leaf_model(l)),
        TomlItem::Table(t) => ItemModel::Table(table_model(t@)),
    }
}

pub open spec fn entries_model(es: Seq<(Vec<u8>, TomlItem)>) -> Seq<(Seq<u8>, ItemModel)> {
    es.map_values(|p: (Vec<u8>, TomlItem)| (p.0@, item_model(p.1)))
}

pub open spec fn sections_model(ss: Seq<TomlSection>) -> Seq<(Seq<u8>, Seq<(Seq<u8>, ItemModel)>)> {
    ss.map_values(|s: TomlSection| (s.name@, entries_model(s.entries@)))
}

/// The model of a whole manifest.
pub open spec fn manifest_model(m: Manifest) -> Seq<(Seq<u8>, Seq<(Seq<u8>, ItemModel)>)> {
    sections_model(m.sections@)
}

/// Appends `x` to the list unless it is already there.
pub open spec fn spec_add_to_list(l: Seq<Seq<u8>>, x: Seq<u8>) -> Seq<Seq<u8>> {
    if l.contains(x) {
        l
    } else {
        l.push(x)
    }
}

/// The new list entry after ensuring `value` is in it: an existing text
/// list is extended, anything else is replaced by the one-element list.
pub open spec fn spec_list_item(cur: ItemModel, value: Seq<u8>) -> ItemModel {
    match cur {
        ItemModel::Leaf(LeafModel::TextList(l)) => ItemModel::Leaf(
            LeafModel::TextList(spec_add_to_list(l, value)),
        ),
        _ => ItemModel::Leaf(LeafModel::TextList(seq![value])),
    }
}

/// Ensures `value` stands in the list entry `key` of the section's entries.
pub open spec fn spec_entries_ensure(
    es: Seq<(Seq<u8>, ItemModel)>,
    key: Seq<u8>,
    value: Seq<u8>,
) -> Seq<(Seq<u8>, ItemModel)>
    decreases es.len(),
{
    if es.len() == 0 {
        seq![(key, ItemModel::Leaf(LeafModel::TextList(seq![value])))]
    } else if es[0].0 == key {
        seq![(key, spec_list_item(es[0].1, value))] + es.drop_first()
    } else {
        seq![es[0]] + spec_entries_ensure(es.drop_first(), key, value)
    }
}

/// Ensures `value` stands in the list entry `key` of section `section`.
pub open spec fn spec_ensure_in_list(
    ms: Seq<(Seq<u8>, Seq<(Seq<u8>, ItemModel)>)>,
    section: Seq<u8>,
    key: Seq<u8>,
    value: Seq<u8>,
) -> Seq<(Seq<u8>, Seq<(Seq<u8>, ItemModel)>)>
    decreases ms.len(),
{
    if ms.len() == 0 {
        seq![(section, seq![(key, ItemModel::Leaf(LeafModel::TextList(seq![value])))])]
    } else if ms[0].0 == section {
        seq![(section, spec_entries_ensure(ms[0].1, key, value))] + ms.drop_first()
    } else {
        seq![ms[0]] + spec_ensure_in_list(ms.drop_first(), section, key, value)
    }
}

/// Sets leaf `key` to `leaf` in the one-level table.
pub open spec fn spec_table_set(
    t: Seq<(Seq<u8>, LeafModel)>,
    key: Seq<u8>,
    leaf: LeafModel,
) -> Seq<(Seq<u8>, LeafModel)>
    decreases t.len(),
{
    if t.len() == 0 {
        seq![(key, leaf)]
    } else if t[0].0 == key {
        seq![(key, leaf)] + t.drop_first()
    } else {
        seq![t[0]] + spec_table_set(t.drop_first(), key, leaf)
    }
}

/// The new table entry after setting `key` to `leaf` in it: an existing
/// table is updated, anything else is replaced by the one-entry table.
pub open spec fn spec_table_item(cur: ItemModel, key: Seq<u8>, leaf: LeafModel) -> ItemModel {
    match cur {
        ItemModel::Table(t) => ItemModel::Table(spec_table_set(t, key, leaf)),
        _ => ItemModel::Table(seq![(key, leaf)]),
    }
}

/// Sets `key` to `leaf` inside the table entry `entry` of the entries.
pub open spec fn spec_entries_set_table(
    es: Seq<(Seq<u8>, ItemModel)>,
    entry: Seq<u8>,
    key: Seq<u8>,
    leaf: LeafModel,
) -> Seq<(Seq<u8>, ItemModel)>
    decreases es.len(),
{
    if es.len() == 0 {
        seq![(entry, ItemModel::Table(seq![(key, leaf)]))]
    } else if es[0].0 == entry {
        seq![(entry, spec_table_item(es[0].1, key, leaf))] + es.drop_first()
    } else {
        seq![es[0]] + spec_entries_set_table(es.drop_first(), entry, key, leaf)
    }
}

/// Sets `key` to `leaf` inside the table entry `entry` of section `section`.
pub open spec fn spec_set_table_leaf(
    ms: Seq<(Seq<u8>, Seq<(Seq<u8>, ItemModel)>)>,
    section: Seq<u8>,
    entry: Seq<u8>,
    key: Seq<u8>,
    leaf: LeafModel,
) -> Seq<(Seq<u8>, Seq<(Seq<u8>, ItemModel)>)>
    decreases ms.len(),
{
    if ms.len() == 0 {
        seq![(section, seq![(entry, ItemModel::Table(seq![(key, leaf)]))])]
    } else if ms[0].0 == section {
        seq![(section, spec_entries_set_table(ms[0].1, entry, key, leaf))] + ms.drop_first()
    } else {
        seq![ms[0]] + spec_set_table_leaf(ms.drop_first(), section, entry, key, leaf)
    }
}

/// Removes every leaf named `key` from the one-level table.
pub open spec fn spec_table_remove(t: Seq<(Seq<u8>, LeafModel)>, key: Seq<u8>) -> Seq<
    (Seq<u8>, LeafModel),
>
    decreases t.len(),
{
    if t.len() == 0 {
        Seq::empty()
    } else if t[0].0 == key {
        spec_table_remove(t.drop_first(), key)
    } else {
        seq![t[0]] + spec_table_remove(t.drop_first(), key)
    }
}

/// The dependency stripped of its default-feature, feature-list and
/// optional flags, so the copy behaves as a plain direct dependency.
pub open spec fn spec_strip_dependency(i: ItemModel) -> ItemModel {
    match i {
        ItemModel::Table(t) => ItemModel::Table(
            spec_table_remove(
                spec_table_remove(
                    spec_table_remove(t, "default-features".spec_bytes()),
                    "features".spec_bytes(),
                ),
                "optional".spec_bytes(),
            ),
        ),
        _ => i,
    }
}



/// Appends `value` to the list unless it is already present.
pub fn list_add_unique(l: Vec<Vec<u8>>, value: &Vec<u8>) -> (r: Vec<Vec<u8>>)
    ensures
        views_of(r@) == spec_add_to_list(views_of(l@), value@),
{
    let mut lv = l;
    let n: usize = lv.len();
    let mut i: usize = 0;
    while i < n
        invariant
            i <= n,
            n == lv@.len(),
            lv@ == l@,
            forall|j: int| 0 <= j < i ==> views_of(l@)[j] != value@,
        decreases n - i,
    {
        if bytes_eq(&lv[i], value) {
            proof {
                assert(views_of(l@)[i as int] == value@);
                assert(views_of(l@).contains(value@));
            }
            return lv;
        }
        i = i + 1;
    }
    proof {
        assert(!views_of(l@).contains(value@));
    }
    lv.push(value.clone());
    proof {
        assert(views_of(lv@) =~= views_of(l@).push(value@));
    }
    lv
}

/// Ensures `value` stands in the list entry `key` of the entries.
fn entries_ensure(es: Vec<(Vec<u8>, TomlItem)>, key: &Vec<u8>, value: &Vec<u8>) -> (r: Vec<
    (Vec<u8>, TomlItem),
>)
    ensures
        entries_model(r@) == spec_entries_ensure(entries_model(es@), key@, value@),
    decreases es@.len(),
{
    let mut ev = es;
    if ev.len() == 0 {
        let mut lst: Vec<Vec<u8>> = Vec::new();
        lst.push(value.clone());
        let mut r: Vec<(Vec<u8>, TomlItem)> = Vec::new();
        r.push((key.clone(), TomlItem::Leaf(TomlLeaf::TextList(lst))));
        proof {
            assert(views_of(lst@) =~= seq![value@]);
            assert(entries_model(r@) =~~= spec_entries_ensure(entries_model(es@), key@, value@));
        }
        r
    } else {
        let head = ev.remove(0);
        proof {
            assert(entries_model(ev@) =~= entries_model(es@).drop_first());
            assert(entries_model(es@)[0] == (head.0@, item_model(head.1)));
        }
        if bytes_eq(&head.0, key) {
            let item = match head.1 {
                TomlItem::Leaf(TomlLeaf::TextList(lst)) => {
                    TomlItem::Leaf(TomlLeaf::TextList(list_add_unique(lst, value)))
                },
                _ => {
                    let mut lst: Vec<Vec<u8>> = Vec::new();
                    lst.push(value.clone());
                    proof {
                        assert(views_of(lst@) =~= seq![value@]);
                    }
                    TomlItem::Leaf(TomlLeaf::TextList(lst))
                },
            };
            proof {
                assert(item_model(item) == spec_list_item(item_model(head.1), value@));
            }
            ev.insert(0, (head.0, item));
            proof {
                assert(entries_model(ev@) =~~= spec_entries_ensure(
                    entries_model(es@),
                    key@,
                    value@,
                ));
            }
            ev
        } else {
            let mut rest = entries_ensure(ev, key, value);
            rest.insert(0, head);
            proof {
                assert(entries_model(rest@) =~~= spec_entries_ensure(
                    entries_model(es@),
                    key@,
                    value@,
                ));
            }
            rest
        }
    }
}

/// Ensures `value` stands in the list entry `key` of section `section`.
fn sections_ensure(ss: Vec<TomlSection>, section: &Vec<u8>, key: &Vec<u8>, value: &Vec<u8>) -> (r:
    Vec<TomlSection>)
    ensures
        sections_model(r@) == spec_ensure_in_list(sections_model(ss@), section@, key@, value@),
    decreases ss@.len(),
{
    let mut sv = ss;
    if sv.len() == 0 {
        let mut lst: Vec<Vec<u8>> = Vec::new();
        lst.push(value.clone());
        let mut entries: Vec<(Vec<u8>, TomlItem)> = Vec::new();
        entries.push((key.clone(), TomlItem::Leaf(TomlLeaf::TextList(lst))));
        let mut r: Vec<TomlSection> = Vec::new();
        r.push(TomlSection { name: section.clone(), entries });
        proof {
            assert(views_of(lst@) =~= seq![value@]);
            assert(sections_model(r@) =~~= spec_ensure_in_list(
                sections_model(ss@),
                section@,
                key@,
                value@,
            ));
        }
        r
    } else {
        let head = sv.remove(0);
        proof {
            assert(sections_model(sv@) =~= sections_model(ss@).drop_first());
            assert(sections_model(ss@)[0] == (head.name@, entries_model(head.entries@)));
        }
        if bytes_eq(&head.name, section) {
            let entries = entries_ensure(head.entries, key, value);
            sv.insert(0, TomlSection { name: head.name, entries });
            proof {
                assert(sections_model(sv@) =~~= spec_ensure_in_list(
                    sections_model(ss@),
                    section@,
                    key@,
                    value@,
                ));
            }
            sv
        } else {
            let mut rest = sections_ensure(sv, section, key, value);
            rest.insert(0, head);
            proof {
                assert(sections_model(rest@) =~~= spec_ensure_in_list(
                    sections_model(ss@),
                    section@,
                    key@,
                    value@,
                ));
            }
            rest
        }
    }
}

/// Adds a build-output kind to the root unit's library target.
pub fn add_crate_type(m: Manifest, kind: &Vec<u8>) -> (r: Manifest)
    ensures
        manifest_model(r) == spec_ensure_in_list(
            manifest_model(m),
            "lib".spec_bytes(),
            "crate-type".spec_bytes(),
            kind@,
        ),
{
    let section = str_to_bytes("lib");
    let key = str_to_bytes("crate-type");
    Manifest { sections: sections_ensure(m.sections, &section, &key, kind) }
}

/// Registers a workspace member pointing at the given directory.
pub fn add_workspace_member(m: Manifest, member: &Vec<u8>) -> (r: Manifest)
    ensures
        manifest_model(r) == spec_ensure_in_list(
            manifest_model(m),
            "workspace".spec_bytes(),
            "members".spec_bytes(),
            member@,
        ),
{
    let section = str_to_bytes("workspace");
    let key = str_to_bytes("members");
    Manifest { sections: sections_ensure(m.sections, &section, &key, member) }
}


/// Sets leaf `key` to `leaf` in the one-level table.
fn table_set(t: Vec<(Vec<u8>, TomlLeaf)>, key: &Vec<u8>, leaf: TomlLeaf) -> (r: Vec<
    (Vec<u8>, TomlLeaf),
>)
    ensures
        table_model(r@) == spec_table_set(table_model(t@), key@, leaf_model(leaf)),
    decreases t@.len(),
{
    let mut tv = t;
    if tv.len() == 0 {
        let mut r: Vec<(Vec<u8>, TomlLeaf)> = Vec::new();
        r.push((key.clone(), leaf));
        proof {
            assert(table_model(r@) =~~= spec_table_set(table_model(t@), key@, leaf_model(leaf)));
        }
        r
    } else {
        let head = tv.remove(0);
        proof {
            assert(table_model(tv@) =~= table_model(t@).drop_first());
            assert(table_model(t@)[0] == (head.0@, leaf_model(head.1)));
        }
        if bytes_eq(&head.0, key) {
            tv.insert(0, (head.0, leaf));
            proof {
                assert(table_model(tv@) =~~= spec_table_set(
                    table_model(t@),
                    key@,
                    leaf_model(leaf),
                ));
            }
            tv
        } else {
            let mut rest = table_set(tv, key, leaf);
            rest.insert(0, head);
            proof {
                assert(table_model(rest@) =~~= spec_table_set(
                    table_model(t@),
                    key@,
                    leaf_model(leaf),
                ));
            }
            rest
        }
    }
}

/// Sets `key` to `leaf` in the table entry `entry` of the entries.
fn entries_set_table(
    es: Vec<(Vec<u8>, TomlItem)>,
    entry: &Vec<u8>,
    key: &Vec<u8>,
    leaf: TomlLeaf,
) -> (r: Vec<(Vec<u8>, TomlItem)>)
    ensures
        entries_model(r@) == spec_entries_set_table(entries_model(es@), entry@, key@, leaf_model(leaf)),
    decreases es@.len(),
{
    let mut ev = es;
    if ev.len() == 0 {
        let mut tbl: Vec<(Vec<u8>, TomlLeaf)> = Vec::new();
        tbl.push((key.clone(), leaf));
        let mut r: Vec<(Vec<u8>, TomlItem)> = Vec::new();
        r.push((entry.clone(), TomlItem::Table(tbl)));
        proof {
            assert(table_model(tbl@) =~~= seq![(key@, leaf_model(leaf))]);
            assert(entries_model(r@) =~~= spec_entries_set_table(
                entries_model(es@),
                entry@,
                key@,
                leaf_model(leaf),
            ));
        }
        r
    } else {
        let head = ev.remove(0);
        proof {
            assert(entries_model(ev@) =~= entries_model(es@).drop_first());
            assert(entries_model(es@)[0] == (head.0@, item_model(head.1)));
        }
        if bytes_eq(&head.0, entry) {
            let item = match head.1 {
                TomlItem::Table(tbl) => TomlItem::Table(table_set(tbl, key, leaf)),
                _ => {
                    let mut tbl: Vec<(Vec<u8>, TomlLeaf)> = Vec::new();
                    tbl.push((key.clone(), leaf));
                    proof {
                        assert(table_model(tbl@) =~~= seq![(key@, leaf_model(leaf))]);
                    }
                    TomlItem::Table(tbl)
                },
            };
            proof {
                assert(item_model(item) == spec_table_item(item_model(head.1), key@, leaf_model(leaf)));
            }
            ev.insert(0, (head.0, item));
            proof {
                assert(entries_model(ev@) =~~= spec_entries_set_table(
                    entries_model(es@),
                    entry@,
                    key@,
                    leaf_model(leaf),
                ));
            }
            ev
        } else {
            let mut rest = entries_set_table(ev, entry, key, leaf);
            rest.insert(0, head);
            proof {
                assert(entries_model(rest@) =~~= spec_entries_set_table(
                    entries_model(es@),
                    entry@,
                    key@,
                    leaf_model(leaf),
                ));
            }
            rest
        }
    }
}

/// Sets `key` to `leaf` in the table entry `entry` of section `section`.
fn sections_set_table(
    ss: Vec<TomlSection>,
    section: &Vec<u8>,
    entry: &Vec<u8>,
    key: &Vec<u8>,
    leaf: TomlLeaf,
) -> (r: Vec<TomlSection>)
    ensures
        sections_model(r@) == spec_set_table_leaf(
            sections_model(ss@),
            section@,
            entry@,
            key@,
            leaf_model(leaf),
        ),
    decreases ss@.len(),
{
    let mut sv = ss;
    if sv.len() == 0 {
        let mut tbl: Vec<(Vec<u8>, TomlLeaf)> = Vec::new();
        tbl.push((key.clone(), leaf));
        let mut entries: Vec<(Vec<u8>, TomlItem)> = Vec::new();
        entries.push((entry.clone(), TomlItem::Table(tbl)));
        let mut r: Vec<TomlSection> = Vec::new();
        r.push(TomlSection { name: section.clone(), entries });
        proof {
            assert(table_model(tbl@) =~~= seq![(key@, leaf_model(leaf))]);
            assert(sections_model(r@) =~~= spec_set_table_leaf(
                sections_model(ss@),
                section@,
                entry@,
                key@,
                leaf_model(leaf),
            ));
        }
        r
    } else {
        let head = sv.remove(0);
        proof {
            assert(sections_model(sv@) =~= sections_model(ss@).drop_first());
            assert(sections_model(ss@)[0] == (head.name@, entries_model(head.entries@)));
        }
        if bytes_eq(&head.name, section) {
            let entries = entries_set_table(head.entries, entry, key, leaf);
            sv.insert(0, TomlSection { name: head.name, entries });
            proof {
                assert(sections_model(sv@) =~~= spec_set_table_leaf(
                    sections_model(ss@),
                    section@,
                    entry@,
                    key@,
                    leaf_model(leaf),
                ));
            }
            sv
        } else {
            let mut rest = sections_set_table(sv, section, entry, key, leaf);
            rest.insert(0, head);
            proof {
                assert(sections_model(rest@) =~~= spec_set_table_leaf(
                    sections_model(ss@),
                    section@,
                    entry@,
                    key@,
                    leaf_model(leaf),
                ));
            }
            rest
        }
    }
}

/// Disables the cross-unit code-merging optimization for release builds,
/// which would strip or rename the exported entry-point symbols.
pub fn set_release_lto(m: Manifest, value: bool) -> (r: Manifest)
    ensures
        manifest_model(r) == spec_set_table_leaf(
            manifest_model(m),
            "profile".spec_bytes(),
            "release".spec_bytes(),
            "lto".spec_bytes(),
            LeafModel::Truth(value),
        ),
{
    let section = str_to_bytes("profile");
    let entry = str_to_bytes("release");
    let key = str_to_bytes("lto");
    Manifest { sections: sections_set_table(m.sections, &section, &entry, &key, TomlLeaf::Truth(value)) }
}

/// Removes every leaf named `key` from the table.
fn table_remove(t: Vec<(Vec<u8>, TomlLeaf)>, key: &Vec<u8>) -> (r: Vec<(Vec<u8>, TomlLeaf)>)
    ensures
        table_model(r@) == spec_table_remove(table_model(t@), key@),
    decreases t@.len(),
{
    let mut tv = t;
    if tv.len() == 0 {
        proof {
            assert(table_model(tv@) =~~= spec_table_remove(table_model(t@), key@));
        }
        tv
    } else {
        let head = tv.remove(0);
        proof {
            assert(table_model(tv@) =~= table_model(t@).drop_first());
            assert(table_model(t@)[0] == (head.0@, leaf_model(head.1)));
        }
        if bytes_eq(&head.0, key) {
            let rest = table_remove(tv, key);
            proof {
                assert(table_model(rest@) =~~= spec_table_remove(table_model(t@), key@));
            }
            rest
        } else {
            let mut rest = table_remove(tv, key);
            rest.insert(0, head);
            proof {
                assert(table_model(rest@) =~~= spec_table_remove(table_model(t@), key@));
            }
            rest
        }
    }
}

/// Strips a copied dependency of its default-feature, feature-list and
/// optional flags.
pub fn strip_dependency_flags(i: TomlItem) -> (r: TomlItem)
    ensures
        item_model(r) == spec_strip_dependency(item_model(i)),
{
    match i {
        TomlItem::Table(t) => {
            let k1 = str_to_bytes("default-features");
            let k2 = str_to_bytes("features");
            let k3 = str_to_bytes("optional");
            let t = table_remove(t, &k1);
            let t = table_remove(t, &k2);
            let t = table_remove(t, &k3);
            TomlItem::Table(t)
        },
        other => other,
    }
}


proof fn lemma_add_to_list_idem(l: Seq<Seq<u8>>, x: Seq<u8>)
    ensures
        spec_add_to_list(spec_add_to_list(l, x), x) == spec_add_to_list(l, x),
{
    if !l.contains(x) {
        assert(l.push(x)[l.len() as int] == x);
        assert(l.push(x).contains(x));
    }
}

proof fn lemma_list_item_idem(cur: ItemModel, value: Seq<u8>)
    ensures
        spec_list_item(spec_list_item(cur, value), value) == spec_list_item(cur, value),
{
    match cur {
        ItemModel::Leaf(LeafModel::TextList(l)) => {
            lemma_add_to_list_idem(l, value);
        },
        _ => {
            assert(seq![value][0] == value);
            assert(seq![value].contains(value));
        },
    }
}

proof fn lemma_entries_ensure_idem(es: Seq<(Seq<u8>, ItemModel)>, key: Seq<u8>, value: Seq<u8>)
    ensures
        spec_entries_ensure(spec_entries_ensure(es, key, value), key, value)
            == spec_entries_ensure(es, key, value),
    decreases es.len(),
{
    let r = spec_entries_ensure(es, key, value);
    if es.len() == 0 {
        let item0 = ItemModel::Leaf(LeafModel::TextList(seq![value]));
        assert(r[0] == (key, item0));
        lemma_list_item_idem(item0, value);
        assert(seq![value][0] == value);
        assert(seq![value].contains(value));
        assert(r.drop_first() =~= Seq::<(Seq<u8>, ItemModel)>::empty());
        assert(spec_entries_ensure(r, key, value) =~= r);
    } else if es[0].0 == key {
        let item1 = spec_list_item(es[0].1, value);
        assert(r == seq![(key, item1)] + es.drop_first());
        assert(r[0] == (key, item1));
        lemma_list_item_idem(es[0].1, value);
        assert(r.drop_first() =~= es.drop_first());
        assert(spec_entries_ensure(r, key, value) =~= r);
    } else {
        assert(r == seq![es[0]] + spec_entries_ensure(es.drop_first(), key, value));
        assert(r[0] == es[0]);
        assert(r.drop_first() =~= spec_entries_ensure(es.drop_first(), key, value));
        lemma_entries_ensure_idem(es.drop_first(), key, value);
        assert(spec_entries_ensure(r, key, value) =~= r);
    }
}

/// Manifest edits are idempotent: ensuring a value in a list entry (such as
/// adding a build-output kind) a second time returns the manifest unchanged.
pub proof fn lemma_ensure_in_list_idem(
    ms: Seq<(Seq<u8>, Seq<(Seq<u8>, ItemModel)>)>,
    section: Seq<u8>,
    key: Seq<u8>,
    value: Seq<u8>,
)
    ensures
        spec_ensure_in_list(spec_ensure_in_list(ms, section, key, value), section, key, value)
            == spec_ensure_in_list(ms, section, key, value),
    decreases ms.len(),
{
    let r = spec_ensure_in_list(ms, section, key, value);
    if ms.len() == 0 {
        let es0: Seq<(Seq<u8>, ItemModel)> = seq![
            (key, ItemModel::Leaf(LeafModel::TextList(seq![value]))),
        ];
        assert(r[0] == (section, es0));
        lemma_entries_ensure_idem(es0, key, value);
        assert(seq![value][0] == value);
        assert(seq![value].contains(value));
        assert(es0[0].0 == key);
        assert(spec_entries_ensure(es0, key, value) =~= es0);
        assert(r.drop_first() =~= Seq::<(Seq<u8>, Seq<(Seq<u8>, ItemModel)>)>::empty());
        assert(spec_ensure_in_list(r, section, key, value) =~= r);
    } else if ms[0].0 == section {
        let es1 = spec_entries_ensure(ms[0].1, key, value);
        assert(r == seq![(section, es1)] + ms.drop_first());
        assert(r[0] == (section, es1));
        lemma_entries_ensure_idem(ms[0].1, key, value);
        assert(r.drop_first() =~= ms.drop_first());
        assert(spec_ensure_in_list(r, section, key, value) =~= r);
    } else {
        assert(r == seq![ms[0]] + spec_ensure_in_list(ms.drop_first(), section, key, value));
        assert(r[0] == ms[0]);
        assert(r.drop_first() =~= spec_ensure_in_list(ms.drop_first(), section, key, value));
        lemma_ensure_in_list_idem(ms.drop_first(), section, key, value);
        assert(spec_ensure_in_list(r, section, key, value) =~= r);
    }
}

proof fn lemma_table_set_idem(t: Seq<(Seq<u8>, LeafModel)>, key: Seq<u8>, leaf: LeafModel)
    ensures
        spec_table_set(spec_table_set(t, key, leaf), key, leaf) == spec_table_set(t, key, leaf),
    decreases t.len(),
{
    let r = spec_table_set(t, key, leaf);
    if t.len() == 0 {
        assert(r[0] == (key, leaf));
        assert(r.drop_first() =~= Seq::<(Seq<u8>, LeafModel)>::empty());
        assert(spec_table_set(r, key, leaf) =~= r);
    } else if t[0].0 == key {
        assert(r == seq![(key, leaf)] + t.drop_first());
        assert(r[0] == (key, leaf));
        assert(r.drop_first() =~= t.drop_first());
        assert(spec_table_set(r, key, leaf) =~= r);
    } else {
        assert(r == seq![t[0]] + spec_table_set(t.drop_first(), key, leaf));
        assert(r[0] == t[0]);
        assert(r.drop_first() =~= spec_table_set(t.drop_first(), key, leaf));
        lemma_table_set_idem(t.drop_first(), key, leaf);
        assert(spec_table_set(r, key, leaf) =~= r);
    }
}

proof fn lemma_table_item_idem(cur: ItemModel, key: Seq<u8>, leaf: LeafModel)
    ensures
        spec_table_item(spec_table_item(cur, key, leaf), key, leaf) == spec_table_item(
            cur,
            key,
            leaf,
        ),
{
    match cur {
        ItemModel::Table(t) => {
            lemma_table_set_idem(t, key, leaf);
        },
        _ => {
            let t0: Seq<(Seq<u8>, LeafModel)> = seq![(key, leaf)];
            assert(t0[0].0 == key);
            assert(spec_table_set(t0, key, leaf) =~= t0);
        },
    }
}

proof fn lemma_entries_set_table_idem(
    es: Seq<(Seq<u8>, ItemModel)>,
    entry: Seq<u8>,
    key: Seq<u8>,
    leaf: LeafModel,
)
    ensures
        spec_entries_set_table(spec_entries_set_table(es, entry, key, leaf), entry, key, leaf)
            == spec_entries_set_table(es, entry, key, leaf),
    decreases es.len(),
{
    let r = spec_entries_set_table(es, entry, key, leaf);
    if es.len() == 0 {
        let item0 = ItemModel::Table(seq![(key, leaf)]);
        assert(r[0] == (entry, item0));
        lemma_table_item_idem(item0, key, leaf);
        assert(r.drop_first() =~= Seq::<(Seq<u8>, ItemModel)>::empty());
        assert(spec_entries_set_table(r, entry, key, leaf) =~= r);
    } else if es[0].0 == entry {
        let item1 = spec_table_item(es[0].1, key, leaf);
        assert(r == seq![(entry, item1)] + es.drop_first());
        assert(r[0] == (entry, item1));
        lemma_table_item_idem(es[0].1, key, leaf);
        assert(r.drop_first() =~= es.drop_first());
        assert(spec_entries_set_table(r, entry, key, leaf) =~= r);
    } else {
        assert(r == seq![es[0]] + spec_entries_set_table(es.drop_first(), entry, key, leaf));
        assert(r[0] == es[0]);
        assert(r.drop_first() =~= spec_entries_set_table(es.drop_first(), entry, key, leaf));
        lemma_entries_set_table_idem(es.drop_first(), entry, key, leaf);
        assert(spec_entries_set_table(r, entry, key, leaf) =~= r);
    }
}

/// Setting the same leaf (such as disabling the release optimization) a
/// second time returns the manifest unchanged.
pub proof fn lemma_set_table_leaf_idem(
    ms: Seq<(Seq<u8>, Seq<(Seq<u8>, ItemModel)>)>,
    section: Seq<u8>,
    entry: Seq<u8>,
    key: Seq<u8>,
    leaf: LeafModel,
)
    ensures
        spec_set_table_leaf(
            spec_set_table_leaf(ms, section, entry, key, leaf),
            section,
            entry,
            key,
            leaf,
        ) == spec_set_table_leaf(ms, section, entry, key, leaf),
    decreases ms.len(),
{
    let r = spec_set_table_leaf(ms, section, entry, key, leaf);
    if ms.len() == 0 {
        let es0: Seq<(Seq<u8>, ItemModel)> = seq![(entry, ItemModel::Table(seq![(key, leaf)]))];
        assert(r[0] == (section, es0));
        lemma_entries_set_table_idem(es0, entry, key, leaf);
        assert(es0[0].0 == entry);
        let t0: Seq<(Seq<u8>, LeafModel)> = seq![(key, leaf)];
        assert(t0[0].0 == key);
        assert(spec_table_set(t0, key, leaf) =~= t0);
        assert(spec_entries_set_table(es0, entry, key, leaf) =~= es0);
        assert(r.drop_first() =~= Seq::<(Seq<u8>, Seq<(Seq<u8>, ItemModel)>)>::empty());
        assert(spec_set_table_leaf(r, section, entry, key, leaf) =~= r);
    } else if ms[0].0 == section {
        let es1 = spec_entries_set_table(ms[0].1, entry, key, leaf);
        assert(r == seq![(section, es1)] + ms.drop_first());
        assert(r[0] == (section, es1));
        lemma_entries_set_table_idem(ms[0].1, entry, key, leaf);
        assert(r.drop_first() =~= ms.drop_first());
        assert(spec_set_table_leaf(r, section, entry, key, leaf) =~= r);
    } else {
        assert(r == seq![ms[0]] + spec_set_table_leaf(ms.drop_first(), section, entry, key, leaf));
        assert(r[0] == ms[0]);
        assert(r.drop_first() =~= spec_set_table_leaf(ms.drop_first(), section, entry, key, leaf));
        lemma_set_table_leaf_idem(ms.drop_first(), section, entry, key, leaf);
        assert(spec_set_table_leaf(r, section, entry, key, leaf) =~= r);
    }
}


proof fn lemma_table_remove_no_key(t: Seq<(Seq<u8>, LeafModel)>, key: Seq<u8>)
    ensures
        forall|i: int|
            0 <= i < spec_table_remove(t, key).len() ==> (#[trigger] spec_table_remove(t, key)[i]).0
                != key,
    decreases t.len(),
{
    if t.len() > 0 {
        lemma_table_remove_no_key(t.drop_first(), key);
        if t[0].0 != key {
            let r = spec_table_remove(t, key);
            let rest = spec_table_remove(t.drop_first(), key);
            assert(r == seq![t[0]] + rest);
            assert forall|i: int| 0 <= i < r.len() implies (#[trigger] r[i]).0 != key by {
                if i == 0 {
                    assert(r[0] == t[0]);
                } else {
                    assert(r[i] == rest[i - 1]);
                }
            }
        }
    }
}

proof fn lemma_table_remove_absent(t: Seq<(Seq<u8>, LeafModel)>, key: Seq<u8>)
    requires
        forall|i: int| 0 <= i < t.len() ==> (#[trigger] t[i]).0 != key,
    ensures
        spec_table_remove(t, key) == t,
    decreases t.len(),
{
    if t.len() > 0 {
        assert(t[0].0 != key);
        assert(forall|i: int| 0 <= i < t.drop_first().len() ==> (#[trigger] t.drop_first()[i]).0
            != key);
        lemma_table_remove_absent(t.drop_first(), key);
        assert(spec_table_remove(t, key) =~= t);
    }
}

proof fn lemma_table_remove_keeps_absent(t: Seq<(Seq<u8>, LeafModel)>, gone: Seq<u8>, key: Seq<u8>)
    requires
        forall|i: int| 0 <= i < t.len() ==> (#[trigger] t[i]).0 != gone,
    ensures
        forall|i: int|
            0 <= i < spec_table_remove(t, key).len() ==> (#[trigger] spec_table_remove(t, key)[i]).0
                != gone,
    decreases t.len(),
{
    if t.len() > 0 {
        assert(forall|i: int| 0 <= i < t.drop_first().len() ==> (#[trigger] t.drop_first()[i]).0
            != gone);
        lemma_table_remove_keeps_absent(t.drop_first(), gone, key);
        if t[0].0 != key {
            let r = spec_table_remove(t, key);
            let rest = spec_table_remove(t.drop_first(), key);
            assert(r == seq![t[0]] + rest);
            assert forall|i: int| 0 <= i < r.len() implies (#[trigger] r[i]).0 != gone by {
                if i == 0 {
                    assert(r[0] == t[0]);
                } else {
                    assert(r[i] == rest[i - 1]);
                }
            }
        }
    }
}

/// Stripping a dependency of its flags a second time returns it unchanged.
pub proof fn lemma_strip_dependency_idem(i: ItemModel)
    ensures
        spec_strip_dependency(spec_strip_dependency(i)) == spec_strip_dependency(i),
{
    match i {
        ItemModel::Table(t) => {
            let df = "default-features".spec_bytes();
            let fe = "features".spec_bytes();
            let op = "optional".spec_bytes();
            let t1 = spec_table_remove(t, df);
            let t2 = spec_table_remove(t1, fe);
            let t3 = spec_table_remove(t2, op);
            lemma_table_remove_no_key(t, df);
            lemma_table_remove_keeps_absent(t1, df, fe);
            lemma_table_remove_keeps_absent(t2, df, op);
            lemma_table_remove_absent(t3, df);
            lemma_table_remove_no_key(t1, fe);
            lemma_table_remove_keeps_absent(t2, fe, op);
            lemma_table_remove_absent(t3, fe);
            lemma_table_remove_no_key(t2, op);
            lemma_table_remove_absent(t3, op);
        },
        _ => {},
    }
}

/// The entries of the first section named `name`.
pub open spec fn spec_sections_get(
    ms: Seq<(Seq<u8>, Seq<(Seq<u8>, ItemModel)>)>,
    name: Seq<u8>,
) -> Option<Seq<(Seq<u8>, ItemModel)>>
    decreases ms.len(),
{
    if ms.len() == 0 {
        None
    } else if ms[0].0 == name {
        Some(ms[0].1)
    } else {
        spec_sections_get(ms.drop_first(), name)
    }
}

/// The first entry named `key`.
pub open spec fn spec_entries_get(es: Seq<(Seq<u8>, ItemModel)>, key: Seq<u8>) -> Option<ItemModel>
    decreases es.len(),
{
    if es.len() == 0 {
        None
    } else if es[0].0 == key {
        Some(es[0].1)
    } else {
        spec_entries_get(es.drop_first(), key)
    }
}

/// The dependency named `name` declared by the manifest.
pub open spec fn spec_find_dependency(
    ms: Seq<(Seq<u8>, Seq<(Seq<u8>, ItemModel)>)>,
    name: Seq<u8>,
) -> Option<ItemModel> {
    match spec_sections_get(ms, "dependencies".spec_bytes()) {
        None => None,
        Some(es) => spec_entries_get(es, name),
    }
}

/// Copies a byte vector.
fn copy_bytes(src: &Vec<u8>) -> (r: Vec<u8>)
    ensures
        r@ == src@,
{
    let mut out: Vec<u8> = Vec::new();
    crate::text::append_bytes(&mut out, src);
    proof {
        assert(out@ =~= src@);
    }
    out
}

/// Copies a list of byte vectors.
fn copy_texts(src: &Vec<Vec<u8>>) -> (r: Vec<Vec<u8>>)
    ensures
        views_of(r@) == views_of(src@),
{
    let mut out: Vec<Vec<u8>> = Vec::new();
    let mut i: usize = 0;
    while i < src.len()
        invariant
            i <= src@.len(),
            views_of(out@) == views_of(src@).subrange(0, i as int),
        decreases src@.len() - i,
    {
        let ghost pre = views_of(src@).subrange(0, i as int);
        let ghost post = views_of(src@).subrange(0, i + 1 as int);
        proof {
            assert(post =~= pre.push(src@[i as int]@));
        }
        let c = copy_bytes(&src[i]);
        out.push(c);
        proof {
            assert(views_of(out@) =~= pre.push(c@));
        }
        i = i + 1;
    }
    proof {
        assert(views_of(src@).subrange(0, views_of(src@).len() as int) =~= views_of(src@));
    }
    out
}

/// Copies a plain value.
fn copy_leaf(l: &TomlLeaf) -> (r: TomlLeaf)
    ensures
        leaf_model(r) == leaf_model(*l),
{
    match l {
        TomlLeaf::Text(t) => TomlLeaf::Text(copy_bytes(t)),
        TomlLeaf::Truth(b) => TomlLeaf::Truth(*b),
        TomlLeaf::Number(n) => TomlLeaf::Number(*n),
        TomlLeaf::TextList(v) => TomlLeaf::TextList(copy_texts(v)),
        TomlLeaf::Fragment(f) => TomlLeaf::Fragment(copy_bytes(f)),
    }
}

/// Copies a section entry.
pub fn copy_item(i: &TomlItem) -> (r: TomlItem)
    ensures
        item_model(r) == item_model(*i),
{
    match i {
        TomlItem::Leaf(l) => TomlItem::Leaf(copy_leaf(l)),
        TomlItem::Table(t) => {
            let mut out: Vec<(Vec<u8>, TomlLeaf)> = Vec::new();
            let mut j: usize = 0;
            while j < t.len()
                invariant
                    j <= t@.len(),
                    table_model(out@) == table_model(t@).subrange(0, j as int),
                decreases t@.len() - j,
            {
                let ghost pre = table_model(t@).subrange(0, j as int);
                let ghost post = table_model(t@).subrange(0, j + 1 as int);
                proof {
                    assert(post =~= pre.push((t@[j as int].0@, leaf_model(t@[j as int].1))));
                }
                let ck = copy_bytes(&t[j].0);
                let cl = copy_leaf(&t[j].1);
                out.push((ck, cl));
                proof {
                    assert(table_model(out@) =~= pre.push((ck@, leaf_model(cl))));
                }
                j = j + 1;
            }
            proof {
                assert(table_model(t@).subrange(0, table_model(t@).len() as int) =~= table_model(
                    t@,
                ));
            }
            TomlItem::Table(out)
        },
    }
}

/// Looks up a dependency of the manifest and hands back a copy of it.
pub fn find_dependency(m: &Manifest, name: &Vec<u8>) -> (r: Option<TomlItem>)
    ensures
        match spec_find_dependency(manifest_model(*m), name@) {
            None => r matches Option::<TomlItem>::None,
            Some(im) => r matches Some(i) && item_model(i) == im,
        },
{
    let deps = str_to_bytes("dependencies");
    let ghost mm = manifest_model(*m);
    let n: usize = m.sections.len();
    let mut i: usize = 0;
    proof {
        assert(mm.subrange(0, n as int) =~= mm);
    }
    while i < n
        invariant
            i <= n,
            n == m.sections@.len(),
            mm == manifest_model(*m),
            deps@ == "dependencies".spec_bytes(),
            spec_sections_get(mm, "dependencies".spec_bytes()) == spec_sections_get(
                mm.subrange(i as int, n as int),
                "dependencies".spec_bytes(),
            ),
        decreases n - i,
    {
        proof {
            let rest = mm.subrange(i as int, n as int);
            assert(rest[0] == mm[i as int]);
            assert(rest.drop_first() =~= mm.subrange(i + 1 as int, n as int));
        }
        if bytes_eq(&m.sections[i].name, &deps) {
            proof {
                assert(mm[i as int] == (m.sections@[i as int].name@, entries_model(
                    m.sections@[i as int].entries@,
                )));
            }
            let es = &m.sections[i].entries;
            let ghost esm = entries_model(es@);
            let en: usize = es.len();
            let mut j: usize = 0;
            proof {
                assert(esm.subrange(0, en as int) =~= esm);
            }
            while j < en
                invariant
                    j <= en,
                    en == es@.len(),
                    esm == entries_model(es@),
                    spec_sections_get(manifest_model(*m), "dependencies".spec_bytes()) == Some(
                        esm,
                    ),
                    spec_entries_get(esm, name@) == spec_entries_get(
                        esm.subrange(j as int, en as int),
                        name@,
                    ),
                decreases en - j,
            {
                proof {
                    let rest = esm.subrange(j as int, en as int);
                    assert(rest[0] == esm[j as int]);
                    assert(rest.drop_first() =~= esm.subrange(j + 1 as int, en as int));
                }
                if bytes_eq(&es[j].0, name) {
                    proof {
                        assert(esm[j as int] == (es@[j as int].0@, item_model(es@[j as int].1)));
                    }
                    return Some(copy_item(&es[j].1));
                }
                j = j + 1;
            }
            proof {
                assert(esm.subrange(en as int, en as int).len() == 0);
            }
            return None;
        }
        i = i + 1;
    }
    proof {
        assert(mm.subrange(n as int, n as int).len() == 0);
    }
    None
}


/// The manifest of the synthetic aggregator member: its package identity,
/// a dependency on the root unit by name and by path - the root unit's own
/// directory in the original tree, since the snapshot holds only
/// build-description files - the document library it prints with, and the
/// ABI-runtime dependency copied from the root unit.
#[verifier::opaque]
pub open spec fn aggregator_manifest_model(
    contract_name: Seq<u8>,
    contract_dir: Seq<u8>,
    sdk: Option<ItemModel>,
) -> Seq<(Seq<u8>, Seq<(Seq<u8>, ItemModel)>)> {
    let deps: Seq<(Seq<u8>, ItemModel)> = seq![
        (
            "contract".spec_bytes(),
            ItemModel::Table(
                seq![
                    ("package".spec_bytes(), LeafModel::Text(contract_name)),
                    ("path".spec_bytes(), LeafModel::Text(contract_dir)),
                ],
            ),
        ),
        ("serde_json".spec_bytes(), ItemModel::Leaf(LeafModel::Text("1".spec_bytes()))),
    ];
    let deps2 = match sdk {
        Some(item) => deps.push(("near-sdk".spec_bytes(), item)),
        None => deps,
    };
    seq![
        (
            "package".spec_bytes(),
            seq![
                ("name".spec_bytes(), ItemModel::Leaf(LeafModel::Text("metadata-gen".spec_bytes()))),
                ("version".spec_bytes(), ItemModel::Leaf(LeafModel::Text("0.1.0".spec_bytes()))),
                ("edition".spec_bytes(), ItemModel::Leaf(LeafModel::Text("2021".spec_bytes()))),
            ],
        ),
        ("dependencies".spec_bytes(), deps2),
    ]
}

/// Builds the synthetic aggregator member's manifest; `contract_dir` is
/// the root unit's directory in the original tree.
pub fn aggregator_manifest(contract_name: &Vec<u8>, contract_dir: &Vec<u8>, sdk: Option<TomlItem>)
    -> (r: Manifest)
    ensures
        manifest_model(r) == aggregator_manifest_model(
            contract_name@,
            contract_dir@,
            match sdk {
                Some(i) => Some(item_model(i)),
                None => None,
            },
        ),
{
    let mut package_entries: Vec<(Vec<u8>, TomlItem)> = Vec::new();
    package_entries.push(
        (str_to_bytes("name"), TomlItem::Leaf(TomlLeaf::Text(str_to_bytes("metadata-gen")))),
    );
    package_entries.push(
        (str_to_bytes("version"), TomlItem::Leaf(TomlLeaf::Text(str_to_bytes("0.1.0")))),
    );
    package_entries.push(
        (str_to_bytes("edition"), TomlItem::Leaf(TomlLeaf::Text(str_to_bytes("2021")))),
    );
    let mut contract_table: Vec<(Vec<u8>, TomlLeaf)> = Vec::new();
    contract_table.push((str_to_bytes("package"), TomlLeaf::Text(copy_bytes(contract_name))));
    contract_table.push((str_to_bytes("path"), TomlLeaf::Text(copy_bytes(contract_dir))));
    let mut dep_entries: Vec<(Vec<u8>, TomlItem)> = Vec::new();
    dep_entries.push((str_to_bytes("contract"), TomlItem::Table(contract_table)));
    dep_entries.push(
        (str_to_bytes("serde_json"), TomlItem::Leaf(TomlLeaf::Text(str_to_bytes("1")))),
    );
    let ghost sdkm = if sdk is Some {
        Some(item_model(sdk->Some_0))
    } else {
        None::<ItemModel>
    };
    match sdk {
        Some(item) => {
            dep_entries.push((str_to_bytes("near-sdk"), item));
        },
        None => {},
    }
    let ghost pem = entries_model(package_entries@);
    let ghost ctm = table_model(contract_table@);
    let ghost dem = entries_model(dep_entries@);
    let mut sections: Vec<TomlSection> = Vec::new();
    sections.push(TomlSection { name: str_to_bytes("package"), entries: package_entries });
    sections.push(TomlSection { name: str_to_bytes("dependencies"), entries: dep_entries });
    let r = Manifest { sections };
    proof {
        reveal(aggregator_manifest_model);
        let want = aggregator_manifest_model(contract_name@, contract_dir@, sdkm);
        assert(ctm =~~= seq![
            ("package".spec_bytes(), LeafModel::Text(contract_name@)),
            ("path".spec_bytes(), LeafModel::Text(contract_dir@)),
        ]);
        assert(pem =~~= want[0].1);
        assert(dem =~~= want[1].1);
        assert(manifest_model(r) =~~= want);
    }
    r
}

#[verifier::external_type_specification]
#[verifier::external_body]
pub struct ExTomlValue(toml::Value);

#[verifier::external_type_specification]
#[verifier::external_body]
#[verifier::reject_recursive_types(K)]
#[verifier::reject_recursive_types(V)]
pub struct ExTomlMap<K, V>(toml::map::Map<K, V>);

/// The model parsed from manifest text, or nothing when the text is no
/// manifest: a function of the text alone.
pub uninterp spec fn parsed_manifest_of(text: Seq<u8>) -> Option<
    Seq<(Seq<u8>, Seq<(Seq<u8>, ItemModel)>)>,
>;

/// Relies on `toml::from_str`: parses manifest text into the structured
/// model. Top-level tables become sections and their plain entries become
/// items; any entry shape beyond the model is serialized through
/// `toml::to_string` and carried as an opaque fragment, so edits leave it
/// untouched. What is parsed is a function of the text alone.
#[verifier::external_body]
pub fn parse_manifest_text(text: &Vec<u8>) -> (r: Option<Manifest>)
    ensures
        match r {
            Some(m) => parsed_manifest_of(text@) == Some(manifest_model(m)),
            None => parsed_manifest_of(text@) is None,
        },
{
    let s = match std::str::from_utf8(text.as_slice()) {
        Ok(s) => s,
        Err(_) => return None,
    };
    let table: toml::value::Table = match toml::from_str(s) {
        Ok(t) => t,
        Err(_) => return None,
    };
    Some(convert_toml_table(table))
}

/// Relies on `toml::Value`: converts a parsed document into the model,
/// keeping plain values and one-level tables and wrapping everything else
/// as an opaque rendered fragment.
#[verifier::external_body]
fn convert_toml_table(table: toml::value::Table) -> (r: Manifest) {
    let mut top: Vec<(Vec<u8>, TomlItem)> = Vec::new();
    let mut all: Vec<TomlSection> = Vec::new();
    for (k, v) in table {
        match v {
            toml::Value::Table(t) => all.push(TomlSection {
                name: k.into_bytes(),
                entries: convert_section_entries(t),
            }),
            other => top.push((k.clone().into_bytes(), convert_toml_entry(&k, other))),
        }
    }
    if top.len() > 0 {
        all.insert(0, TomlSection { name: Vec::new(), entries: top });
    }
    Manifest { sections: all }
}

/// Relies on `toml::Value`: converts one section's entries into the model.
#[verifier::external_body]
fn convert_section_entries(t: toml::value::Table) -> (r: Vec<(Vec<u8>, TomlItem)>) {
    let mut entries: Vec<(Vec<u8>, TomlItem)> = Vec::new();
    for (ek, ev) in t {
        let item = convert_toml_entry(&ek, ev);
        entries.push((ek.into_bytes(), item));
    }
    entries
}

/// Relies on `toml::to_string`: converts one entry's value into the model,
/// falling back to a rendered fragment of the whole entry.
#[verifier::external_body]
fn convert_toml_entry(key: &str, v: toml::Value) -> (r: TomlItem) {
    match convert_toml_leaf(v) {
        Ok(leaf) => TomlItem::Leaf(leaf),
        Err(toml::Value::Table(t)) => {
            let mut out: Vec<(Vec<u8>, TomlLeaf)> = Vec::new();
            for (lk, lv) in t {
                let leaf = match convert_toml_leaf(lv) {
                    Ok(l) => l,
                    Err(other) => fragment_of(&lk, other),
                };
                out.push((lk.into_bytes(), leaf));
            }
            TomlItem::Table(out)
        }
        Err(other) => TomlItem::Leaf(fragment_of(key, other)),
    }
}

/// Converts a plain value, handing anything else back.
#[verifier::external_body]
fn convert_toml_leaf(v: toml::Value) -> (r: Result<TomlLeaf, toml::Value>) {
    match v {
        toml::Value::String(s) => Ok(TomlLeaf::Text(s.into_bytes())),
        toml::Value::Boolean(b) => Ok(TomlLeaf::Truth(b)),
        toml::Value::Integer(n) => Ok(TomlLeaf::Number(n)),
        toml::Value::Array(a) if a.iter().all(|x| x.is_str()) => {
            Ok(TomlLeaf::TextList(
                a.into_iter().map(|x| match x {
                    toml::Value::String(s) => s.into_bytes(),
                    _ => Vec::new(),
                }).collect(),
            ))
        }
        other => Err(other),
    }
}

/// Relies on `toml::to_string`: renders a value that the model cannot hold
/// as the text of the whole `key = value` entry (or table sections), kept
/// verbatim.
#[verifier::external_body]
fn fragment_of(key: &str, v: toml::Value) -> (r: TomlLeaf) {
    let mut wrap = toml::value::Table::new();
    wrap.insert(key.to_string(), v);
    match toml::to_string(&toml::Value::Table(wrap)) {
        Ok(s) => TomlLeaf::Fragment(s.into_bytes()),
        Err(_) => TomlLeaf::Fragment(Vec::new()),
    }
}

/// The manifest text rendered for a model: the renderer reads nothing but
/// the model, so the text is a function of it alone, and two manifests with
/// the same model render byte-identically.
pub uninterp spec fn rendered_manifest_of(
    mm: Seq<(Seq<u8>, Seq<(Seq<u8>, ItemModel)>)>,
) -> Seq<u8>;

/// Relies on `toml::to_string`: renders the model back to manifest text,
/// section by section, plain entries before sub-tables; fragments are parsed
/// back and re-emitted as structure where they stand.
#[verifier::external_body]
pub fn render_manifest_text(m: &Manifest) -> (r: Vec<u8>)
    ensures
        r@ == rendered_manifest_of(manifest_model(*m)),
{
    let mut out = String::new();
    for section in m.sections.iter() {
        let name = String::from_utf8_lossy(section.name.as_slice()).to_string();
        render_section(&mut out, &name, &section.entries);
    }
    out.into_bytes()
}

/// Relies on `toml::to_string` and `toml::from_str`: renders one section,
/// emitting its plain entries first and each table or fragment entry as its
/// own nested document, so the text stays valid whatever the entry order.
#[verifier::external_body]
fn render_section(out: &mut String, name: &str, entries: &Vec<(Vec<u8>, TomlItem)>) {
    let mut plain = toml::value::Table::new();
    let mut nested: Vec<(String, toml::Value)> = Vec::new();
    for (k, item) in entries.iter() {
        let key = String::from_utf8_lossy(k.as_slice()).to_string();
        match item {
            TomlItem::Leaf(TomlLeaf::Fragment(f)) => {
                split_fragment(f, &mut plain, &mut nested);
            }
            TomlItem::Leaf(l) => {
                plain.insert(key, leaf_to_value(l));
            }
            TomlItem::Table(t) => nested.push((key, table_to_value(t))),
        }
    }
    append_rendered(out, name, plain, nested);
}

/// Relies on `toml::from_str`: parses a carried fragment back and sorts its
/// entries into plain values and nested documents.
#[verifier::external_body]
fn split_fragment(
    f: &Vec<u8>,
    plain: &mut toml::value::Table,
    nested: &mut Vec<(String, toml::Value)>,
) {
    let text = String::from_utf8_lossy(f.as_slice()).to_string();
    if let Ok(t) = toml::from_str::<toml::value::Table>(&text) {
        for (fk, fv) in t {
            match fv {
                v @ toml::Value::Table(_) | v @ toml::Value::Array(_) => nested.push((fk, v)),
                v => {
                    plain.insert(fk, v);
                }
            }
        }
    }
}

/// Relies on `toml::Value` construction: converts a one-level model table.
/// A fragment held inside the table is re-read and re-emitted as the
/// structured value it carries.
#[verifier::external_body]
fn table_to_value(t: &Vec<(Vec<u8>, TomlLeaf)>) -> (r: toml::Value) {
    let mut tv = toml::value::Table::new();
    for (lk, lv) in t.iter() {
        let lkey = String::from_utf8_lossy(lk.as_slice()).to_string();
        let val = match lv {
            TomlLeaf::Fragment(f) => match fragment_value(f) {
                Some(v) => v,
                None => leaf_to_value(lv),
            },
            other => leaf_to_value(other),
        };
        tv.insert(lkey, val);
    }
    toml::Value::Table(tv)
}

/// Relies on `toml::from_str`: recovers the structured value a fragment
/// carries (the rendered text of a one-entry document).
#[verifier::external_body]
fn fragment_value(f: &Vec<u8>) -> (r: Option<toml::Value>) {
    let text = String::from_utf8_lossy(f.as_slice()).to_string();
    match toml::from_str::<toml::value::Table>(&text) {
        Ok(t) => t.into_iter().next().map(|(_, v)| v),
        Err(_) => None,
    }
}

/// Relies on `toml::to_string`: serializes the collected section maps and
/// appends the text.
#[verifier::external_body]
fn append_rendered(
    out: &mut String,
    name: &str,
    plain: toml::value::Table,
    nested: Vec<(String, toml::Value)>,
) {
    if !plain.is_empty() {
        let doc = wrap_in_section(name, toml::Value::Table(plain));
        if let Ok(s) = toml::to_string(&doc) {
            out.push_str(&s);
        }
    }
    for (k, v) in nested {
        let mut inner = toml::value::Table::new();
        inner.insert(k, v);
        let doc = wrap_in_section(name, toml::Value::Table(inner));
        if let Ok(s) = toml::to_string(&doc) {
            out.push_str(&s);
        }
    }
}

/// Wraps a section's table under its name; an empty name stands for the
/// document's top level.
#[verifier::external_body]
fn wrap_in_section(name: &str, v: toml::Value) -> (r: toml::Value) {
    if name.is_empty() {
        v
    } else {
        let mut doc = toml::value::Table::new();
        doc.insert(name.to_string(), v);
        toml::Value::Table(doc)
    }
}

/// Relies on `toml::Value` construction: converts a plain model value back.
/// A fragment that cannot be re-read falls back to its text as a string.
#[verifier::external_body]
fn leaf_to_value(l: &TomlLeaf) -> (r: toml::Value) {
    match l {
        TomlLeaf::Text(t) => toml::Value::String(String::from_utf8_lossy(t.as_slice()).to_string()),
        TomlLeaf::Truth(b) => toml::Value::Boolean(*b),
        TomlLeaf::Number(n) => toml::Value::Integer(*n),
        TomlLeaf::TextList(v) => toml::Value::Array(
            v.iter().map(
                |x| toml::Value::String(String::from_utf8_lossy(x.as_slice()).to_string()),
            ).collect(),
        ),
        TomlLeaf::Fragment(f) => toml::Value::String(
            String::from_utf8_lossy(f.as_slice()).to_string(),
        ),
    }
}

} // verus!
