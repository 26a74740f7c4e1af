use vstd::prelude::*;

use crate::dispatch::{
    arms_from, grants, key_of, lemma_arm_present, lemma_arms_sound, lemma_lookup_arms,
    lookup_spec, ArmModel, KeyModel, RFieldModel,
};
use crate::expand::{
    all_fields_ok, field_ok, generated_model_of, names_of, policy_of, resolved_of, FieldDefModel,
    StructDefModel,
};
use crate::grammar::parse_entries_spec;
use crate::options::{
    blank_policy, default_policy, field_policy_spec, AnnotationModel, PolicyModel,
    resolve_field_from,
};
use crate::token::{EntryModel, TokenModel};

verus! {

/// A field with no annotation at all is fully exposed: both dispatch tables
/// carry an arm for it, keyed by its declared name, or by its 1-based
/// position if it has none.
pub proof fn lemma_default_exposure(fields: Seq<FieldDefModel>, i: int)
    requires
        0 <= i < fields.len(),
        fields[i].annotation is Absent,
    ensures
        ({
            let rf = resolved_of(fields);
            let k = match fields[i].name {
                Some(n) => KeyModel::Name(n),
                None => KeyModel::Index(i + 1),
            };
            &&& arms_from(rf, 0, false).contains(ArmModel { key: k, field: i })
            &&& arms_from(rf, 0, true).contains(ArmModel { key: k, field: i })
        }),
{
    let rf = resolved_of(fields);
    assert(rf[i] == RFieldModel {
        name: fields[i].name,
        policy: policy_of(fields[i].annotation),
    });
    assert(policy_of(fields[i].annotation) == default_policy());
    lemma_arm_present(rf, 0, i, false);
    lemma_arm_present(rf, 0, i, true);
}

/// A field annotation written with no arguments at all behaves identically
/// to no annotation: the policies agree, and everything the expansion
/// derives from the fields — which fields resolve, the resolved table the
/// dispatch arms are built over, the declared names — is unchanged by
/// swapping one for the other.
pub proof fn lemma_empty_like_absent(d: StructDefModel, i: int)
    requires
        0 <= i < d.fields.len(),
        d.fields[i].annotation is Empty,
    ensures
        ({
            let swapped = d.fields.update(
                i,
                FieldDefModel { name: d.fields[i].name, annotation: AnnotationModel::Absent },
            );
            &&& field_policy_spec(AnnotationModel::Empty) == field_policy_spec(
                AnnotationModel::Absent,
            )
            &&& all_fields_ok(d.fields) == all_fields_ok(swapped)
            &&& resolved_of(d.fields) == resolved_of(swapped)
            &&& names_of(d.fields) == names_of(swapped)
            &&& generated_model_of(
                StructDefModel { name: d.name, annotation: d.annotation, fields: swapped },
            ) == generated_model_of(d)
        }),
{
    let swapped = d.fields.update(
        i,
        FieldDefModel { name: d.fields[i].name, annotation: AnnotationModel::Absent },
    );
    assert(resolved_of(d.fields) =~= resolved_of(swapped));
    assert(names_of(d.fields) =~= names_of(swapped));
    if all_fields_ok(d.fields) {
        assert forall|k: int| 0 <= k < swapped.len() implies field_ok(swapped[k]) by {
            assert(field_ok(d.fields[k]));
        }
    }
    if all_fields_ok(swapped) {
        assert forall|k: int| 0 <= k < d.fields.len() implies field_ok(d.fields[k]) by {
            assert(field_ok(swapped[k]));
        }
    }
    assert(all_fields_ok(d.fields) == all_fields_ok(swapped));
}

/// The annotation `read`, alone, resolves to a read-only policy: explicit
/// annotations grant only the capabilities they name.
pub proof fn lemma_read_flag_policy()
    ensures
        field_policy_spec(AnnotationModel::Args(seq![TokenModel::Ident("read"@)])) == Ok::<
            PolicyModel,
            crate::options::AnnotationErrorModel,
        >(PolicyModel { read: true, write: false, rename: None }),
{
    let toks = seq![TokenModel::Ident("read"@)];
    let es = seq![EntryModel::Flag { pos: 0, name: "read"@ }];
    assert(parse_entries_spec(toks) == Ok::<_, crate::grammar::GrammarErrorModel>(
        Seq::<EntryModel>::empty().push(EntryModel::Flag { pos: 0, name: "read"@ }),
    ));
    assert(Seq::<EntryModel>::empty().push(EntryModel::Flag { pos: 0, name: "read"@ }) =~= es);
    assert(resolve_field_from(es, 0, blank_policy()) == resolve_field_from(
        es,
        1,
        PolicyModel { read: true, write: false, rename: None },
    ));
}

/// A field whose annotation grants only reading produces a read arm and no
/// write arm: where no other field exposes the same key, dispatching that
/// key on the read path reaches the field, and on the write path reaches
/// nothing at all.
pub proof fn lemma_read_only(fields: Seq<FieldDefModel>, i: int)
    requires
        0 <= i < fields.len(),
        all_fields_ok(fields),
        policy_of(fields[i].annotation).read,
        !policy_of(fields[i].annotation).write,
        forall|j: int|
            0 <= j < fields.len() && j != i ==> key_of(#[trigger] resolved_of(fields)[j], j)
                != key_of(resolved_of(fields)[i], i),
    ensures
        ({
            let rf = resolved_of(fields);
            let k = key_of(rf[i], i);
            &&& lookup_spec(arms_from(rf, 0, false), k) == Some(i)
            &&& lookup_spec(arms_from(rf, 0, true), k) is None
        }),
{
    let rf = resolved_of(fields);
    let k = key_of(rf[i], i);
    assert(rf[i] == RFieldModel {
        name: fields[i].name,
        policy: policy_of(fields[i].annotation),
    });
    lemma_lookup_arms(rf, 0, false, k);
    match lookup_spec(arms_from(rf, 0, false), k) {
        Some(f) => {
            if f != i {
                assert(key_of(rf[f], f) != k);
            }
        },
        None => {
            assert(grants(rf[i], false) && key_of(rf[i], i) == k);
        },
    }
    lemma_lookup_arms(rf, 0, true, k);
    match lookup_spec(arms_from(rf, 0, true), k) {
        Some(f) => {
            if f != i {
                assert(key_of(rf[f], f) != k);
            } else {
                assert(!grants(rf[i], true));
            }
        },
        None => {},
    }
}

/// A renamed field is reachable only via its new key: its exposed key is the
/// rename, every arm of either table that points at it carries that key, and
/// where the rename differs from the declared name, no arm for the field
/// carries the declared name.
pub proof fn lemma_rename(fields: Seq<FieldDefModel>, i: int, x: Seq<char>)
    requires
        0 <= i < fields.len(),
        policy_of(fields[i].annotation).rename == Some(x),
    ensures
        key_of(resolved_of(fields)[i], i) == KeyModel::Name(x),
        forall|n: int, write: bool|
            0 <= n < arms_from(resolved_of(fields), 0, write).len()
                && (#[trigger] arms_from(resolved_of(fields), 0, write)[n]).field == i
                ==> arms_from(resolved_of(fields), 0, write)[n].key == KeyModel::Name(x),
{
    let rf = resolved_of(fields);
    assert(rf[i] == RFieldModel {
        name: fields[i].name,
        policy: policy_of(fields[i].annotation),
    });
    assert forall|n: int, write: bool|
        0 <= n < arms_from(rf, 0, write).len() && (#[trigger] arms_from(rf, 0, write)[n]).field
            == i implies arms_from(rf, 0, write)[n].key == KeyModel::Name(x) by {
        lemma_arms_sound(rf, 0, write);
    }
}

/// An unnamed, unrenamed field is exposed under its 1-based position: the
/// field at source index 0 under key 1, at index 1 under key 2, and so on.
pub proof fn lemma_positional_key(fields: Seq<FieldDefModel>, i: int)
    requires
        0 <= i < fields.len(),
        fields[i].name is None,
        policy_of(fields[i].annotation).rename is None,
    ensures
        key_of(resolved_of(fields)[i], i) == KeyModel::Index(i + 1),
{
    assert(resolved_of(fields)[i] == RFieldModel {
        name: fields[i].name,
        policy: policy_of(fields[i].annotation),
    });
}

/// A key that no granting field exposes reaches nothing: dispatch on it
/// finds no arm, on the read and the write path independently, and the exec
/// `lookup` then fails with `UnknownKeyError` carrying exactly the
/// presented key.
pub proof fn lemma_unknown_key(fields: Seq<FieldDefModel>, k: KeyModel, write: bool)
    requires
        forall|j: int|
            0 <= j < fields.len() ==> !(grants(#[trigger] resolved_of(fields)[j], write)
                && key_of(resolved_of(fields)[j], j) == k),
    ensures
        lookup_spec(arms_from(resolved_of(fields), 0, write), k) is None,
{
    let rf = resolved_of(fields);
    lemma_lookup_arms(rf, 0, write, k);
    match lookup_spec(arms_from(rf, 0, write), k) {
        Some(f) => {
            assert(!(grants(rf[f], write) && key_of(rf[f], f) == k));
        },
        None => {},
    }
}

/// Where two fields resolve to the same exposed key and the earlier one
/// grants a direction, dispatch on that key never reaches the later field
/// in that direction: some field no later than the earlier one wins.
pub proof fn lemma_shadowing(fields: Seq<FieldDefModel>, i: int, j: int, write: bool)
    requires
        0 <= i < j < fields.len(),
        key_of(resolved_of(fields)[i], i) == key_of(resolved_of(fields)[j], j),
        grants(resolved_of(fields)[i], write),
    ensures
        ({
            let rf = resolved_of(fields);
            let k = key_of(rf[j], j);
            &&& lookup_spec(arms_from(rf, 0, write), k) != Some(j)
            &&& exists|f: int|
                lookup_spec(arms_from(rf, 0, write), k) == Some(f) && 0 <= f <= i
        }),
{
    let rf = resolved_of(fields);
    let k = key_of(rf[j], j);
    lemma_lookup_arms(rf, 0, write, k);
    match lookup_spec(arms_from(rf, 0, write), k) {
        Some(f) => {
            if f > i {
                assert(!(grants(rf[i], write) && key_of(rf[i], i) == k));
            }
            assert(lookup_spec(arms_from(rf, 0, write), k) == Some(f) && 0 <= f <= i);
        },
        None => {
            assert(!(grants(rf[i], write) && key_of(rf[i], i) == k));
        },
    }
}

} // verus!
