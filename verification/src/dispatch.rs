use vstd::prelude::*;

use crate::options::{FieldPolicy, PolicyModel};

verus! {

/// An exposed key: the value by which a field is reachable from the host
/// scripting runtime. Named fields (and renamed ones) are reached by a
/// string, unnamed fields by their 1-based position.
#[derive(Debug, Clone, PartialEq, Eq)]
pub enum Key {
    Name(String),
    Index(u64),
}

/// Mathematical model of an exposed key.
pub enum KeyModel {
    Name(Seq<char>),
    Index(int),
}

impl View for Key {
    type V = KeyModel;

    open spec fn view(&self) -> KeyModel {
        match self {
            Key::Name(s) => KeyModel::Name(s@),
            Key::Index(n) => KeyModel::Index(*n as int),
        }
    }
}

impl Key {
    /// Whether two keys are the same key: same kind, same name or position.
    /// An explicit copy; unlike the derived `Clone`, its contract says the
    /// copy is the same key.
    pub fn duplicate(&self) -> (k: Key)
        ensures
            k@ == self@,
    {
        match self {
            Key::Name(s) => Key::Name(s.clone()),
            Key::Index(n) => Key::Index(*n),
        }
    }

    pub fn key_eq(&self, other: &Key) -> (r: bool)
        ensures
            r == (self@ == other@),
    {
        match (self, other) {
            (Key::Name(a), Key::Name(b)) => a.eq(b),
            (Key::Index(a), Key::Index(b)) => *a == *b,
            _ => false,
        }
    }
}

/// A presented key that no dispatch arm grants; it carries the key exactly
/// as presented.
#[derive(Debug, Clone, PartialEq, Eq)]
pub struct UnknownKeyError {
    pub key: Key,
}

/// One field after its annotation has been resolved: its declared name, if
/// it has one, and its exposure policy.
#[derive(Debug, Clone, PartialEq, Eq)]
pub struct ResolvedField {
    pub name: Option<String>,
    pub policy: FieldPolicy,
}

/// Mathematical model of a resolved field.
pub struct RFieldModel {
    pub name: Option<Seq<char>>,
    pub policy: PolicyModel,
}

impl View for ResolvedField {
    type V = RFieldModel;

    open spec fn view(&self) -> RFieldModel {
        RFieldModel {
            name: match &self.name {
                Some(s) => Some(s@),
                None => None,
            },
            policy: self.policy@,
        }
    }
}

pub open spec fn rfields_view(fs: Seq<ResolvedField>) -> Seq<RFieldModel> {
    fs.map(|i: int, f: ResolvedField| f@)
}

/// The key under which the field at declaration index `idx` is exposed:
/// an explicit rename wins, else the declared name, else the 1-based
/// position (source index 0 maps to key 1).
pub open spec fn key_of(f: RFieldModel, idx: int) -> KeyModel {
    match f.policy.rename {
        Some(r) => KeyModel::Name(r),
        None => match f.name {
            Some(n) => KeyModel::Name(n),
            None => KeyModel::Index(idx + 1),
        },
    }
}

/// Whether the field grants the direction: `write` selects the write table,
/// otherwise the read table.
pub open spec fn grants(f: RFieldModel, write: bool) -> bool {
    if write {
        f.policy.write
    } else {
        f.policy.read
    }
}

/// One dispatch arm: a key and the declaration index of the field it
/// reaches.
#[derive(Debug, Clone, PartialEq, Eq)]
pub struct Arm {
    pub key: Key,
    pub field: usize,
}

/// Mathematical model of a dispatch arm.
pub struct ArmModel {
    pub key: KeyModel,
    pub field: int,
}

impl View for Arm {
    type V = ArmModel;

    open spec fn view(&self) -> ArmModel {
        ArmModel { key: self.key@, field: self.field as int }
    }
}

/// One direction's dispatch table: its arms in field declaration order,
/// tried first to last.
#[derive(Debug, Clone, PartialEq, Eq)]
pub struct DispatchTable {
    pub arms: Vec<Arm>,
}

impl View for DispatchTable {
    type V = Seq<ArmModel>;

    open spec fn view(&self) -> Seq<ArmModel> {
        self.arms@.map(|i: int, a: Arm| a@)
    }
}

/// The arms of one direction's table over the fields from index `i` on:
/// one arm per granting field, in declaration order.
pub open spec fn arms_from(fields: Seq<RFieldModel>, i: int, write: bool) -> Seq<ArmModel>
    decreases fields.len() - i,
{
    if !(0 <= i < fields.len()) {
        Seq::empty()
    } else {
        (if grants(fields[i], write) {
            seq![ArmModel { key: key_of(fields[i], i), field: i }]
        } else {
            Seq::empty()
        }) + arms_from(fields, i + 1, write)
    }
}

/// What a linear first-match dispatch finds for a presented key: the field
/// of the first arm whose key is the presented one, if any arm's is.
pub open spec fn lookup_spec(arms: Seq<ArmModel>, k: KeyModel) -> Option<int>
    decreases arms.len(),
{
    if arms.len() == 0 {
        None
    } else if arms[0].key == k {
        Some(arms[0].field)
    } else {
        lookup_spec(arms.drop_first(), k)
    }
}

impl DispatchTable {
    /// Dispatches a presented key: the first arm whose key matches wins;
    /// a key no arm grants fails with `UnknownKeyError` carrying that exact
    /// key.
    pub fn lookup(&self, key: &Key) -> (r: Result<usize, UnknownKeyError>)
        ensures
            match r {
                Ok(f) => lookup_spec(self@, key@) == Some(f as int),
                Err(e) => lookup_spec(self@, key@) is None && e.key@ == key@,
            },
    {
        let mut i: usize = 0;
        proof {
            assert(self@.skip(0) =~= self@);
        }
        loop
            invariant
                i <= self.arms.len(),
                self@.len() == self.arms.len(),
                forall|n: int| 0 <= n < self.arms.len() ==> self@[n] == self.arms@[n]@,
                lookup_spec(self@, key@) == lookup_spec(self@.skip(i as int), key@),
            decreases self.arms.len() - i,
        {
            if i >= self.arms.len() {
                proof {
                    assert(self@.skip(i as int) =~= Seq::<ArmModel>::empty());
                }
                return Err(UnknownKeyError { key: key.duplicate() });
            }
            if self.arms[i].key.key_eq(key) {
                proof {
                    assert(self@.skip(i as int)[0] == self@[i as int]);
                }
                return Ok(self.arms[i].field);
            }
            proof {
                assert(self@.skip(i as int)[0] == self@[i as int]);
                assert(self@.skip(i as int).drop_first() =~= self@.skip(i as int + 1));
            }
            i = i + 1;
        }
    }
}

/// Assigns the exposed key of the field at declaration index `idx`.
pub fn assign_key(f: &ResolvedField, idx: usize) -> (k: Key)
    requires
        idx < usize::MAX,
    ensures
        k@ == key_of(f@, idx as int),
{
    match &f.policy.rename {
        Some(r) => Key::Name(r.clone()),
        None => match &f.name {
            Some(n) => Key::Name(n.clone()),
            None => Key::Index(idx as u64 + 1),
        },
    }
}

/// Builds one direction's dispatch table over the resolved fields, in
/// declaration order.
pub fn build_table(fields: &Vec<ResolvedField>, write: bool) -> (t: DispatchTable)
    ensures
        t@ == arms_from(rfields_view(fields@), 0, write),
{
    let ghost fm = rfields_view(fields@);
    let mut arms: Vec<Arm> = Vec::new();
    let mut i: usize = 0;
    proof {
        assert(arms@.map(|n: int, a: Arm| a@) =~= Seq::<ArmModel>::empty());
    }
    loop
        invariant
            i <= fields.len(),
            fm == rfields_view(fields@),
            fm.len() == fields.len(),
            forall|k: int| 0 <= k < fields.len() ==> fm[k] == fields@[k]@,
            arms@.map(|n: int, a: Arm| a@) + arms_from(fm, i as int, write) == arms_from(
                fm,
                0,
                write,
            ),
        decreases fields.len() - i,
    {
        if i >= fields.len() {
            let t = DispatchTable { arms };
            proof {
                assert(t@ + Seq::<ArmModel>::empty() =~= t@);
                assert(arms_from(fm, i as int, write) =~= Seq::<ArmModel>::empty());
            }
            return t;
        }
        let f = &fields[i];
        let grant = if write {
            f.policy.write
        } else {
            f.policy.read
        };
        let ghost before = arms@.map(|n: int, a: Arm| a@);
        if grant {
            let key = assign_key(f, i);
            arms.push(Arm { key, field: i });
            proof {
                let after = arms@.map(|n: int, a: Arm| a@);
                assert(after =~= before + seq![
                    ArmModel { key: key_of(fm[i as int], i as int), field: i as int },
                ]);
                assert(before + (seq![
                    ArmModel { key: key_of(fm[i as int], i as int), field: i as int },
                ] + arms_from(fm, i as int + 1, write)) =~= after + arms_from(
                    fm,
                    i as int + 1,
                    write,
                ));
            }
        } else {
            proof {
                assert(Seq::<ArmModel>::empty() + arms_from(fm, i as int + 1, write)
                    =~= arms_from(fm, i as int + 1, write));
            }
        }
        i = i + 1;
    }
}

/// How dispatch behaves over a built table: a presented key reaches the
/// earliest-declared granting field whose exposed key it is, and reaches
/// nothing when no granting field from `i` on has that key. Declaration
/// order is the tie-break: the first arm whose key matches wins, which is
/// how duplicate keys shadow.
pub proof fn lemma_lookup_arms(fields: Seq<RFieldModel>, i: int, write: bool, k: KeyModel)
    requires
        0 <= i <= fields.len(),
    ensures
        match lookup_spec(arms_from(fields, i, write), k) {
            Some(f) => i <= f < fields.len() && grants(fields[f], write) && key_of(fields[f], f)
                == k && (forall|j: int|
                i <= j < f ==> !(grants(fields[j], write) && key_of(fields[j], j) == k)),
            None => forall|j: int|
                i <= j < fields.len() ==> !(grants(fields[j], write) && key_of(fields[j], j)
                    == k),
        },
    decreases fields.len() - i,
{
    if i == fields.len() {
    } else {
        lemma_lookup_arms(fields, i + 1, write, k);
        let rest = arms_from(fields, i + 1, write);
        if grants(fields[i], write) {
            let head = ArmModel { key: key_of(fields[i], i), field: i };
            let arms = arms_from(fields, i, write);
            assert(arms =~= seq![head] + rest);
            assert(arms[0] == head);
            if key_of(fields[i], i) == k {
            } else {
                assert(arms.drop_first() =~= rest);
            }
        } else {
            assert(arms_from(fields, i, write) =~= rest);
        }
    }
}

/// Every arm of a built table belongs to a granting field and carries that
/// field's exposed key.
pub proof fn lemma_arms_sound(fields: Seq<RFieldModel>, i: int, write: bool)
    requires
        0 <= i <= fields.len(),
    ensures
        forall|n: int|
            0 <= n < arms_from(fields, i, write).len() ==> {
                let a = #[trigger] arms_from(fields, i, write)[n];
                i <= a.field < fields.len() && grants(fields[a.field], write) && a.key == key_of(
                    fields[a.field],
                    a.field,
                )
            },
    decreases fields.len() - i,
{
    if i == fields.len() {
    } else {
        lemma_arms_sound(fields, i + 1, write);
        let rest = arms_from(fields, i + 1, write);
        let arms = arms_from(fields, i, write);
        if grants(fields[i], write) {
            let head = ArmModel { key: key_of(fields[i], i), field: i };
            assert(arms =~= seq![head] + rest);
            assert forall|n: int| 0 <= n < arms.len() implies {
                let a = #[trigger] arms[n];
                i <= a.field < fields.len() && grants(fields[a.field], write) && a.key == key_of(
                    fields[a.field],
                    a.field,
                )
            } by {
                if n > 0 {
                    assert(arms[n] == rest[n - 1]);
                }
            }
        } else {
            assert(arms =~= rest);
        }
    }
}

/// Every granting field has an arm in the built table, under its exposed
/// key.
pub proof fn lemma_arm_present(fields: Seq<RFieldModel>, i: int, t: int, write: bool)
    requires
        0 <= i <= t < fields.len(),
        grants(fields[t], write),
    ensures
        arms_from(fields, i, write).contains(
            ArmModel { key: key_of(fields[t], t), field: t },
        ),
    decreases t - i,
{
    let arm = ArmModel { key: key_of(fields[t], t), field: t };
    let rest = arms_from(fields, i + 1, write);
    let arms = arms_from(fields, i, write);
    if i == t {
        let head = ArmModel { key: key_of(fields[i], i), field: i };
        assert(arms =~= seq![head] + rest);
        assert(arms[0] == arm);
    } else {
        lemma_arm_present(fields, i + 1, t, write);
        let n = choose|n: int| 0 <= n < rest.len() && rest[n] == arm;
        if grants(fields[i], write) {
            let head = ArmModel { key: key_of(fields[i], i), field: i };
            assert(arms =~= seq![head] + rest);
            assert(arms[n + 1] == arm);
        } else {
            assert(arms =~= rest);
            assert(arms[n] == arm);
        }
    }
}

} // verus!
