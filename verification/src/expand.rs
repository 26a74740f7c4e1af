use vstd::prelude::*;

use crate::dispatch::{
    arms_from, build_table, lemma_arms_sound, ArmModel, DispatchTable, RFieldModel, ResolvedField,
    rfields_view,
};
use crate::options::{
    field_policy, field_policy_spec, struct_options, struct_options_spec, Annotation,
    AnnotationError, AnnotationErrorModel, AnnotationModel, PolicyModel, StructOptionsModel,
};

verus! {

/// One structural field as the generator sees it: its declared name, if it
/// has one, and its annotation occurrence.
#[derive(Debug, Clone, PartialEq, Eq)]
pub struct FieldDef {
    pub name: Option<String>,
    pub annotation: Annotation,
}

/// Mathematical model of a field definition.
pub struct FieldDefModel {
    pub name: Option<Seq<char>>,
    pub annotation: AnnotationModel,
}

impl View for FieldDef {
    type V = FieldDefModel;

    open spec fn view(&self) -> FieldDefModel {
        FieldDefModel {
            name: match &self.name {
                Some(s) => Some(s@),
                None => None,
            },
            annotation: self.annotation@,
        }
    }
}

pub open spec fn fields_view(fs: Seq<FieldDef>) -> Seq<FieldDefModel> {
    fs.map(|i: int, f: FieldDef| f@)
}

/// One structure definition: its name, its structure-wide annotation, and
/// its fields in declaration order.
#[derive(Debug, Clone, PartialEq, Eq)]
pub struct StructDef {
    pub name: String,
    pub annotation: Annotation,
    pub fields: Vec<FieldDef>,
}

/// Mathematical model of a structure definition.
pub struct StructDefModel {
    pub name: Seq<char>,
    pub annotation: AnnotationModel,
    pub fields: Seq<FieldDefModel>,
}

impl View for StructDef {
    type V = StructDefModel;

    open spec fn view(&self) -> StructDefModel {
        StructDefModel {
            name: self.name@,
            annotation: self.annotation@,
            fields: fields_view(self.fields@),
        }
    }
}

/// A diagnostic that aborts one expansion: the structure-wide annotation is
/// bad, or the annotation of the field at declaration index `field` is.
#[derive(Debug, Clone, PartialEq, Eq)]
pub enum ExpandError {
    Structure(AnnotationError),
    Field { field: usize, error: AnnotationError },
}

/// Mathematical model of an expansion diagnostic.
pub enum ExpandErrorModel {
    Structure(AnnotationErrorModel),
    Field { field: int, error: AnnotationErrorModel },
}

impl View for ExpandError {
    type V = ExpandErrorModel;

    open spec fn view(&self) -> ExpandErrorModel {
        match self {
            ExpandError::Structure(e) => ExpandErrorModel::Structure(e@),
            ExpandError::Field { field, error } => ExpandErrorModel::Field {
                field: *field as int,
                error: error@,
            },
        }
    }
}

/// Whether one field's annotation resolves without a diagnostic.
pub open spec fn field_ok(f: FieldDefModel) -> bool {
    field_policy_spec(f.annotation) is Ok
}

/// The policy a field's annotation resolves to, where it resolves at all.
pub open spec fn policy_of(a: AnnotationModel) -> PolicyModel {
    match field_policy_spec(a) {
        Ok(p) => p,
        Err(_) => arbitrary(),
    }
}

/// Whether every field's annotation resolves without a diagnostic.
pub open spec fn all_fields_ok(fs: Seq<FieldDefModel>) -> bool {
    forall|k: int| 0 <= k < fs.len() ==> field_ok(fs[k])
}

/// The resolved-field table of a structure whose fields all resolve.
pub open spec fn resolved_of(fs: Seq<FieldDefModel>) -> Seq<RFieldModel> {
    fs.map(|i: int, f: FieldDefModel| RFieldModel { name: f.name, policy: policy_of(f.annotation) })
}

/// The declared names of the fields, in declaration order.
pub open spec fn names_of(fs: Seq<FieldDefModel>) -> Seq<Option<Seq<char>>> {
    fs.map(|i: int, f: FieldDefModel| f.name)
}

pub open spec fn names_view(ns: Seq<Option<String>>) -> Seq<Option<Seq<char>>> {
    ns.map(
        |i: int, n: Option<String>|
            match n {
                Some(s) => Some(s@),
                None => None,
            },
    )
}

/// Everything one successful expansion produces: the two dispatch tables and
/// what the emitter needs to reference the structure.
#[derive(Debug, Clone, PartialEq, Eq)]
pub struct GeneratedImpl {
    pub struct_name: String,
    pub namespace_root: String,
    pub field_names: Vec<Option<String>>,
    pub read_table: DispatchTable,
    pub write_table: DispatchTable,
}

/// Mathematical model of a generated implementation.
pub struct GeneratedModel {
    pub struct_name: Seq<char>,
    pub namespace_root: Seq<char>,
    pub field_names: Seq<Option<Seq<char>>>,
    pub read_arms: Seq<ArmModel>,
    pub write_arms: Seq<ArmModel>,
}

impl View for GeneratedImpl {
    type V = GeneratedModel;

    open spec fn view(&self) -> GeneratedModel {
        GeneratedModel {
            struct_name: self.struct_name@,
            namespace_root: self.namespace_root@,
            field_names: names_view(self.field_names@),
            read_arms: self.read_table@,
            write_arms: self.write_table@,
        }
    }
}

/// Every arm of both tables points at a field of the structure.
pub open spec fn wf_generated(g: GeneratedModel) -> bool {
    &&& forall|n: int|
        0 <= n < g.read_arms.len() ==> 0 <= #[trigger] g.read_arms[n].field
            < g.field_names.len()
    &&& forall|n: int|
        0 <= n < g.write_arms.len() ==> 0 <= #[trigger] g.write_arms[n].field
            < g.field_names.len()
}

/// The one generated implementation a structure determines, where its
/// annotations resolve: what `expand` produces on the success path.
pub open spec fn generated_model_of(d: StructDefModel) -> GeneratedModel {
    GeneratedModel {
        struct_name: d.name,
        namespace_root: match struct_options_spec(d.annotation) {
            Ok(o) => o.namespace_root,
            Err(_) => arbitrary(),
        },
        field_names: names_of(d.fields),
        read_arms: arms_from(resolved_of(d.fields), 0, false),
        write_arms: arms_from(resolved_of(d.fields), 0, true),
    }
}

/// What one expansion produces: nothing at all for a structure with no
/// fields, else a generated implementation.
#[derive(Debug, Clone, PartialEq, Eq)]
pub enum Expansion {
    Skipped,
    Generated(GeneratedImpl),
}

/// Mathematical model of an expansion outcome.
pub enum ExpansionModel {
    Skipped,
    Generated(GeneratedModel),
}

impl View for Expansion {
    type V = ExpansionModel;

    open spec fn view(&self) -> ExpansionModel {
        match self {
            Expansion::Skipped => ExpansionModel::Skipped,
            Expansion::Generated(g) => ExpansionModel::Generated(g@),
        }
    }
}

/// Resolves every field's annotation, in declaration order; the first
/// diagnostic aborts and names its field.
fn resolve_fields(fs: &Vec<FieldDef>) -> (r: Result<Vec<ResolvedField>, ExpandError>)
    ensures
        match r {
            Ok(rs) => all_fields_ok(fields_view(fs@)) && rfields_view(rs@) == resolved_of(
                fields_view(fs@),
            ),
            Err(e) => match e@ {
                ExpandErrorModel::Field { field, error } => 0 <= field < fs@.len()
                    && field_policy_spec(fields_view(fs@)[field].annotation) == Err::<
                    PolicyModel,
                    _,
                >(error) && (forall|k: int| 0 <= k < field ==> field_ok(fields_view(fs@)[k])),
                _ => false,
            },
        },
{
    let ghost fm = fields_view(fs@);
    let mut rs: Vec<ResolvedField> = Vec::new();
    let mut i: usize = 0;
    loop
        invariant
            i <= fs.len(),
            rs.len() == i,
            fm == fields_view(fs@),
            fm.len() == fs.len(),
            forall|k: int| 0 <= k < fs.len() ==> fm[k] == fs@[k]@,
            forall|k: int| 0 <= k < i ==> field_ok(fm[k]),
            forall|k: int|
                0 <= k < i ==> rs@[k]@ == (RFieldModel {
                    name: fm[k].name,
                    policy: policy_of(fm[k].annotation),
                }),
        decreases fs.len() - i,
    {
        if i >= fs.len() {
            proof {
                assert(rfields_view(rs@) =~= resolved_of(fm));
            }
            return Ok(rs);
        }
        let f = &fs[i];
        match field_policy(&f.annotation) {
            Ok(p) => {
                let name = match &f.name {
                    Some(n) => Some(n.clone()),
                    None => None,
                };
                rs.push(ResolvedField { name, policy: p });
            },
            Err(error) => {
                return Err(ExpandError::Field { field: i, error });
            },
        }
        i = i + 1;
    }
}

/// Runs one whole expansion: the structure-wide annotation is resolved
/// first and its diagnostic aborts; a structure with no fields produces no
/// output at all; otherwise every field is resolved (the first diagnostic
/// aborts, naming its field) and the two dispatch tables are built over the
/// resolved fields in declaration order.
pub fn expand(d: &StructDef) -> (r: Result<Expansion, ExpandError>)
    ensures
        match r {
            Ok(x) => match x@ {
                ExpansionModel::Skipped => struct_options_spec(d@.annotation) is Ok
                    && d@.fields.len() == 0,
                ExpansionModel::Generated(g) => d@.fields.len() > 0 && all_fields_ok(d@.fields)
                    && struct_options_spec(d@.annotation) == Ok::<_, AnnotationErrorModel>(
                    StructOptionsModel { namespace_root: g.namespace_root },
                ) && g.struct_name == d@.name && g.field_names == names_of(d@.fields)
                    && g.read_arms == arms_from(resolved_of(d@.fields), 0, false) && g.write_arms
                    == arms_from(resolved_of(d@.fields), 0, true) && wf_generated(g),
            },
            Err(e) => match e@ {
                ExpandErrorModel::Structure(ae) => struct_options_spec(d@.annotation) == Err::<
                    StructOptionsModel,
                    _,
                >(ae),
                ExpandErrorModel::Field { field, error } => struct_options_spec(d@.annotation)
                    is Ok && 0 <= field < d@.fields.len() && field_policy_spec(
                    d@.fields[field].annotation,
                ) == Err::<PolicyModel, _>(error) && (forall|k: int|
                    0 <= k < field ==> field_ok(d@.fields[k])),
            },
        },
{
    let opts = match struct_options(&d.annotation) {
        Ok(o) => o,
        Err(e) => {
            return Err(ExpandError::Structure(e));
        },
    };
    if d.fields.len() == 0 {
        return Ok(Expansion::Skipped);
    }
    let rs = match resolve_fields(&d.fields) {
        Ok(rs) => rs,
        Err(e) => {
            return Err(e);
        },
    };
    let read_table = build_table(&rs, false);
    let write_table = build_table(&rs, true);
    let mut field_names: Vec<Option<String>> = Vec::new();
    let mut i: usize = 0;
    proof {
        assert(names_view(field_names@) =~= names_of(d@.fields).take(0));
    }
    while i < rs.len()
        invariant
            i <= rs.len(),
            rs.len() == d.fields.len(),
            rfields_view(rs@) == resolved_of(d@.fields),
            d@.fields.len() == d.fields.len(),
            forall|k: int| 0 <= k < rs.len() ==> rfields_view(rs@)[k] == rs@[k]@,
            forall|k: int| 0 <= k < d.fields.len() ==> d@.fields[k] == d.fields@[k]@,
            field_names.len() == i,
            names_view(field_names@) == names_of(d@.fields).take(i as int),
        decreases rs.len() - i,
    {
        let name = match &rs[i].name {
            Some(n) => Some(n.clone()),
            None => None,
        };
        field_names.push(name);
        proof {
            assert(rs@[i as int]@.name == resolved_of(d@.fields)[i as int].name);
            assert(resolved_of(d@.fields)[i as int].name == d@.fields[i as int].name);
            assert(names_view(field_names@) =~= names_of(d@.fields).take(i as int + 1));
        }
        i = i + 1;
    }
    proof {
        assert(names_of(d@.fields).take(rs.len() as int) =~= names_of(d@.fields));
        lemma_arms_sound(resolved_of(d@.fields), 0, false);
        lemma_arms_sound(resolved_of(d@.fields), 0, true);
    }
    let g = GeneratedImpl {
        struct_name: d.name.clone(),
        namespace_root: opts.namespace_root,
        field_names,
        read_table,
        write_table,
    };
    Ok(Expansion::Generated(g))
}

} // verus!
