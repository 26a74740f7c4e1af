use vstd::prelude::*;

use crate::grammar::{
    parse_entries, parse_entries_spec, GrammarError, GrammarErrorModel,
};
use crate::token::{entries_view, tokens_view, AttrToken, Entry, EntryModel, TokenModel};

verus! {

/// A recognized grammar with an unrecognized option name. `pos` is the index
/// of the offending identifier among the annotation's tokens; `name` is that
/// identifier's text.
#[derive(Debug, Clone, PartialEq, Eq)]
pub struct UnknownOptionError {
    pub pos: usize,
    pub name: String,
}

/// Mathematical model of an unknown-option diagnostic.
pub struct UnknownOptionErrorModel {
    pub pos: int,
    pub name: Seq<char>,
}

impl View for UnknownOptionError {
    type V = UnknownOptionErrorModel;

    open spec fn view(&self) -> UnknownOptionErrorModel {
        UnknownOptionErrorModel { pos: self.pos as int, name: self.name@ }
    }
}

/// What can go wrong with one annotation: its tokens break the grammar, or
/// they name an option that the scope does not recognize.
#[derive(Debug, Clone, PartialEq, Eq)]
pub enum AnnotationError {
    Grammar(GrammarError),
    UnknownOption(UnknownOptionError),
}

/// Mathematical model of an annotation diagnostic.
pub enum AnnotationErrorModel {
    Grammar(GrammarErrorModel),
    UnknownOption(UnknownOptionErrorModel),
}

impl View for AnnotationError {
    type V = AnnotationErrorModel;

    open spec fn view(&self) -> AnnotationErrorModel {
        match self {
            AnnotationError::Grammar(g) => AnnotationErrorModel::Grammar(g@),
            AnnotationError::UnknownOption(u) => AnnotationErrorModel::UnknownOption(u@),
        }
    }
}

/// One annotation occurrence as the generator sees it: not written at all,
/// written with no arguments at all, or written with argument tokens.
#[derive(Debug, Clone, PartialEq, Eq)]
pub enum Annotation {
    Absent,
    Empty,
    Args(Vec<AttrToken>),
}

/// Mathematical model of an annotation occurrence.
pub enum AnnotationModel {
    Absent,
    Empty,
    Args(Seq<TokenModel>),
}

impl View for Annotation {
    type V = AnnotationModel;

    open spec fn view(&self) -> AnnotationModel {
        match self {
            Annotation::Absent => AnnotationModel::Absent,
            Annotation::Empty => AnnotationModel::Empty,
            Annotation::Args(toks) => AnnotationModel::Args(tokens_view(toks@)),
        }
    }
}

/// A field's resolved exposure policy.
#[derive(Debug, Clone, PartialEq, Eq)]
pub struct FieldPolicy {
    pub read: bool,
    pub write: bool,
    pub rename: Option<String>,
}

/// Mathematical model of a field policy.
pub struct PolicyModel {
    pub read: bool,
    pub write: bool,
    pub rename: Option<Seq<char>>,
}

impl View for FieldPolicy {
    type V = PolicyModel;

    open spec fn view(&self) -> PolicyModel {
        PolicyModel {
            read: self.read,
            write: self.write,
            rename: match &self.rename {
                Some(s) => Some(s@),
                None => None,
            },
        }
    }
}

/// The policy of a field that carries no annotation, or one with no
/// arguments at all: fully exposed under its own name.
pub open spec fn default_policy() -> PolicyModel {
    PolicyModel { read: true, write: true, rename: None }
}

/// The base state an explicit argument list is folded from: explicit
/// annotations only grant the capabilities they name.
pub open spec fn blank_policy() -> PolicyModel {
    PolicyModel { read: false, write: false, rename: None }
}

/// Folding the parsed entries of one field annotation, from entry `i` on,
/// over the policy `cur`: `read` grants reading, `rename = "x"` sets the
/// exposed key, anything else is an unknown option.
pub open spec fn resolve_field_from(
    es: Seq<EntryModel>,
    i: int,
    cur: PolicyModel,
) -> Result<PolicyModel, UnknownOptionErrorModel>
    decreases es.len() - i,
{
    if !(0 <= i < es.len()) {
        Ok(cur)
    } else {
        match es[i] {
            EntryModel::Flag { pos, name } => {
                if name == "read"@ {
                    resolve_field_from(
                        es,
                        i + 1,
                        PolicyModel { read: true, write: cur.write, rename: cur.rename },
                    )
                } else {
                    Err(UnknownOptionErrorModel { pos, name })
                }
            },
            EntryModel::Assign { pos, key, value } => {
                if key == "rename"@ {
                    resolve_field_from(
                        es,
                        i + 1,
                        PolicyModel { read: cur.read, write: cur.write, rename: Some(value) },
                    )
                } else {
                    Err(UnknownOptionErrorModel { pos, name: key })
                }
            },
        }
    }
}

/// What one field's whole annotation resolves to.
pub open spec fn field_policy_spec(a: AnnotationModel) -> Result<PolicyModel, AnnotationErrorModel> {
    match a {
        AnnotationModel::Absent => Ok(default_policy()),
        AnnotationModel::Empty => Ok(default_policy()),
        AnnotationModel::Args(toks) => match parse_entries_spec(toks) {
            Err(g) => Err(AnnotationErrorModel::Grammar(g)),
            Ok(es) => match resolve_field_from(es, 0, blank_policy()) {
                Err(u) => Err(AnnotationErrorModel::UnknownOption(u)),
                Ok(p) => Ok(p),
            },
        },
    }
}

/// Whether a `String` holds exactly the text of `b`.
fn str_eq(a: &String, b: &str) -> (r: bool)
    ensures
        r == (a@ == b@),
{
    let owned: String = b.to_owned();
    a.eq(&owned)
}

/// Resolves one field's annotation into its exposure policy, exactly as
/// `field_policy_spec` says: no annotation and an argument-free annotation
/// both give full default exposure; an argument list is parsed and folded
/// from the blank policy; the first offending entry aborts.
pub fn field_policy(a: &Annotation) -> (r: Result<FieldPolicy, AnnotationError>)
    ensures
        match r {
            Ok(p) => field_policy_spec(a@) == Ok::<_, AnnotationErrorModel>(p@),
            Err(e) => field_policy_spec(a@) == Err::<PolicyModel, _>(e@),
        },
{
    let toks = match a {
        Annotation::Absent => {
            return Ok(FieldPolicy { read: true, write: true, rename: None });
        },
        Annotation::Empty => {
            return Ok(FieldPolicy { read: true, write: true, rename: None });
        },
        Annotation::Args(toks) => toks,
    };
    let es = match parse_entries(toks) {
        Ok(es) => es,
        Err(g) => {
            return Err(AnnotationError::Grammar(g));
        },
    };
    let ghost esm = entries_view(es@);
    let mut cur = FieldPolicy { read: false, write: false, rename: None };
    let mut i: usize = 0;
    loop
        invariant
            i <= es.len(),
            a@ == AnnotationModel::Args(tokens_view(toks@)),
            parse_entries_spec(tokens_view(toks@)) == Ok::<_, GrammarErrorModel>(esm),
            esm == entries_view(es@),
            esm.len() == es.len(),
            forall|k: int| 0 <= k < es.len() ==> esm[k] == es@[k]@,
            resolve_field_from(esm, 0, blank_policy()) == resolve_field_from(
                esm,
                i as int,
                cur@,
            ),
        decreases es.len() - i,
    {
        if i >= es.len() {
            return Ok(cur);
        }
        match &es[i] {
            Entry::Flag { pos, name } => {
                if str_eq(name, "read") {
                    cur = FieldPolicy { read: true, write: cur.write, rename: cur.rename };
                } else {
                    return Err(AnnotationError::UnknownOption(UnknownOptionError {
                        pos: *pos,
                        name: name.clone(),
                    }));
                }
            },
            Entry::Assign { pos, key, value } => {
                if str_eq(key, "rename") {
                    cur = FieldPolicy {
                        read: cur.read,
                        write: cur.write,
                        rename: Some(value.clone()),
                    };
                } else {
                    return Err(AnnotationError::UnknownOption(UnknownOptionError {
                        pos: *pos,
                        name: key.clone(),
                    }));
                }
            },
        }
        i = i + 1;
    }
}

/// Structure-wide settings: the path that qualifies references to the host
/// scripting runtime in generated code.
#[derive(Debug, Clone, PartialEq, Eq)]
pub struct StructOptions {
    pub namespace_root: String,
}

/// Mathematical model of the structure-wide settings.
pub struct StructOptionsModel {
    pub namespace_root: Seq<char>,
}

impl View for StructOptions {
    type V = StructOptionsModel;

    open spec fn view(&self) -> StructOptionsModel {
        StructOptionsModel { namespace_root: self.namespace_root@ }
    }
}

/// The namespace that qualifies generated references when no `crate = "..."`
/// override is given.
pub open spec fn default_namespace() -> Seq<char> {
    "::rud_internal"@
}

/// Whether `syn` accepts the text as a path. Relied on below; the result is
/// a function of the text alone.
pub uninterp spec fn syn_path_accepts(s: Seq<char>) -> bool;

/// Relies on `syn::parse_str::<syn::Path>`: whether the text parses as a
/// path. `syn`'s parser reads nothing but the text, so acceptance is a
/// function of the text alone.
#[verifier::external_body]
fn path_accepted(s: &String) -> (r: bool)
    ensures
        r == syn_path_accepts(s@),
{
    syn::parse_str::<syn::Path>(s.as_str()).is_ok()
}

/// Folding the parsed entries of the structure-wide annotation, from entry
/// `i` on: only `crate = "<path>"` is recognized (the last occurrence wins),
/// its value must be a path, and no bare flag is valid at structure scope.
pub open spec fn resolve_struct_from(
    es: Seq<EntryModel>,
    i: int,
    cur: Option<Seq<char>>,
) -> Result<Option<Seq<char>>, AnnotationErrorModel>
    decreases es.len() - i,
{
    if !(0 <= i < es.len()) {
        Ok(cur)
    } else {
        match es[i] {
            EntryModel::Flag { pos, name } => Err(AnnotationErrorModel::UnknownOption(
                UnknownOptionErrorModel { pos, name },
            )),
            EntryModel::Assign { pos, key, value } => {
                if key == "crate"@ {
                    if syn_path_accepts(value) {
                        resolve_struct_from(es, i + 1, Some(value))
                    } else {
                        Err(AnnotationErrorModel::Grammar(GrammarErrorModel::InvalidPath {
                            pos,
                            text: value,
                        }))
                    }
                } else {
                    Err(AnnotationErrorModel::UnknownOption(UnknownOptionErrorModel {
                        pos,
                        name: key,
                    }))
                }
            },
        }
    }
}

/// What the structure-wide annotation resolves to: the default namespace
/// when it is absent, written with no arguments, or names no override.
pub open spec fn struct_options_spec(a: AnnotationModel) -> Result<
    StructOptionsModel,
    AnnotationErrorModel,
> {
    match a {
        AnnotationModel::Absent => Ok(StructOptionsModel { namespace_root: default_namespace() }),
        AnnotationModel::Empty => Ok(StructOptionsModel { namespace_root: default_namespace() }),
        AnnotationModel::Args(toks) => match parse_entries_spec(toks) {
            Err(g) => Err(AnnotationErrorModel::Grammar(g)),
            Ok(es) => match resolve_struct_from(es, 0, None) {
                Err(e) => Err(e),
                Ok(cur) => Ok(StructOptionsModel {
                    namespace_root: match cur {
                        Some(p) => p,
                        None => default_namespace(),
                    },
                }),
            },
        },
    }
}

/// Resolves the structure-wide annotation, exactly as `struct_options_spec`
/// says: `crate = "<path>"` overrides the namespace after `syn` accepts the
/// path, anything else in the argument list is a diagnostic.
pub fn struct_options(a: &Annotation) -> (r: Result<StructOptions, AnnotationError>)
    ensures
        match r {
            Ok(o) => struct_options_spec(a@) == Ok::<_, AnnotationErrorModel>(o@),
            Err(e) => struct_options_spec(a@) == Err::<StructOptionsModel, _>(e@),
        },
{
    let toks = match a {
        Annotation::Absent => {
            return Ok(StructOptions { namespace_root: "::rud_internal".to_owned() });
        },
        Annotation::Empty => {
            return Ok(StructOptions { namespace_root: "::rud_internal".to_owned() });
        },
        Annotation::Args(toks) => toks,
    };
    let es = match parse_entries(toks) {
        Ok(es) => es,
        Err(g) => {
            return Err(AnnotationError::Grammar(g));
        },
    };
    let ghost esm = entries_view(es@);
    let mut cur: Option<String> = None;
    let mut i: usize = 0;
    loop
        invariant
            i <= es.len(),
            a@ == AnnotationModel::Args(tokens_view(toks@)),
            parse_entries_spec(tokens_view(toks@)) == Ok::<_, GrammarErrorModel>(esm),
            esm == entries_view(es@),
            esm.len() == es.len(),
            forall|k: int| 0 <= k < es.len() ==> esm[k] == es@[k]@,
            resolve_struct_from(esm, 0, None) == resolve_struct_from(
                esm,
                i as int,
                match &cur {
                    Some(s) => Some(s@),
                    None => None,
                },
            ),
        decreases es.len() - i,
    {
        if i >= es.len() {
            return Ok(StructOptions {
                namespace_root: match cur {
                    Some(p) => p,
                    None => "::rud_internal".to_owned(),
                },
            });
        }
        match &es[i] {
            Entry::Flag { pos, name } => {
                return Err(AnnotationError::UnknownOption(UnknownOptionError {
                    pos: *pos,
                    name: name.clone(),
                }));
            },
            Entry::Assign { pos, key, value } => {
                if str_eq(key, "crate") {
                    if path_accepted(value) {
                        cur = Some(value.clone());
                    } else {
                        return Err(AnnotationError::Grammar(GrammarError::InvalidPath {
                            pos: *pos,
                            text: value.clone(),
                        }));
                    }
                } else {
                    return Err(AnnotationError::UnknownOption(UnknownOptionError {
                        pos: *pos,
                        name: key.clone(),
                    }));
                }
            },
        }
        i = i + 1;
    }
}

} // verus!
