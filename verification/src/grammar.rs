use vstd::prelude::*;

use crate::token::{
    entries_view, lemma_entries_view_push, tokens_view, AttrToken, Entry, EntryModel, TokenModel,
};

verus! {

/// A malformed annotation: the argument tokens do not fit the grammar
/// `entry (, entry)*` with `entry = ident | ident = "literal"`.
/// Every variant points at the offending token by its index (`pos`), which
/// equals the token count when the input ended too early.
#[derive(Debug, Clone, PartialEq, Eq)]
pub enum GrammarError {
    /// Something other than an identifier (or nothing at all) stood where an
    /// entry was expected.
    ExpectedEntry { pos: usize },
    /// The value on the right of `=` was not a string literal.
    NotStringLiteral { pos: usize },
    /// A leftover token followed a complete entry where `,` or the end was
    /// expected.
    UnexpectedToken { pos: usize },
    /// The value of a `crate = "..."` pair does not parse as a path.
    InvalidPath { pos: usize, text: String },
}

/// Mathematical model of a grammar diagnostic.
pub enum GrammarErrorModel {
    ExpectedEntry { pos: int },
    NotStringLiteral { pos: int },
    UnexpectedToken { pos: int },
    InvalidPath { pos: int, text: Seq<char> },
}

impl View for GrammarError {
    type V = GrammarErrorModel;

    open spec fn view(&self) -> GrammarErrorModel {
        match self {
            GrammarError::ExpectedEntry { pos } => GrammarErrorModel::ExpectedEntry {
                pos: *pos as int,
            },
            GrammarError::NotStringLiteral { pos } => GrammarErrorModel::NotStringLiteral {
                pos: *pos as int,
            },
            GrammarError::UnexpectedToken { pos } => GrammarErrorModel::UnexpectedToken {
                pos: *pos as int,
            },
            GrammarError::InvalidPath { pos, text } => GrammarErrorModel::InvalidPath {
                pos: *pos as int,
                text: text@,
            },
        }
    }
}

/// What parsing the annotation tokens yields from position `i` on, with the
/// entries parsed so far in `acc`: an entry is expected at `i`.
pub open spec fn parse_from(
    toks: Seq<TokenModel>,
    i: int,
    acc: Seq<EntryModel>,
) -> Result<Seq<EntryModel>, GrammarErrorModel>
    decreases toks.len() - i,
{
    if !(0 <= i < toks.len()) {
        Err(GrammarErrorModel::ExpectedEntry { pos: i })
    } else {
        match toks[i] {
            TokenModel::Ident(name) => {
                if i + 1 < toks.len() && (toks[i + 1] is Equals) {
                    if i + 2 < toks.len() && (toks[i + 2] is Str) {
                        match toks[i + 2] {
                            TokenModel::Str(value) => parse_after_entry(
                                toks,
                                i + 3,
                                acc.push(EntryModel::Assign { pos: i, key: name, value }),
                            ),
                            _ => Err(GrammarErrorModel::NotStringLiteral { pos: i + 2 }),
                        }
                    } else {
                        Err(GrammarErrorModel::NotStringLiteral { pos: i + 2 })
                    }
                } else {
                    parse_after_entry(toks, i + 1, acc.push(EntryModel::Flag { pos: i, name }))
                }
            },
            _ => Err(GrammarErrorModel::ExpectedEntry { pos: i }),
        }
    }
}

/// What parsing yields right after a complete entry, at position `j`: either
/// the input ends, or a `,` announces the next entry.
pub open spec fn parse_after_entry(
    toks: Seq<TokenModel>,
    j: int,
    acc: Seq<EntryModel>,
) -> Result<Seq<EntryModel>, GrammarErrorModel>
    decreases toks.len() - j,
{
    if j >= toks.len() {
        Ok(acc)
    } else if toks[j] is Comma {
        parse_from(toks, j + 1, acc)
    } else {
        Err(GrammarErrorModel::UnexpectedToken { pos: j })
    }
}

/// The annotation grammar over a whole (non-empty) token list.
pub open spec fn parse_entries_spec(toks: Seq<TokenModel>) -> Result<
    Seq<EntryModel>,
    GrammarErrorModel,
> {
    parse_from(toks, 0, Seq::empty())
}

/// Parses one annotation's argument tokens into its comma-separated entries.
/// The result is exactly what the grammar says, diagnostics included.
pub fn parse_entries(toks: &Vec<AttrToken>) -> (r: Result<Vec<Entry>, GrammarError>)
    ensures
        match r {
            Ok(es) => parse_entries_spec(tokens_view(toks@)) == Ok::<_, GrammarErrorModel>(
                entries_view(es@),
            ),
            Err(e) => parse_entries_spec(tokens_view(toks@)) == Err::<Seq<EntryModel>, _>(e@),
        },
{
    let ghost tm = tokens_view(toks@);
    let mut i: usize = 0;
    let mut acc: Vec<Entry> = Vec::new();
    proof {
        assert(entries_view(acc@) =~= Seq::<EntryModel>::empty());
    }
    loop
        invariant
            i <= toks.len(),
            tm == tokens_view(toks@),
            tm.len() == toks.len(),
            forall|k: int| 0 <= k < toks.len() ==> tm[k] == toks@[k]@,
            parse_entries_spec(tm) == parse_from(tm, i as int, entries_view(acc@)),
        decreases toks.len() - i,
    {
        let ghost acc0 = entries_view(acc@);
        if i >= toks.len() {
            return Err(GrammarError::ExpectedEntry { pos: i });
        }
        let entry: Entry;
        let after: usize;
        match &toks[i] {
            AttrToken::Ident(name) => {
                if i + 1 < toks.len() && matches!(&toks[i + 1], AttrToken::Equals) {
                    if i + 2 < toks.len() {
                        match &toks[i + 2] {
                            AttrToken::Str(value) => {
                                entry = Entry::Assign {
                                    pos: i,
                                    key: name.clone(),
                                    value: value.clone(),
                                };
                                after = i + 3;
                            },
                            _ => {
                                return Err(GrammarError::NotStringLiteral { pos: i + 2 });
                            },
                        }
                    } else {
                        return Err(GrammarError::NotStringLiteral { pos: i + 2 });
                    }
                } else {
                    entry = Entry::Flag { pos: i, name: name.clone() };
                    after = i + 1;
                }
            },
            _ => {
                return Err(GrammarError::ExpectedEntry { pos: i });
            },
        }
        proof {
            lemma_entries_view_push(acc@, entry);
        }
        acc.push(entry);
        proof {
            assert(parse_from(tm, i as int, acc0) == parse_after_entry(
                tm,
                after as int,
                entries_view(acc@),
            ));
        }
        if after >= toks.len() {
            return Ok(acc);
        }
        if matches!(&toks[after], AttrToken::Comma) {
            i = after + 1;
        } else {
            return Err(GrammarError::UnexpectedToken { pos: after });
        }
    }
}

} // verus!
