use vstd::prelude::*;

verus! {

/// One token of an annotation's argument list, reduced to plain values:
/// identifiers, `=`, `,`, string literals, and anything else kept as its
/// source text (a non-string literal separately, since the grammar must
/// reject it with a dedicated diagnostic).
#[derive(Debug, Clone, PartialEq, Eq)]
pub enum AttrToken {
    Ident(String),
    Equals,
    Comma,
    Str(String),
    OtherLit(String),
    Other(String),
}

/// Mathematical model of one annotation token.
pub enum TokenModel {
    Ident(Seq<char>),
    Equals,
    Comma,
    Str(Seq<char>),
    OtherLit(Seq<char>),
    Other(Seq<char>),
}

impl View for AttrToken {
    type V = TokenModel;

    open spec fn view(&self) -> TokenModel {
        match self {
            AttrToken::Ident(s) => TokenModel::Ident(s@),
            AttrToken::Equals => TokenModel::Equals,
            AttrToken::Comma => TokenModel::Comma,
            AttrToken::Str(s) => TokenModel::Str(s@),
            AttrToken::OtherLit(s) => TokenModel::OtherLit(s@),
            AttrToken::Other(s) => TokenModel::Other(s@),
        }
    }
}

pub open spec fn tokens_view(ts: Seq<AttrToken>) -> Seq<TokenModel> {
    ts.map(|i: int, t: AttrToken| t@)
}

/// One parsed annotation entry: a bare flag (`read`) or a key/value pair
/// (`rename = "x"`). `pos` is the index, among the annotation's tokens, of
/// the entry's leading identifier; diagnostics point at it.
#[derive(Debug, Clone, PartialEq, Eq)]
pub enum Entry {
    Flag { pos: usize, name: String },
    Assign { pos: usize, key: String, value: String },
}

/// Mathematical model of one parsed entry.
pub enum EntryModel {
    Flag { pos: int, name: Seq<char> },
    Assign { pos: int, key: Seq<char>, value: Seq<char> },
}

impl View for Entry {
    type V = EntryModel;

    open spec fn view(&self) -> EntryModel {
        match self {
            Entry::Flag { pos, name } => EntryModel::Flag { pos: *pos as int, name: name@ },
            Entry::Assign { pos, key, value } => EntryModel::Assign {
                pos: *pos as int,
                key: key@,
                value: value@,
            },
        }
    }
}

pub open spec fn entries_view(es: Seq<Entry>) -> Seq<EntryModel> {
    es.map(|i: int, e: Entry| e@)
}

pub proof fn lemma_entries_view_push(es: Seq<Entry>, e: Entry)
    ensures
        entries_view(es.push(e)) == entries_view(es).push(e@),
{
    assert(entries_view(es.push(e)) =~= entries_view(es).push(e@));
}

} // verus!
