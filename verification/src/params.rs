//! Request parameters: the ordered key/value pairs of one query, and the
//! composition of the query for a page request.

use crate::queue::from_vec;
use crate::token::{clone_entries, entries, entry_count, Token};
use vstd::prelude::*;

verus! {

/// The value of one field of a query.
#[derive(Debug, PartialEq)]
pub enum FieldValue {
    /// A text given by the caller.
    Text(String),
    /// A value that the server sent in a continuation token, handed back
    /// as it came.
    Json(serde_json::Value),
}

/// One key/value pair of a query.
#[derive(Debug, PartialEq)]
pub struct Field {
    pub key: String,
    pub value: FieldValue,
}

/// What a [`FieldValue`] stands for.
pub enum FieldValueView {
    Text(Seq<char>),
    Json(serde_json::Value),
}

/// What a [`Field`] stands for.
pub struct FieldView {
    pub key: Seq<char>,
    pub value: FieldValueView,
}

impl View for FieldValue {
    type V = FieldValueView;

    open spec fn view(&self) -> FieldValueView {
        match self {
            FieldValue::Text(s) => FieldValueView::Text(s@),
            FieldValue::Json(v) => FieldValueView::Json(*v),
        }
    }
}

impl View for Field {
    type V = FieldView;

    open spec fn view(&self) -> FieldView {
        FieldView { key: self.key@, value: self.value@ }
    }
}

/// The fields that a vector of fields stands for, in the same order.
pub open spec fn views(fields: Seq<Field>) -> Seq<FieldView> {
    fields.map_values(|f: Field| f@)
}

/// The field with the given key and a text as its value.
pub open spec fn text_field(key: Seq<char>, value: Seq<char>) -> FieldView {
    FieldView { key, value: FieldValueView::Text(value) }
}

/// The fields that a continuation token contributes to a query: one for each
/// entry, in the token's own order.
pub open spec fn token_fields(token: Token) -> Seq<FieldView> {
    entries(token).map_values(
        |e: (Seq<char>, serde_json::Value)| FieldView { key: e.0, value: FieldValueView::Json(e.1) },
    )
}

/// The fields of an optional continuation token: none where there is no token.
pub open spec fn extra_fields(extra: Option<Token>) -> Seq<FieldView> {
    match extra {
        Some(token) => token_fields(token),
        None => Seq::empty(),
    }
}

/// The two fields that every query starts with.  They ask the server for
/// JSON in its second format version.
pub open spec fn fixed_fields() -> Seq<FieldView> {
    seq![text_field("format"@, "json"@), text_field("formatversion"@, "2"@)]
}

/// The complete query for the given parameters: the fixed fields, then the
/// parameters in their own order.
pub open spec fn standard_fields(params: Seq<FieldView>) -> Seq<FieldView> {
    fixed_fields() + params
}

/// The query of a page request: the fixed fields, the base parameters, and
/// then the fields of the continuation token, if there is one.  A key of the
/// token that also occurs in the base parameters is not merged: both fields
/// are there, the token's one later.
pub open spec fn page_fields(base: Seq<FieldView>, extra: Option<Token>) -> Seq<FieldView> {
    standard_fields(base + extra_fields(extra))
}

/// Merging a token.  The query of a page request holds the fixed fields, then
/// every base parameter, then every entry of the token, each in its own order
/// and none left out: a key of the token that a base parameter has too does
/// not replace it, it follows it.
pub proof fn lemma_page_fields(base: Seq<FieldView>, token: Token)
    ensures
        page_fields(base, Some(token)).len() == 2 + base.len() + entries(token).len(),
        page_fields(base, Some(token)).take(2) == fixed_fields(),
        forall|i: int|
            0 <= i < base.len() ==> page_fields(base, Some(token))[2 + i] == #[trigger] base[i],
        forall|j: int|
            0 <= j < entries(token).len() ==> page_fields(base, Some(token))[2 + base.len() + j]
                == (FieldView {
                key: (#[trigger] entries(token)[j]).0,
                value: FieldValueView::Json(entries(token)[j].1),
            }),
        page_fields(base, None) == fixed_fields() + base,
{
    let query = page_fields(base, Some(token));
    assert(query.take(2) == fixed_fields());
    assert(base + extra_fields(None) == base);
}

/// One key/value pair that can become a field of a query.
pub trait Pair {
    /// The field that this pair stands for.
    spec fn field(&self) -> FieldView;

    /// A field of its own with the key and the value of this pair.
    fn to_field(&self) -> (f: Field)
        ensures
            f@ == self.field(),
    ;
}

impl<'a> Pair for (&'a str, &'a str) {
    open spec fn field(&self) -> FieldView {
        text_field(self.0@, self.1@)
    }

    fn to_field(&self) -> (f: Field) {
        Field { key: self.0.to_owned(), value: FieldValue::Text(self.1.to_owned()) }
    }
}

impl Pair for (String, String) {
    open spec fn field(&self) -> FieldView {
        text_field(self.0@, self.1@)
    }

    fn to_field(&self) -> (f: Field) {
        Field { key: self.0.clone(), value: FieldValue::Text(self.1.clone()) }
    }
}

/// The fields that a sequence of pairs stands for, in the same order.
pub open spec fn pair_fields<T: Pair>(pairs: Seq<T>) -> Seq<FieldView> {
    pairs.map_values(|p: T| p.field())
}

/// An ordered list of query parameters.
pub trait Params {
    /// The fields of the list, in order.
    spec fn fields(&self) -> Seq<FieldView>;

    /// The number of fields.
    fn len(&self) -> (n: usize)
        requires
            self.fields().len() <= usize::MAX,
        ensures
            n == self.fields().len(),
    ;

    /// Appends the fields, in order, to `seq`.  What `seq` held before stays
    /// in front, unchanged.
    fn serialize_into(&self, seq: &mut Vec<Field>)
        ensures
            views(final(seq)@) == views(old(seq)@) + self.fields(),
    ;
}

impl<T: Pair> Params for [T] {
    open spec fn fields(&self) -> Seq<FieldView> {
        pair_fields(self@)
    }

    fn len(&self) -> (n: usize) {
        <[T]>::len(self)
    }

    fn serialize_into(&self, seq: &mut Vec<Field>) {
        let n = <[T]>::len(self);
        let mut i: usize = 0;
        while i < n
            invariant
                i <= n,
                n == self@.len(),
                views(seq@) == views(old(seq)@) + pair_fields(self@.take(i as int)),
            decreases n - i,
        {
            let f = self[i].to_field();
            proof {
                assert(self@.take(i + 1) == self@.take(i as int).push(self@[i as int]));
                assert(views(seq@.push(f)) == views(seq@).push(f@));
                assert(pair_fields(self@.take(i + 1)) == pair_fields(self@.take(i as int)).push(
                    self@[i as int].field(),
                ));
            }
            seq.push(f);
            i = i + 1;
        }
        proof {
            assert(self@.take(n as int) == self@);
        }
    }
}

impl<T: Pair, const N: usize> Params for [T; N] {
    open spec fn fields(&self) -> Seq<FieldView> {
        pair_fields(self@)
    }

    fn len(&self) -> (n: usize) {
        N
    }

    fn serialize_into(&self, seq: &mut Vec<Field>) {
        self.as_slice().serialize_into(seq)
    }
}

impl<P: ?Sized + Params> Params for &P {
    open spec fn fields(&self) -> Seq<FieldView> {
        (**self).fields()
    }

    fn len(&self) -> (n: usize) {
        P::len(self)
    }

    fn serialize_into(&self, seq: &mut Vec<Field>) {
        P::serialize_into(self, seq)
    }
}

/// A list of parameters with the fields of an optional continuation token
/// behind it.
pub struct Adhoc<P> {
    pub params: P,
    pub extra: Option<Token>,
}

impl<P: Params> Params for Adhoc<P> {
    open spec fn fields(&self) -> Seq<FieldView> {
        self.params.fields() + extra_fields(self.extra)
    }

    fn len(&self) -> (n: usize) {
        let extra: usize = match &self.extra {
            Some(token) => entry_count(token),
            None => 0,
        };
        self.params.len() + extra
    }

    fn serialize_into(&self, seq: &mut Vec<Field>) {
        self.params.serialize_into(seq);
        if let Some(token) = &self.extra {
            let mut pairs = from_vec(clone_entries(token));
            let ghost before = seq@;
            let ghost all = pairs@;
            let n = pairs.len();
            let mut i: usize = 0;
            while i < n
                invariant
                    i <= n,
                    n == all.len(),
                    n == entries(*token).len(),
                    pairs@ == all.skip(i as int),
                    forall|j: int|
                        0 <= j < n ==> (#[trigger] all[j]).0@ == entries(*token)[j].0 && all[j].1
                            == entries(*token)[j].1,
                    views(seq@) == views(before) + token_fields(*token).take(i as int),
                decreases n - i,
            {
                let pair = pairs.pop_front().unwrap();
                let f = Field { key: pair.0, value: FieldValue::Json(pair.1) };
                proof {
                    assert(pair == all[i as int]);
                    assert(pairs@ == all.skip(i + 1));
                    assert(views(seq@.push(f)) == views(seq@).push(f@));
                    assert(token_fields(*token).take(i + 1) == token_fields(*token).take(
                        i as int,
                    ).push(f@));
                }
                seq.push(f);
                i = i + 1;
            }
            proof {
                assert(token_fields(*token).take(n as int) == token_fields(*token));
            }
        }
    }
}

/// The complete query for a list of parameters.
pub struct Standard<T: Params>(pub T);

impl<T: Params> Standard<T> {
    /// The fields of the query, in order: the fixed fields first, then the
    /// parameters.
    pub fn serialize(&self) -> (out: Vec<Field>)
        ensures
            views(out@) == standard_fields(self.0.fields()),
    {
        let mut out: Vec<Field> = Vec::new();
        out.push(Field { key: "format".to_owned(), value: FieldValue::Text("json".to_owned()) });
        out.push(
            Field { key: "formatversion".to_owned(), value: FieldValue::Text("2".to_owned()) },
        );
        proof {
            assert(views(out@) == fixed_fields());
        }
        self.0.serialize_into(&mut out);
        out
    }
}

} // verus!
