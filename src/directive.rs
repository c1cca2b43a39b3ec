//! The directive language attached to fields: `#[err_per_field(...)]`.
use vstd::prelude::*;

verus! {

/// Name of the attribute that holds this library's directives.
pub const ATTRIBUTE_NAME: &'static str = "err_per_field";

/// Directive that marks a field as possibly absent.
pub const OPTIONAL_KEY: &'static str = "maybe_none";

/// Directive that marks a field as possibly failing with an error type.
pub const FALLIBLE_KEY: &'static str = "maybe_error";

/// A literal written as a directive's value.
pub enum LitValue {
    /// A string literal, with its contents.
    Str(String),
    /// Any other literal.
    Other,
}

/// One item inside an attribute's parenthesised list.
///
/// A key is `Some(name)` when the item's path is a single identifier.
pub enum AttrItem {
    /// A bare path: `key`.
    Word(Option<String>),
    /// A key with a value: `key = literal`.
    KeyValue(Option<String>, LitValue),
    /// A key with its own list: `key(...)`.
    List(Option<String>),
    /// A bare literal.
    Literal,
}

/// An attribute on a field, as far as this library reads it.
pub enum Attr {
    /// `#[name(items, ...)]`, with `name` as for `AttrItem`.
    List { name: Option<String>, items: Vec<AttrItem> },
    /// Any other attribute form, or one that does not parse, with its name
    /// as for `AttrItem`.
    Other(Option<String>),
}

/// `syn::Path`, carried through unopened: the error type a field names.
#[verifier::external_type_specification]
#[verifier::external_body]
pub struct ExPath(syn::Path);

/// Relies on `syn::parse_str::<syn::Path>` to read a text as a type path.
/// Nothing is assumed of which texts parse.
#[verifier::external_body]
fn parse_path(text: &str) -> (r: Option<syn::Path>) {
    syn::parse_str::<syn::Path>(text).ok()
}

/// The error type named by a `Fallible` directive: its text and its path.
pub struct ErrorType {
    pub text: String,
    pub path: syn::Path,
}

/// How a field may fail, with the error type's path.
pub enum FieldMode {
    Raw,
    Optional,
    Fallible(ErrorType),
}

/// How a field may fail, with the error type as written.
pub enum ModeSpec {
    Raw,
    Optional,
    Fallible(Seq<char>),
}

impl View for FieldMode {
    type V = ModeSpec;

    open spec fn view(&self) -> ModeSpec {
        match self {
            FieldMode::Raw => ModeSpec::Raw,
            FieldMode::Optional => ModeSpec::Optional,
            FieldMode::Fallible(e) => ModeSpec::Fallible(e.text@),
        }
    }
}

/// What went wrong with one directive.
#[derive(Clone, Copy, Debug, PartialEq, Eq, Structural)]
pub enum DiagnosticKind {
    /// The item is not a directive of this library.
    UnknownKey,
    /// The error type is given by a literal that is not a string.
    UnsupportedValue,
    /// The error type's string does not parse as a path.
    InvalidPath,
    /// The field already has another mode.
    ConflictingDirectives,
    /// An `err_per_field` attribute that is not a parenthesised list.
    MalformedAttribute,
}

/// A diagnostic, placed at one attribute of one field, and at one item of
/// that attribute's list when it concerns an item.
#[derive(Clone, Copy, Debug, PartialEq, Eq, Structural)]
pub struct Diagnostic {
    pub field: usize,
    pub attr: usize,
    pub item: Option<usize>,
    pub kind: DiagnosticKind,
}

/// What one item asks for: a mode, or a diagnostic.
pub enum Outcome {
    Select(ModeSpec),
    Reject(DiagnosticKind),
}

pub open spec fn key_is(key: Option<String>, name: &str) -> bool {
    key matches Some(k) && k@ == name@
}

/// The meaning of one item of an `err_per_field(...)` list, where `parsed`
/// tells whether the error type's string, if the item gives one, was read
/// as a path.
pub open spec fn item_outcome(item: AttrItem, parsed: bool) -> Outcome {
    match item {
        AttrItem::Word(key) => if key_is(key, OPTIONAL_KEY) {
            Outcome::Select(ModeSpec::Optional)
        } else {
            Outcome::Reject(DiagnosticKind::UnknownKey)
        },
        AttrItem::KeyValue(key, value) => if !key_is(key, FALLIBLE_KEY) {
            Outcome::Reject(DiagnosticKind::UnknownKey)
        } else {
            match value {
                LitValue::Str(s) => if parsed {
                    Outcome::Select(ModeSpec::Fallible(s@))
                } else {
                    Outcome::Reject(DiagnosticKind::InvalidPath)
                },
                LitValue::Other => Outcome::Reject(DiagnosticKind::UnsupportedValue),
            }
        },
        _ => Outcome::Reject(DiagnosticKind::UnknownKey),
    }
}

/// Whether a result of reading an item is the given outcome.
pub open spec fn is_outcome(r: Result<FieldMode, DiagnosticKind>, o: Outcome) -> bool {
    match o {
        Outcome::Select(m) => r matches Ok(mode) && mode@ == m,
        Outcome::Reject(k) => r == Err::<FieldMode, DiagnosticKind>(k),
    }
}

/// What a field's attributes hold for this library: one item of an
/// `err_per_field(...)` list, with its index, or a whole `err_per_field`
/// attribute that is not such a list.
pub enum Piece {
    Item(usize, AttrItem),
    WholeAttr,
}

/// A piece with the index of its attribute.
pub type Entry = (usize, Piece);

/// The meaning of a piece; `parsed` as for `item_outcome`.
pub open spec fn piece_outcome(p: Piece, parsed: bool) -> Outcome {
    match p {
        Piece::Item(_, item) => item_outcome(item, parsed),
        Piece::WholeAttr => Outcome::Reject(DiagnosticKind::MalformedAttribute),
    }
}

/// The item index a diagnostic of this piece carries.
pub open spec fn item_index(p: Piece) -> Option<usize> {
    match p {
        Piece::Item(j, _) => Some(j),
        Piece::WholeAttr => None,
    }
}

/// The pieces of attribute `i` that belong to this library.
pub open spec fn entries_of(i: usize, a: Attr) -> Seq<Entry> {
    match a {
        Attr::List { name, items } => if key_is(name, ATTRIBUTE_NAME) {
            Seq::new(items@.len(), |j: int| (i, Piece::Item(j as usize, items@[j])))
        } else {
            Seq::empty()
        },
        Attr::Other(name) => if key_is(name, ATTRIBUTE_NAME) {
            seq![(i, Piece::WholeAttr)]
        } else {
            Seq::empty()
        },
    }
}

/// All pieces of a field's attributes that belong to this library, in
/// source order.
pub open spec fn directive_entries(attrs: Seq<Attr>) -> Seq<Entry>
    decreases attrs.len(),
{
    if attrs.len() == 0 {
        Seq::empty()
    } else {
        directive_entries(attrs.drop_last()) + entries_of(
            (attrs.len() - 1) as usize,
            attrs.last(),
        )
    }
}

/// The effect of one piece on a field's mode and diagnostics.
///
/// The first mode chosen stays; a later directive for another mode is a
/// conflict, and one for the same mode changes nothing.
pub open spec fn step(field: usize, st: (ModeSpec, Seq<Diagnostic>), e: Entry, parsed: bool) -> (
    ModeSpec,
    Seq<Diagnostic>,
) {
    let at = |k: DiagnosticKind| Diagnostic { field, attr: e.0, item: item_index(e.1), kind: k };
    match piece_outcome(e.1, parsed) {
        Outcome::Select(m) => if st.0 == ModeSpec::Raw {
            (m, st.1)
        } else if st.0 == m {
            st
        } else {
            (st.0, st.1.push(at(DiagnosticKind::ConflictingDirectives)))
        },
        Outcome::Reject(k) => (st.0, st.1.push(at(k))),
    }
}

/// A field's mode and diagnostics after reading its pieces, where
/// `parsed[k]` tells whether piece `k`'s error type was read as a path.
pub open spec fn resolve(field: usize, entries: Seq<Entry>, parsed: Seq<bool>) -> (
    ModeSpec,
    Seq<Diagnostic>,
)
    decreases entries.len(),
{
    if entries.len() == 0 {
        (ModeSpec::Raw, Seq::empty())
    } else {
        step(
            field,
            resolve(field, entries.drop_last(), parsed.drop_last()),
            entries.last(),
            parsed.last(),
        )
    }
}

/// The mode and diagnostics of a field with these attributes, for these
/// outcomes of reading error types as paths.
pub open spec fn field_resolution(field: usize, attrs: Seq<Attr>, parsed: Seq<bool>) -> (
    ModeSpec,
    Seq<Diagnostic>,
) {
    resolve(field, directive_entries(attrs), parsed)
}

/// Whether `r` is what a field with these attributes gives, for some
/// outcomes of reading its error types as paths.
pub open spec fn resolves_to(field: usize, attrs: Seq<Attr>, r: (ModeSpec, Seq<Diagnostic>)) -> bool {
    exists|parsed: Seq<bool>|
        parsed.len() == directive_entries(attrs).len() && r == #[trigger] field_resolution(
            field,
            attrs,
            parsed,
        )
}

fn key_matches(key: &Option<String>, name: &str) -> (r: bool)
    ensures
        r == key_is(*key, name),
{
    match key {
        Some(k) => *k == name.to_owned(),
        None => false,
    }
}

/// The mode that `maybe_error = "text"` asks for, given what parsing the
/// text as a path gave.
pub fn error_type_mode(text: String, parsed: Option<syn::Path>) -> (r: Result<
    FieldMode,
    DiagnosticKind,
>)
    ensures
        parsed is Some ==> (r matches Ok(mode) && mode@ == ModeSpec::Fallible(text@)),
        parsed is None ==> r == Err::<FieldMode, DiagnosticKind>(DiagnosticKind::InvalidPath),
{
    match parsed {
        Some(path) => Ok(FieldMode::Fallible(ErrorType { text, path })),
        None => Err(DiagnosticKind::InvalidPath),
    }
}

/// Reads one item of an `err_per_field(...)` list.
///
/// An error type's string is read as a path with `syn`; the result is the
/// item's outcome for whichever way that went, and only that reading can
/// tell `Fallible` from `InvalidPath` (see `error_type_mode`).
pub fn classify(item: &AttrItem) -> (r: Result<FieldMode, DiagnosticKind>)
    ensures
        is_outcome(r, item_outcome(*item, true)) || is_outcome(r, item_outcome(*item, false)),
{
    match item {
        AttrItem::Word(key) => if key_matches(key, OPTIONAL_KEY) {
            Ok(FieldMode::Optional)
        } else {
            Err(DiagnosticKind::UnknownKey)
        },
        AttrItem::KeyValue(key, value) => if !key_matches(key, FALLIBLE_KEY) {
            Err(DiagnosticKind::UnknownKey)
        } else {
            match value {
                LitValue::Str(s) => error_type_mode(s.clone(), parse_path(s.as_str())),
                LitValue::Other => Err(DiagnosticKind::UnsupportedValue),
            }
        },
        _ => Err(DiagnosticKind::UnknownKey),
    }
}

proof fn lemma_resolve_push(field: usize, entries: Seq<Entry>, parsed: Seq<bool>, e: Entry, b: bool)
    ensures
        resolve(field, entries.push(e), parsed.push(b)) == step(
            field,
            resolve(field, entries, parsed),
            e,
            b,
        ),
{
    assert(entries.push(e).drop_last() =~= entries);
    assert(parsed.push(b).drop_last() =~= parsed);
}

proof fn lemma_entries_take(attrs: Seq<Attr>, i: int)
    requires
        0 <= i < attrs.len(),
        i < usize::MAX,
    ensures
        directive_entries(attrs.take(i + 1)) == directive_entries(attrs.take(i)) + entries_of(
            i as usize,
            attrs[i],
        ),
{
    assert(attrs.take(i + 1).drop_last() =~= attrs.take(i));
}

fn same_mode(a: &FieldMode, b: &FieldMode) -> (r: bool)
    ensures
        r == (a@ == b@),
{
    match (a, b) {
        (FieldMode::Raw, FieldMode::Raw) => true,
        (FieldMode::Optional, FieldMode::Optional) => true,
        (FieldMode::Fallible(x), FieldMode::Fallible(y)) => x.text == y.text,
        _ => false,
    }
}

/// Reads the pieces of a field's attributes that belong to this library:
/// the field's mode, and one diagnostic for each directive that is
/// malformed or conflicts and for each `err_per_field` attribute that is
/// not a list.
///
/// A field with no directive is `Raw`. The result is `field_resolution` for
/// the outcomes that reading each error type as a path had.
pub fn field_mode(field: usize, attrs: &Vec<Attr>) -> (r: (FieldMode, Vec<Diagnostic>))
    ensures
        resolves_to(field, attrs@, (r.0@, r.1@)),
{
    let mut mode = FieldMode::Raw;
    let mut diagnostics: Vec<Diagnostic> = Vec::new();
    let ghost mut parsed: Seq<bool> = Seq::empty();
    let mut i: usize = 0;
    while i < attrs.len()
        invariant
            i <= attrs@.len(),
            parsed.len() == directive_entries(attrs@.take(i as int)).len(),
            (mode@, diagnostics@) == resolve(field, directive_entries(attrs@.take(i as int)), parsed),
        decreases attrs@.len() - i,
    {
        proof {
            lemma_entries_take(attrs@, i as int);
        }
        let ghost before = directive_entries(attrs@.take(i as int));
        let ghost here = entries_of(i, attrs@[i as int]);
        match &attrs[i] {
            Attr::List { name, items } => {
                if key_matches(name, ATTRIBUTE_NAME) {
                    let mut j: usize = 0;
                    while j < items.len()
                        invariant
                            j <= items@.len(),
                            here == Seq::new(
                                items@.len(),
                                |k: int| (i, Piece::Item(k as usize, items@[k])),
                            ),
                            parsed.len() == before.len() + j,
                            (mode@, diagnostics@) == resolve(field, before + here.take(j as int), parsed),
                        decreases items@.len() - j,
                    {
                        let ghost prev = before + here.take(j as int);
                        let r = classify(&items[j]);
                        let ghost ok = is_outcome(r, item_outcome(items@[j as int], true));
                        proof {
                            lemma_resolve_push(field, prev, parsed, here[j as int], ok);
                            assert(before + here.take(j + 1) =~= prev.push(here[j as int]));
                        }
                        let site = |kind: DiagnosticKind| -> (d: Diagnostic)
                            ensures
                                d == (Diagnostic { field, attr: i, item: Some(j), kind }),
                            { Diagnostic { field, attr: i, item: Some(j), kind } };
                        match r {
                            Ok(m) => {
                                if matches!(mode, FieldMode::Raw) {
                                    mode = m;
                                } else if !same_mode(&mode, &m) {
                                    diagnostics.push(site(DiagnosticKind::ConflictingDirectives));
                                }
                            },
                            Err(k) => {
                                diagnostics.push(site(k));
                            },
                        }
                        proof {
                            parsed = parsed.push(ok);
                        }
                        j = j + 1;
                    }
                    proof {
                        assert(here.take(items@.len() as int) =~= here);
                    }
                } else {
                    assert(before + here =~= before);
                }
            },
            Attr::Other(name) => {
                if key_matches(name, ATTRIBUTE_NAME) {
                    proof {
                        lemma_resolve_push(field, before, parsed, (i, Piece::WholeAttr), false);
                        assert(before + here =~= before.push((i, Piece::WholeAttr)));
                        parsed = parsed.push(false);
                    }
                    diagnostics.push(
                        Diagnostic {
                            field,
                            attr: i,
                            item: None,
                            kind: DiagnosticKind::MalformedAttribute,
                        },
                    );
                } else {
                    assert(before + here =~= before);
                }
            },
        }
        i = i + 1;
    }
    assert(attrs@.take(attrs@.len() as int) =~= attrs@);
    assert((mode@, diagnostics@) == field_resolution(field, attrs@, parsed));
    (mode, diagnostics)
}

/// The diagnostic that a rejected piece of field `field` gives.
pub open spec fn rejection(field: usize, e: Entry, parsed: bool) -> Diagnostic {
    Diagnostic {
        field,
        attr: e.0,
        item: item_index(e.1),
        kind: piece_outcome(e.1, parsed)->Reject_0,
    }
}

proof fn lemma_diagnostics_grow(
    field: usize,
    entries: Seq<Entry>,
    parsed: Seq<bool>,
    n: int,
    m: int,
)
    requires
        0 <= n <= m <= entries.len(),
        parsed.len() == entries.len(),
    ensures
        resolve(field, entries.take(n), parsed.take(n)).1.len() <= resolve(
            field,
            entries.take(m),
            parsed.take(m),
        ).1.len(),
        resolve(field, entries.take(m), parsed.take(m)).1.take(
            resolve(field, entries.take(n), parsed.take(n)).1.len() as int,
        ) =~= resolve(field, entries.take(n), parsed.take(n)).1,
    decreases m - n,
{
    if n < m {
        lemma_diagnostics_grow(field, entries, parsed, n, m - 1);
        assert(entries.take(m).drop_last() =~= entries.take(m - 1));
        assert(parsed.take(m).drop_last() =~= parsed.take(m - 1));
    }
}

/// The diagnostic of the rejected piece `a` stands in the field's
/// diagnostics, after those of the pieces before it.
pub proof fn lemma_rejection_at(field: usize, es: Seq<Entry>, parsed: Seq<bool>, a: int)
    requires
        0 <= a < es.len(),
        parsed.len() == es.len(),
        piece_outcome(es[a].1, parsed[a]) is Reject,
    ensures
        resolve(field, es.take(a), parsed.take(a)).1.len() < resolve(field, es, parsed).1.len(),
        resolve(field, es, parsed).1[resolve(field, es.take(a), parsed.take(a)).1.len() as int]
            == rejection(field, es[a], parsed[a]),
        resolve(field, es.take(a + 1), parsed.take(a + 1)).1.len() == resolve(
            field,
            es.take(a),
            parsed.take(a),
        ).1.len() + 1,
{
    let len = es.len() as int;
    assert(es.take(len) =~= es);
    assert(parsed.take(len) =~= parsed);
    assert(es.take(a + 1).drop_last() =~= es.take(a));
    assert(parsed.take(a + 1).drop_last() =~= parsed.take(a));
    lemma_diagnostics_grow(field, es, parsed, a + 1, len);
    let full = resolve(field, es, parsed).1;
    let p = resolve(field, es.take(a), parsed.take(a)).1.len() as int;
    assert(resolve(field, es.take(a + 1), parsed.take(a + 1)).1[p] == rejection(
        field,
        es[a],
        parsed[a],
    ));
    assert(full.take(p + 1)[p] == full[p]);
}

/// Every malformed directive or attribute of a field is reported, each by
/// its own diagnostic, in source order, whatever reading the error types
/// gave: reading does not stop at the first.
pub proof fn law_every_rejection_reported(
    field: usize,
    attrs: Seq<Attr>,
    parsed: Seq<bool>,
    a: int,
    b: int,
)
    requires
        parsed.len() == directive_entries(attrs).len(),
        0 <= a < b < directive_entries(attrs).len(),
        piece_outcome(directive_entries(attrs)[a].1, parsed[a]) is Reject,
        piece_outcome(directive_entries(attrs)[b].1, parsed[b]) is Reject,
    ensures
        exists|p: int, q: int|
            0 <= p < q < field_resolution(field, attrs, parsed).1.len() && field_resolution(
                field,
                attrs,
                parsed,
            ).1[p] == rejection(field, directive_entries(attrs)[a], parsed[a])
                && field_resolution(field, attrs, parsed).1[q] == rejection(
                field,
                directive_entries(attrs)[b],
                parsed[b],
            ),
{
    let es = directive_entries(attrs);
    lemma_rejection_at(field, es, parsed, a);
    lemma_rejection_at(field, es, parsed, b);
    lemma_diagnostics_grow(field, es, parsed, a + 1, b);
    let p = resolve(field, es.take(a), parsed.take(a)).1.len() as int;
    let q = resolve(field, es.take(b), parsed.take(b)).1.len() as int;
    assert(p < q);
    assert(resolve(field, es, parsed).1[p] == rejection(field, es[a], parsed[a]));
    assert(resolve(field, es, parsed).1[q] == rejection(field, es[b], parsed[b]));
    assert(resolve(field, es, parsed) == field_resolution(field, attrs, parsed));
}

} // verus!
