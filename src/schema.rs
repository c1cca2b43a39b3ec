//! The schema of a strict record: its fields, in order, with their modes.
use vstd::prelude::*;

use crate::directive::{
    directive_entries, field_mode, field_resolution, lemma_rejection_at, piece_outcome, rejection,
    resolve, Attr, Diagnostic, FieldMode,
};

verus! {

/// One field as declared in the strict record.
///
/// `T` carries what the library passes through untouched: the field's
/// declared type and visibility.
pub struct FieldDecl<T> {
    pub name: String,
    pub ty: T,
    pub attrs: Vec<Attr>,
}

/// The shape of a record declaration.
pub enum RecordShape<T> {
    /// Named fields, in declaration order.
    Named(Vec<FieldDecl<T>>),
    /// Any other shape: tuple-like or unit struct, enum, union.
    Unsupported,
}

/// A strict record declaration.
///
/// `H` carries what the library passes through untouched: the record's
/// visibility and generic parameters.
pub struct RecordDecl<H, T> {
    pub name: String,
    pub header: H,
    pub shape: RecordShape<T>,
}

/// One field of the schema.
pub struct FieldSpec<T> {
    pub name: String,
    pub ty: T,
    pub mode: FieldMode,
}

/// The schema of one strict record.
pub struct ContainerSpec<H, T> {
    pub name: String,
    pub header: H,
    pub fields: Vec<FieldSpec<T>>,
}

/// A declaration this library does not derive from.
#[derive(Clone, Copy, Debug, PartialEq, Eq, Structural)]
pub enum SchemaError {
    /// The record has no named fields: it is tuple-like, a unit, an enum or a union.
    UnsupportedShape,
}

/// A schema, with the diagnostics met while building it.
pub struct Derivation<H, T> {
    pub spec: ContainerSpec<H, T>,
    pub diagnostics: Vec<Diagnostic>,
}

/// The diagnostics of the first `outs.len()` fields, field after field,
/// where `outs[i]` gives the outcomes of reading field `i`'s error types.
pub open spec fn diagnostics_upto<T>(fields: Seq<FieldDecl<T>>, outs: Seq<Seq<bool>>) -> Seq<
    Diagnostic,
>
    decreases outs.len(),
{
    if outs.len() == 0 {
        Seq::empty()
    } else {
        diagnostics_upto(fields, outs.drop_last()) + field_resolution(
            (outs.len() - 1) as usize,
            fields[outs.len() - 1].attrs@,
            outs.last(),
        ).1
    }
}

/// `outs` gives, for each field, one outcome per piece of its attributes.
pub open spec fn outcomes_fit<T>(fields: Seq<FieldDecl<T>>, outs: Seq<Seq<bool>>) -> bool {
    &&& outs.len() == fields.len()
    &&& forall|i: int|
        0 <= i < fields.len() ==> (#[trigger] outs[i]).len() == directive_entries(
            fields[i].attrs@,
        ).len()
}

/// Field `i` of the schema is field `i` of the declaration, with the mode
/// its directives give.
pub open spec fn field_matches<T>(
    spec: FieldSpec<T>,
    decl: FieldDecl<T>,
    i: usize,
    parsed: Seq<bool>,
) -> bool {
    &&& spec.name@ == decl.name@
    &&& spec.ty == decl.ty
    &&& spec.mode@ == field_resolution(i, decl.attrs@, parsed).0
}

/// The schema built from these declared fields, for these outcomes of
/// reading their error types.
pub open spec fn schema_of<H, T>(
    decl: RecordDecl<H, T>,
    fields: Seq<FieldDecl<T>>,
    d: Derivation<H, T>,
    outs: Seq<Seq<bool>>,
) -> bool {
    &&& outcomes_fit(fields, outs)
    &&& d.spec.name@ == decl.name@
    &&& d.spec.header == decl.header
    &&& d.spec.fields@.len() == fields.len()
    &&& forall|i: int|
        0 <= i < fields.len() ==> field_matches(
            #[trigger] d.spec.fields@[i],
            fields[i],
            i as usize,
            outs[i],
        )
    &&& d.diagnostics@ == diagnostics_upto(fields, outs)
}

/// The schema built from these declared fields, for some outcomes of
/// reading their error types.
pub open spec fn schema_for_some_outcomes<H, T>(
    decl: RecordDecl<H, T>,
    fields: Seq<FieldDecl<T>>,
    d: Derivation<H, T>,
) -> bool {
    exists|outs: Seq<Seq<bool>>| #[trigger] schema_of(decl, fields, d, outs)
}

/// Builds the schema of a strict record.
///
/// Fails only on a record without named fields. Otherwise each field keeps
/// its place, name, type and visibility, and takes the mode of its
/// directives; every malformed or conflicting directive of every field is
/// reported, not only the first. Modes and diagnostics are those that the
/// outcomes of reading the error types as paths give.
pub fn build_schema<H, T>(decl: RecordDecl<H, T>) -> (r: Result<Derivation<H, T>, SchemaError>)
    ensures
        decl.shape is Unsupported ==> r == Err::<Derivation<H, T>, SchemaError>(
            SchemaError::UnsupportedShape,
        ),
        decl.shape is Named ==> r is Ok && schema_for_some_outcomes(
            decl,
            decl.shape->Named_0@,
            r->Ok_0,
        ),
{
    let RecordDecl { name, header, shape } = decl;
    let mut decls = match shape {
        RecordShape::Named(fields) => fields,
        RecordShape::Unsupported => {
            return Err(SchemaError::UnsupportedShape);
        },
    };
    let ghost all = decls@;
    let total = decls.len();
    let mut fields: Vec<FieldSpec<T>> = Vec::new();
    let mut diagnostics: Vec<Diagnostic> = Vec::new();
    let ghost mut seen: Seq<Seq<bool>> = Seq::empty();
    let mut i: usize = 0;
    while decls.len() > 0
        invariant
            i <= all.len(),
            all.len() == total,
            decls@ == all.skip(i as int),
            fields@.len() == i,
            seen.len() == i,
            forall|k: int|
                0 <= k < i ==> (#[trigger] seen[k]).len() == directive_entries(all[k].attrs@).len(),
            forall|k: int|
                0 <= k < i ==> field_matches(#[trigger] fields@[k], all[k], k as usize, seen[k]),
            diagnostics@ == diagnostics_upto(all, seen),
        decreases decls@.len(),
    {
        let d = decls.remove(0);
        assert(all.skip(i as int).remove(0) =~= all.skip(i + 1));
        let FieldDecl { name: field_name, ty, attrs } = d;
        let (mode, mut found) = field_mode(i, &attrs);
        let ghost ps = choose|ps: Seq<bool>|
            ps.len() == directive_entries(attrs@).len() && (mode@, found@)
                == #[trigger] field_resolution(i, attrs@, ps);
        diagnostics.append(&mut found);
        fields.push(FieldSpec { name: field_name, ty, mode });
        proof {
            assert(seen.push(ps).drop_last() =~= seen);
            seen = seen.push(ps);
        }
        i = i + 1;
    }
    let out = Derivation { spec: ContainerSpec { name, header, fields }, diagnostics };
    assert(schema_of(decl, all, out, seen));
    assert(schema_for_some_outcomes(decl, all, out));
    Ok(out)
}

proof fn lemma_upto_grows<T>(fields: Seq<FieldDecl<T>>, outs: Seq<Seq<bool>>, n: int, m: int)
    requires
        0 <= n <= m <= outs.len(),
    ensures
        diagnostics_upto(fields, outs.take(n)).len() <= diagnostics_upto(fields, outs.take(m)).len(),
        diagnostics_upto(fields, outs.take(m)).take(
            diagnostics_upto(fields, outs.take(n)).len() as int,
        ) =~= diagnostics_upto(fields, outs.take(n)),
    decreases m - n,
{
    if n < m {
        lemma_upto_grows(fields, outs, n, m - 1);
        assert(outs.take(m).drop_last() =~= outs.take(m - 1));
    }
}

/// Malformed directives on two different fields are both reported, each by
/// its own diagnostic, in field order, whatever reading the error types
/// gave.
pub proof fn law_rejections_of_fields_reported<T>(
    fields: Seq<FieldDecl<T>>,
    outs: Seq<Seq<bool>>,
    f: int,
    a: int,
    g: int,
    b: int,
)
    requires
        outcomes_fit(fields, outs),
        0 <= f < g < fields.len(),
        fields.len() <= usize::MAX,
        0 <= a < directive_entries(fields[f].attrs@).len(),
        0 <= b < directive_entries(fields[g].attrs@).len(),
        piece_outcome(directive_entries(fields[f].attrs@)[a].1, outs[f][a]) is Reject,
        piece_outcome(directive_entries(fields[g].attrs@)[b].1, outs[g][b]) is Reject,
    ensures
        exists|p: int, q: int|
            0 <= p < q < diagnostics_upto(fields, outs).len() && diagnostics_upto(fields, outs)[p]
                == rejection(f as usize, directive_entries(fields[f].attrs@)[a], outs[f][a])
                && diagnostics_upto(fields, outs)[q] == rejection(
                g as usize,
                directive_entries(fields[g].attrs@)[b],
                outs[g][b],
            ),
{
    let ef = directive_entries(fields[f].attrs@);
    let eg = directive_entries(fields[g].attrs@);
    assert(outs[f].len() == ef.len());
    assert(outs[g].len() == eg.len());
    lemma_rejection_at(f as usize, ef, outs[f], a);
    lemma_rejection_at(g as usize, eg, outs[g], b);
    let len = fields.len() as int;
    assert(outs.take(len) =~= outs);
    assert(outs.take(f + 1).drop_last() =~= outs.take(f));
    assert(outs.take(g + 1).drop_last() =~= outs.take(g));
    lemma_upto_grows(fields, outs, f + 1, g);
    lemma_upto_grows(fields, outs, f + 1, len);
    lemma_upto_grows(fields, outs, g + 1, len);
    let full = diagnostics_upto(fields, outs);
    let p = (diagnostics_upto(fields, outs.take(f)).len() + resolve(
        f as usize,
        ef.take(a),
        outs[f].take(a),
    ).1.len()) as int;
    let q = (diagnostics_upto(fields, outs.take(g)).len() + resolve(
        g as usize,
        eg.take(b),
        outs[g].take(b),
    ).1.len()) as int;
    let uf = diagnostics_upto(fields, outs.take(f + 1));
    let ug = diagnostics_upto(fields, outs.take(g + 1));
    assert(uf[p] == rejection(f as usize, ef[a], outs[f][a]));
    assert(ug[q] == rejection(g as usize, eg[b], outs[g][b]));
    assert(full.take(uf.len() as int)[p] == full[p]);
    assert(full.take(ug.len() as int)[q] == full[q]);
    assert(p < q);
}

} // verus!
