//! The wrapper record and the collapse from a wrapper to its strict record.
//!
//! A wrapper is modelled as its fields in declaration order, each in the
//! container its mode gives; a strict record as its field values in the same
//! order.
use vstd::prelude::*;
use vstd::string::StringExecFns;

use crate::directive::{FieldMode, ModeSpec};

verus! {

/// What the wrapper's name adds to the strict record's name.
pub const WRAPPER_SUFFIX: &'static str = "PerErrFieldWrapper";

/// The name of the wrapper of the strict record `strict`.
///
/// The same strict name always gives the same wrapper name.
pub fn wrapper_name(strict: &str) -> (r: String)
    ensures
        r@ == strict@ + WRAPPER_SUFFIX@,
{
    strict.to_owned().concat(WRAPPER_SUFFIX)
}

/// One field of a wrapper record.
#[derive(Debug, PartialEq, Eq)]
pub enum Slot<V, E> {
    /// A `Raw` field: the value itself.
    Raw(V),
    /// An `Optional` field: present or absent.
    Optional(Option<V>),
    /// A `Fallible` field: a value or an error.
    Fallible(Result<V, E>),
}

/// Whether a wrapper field passes its acceptance test.
pub open spec fn accepts<V, E>(s: Slot<V, E>) -> bool {
    match s {
        Slot::Raw(_) => true,
        Slot::Optional(o) => o is Some,
        Slot::Fallible(r) => r is Ok,
    }
}

/// The strict value inside an accepted wrapper field.
pub open spec fn value_of<V, E>(s: Slot<V, E>) -> V
    recommends
        accepts(s),
{
    match s {
        Slot::Raw(v) => v,
        Slot::Optional(o) => o->Some_0,
        Slot::Fallible(r) => r->Ok_0,
    }
}

/// Whether every field of a wrapper passes its acceptance test.
pub open spec fn collapses<V, E>(w: Seq<Slot<V, E>>) -> bool {
    forall|i: int| 0 <= i < w.len() ==> accepts(#[trigger] w[i])
}

/// The outcome of collapsing a wrapper: all field values, in order, or the
/// wrapper itself.
pub open spec fn collapse_result<V, E>(w: Seq<Slot<V, E>>) -> Result<Seq<V>, Seq<Slot<V, E>>> {
    if collapses(w) {
        Ok(w.map_values(|s: Slot<V, E>| value_of(s)))
    } else {
        Err(w)
    }
}

/// Tests one wrapper field.
pub fn is_accepted<V, E>(s: &Slot<V, E>) -> (r: bool)
    ensures
        r == accepts(*s),
{
    match s {
        Slot::Raw(_) => true,
        Slot::Optional(o) => o.is_some(),
        Slot::Fallible(r) => r.is_ok(),
    }
}

fn into_value<V, E>(s: Slot<V, E>) -> (r: V)
    requires
        accepts(s),
    ensures
        r == value_of(s),
{
    match s {
        Slot::Raw(v) => v,
        Slot::Optional(o) => o.unwrap(),
        Slot::Fallible(r) => r.ok().unwrap(),
    }
}


/// Collapses a wrapper record into its strict record, all or nothing.
///
/// Succeeds exactly when every `Optional` field is present and every
/// `Fallible` field holds a value; the strict record then holds each field's
/// value in the wrapper's order. Otherwise the wrapper comes back unchanged,
/// each field as it was, so the caller sees which fields were missing or
/// failed.
pub fn collapse<V, E>(wrapper: Vec<Slot<V, E>>) -> (r: Result<Vec<V>, Vec<Slot<V, E>>>)
    ensures
        r is Ok <==> collapses(wrapper@),
        r matches Ok(values) ==> collapse_result(wrapper@) == Ok::<Seq<V>, Seq<Slot<V, E>>>(
            values@,
        ),
        r matches Err(back) ==> back@ == wrapper@ && collapse_result(wrapper@) == Err::<
            Seq<V>,
            Seq<Slot<V, E>>,
        >(back@),
{
    let mut i: usize = 0;
    while i < wrapper.len()
        invariant
            i <= wrapper@.len(),
            forall|k: int| 0 <= k < i ==> accepts(#[trigger] wrapper@[k]),
        decreases wrapper@.len() - i,
    {
        if !is_accepted(&wrapper[i]) {
            return Err(wrapper);
        }
        i = i + 1;
    }
    let ghost all = wrapper@;
    let total = wrapper.len();
    let mut rest = wrapper;
    let mut values: Vec<V> = Vec::new();
    let mut n: usize = 0;
    while rest.len() > 0
        invariant
            n <= all.len(),
            all.len() == total,
            collapses(all),
            rest@ == all.skip(n as int),
            values@ == all.take(n as int).map_values(|s: Slot<V, E>| value_of(s)),
        decreases rest@.len(),
    {
        let s = rest.remove(0);
        assert(all.skip(n as int).remove(0) =~= all.skip(n + 1));
        assert(all[n as int] == s);
        values.push(into_value(s));
        assert(all.take(n + 1).map_values(|s: Slot<V, E>| value_of(s)) =~= all.take(
            n as int,
        ).map_values(|s: Slot<V, E>| value_of(s)).push(value_of(s)));
        n = n + 1;
    }
    assert(all.take(n as int) =~= all);
    Ok(values)
}


/// The mode of a wrapper field, without its error type.
#[derive(Clone, Copy, Debug, PartialEq, Eq, Structural)]
pub enum SlotKind {
    Raw,
    Optional,
    Fallible,
}

/// The kind of wrapper field a field of this mode has.
pub open spec fn kind_of(m: ModeSpec) -> SlotKind {
    match m {
        ModeSpec::Raw => SlotKind::Raw,
        ModeSpec::Optional => SlotKind::Optional,
        ModeSpec::Fallible(_) => SlotKind::Fallible,
    }
}

/// The kind of wrapper field, and so of acceptance test in the collapse,
/// that a field of this mode has.
pub fn slot_kind(mode: &FieldMode) -> (r: SlotKind)
    ensures
        r == kind_of(mode@),
{
    match mode {
        FieldMode::Raw => SlotKind::Raw,
        FieldMode::Optional => SlotKind::Optional,
        FieldMode::Fallible(_) => SlotKind::Fallible,
    }
}

/// A wrapper field of the given mode holding a good value.
pub open spec fn good_slot<V, E>(v: V, k: SlotKind) -> Slot<V, E> {
    match k {
        SlotKind::Raw => Slot::Raw(v),
        SlotKind::Optional => Slot::Optional(Some(v)),
        SlotKind::Fallible => Slot::Fallible(Ok(v)),
    }
}

/// A wrapper whose fields of the given modes all hold good values collapses
/// to the strict record of exactly those values.
pub proof fn law_good_wrapper_collapses<V, E>(values: Seq<V>, kinds: Seq<SlotKind>)
    requires
        values.len() == kinds.len(),
    ensures
        collapse_result(Seq::new(values.len(), |i: int| good_slot::<V, E>(values[i], kinds[i])))
            == Ok::<Seq<V>, Seq<Slot<V, E>>>(values),
{
    let w = Seq::new(values.len(), |i: int| good_slot::<V, E>(values[i], kinds[i]));
    assert(collapses(w));
    assert(w.map_values(|s: Slot<V, E>| value_of(s)) =~= values);
}

/// A wrapper with an absent `Optional` field does not collapse, and comes
/// back as it was, every other field included.
pub proof fn law_absent_field_fails<V, E>(w: Seq<Slot<V, E>>, i: int)
    requires
        0 <= i < w.len(),
        w[i] == Slot::<V, E>::Optional(None),
    ensures
        collapse_result(w) == Err::<Seq<V>, Seq<Slot<V, E>>>(w),
{
    assert(!accepts(w[i]));
}

/// A wrapper with a `Fallible` field in its error state does not collapse,
/// and comes back as it was, every other field included.
pub proof fn law_failed_field_fails<V, E>(w: Seq<Slot<V, E>>, i: int, e: E)
    requires
        0 <= i < w.len(),
        w[i] == Slot::<V, E>::Fallible(Err(e)),
    ensures
        collapse_result(w) == Err::<Seq<V>, Seq<Slot<V, E>>>(w),
{
    assert(!accepts(w[i]));
}

} // verus!
