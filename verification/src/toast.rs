//! Short notices shown in a corner, each dismissed by its id.

use vstd::prelude::*;
use crate::lookup::lemma_filter_keeps_all;
use crate::trusted::{is_v4_id, random_id};

verus! {

/// Whether a notice reports a success or an error.
#[derive(Debug, Clone, PartialEq, Eq, Structural)]
pub enum ToastKind {
    Success,
    Error,
}

/// A notice.
#[derive(Debug, Clone, PartialEq)]
pub struct Toast {
    pub id: u128,
    pub message: String,
    pub kind: ToastKind,
}

/// Whether a notice is not the one with id `id`.
pub open spec fn other_than(id: u128) -> spec_fn(Toast) -> bool {
    |t: Toast| t.id != id
}

impl Toast {
    /// A success notice with a fresh id.
    pub fn success(message: String) -> (t: Toast)
        ensures
            is_v4_id(t.id),
            t.message == message,
            t.kind == ToastKind::Success,
    {
        Toast { id: random_id(), message, kind: ToastKind::Success }
    }

    /// An error notice with a fresh id.
    pub fn error(message: String) -> (t: Toast)
        ensures
            is_v4_id(t.id),
            t.message == message,
            t.kind == ToastKind::Error,
    {
        Toast { id: random_id(), message, kind: ToastKind::Error }
    }
}

impl ToastKind {
    /// The icon and the CSS classes a notice of this kind is shown with.
    pub fn style(&self) -> (r: (&'static str, &'static str))
        ensures
            r.0@ == (if *self == ToastKind::Success { "\u{2713}"@ } else { "\u{2717}"@ }),
            r.1@ == (if *self == ToastKind::Success { "toast toast-success"@ } else { "toast toast-error"@ }),
    {
        match self {
            ToastKind::Success => ("\u{2713}", "toast toast-success"),
            ToastKind::Error => ("\u{2717}", "toast toast-error"),
        }
    }
}

/// Shows `toast` after the notices already shown.
pub fn push_toast(toasts: &mut Vec<Toast>, toast: Toast)
    ensures
        final(toasts)@ == old(toasts)@.push(toast),
{
    toasts.push(toast);
}

/// Dismisses the notice with id `id`: every notice with that id goes, the
/// others stay in their order.
pub fn dismiss_toast(toasts: &mut Vec<Toast>, id: u128)
    ensures
        final(toasts)@ == old(toasts)@.filter(other_than(id)),
{
    let ghost orig = toasts@;
    let mut rest = toasts.split_off(0);
    assert(toasts@ =~= orig.take(0).filter(other_than(id))) by {
        reveal_with_fuel(Seq::<_>::filter, 1);
    }
    assert(rest@ =~= orig.skip(0));
    while rest.len() > 0
        invariant
            rest@.len() <= orig.len(),
            rest@ == orig.skip(orig.len() - rest@.len()),
            toasts@ == orig.take(orig.len() - rest@.len()).filter(other_than(id)),
        decreases rest@.len(),
    {
        let ghost k = orig.len() - rest@.len();
        let t = rest.remove(0);
        assert(t == orig[k]);
        assert(orig.take(k + 1).drop_last() =~= orig.take(k));
        assert(orig.take(k + 1).last() == orig[k]);
        reveal_with_fuel(Seq::<_>::filter, 1);
        if t.id != id {
            toasts.push(t);
        }
        assert(rest@ =~= orig.skip(k + 1));
    }
    assert(orig.take(orig.len() as int) =~= orig);
}


/// Law: dismissing leaves no notice with that id, keeps every other notice,
/// and dismissing again changes nothing.
pub proof fn dismissing_removes_only_that_toast(toasts: Seq<Toast>, id: u128)
    ensures
        forall|k: int|
            0 <= k < toasts.filter(other_than(id)).len() ==> (#[trigger] toasts.filter(
                other_than(id),
            )[k]).id != id,
        forall|k: int|
            0 <= k < toasts.len() && toasts[k].id != id ==> toasts.filter(other_than(id)).contains(
                #[trigger] toasts[k],
            ),
        toasts.filter(other_than(id)).filter(other_than(id)) == toasts.filter(other_than(id)),
{
    broadcast use vstd::seq_lib::group_filter_ensures;
    let kept = toasts.filter(other_than(id));
    assert forall|k: int| 0 <= k < kept.len() implies (#[trigger] kept[k]).id != id by {
        assert(other_than(id)(kept[k]));
    }
    assert forall|k: int| 0 <= k < toasts.len() && toasts[k].id != id implies kept.contains(
        #[trigger] toasts[k],
    ) by {
        assert(other_than(id)(toasts[k]));
    }
    lemma_filter_keeps_all(kept, other_than(id));
}

} // verus!
