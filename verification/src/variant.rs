//! The tagged value that every stack slot, queue entry and variable holds.

use vstd::prelude::*;
use crate::num::{num_eq, FyfthNum};

verus! {

/// A value of the language, or a control word of the engine.
///
/// The first ten variants are values: the engine pushes them onto the stack
/// when it reads them from the queue. The others are control words, which the
/// engine consumes.
#[derive(Debug)]
pub enum FyfthVariant {
    Nil,
    Bool(bool),
    Num(FyfthNum),
    Literal(String),
    Iter(Vec<FyfthVariant>),
    /// A host object, by the bits of its handle.
    Entity(u64),
    Vec2(FyfthNum, FyfthNum),
    Vec3(FyfthNum, FyfthNum, FyfthNum),
    Quat(FyfthNum, FyfthNum, FyfthNum, FyfthNum),
    /// A bag of fields that the host keeps, by the key under which the host
    /// keeps it. The host hands out one key per distinct bag.
    Component(u64),
    FnIter,
    Macro,
    LineEnd,
    FnQueue,
    FnPush,
    FnDup,
    FnSwap,
    FnSwapN,
    FnRotRN,
    FnRotLN,
    /// The command registered under this index.
    LangFunc(u32),
}

/// What a [`FyfthVariant`] holds, with texts and sequences as mathematical
/// sequences.
pub enum FyfthValue {
    Nil,
    Bool(bool),
    Num(FyfthNum),
    Literal(Seq<char>),
    Iter(Seq<FyfthValue>),
    Entity(u64),
    Vec2(FyfthNum, FyfthNum),
    Vec3(FyfthNum, FyfthNum, FyfthNum),
    Quat(FyfthNum, FyfthNum, FyfthNum, FyfthNum),
    Component(u64),
    FnIter,
    Macro,
    LineEnd,
    FnQueue,
    FnPush,
    FnDup,
    FnSwap,
    FnSwapN,
    FnRotRN,
    FnRotLN,
    LangFunc(u32),
}

/// What a variant holds.
pub open spec fn value_of(variant: FyfthVariant) -> FyfthValue
    decreases variant,
{
    match variant {
        FyfthVariant::Nil => FyfthValue::Nil,
        FyfthVariant::Bool(b) => FyfthValue::Bool(b),
        FyfthVariant::Num(n) => FyfthValue::Num(n),
        FyfthVariant::Literal(text) => FyfthValue::Literal(text@),
        FyfthVariant::Iter(items) => FyfthValue::Iter(
            Seq::new(
                items@.len(),
                |i: int|
                    if 0 <= i < items@.len() {
                        value_of(items@[i])
                    } else {
                        FyfthValue::Nil
                    },
            ),
        ),
        FyfthVariant::Entity(e) => FyfthValue::Entity(e),
        FyfthVariant::Vec2(x, y) => FyfthValue::Vec2(x, y),
        FyfthVariant::Vec3(x, y, z) => FyfthValue::Vec3(x, y, z),
        FyfthVariant::Quat(x, y, z, w) => FyfthValue::Quat(x, y, z, w),
        FyfthVariant::Component(c) => FyfthValue::Component(c),
        FyfthVariant::FnIter => FyfthValue::FnIter,
        FyfthVariant::Macro => FyfthValue::Macro,
        FyfthVariant::LineEnd => FyfthValue::LineEnd,
        FyfthVariant::FnQueue => FyfthValue::FnQueue,
        FyfthVariant::FnPush => FyfthValue::FnPush,
        FyfthVariant::FnDup => FyfthValue::FnDup,
        FyfthVariant::FnSwap => FyfthValue::FnSwap,
        FyfthVariant::FnSwapN => FyfthValue::FnSwapN,
        FyfthVariant::FnRotRN => FyfthValue::FnRotRN,
        FyfthVariant::FnRotLN => FyfthValue::FnRotLN,
        FyfthVariant::LangFunc(index) => FyfthValue::LangFunc(index),
    }
}

impl View for FyfthVariant {
    type V = FyfthValue;

    open spec fn view(&self) -> FyfthValue {
        value_of(*self)
    }
}

/// The values that a sequence of variants holds.
pub open spec fn views(items: Seq<FyfthVariant>) -> Seq<FyfthValue> {
    Seq::new(items.len(), |i: int| items[i]@)
}

/// The view of an `Iter` is the `Iter` of its items' views.
pub proof fn lemma_iter_view(items: Vec<FyfthVariant>)
    ensures
        FyfthVariant::Iter(items)@ == FyfthValue::Iter(views(items@)),
{
    assert(value_of(FyfthVariant::Iter(items))->Iter_0 =~= views(items@));
}

/// The variants that the engine pushes onto the stack when it reads them from
/// the queue.
pub open spec fn is_value(value: FyfthValue) -> bool {
    match value {
        FyfthValue::Nil
        | FyfthValue::Bool(_)
        | FyfthValue::Num(_)
        | FyfthValue::Literal(_)
        | FyfthValue::Iter(_)
        | FyfthValue::Entity(_)
        | FyfthValue::Vec2(_, _)
        | FyfthValue::Vec3(_, _, _)
        | FyfthValue::Quat(_, _, _, _)
        | FyfthValue::Component(_) => true,
        _ => false,
    }
}

/// Equality of the language: numbers compare by value (a NaN differs from
/// everything, the two zeros are equal), sequences item by item, everything
/// else by what it holds.
pub open spec fn values_equal(left: FyfthValue, right: FyfthValue) -> bool
    decreases left,
{
    match (left, right) {
        (FyfthValue::Num(a), FyfthValue::Num(b)) => num_eq(a.bits, b.bits),
        (FyfthValue::Vec2(ax, ay), FyfthValue::Vec2(bx, by)) => num_eq(ax.bits, bx.bits) && num_eq(
            ay.bits,
            by.bits,
        ),
        (FyfthValue::Vec3(ax, ay, az), FyfthValue::Vec3(bx, by, bz)) => num_eq(ax.bits, bx.bits)
            && num_eq(ay.bits, by.bits) && num_eq(az.bits, bz.bits),
        (FyfthValue::Quat(ax, ay, az, aw), FyfthValue::Quat(bx, by, bz, bw)) => num_eq(
            ax.bits,
            bx.bits,
        ) && num_eq(ay.bits, by.bits) && num_eq(az.bits, bz.bits) && num_eq(aw.bits, bw.bits),
        (FyfthValue::Iter(a), FyfthValue::Iter(b)) => a.len() == b.len() && forall|i: int|
            0 <= i < a.len() ==> values_equal(#[trigger] a[i], b[i]),
        (FyfthValue::Num(_), _)
        | (FyfthValue::Vec2(_, _), _)
        | (FyfthValue::Vec3(_, _, _), _)
        | (FyfthValue::Quat(_, _, _, _), _)
        | (FyfthValue::Iter(_), _) => false,
        _ => left == right,
    }
}

impl Clone for FyfthVariant {
    /// A deep copy: it holds what `self` holds.
    fn clone(&self) -> (copy: FyfthVariant)
        ensures
            copy@ == self@,
        decreases self,
    {
        match self {
            FyfthVariant::Nil => FyfthVariant::Nil,
            FyfthVariant::Bool(b) => FyfthVariant::Bool(*b),
            FyfthVariant::Num(n) => FyfthVariant::Num(*n),
            FyfthVariant::Literal(text) => FyfthVariant::Literal(text.clone()),
            FyfthVariant::Iter(items) => {
                let mut copies: Vec<FyfthVariant> = Vec::new();
                let mut at: usize = 0;
                while at < items.len()
                    invariant
                        at <= items.len(),
                        copies.len() == at,
                        decreases_to!(self => items),
                        forall|j: int| 0 <= j < at ==> copies@[j]@ == items@[j]@,
                    decreases items.len() - at,
                {
                    proof {
                        vstd::std_specs::vec::axiom_vec_index_decreases(*items, at as int);
                    }
                    copies.push(items[at].clone());
                    at += 1;
                }
                proof {
                    lemma_iter_view(copies);
                    lemma_iter_view(*items);
                    assert(views(copies@) =~= views(items@));
                }
                FyfthVariant::Iter(copies)
            },
            FyfthVariant::Entity(e) => FyfthVariant::Entity(*e),
            FyfthVariant::Vec2(x, y) => FyfthVariant::Vec2(*x, *y),
            FyfthVariant::Vec3(x, y, z) => FyfthVariant::Vec3(*x, *y, *z),
            FyfthVariant::Quat(x, y, z, w) => FyfthVariant::Quat(*x, *y, *z, *w),
            FyfthVariant::Component(c) => FyfthVariant::Component(*c),
            FyfthVariant::FnIter => FyfthVariant::FnIter,
            FyfthVariant::Macro => FyfthVariant::Macro,
            FyfthVariant::LineEnd => FyfthVariant::LineEnd,
            FyfthVariant::FnQueue => FyfthVariant::FnQueue,
            FyfthVariant::FnPush => FyfthVariant::FnPush,
            FyfthVariant::FnDup => FyfthVariant::FnDup,
            FyfthVariant::FnSwap => FyfthVariant::FnSwap,
            FyfthVariant::FnSwapN => FyfthVariant::FnSwapN,
            FyfthVariant::FnRotRN => FyfthVariant::FnRotRN,
            FyfthVariant::FnRotLN => FyfthVariant::FnRotLN,
            FyfthVariant::LangFunc(index) => FyfthVariant::LangFunc(*index),
        }
    }
}

/// Deep copies of `items[from..to]`, in order.
pub fn copy_range(items: &Vec<FyfthVariant>, from: usize, to: usize) -> (copies: Vec<FyfthVariant>)
    requires
        from <= to <= items.len(),
    ensures
        views(copies@) == views(items@).subrange(from as int, to as int),
{
    let mut copies: Vec<FyfthVariant> = Vec::new();
    let mut at: usize = from;
    while at < to
        invariant
            from <= at <= to <= items.len(),
            copies.len() == at - from,
            forall|j: int| 0 <= j < at - from ==> copies@[j]@ == items@[from + j]@,
        decreases to - at,
    {
        copies.push(items[at].clone());
        at += 1;
    }
    assert(views(copies@) =~= views(items@).subrange(from as int, to as int));
    copies
}

impl FyfthVariant {
    /// Whether the engine pushes this variant onto the stack when it reads it
    /// from the queue.
    pub fn is_value_variant(&self) -> (value: bool)
        ensures
            value == is_value(self@),
    {
        match self {
            FyfthVariant::Nil
            | FyfthVariant::Bool(_)
            | FyfthVariant::Num(_)
            | FyfthVariant::Literal(_)
            | FyfthVariant::Iter(_)
            | FyfthVariant::Entity(_)
            | FyfthVariant::Vec2(_, _)
            | FyfthVariant::Vec3(_, _, _)
            | FyfthVariant::Quat(_, _, _, _)
            | FyfthVariant::Component(_) => true,
            _ => false,
        }
    }

    /// Equality of the language.
    pub fn same_value(&self, other: &FyfthVariant) -> (same: bool)
        ensures
            same == values_equal(self@, other@),
        decreases self,
    {
        match (self, other) {
            (FyfthVariant::Nil, FyfthVariant::Nil) => true,
            (FyfthVariant::Bool(a), FyfthVariant::Bool(b)) => *a == *b,
            (FyfthVariant::Num(a), FyfthVariant::Num(b)) => a.same_value(b),
            (FyfthVariant::Literal(a), FyfthVariant::Literal(b)) => *a == *b,
            (FyfthVariant::Iter(a), FyfthVariant::Iter(b)) => {
                proof {
                    lemma_iter_view(*a);
                    lemma_iter_view(*b);
                }
                if a.len() != b.len() {
                    return false;
                }
                let mut at: usize = 0;
                while at < a.len()
                    invariant
                        at <= a.len(),
                        a.len() == b.len(),
                        decreases_to!(self => a),
                        self@ == FyfthValue::Iter(views(a@)),
                        other@ == FyfthValue::Iter(views(b@)),
                        forall|j: int| 0 <= j < at ==> values_equal(a@[j]@, b@[j]@),
                    decreases a.len() - at,
                {
                    proof {
                        vstd::std_specs::vec::axiom_vec_index_decreases(*a, at as int);
                    }
                    if !a[at].same_value(&b[at]) {
                        assert(!values_equal(views(a@)[at as int], views(b@)[at as int]));
                        return false;
                    }
                    at += 1;
                }
                assert forall|i: int| 0 <= i < views(a@).len() implies values_equal(
                    #[trigger] views(a@)[i],
                    views(b@)[i],
                ) by {}
                true
            },
            (FyfthVariant::Entity(a), FyfthVariant::Entity(b)) => *a == *b,
            (FyfthVariant::Vec2(ax, ay), FyfthVariant::Vec2(bx, by)) => ax.same_value(bx)
                && ay.same_value(by),
            (FyfthVariant::Vec3(ax, ay, az), FyfthVariant::Vec3(bx, by, bz)) => ax.same_value(bx)
                && ay.same_value(by) && az.same_value(bz),
            (FyfthVariant::Quat(ax, ay, az, aw), FyfthVariant::Quat(bx, by, bz, bw)) => {
                ax.same_value(bx) && ay.same_value(by) && az.same_value(bz) && aw.same_value(bw)
            },
            (FyfthVariant::Component(a), FyfthVariant::Component(b)) => *a == *b,
            (FyfthVariant::FnIter, FyfthVariant::FnIter) => true,
            (FyfthVariant::Macro, FyfthVariant::Macro) => true,
            (FyfthVariant::LineEnd, FyfthVariant::LineEnd) => true,
            (FyfthVariant::FnQueue, FyfthVariant::FnQueue) => true,
            (FyfthVariant::FnPush, FyfthVariant::FnPush) => true,
            (FyfthVariant::FnDup, FyfthVariant::FnDup) => true,
            (FyfthVariant::FnSwap, FyfthVariant::FnSwap) => true,
            (FyfthVariant::FnSwapN, FyfthVariant::FnSwapN) => true,
            (FyfthVariant::FnRotRN, FyfthVariant::FnRotRN) => true,
            (FyfthVariant::FnRotLN, FyfthVariant::FnRotLN) => true,
            (FyfthVariant::LangFunc(a), FyfthVariant::LangFunc(b)) => *a == *b,
            _ => false,
        }
    }
}

} // verus!

