use crate::geometry::Point;
use crate::shapes::ShapeRecord;
use sorted_vec::SortedVec;
use vstd::prelude::*;

verus! {

/// sorted_vec's `SortedVec`, a `Vec` kept in ascending order; opaque here.
#[verifier::external_type_specification]
#[verifier::external_body]
#[verifier::reject_recursive_types(T)]
pub struct ExSortedVec<T: Ord>(SortedVec<T>);

/// The entries of a sorted vector of `(layer, id)` pairs, in storage order.
pub uninterp spec fn stack_entries(v: SortedVec<(u8, u64)>) -> Seq<(u8, u64)>;

/// Relies on `SortedVec::new`: a vector with no entries.
#[verifier::external_body]
fn stack_new() -> (r: SortedVec<(u8, u64)>)
    ensures
        stack_entries(r) == Seq::<(u8, u64)>::empty(),
{
    SortedVec::new()
}

/// Relies on `SortedVec::insert`: the element goes in at the index that
/// `slice::binary_search` reports over the stored entries (a match or the
/// insertion point), and that index is returned. On entries in ascending
/// order that position keeps them in ascending order.
#[verifier::external_body]
fn stack_insert(v: &mut SortedVec<(u8, u64)>, e: (u8, u64)) -> (i: usize)
    ensures
        i <= stack_entries(*old(v)).len(),
        stack_entries(*final(v)) == stack_entries(*old(v)).insert(i as int, e),
        ascending(stack_entries(*old(v))) ==> ascending(stack_entries(*final(v))),
{
    v.insert(e)
}

/// Relies on `SortedVec`'s `Deref` to its `Vec` and `Vec::len`.
#[verifier::external_body]
fn stack_len(v: &SortedVec<(u8, u64)>) -> (n: usize)
    ensures
        n == stack_entries(*v).len(),
{
    v.len()
}

/// Relies on `SortedVec`'s `Deref` to its `Vec` and indexing into it.
#[verifier::external_body]
fn stack_at(v: &SortedVec<(u8, u64)>, i: usize) -> (e: (u8, u64))
    requires
        i < stack_entries(*v).len(),
    ensures
        e == stack_entries(*v)[i as int],
{
    v[i]
}

/// The order of `(layer, id)` tuples: by layer, then by id.
pub open spec fn entry_le(a: (u8, u64), b: (u8, u64)) -> bool {
    a.0 < b.0 || (a.0 == b.0 && a.1 <= b.1)
}

pub open spec fn ascending(s: Seq<(u8, u64)>) -> bool {
    forall|i: int, j: int| 0 <= i < j < s.len() ==> entry_le(#[trigger] s[i], #[trigger] s[j])
}

/// The `(layer, id)` pairs of the shapes that the point `p` picks, in registry
/// order.
pub open spec fn hits(shapes: Seq<ShapeRecord>, p: Point) -> Seq<(u8, u64)>
    decreases shapes.len(),
{
    if shapes.len() == 0 {
        Seq::empty()
    } else {
        let rest = hits(shapes.drop_last(), p);
        let s = shapes.last();
        if s.hit(p) {
            rest.push((s.layer, s.id))
        } else {
            rest
        }
    }
}

/// The index into the descending stack that a cycle offset selects.
pub open spec fn cycle_index(offset: int, n: int) -> int {
    offset % n
}

/// The shape that a stack with entries `s` (ascending) and cycle offset
/// `offset` puts under the cursor.
pub open spec fn hover_of(s: Seq<(u8, u64)>, offset: int) -> Option<u64> {
    if s.len() == 0 {
        None
    } else {
        Some(s[s.len() - 1 - cycle_index(offset, s.len() as int)].1)
    }
}

/// One entry of the z-order stack. Entries compare by layer alone: two
/// entries on one layer are equal for ordering purposes.
#[derive(Clone, Copy, Debug)]
pub struct Shape {
    pub layer: u8,
    pub id: u64,
}

impl Default for Shape {
    fn default() -> (r: Shape)
        ensures
            r.layer == 0,
            r.id == 0,
    {
        Shape { layer: 0, id: 0 }
    }
}

impl PartialEq for Shape {
    fn eq(&self, other: &Shape) -> (r: bool) {
        self.layer == other.layer
    }
}

impl vstd::std_specs::cmp::PartialEqSpecImpl for Shape {
    open spec fn obeys_eq_spec() -> bool {
        true
    }

    open spec fn eq_spec(&self, other: &Shape) -> bool {
        self.layer == other.layer
    }
}

impl PartialOrd for Shape {
    fn partial_cmp(&self, other: &Shape) -> (r: Option<core::cmp::Ordering>) {
        if self.layer < other.layer {
            Some(core::cmp::Ordering::Less)
        } else if self.layer == other.layer {
            Some(core::cmp::Ordering::Equal)
        } else {
            Some(core::cmp::Ordering::Greater)
        }
    }
}

impl vstd::std_specs::cmp::PartialOrdSpecImpl for Shape {
    open spec fn obeys_partial_cmp_spec() -> bool {
        true
    }

    open spec fn partial_cmp_spec(&self, other: &Shape) -> Option<core::cmp::Ordering> {
        if self.layer < other.layer {
            Some(core::cmp::Ordering::Less)
        } else if self.layer == other.layer {
            Some(core::cmp::Ordering::Equal)
        } else {
            Some(core::cmp::Ordering::Greater)
        }
    }
}

/// The shapes under the cursor, in z-order, and the user's cycle offset into
/// them. Entries are kept ascending by layer (then id); the topmost layer is
/// the last entry. Two shapes on one layer are told apart by id, so the choice
/// among them is stable.
pub struct ShapeStack {
    pub offset: isize,
    pub stack: SortedVec<(u8, u64)>,
}

impl ShapeStack {
    pub open spec fn entries(&self) -> Seq<(u8, u64)> {
        stack_entries(self.stack)
    }

    pub open spec fn wf(&self) -> bool {
        ascending(self.entries())
    }

    /// The shape that the stack currently puts under the cursor.
    pub open spec fn hover_spec(&self) -> Option<u64> {
        hover_of(self.entries(), self.offset as int)
    }

    pub fn new() -> (r: ShapeStack)
        ensures
            r.wf(),
            r.offset == 0,
            r.entries().len() == 0,
    {
        ShapeStack { offset: 0, stack: stack_new() }
    }

    pub fn len(&self) -> (n: usize)
        ensures
            n == self.entries().len(),
    {
        stack_len(&self.stack)
    }

    /// Adds one entry, keeping the entries in ascending order.
    pub fn insert(&mut self, shape: Shape)
        requires
            old(self).wf(),
        ensures
            final(self).wf(),
            final(self).offset == old(self).offset,
            final(self).entries().to_multiset() == old(self).entries().to_multiset().insert(
                (shape.layer, shape.id),
            ),
    {
        let i = stack_insert(&mut self.stack, (shape.layer, shape.id));
        proof {
            vstd::seq_lib::to_multiset_insert(old(self).entries(), i as int, (shape.layer, shape.id));
        }
    }
}

/// The offset `offset` reduced into `0..n`, the Euclidean remainder.
fn reduce_offset(offset: isize, n: usize) -> (idx: usize)
    requires
        n > 0,
    ensures
        idx == cycle_index(offset as int, n as int),
        idx < n,
{
    if offset >= 0 {
        let idx = (offset as usize) % n;
        idx
    } else {
        let a: u128 = ((-(offset as i128)) as u128) % (n as u128);
        let idx: usize = if a == 0 { 0 } else { n - a as usize };
        proof {
            let x = offset as int;
            let d = n as int;
            let q = (-x) / d;
            vstd::arithmetic::div_mod::lemma_fundamental_div_mod(-x, d);
            assert(-x == d * q + a as int);
            if a == 0 {
                assert(x == (-q) * d + 0) by (nonlinear_arith)
                    requires -x == d * q + 0;
                vstd::arithmetic::div_mod::lemma_fundamental_div_mod_converse(x, d, -q, 0);
            } else {
                assert(x == (-q - 1) * d + (d - a as int)) by (nonlinear_arith)
                    requires -x == d * q + a as int;
                vstd::arithmetic::div_mod::lemma_fundamental_div_mod_converse(x, d, -q - 1, d - a as int);
            }
        }
        idx
    }
}

/// Cycling the offset by the stack's size leaves the hovered shape as it
/// was: hover selection is periodic in the offset with period `n`.
pub proof fn lemma_cycle_periodic(s: Seq<(u8, u64)>, offset: int)
    ensures
        hover_of(s, offset + s.len()) == hover_of(s, offset),
{
    if s.len() > 0 {
        let n = s.len() as int;
        vstd::arithmetic::div_mod::lemma_mod_add_multiples_vanish(offset, n);
    }
}

/// `hits` lists exactly the `(layer, id)` pairs of the shapes that `p` picks.
pub proof fn lemma_hits_members(shapes: Seq<ShapeRecord>, p: Point, e: (u8, u64))
    ensures
        hits(shapes, p).contains(e) <==> exists|i: int|
            0 <= i < shapes.len() && #[trigger] shapes[i].hit(p) && (shapes[i].layer, shapes[i].id) == e,
    decreases shapes.len(),
{
    if shapes.len() > 0 {
        let rest = shapes.drop_last();
        lemma_hits_members(rest, p, e);
        if hits(shapes, p).contains(e) {
            if hits(rest, p).contains(e) {
                let i = choose|i: int| 0 <= i < rest.len() && #[trigger] rest[i].hit(p) && (rest[i].layer, rest[i].id) == e;
                assert(shapes[i] == rest[i]);
            } else {
                let k = hits(shapes, p).len() - 1;
                assert(hits(shapes, p)[k] == e);
                assert(shapes[shapes.len() - 1].hit(p));
            }
        } else {
            assert forall|i: int| 0 <= i < shapes.len() && #[trigger] shapes[i].hit(p) implies (shapes[i].layer, shapes[i].id) != e by {
                if (shapes[i].layer, shapes[i].id) == e {
                    if i < shapes.len() - 1 {
                        assert(shapes[i] == rest[i]);
                        assert(hits(rest, p).contains(e));
                        let k = choose|k: int| 0 <= k < hits(rest, p).len() && hits(rest, p)[k] == e;
                        assert(hits(shapes, p)[k] == e);
                    } else {
                        let last = hits(shapes, p).len() - 1;
                        assert(hits(shapes, p)[last] == e);
                    }
                }
            }
        }
    }
}

/// At offset 0 the hovered shape is one that the point picks and whose layer
/// is the highest among all shapes that the point picks (among several on
/// that layer, the one with the highest id); with no such shape nothing is
/// hovered.
pub proof fn lemma_top_hover_is_highest(stack: ShapeStack, shapes: Seq<ShapeRecord>, p: Point)
    requires
        stack.wf(),
        stack.offset == 0,
        stack.entries().to_multiset() == hits(shapes, p).to_multiset(),
    ensures
        stack.hover_spec() is None <==> forall|i: int| 0 <= i < shapes.len() ==> !#[trigger] shapes[i].hit(p),
        stack.hover_spec() is Some ==> exists|i: int|
            0 <= i < shapes.len() && #[trigger] shapes[i].hit(p) && shapes[i].id == stack.hover_spec().unwrap()
                && forall|j: int| 0 <= j < shapes.len() && #[trigger] shapes[j].hit(p) ==> shapes[j].layer
                    < shapes[i].layer || (shapes[j].layer == shapes[i].layer && shapes[j].id <= shapes[i].id),
{
    broadcast use vstd::seq_lib::to_multiset_contains;
    let s = stack.entries();
    let h = hits(shapes, p);
    assert forall|e: (u8, u64)| s.contains(e) <==> h.contains(e) by {
        assert(s.to_multiset().count(e) == h.to_multiset().count(e));
        lemma_hits_members(shapes, p, e);
    }
    if s.len() == 0 {
        assert forall|i: int| 0 <= i < shapes.len() implies !#[trigger] shapes[i].hit(p) by {
            let e = (shapes[i].layer, shapes[i].id);
            lemma_hits_members(shapes, p, e);
            if shapes[i].hit(p) {
                assert(h.contains(e));
            }
        }
    } else {
        let n = s.len() as int;
        assert(cycle_index(0, n) == 0) by {
            vstd::arithmetic::div_mod::lemma_small_mod(0, n as nat);
        }
        let top = s[n - 1];
        assert(s.contains(top));
        lemma_hits_members(shapes, p, top);
        let i = choose|i: int| 0 <= i < shapes.len() && #[trigger] shapes[i].hit(p) && (shapes[i].layer, shapes[i].id) == top;
        assert forall|j: int| 0 <= j < shapes.len() && #[trigger] shapes[j].hit(p) implies shapes[j].layer
            < shapes[i].layer || (shapes[j].layer == shapes[i].layer && shapes[j].id <= shapes[i].id) by {
            let e = (shapes[j].layer, shapes[j].id);
            lemma_hits_members(shapes, p, e);
            assert(h.contains(e));
            let k = choose|k: int| 0 <= k < s.len() && s[k] == e;
            if k < n - 1 {
                assert(entry_le(s[k], s[n - 1]));
            }
        }
        lemma_hits_members(shapes, p, top);
        assert(!(forall|i: int| 0 <= i < shapes.len() ==> !#[trigger] shapes[i].hit(p)));
    }
}

impl ShapeStack {
    /// The shape under the cursor: with `n` entries, the entry at index
    /// `offset mod n` of the entries taken from the topmost layer down.
    pub fn hovered(&self) -> (r: Option<u64>)
        ensures
            r == self.hover_spec(),
    {
        let n = self.len();
        if n == 0 {
            None
        } else {
            let idx = reduce_offset(self.offset, n);
            let e = stack_at(&self.stack, n - 1 - idx);
            Some(e.1)
        }
    }

    /// Clears the stack and fills it from scratch with every shape that the
    /// cursor point picks. The cycle offset is kept.
    pub fn rebuild(&mut self, shapes: &Vec<ShapeRecord>, cursor: Point)
        ensures
            final(self).wf(),
            final(self).offset == old(self).offset,
            final(self).entries().to_multiset() == hits(shapes@, cursor).to_multiset(),
    {
        self.stack = stack_new();
        proof {
            assert(self.entries().to_multiset() =~= Seq::<(u8, u64)>::empty().to_multiset()) by {
                broadcast use vstd::seq_lib::to_multiset_len;
                vstd::multiset::lemma_multiset_empty_len(self.entries().to_multiset());
            }
            assert(shapes@.take(0) =~= Seq::<ShapeRecord>::empty());
        }
        let mut i: usize = 0;
        while i < shapes.len()
            invariant
                i <= shapes@.len(),
                self.wf(),
                self.offset == old(self).offset,
                self.entries().to_multiset() == hits(shapes@.take(i as int), cursor).to_multiset(),
            decreases shapes@.len() - i,
        {
            let s = &shapes[i];
            let hit = s.is_hit(cursor);
            proof {
                assert(shapes@.take(i + 1).drop_last() =~= shapes@.take(i as int));
                assert(shapes@.take(i + 1).last() == shapes@[i as int]);
            }
            if hit {
                self.insert(Shape { layer: s.layer, id: s.id });
                proof {
                    vstd::seq_lib::to_multiset_build(hits(shapes@.take(i as int), cursor), (s.layer, s.id));
                }
            }
            i = i + 1;
        }
        proof {
            assert(shapes@.take(shapes@.len() as int) =~= shapes@);
        }
    }
}

/// Rebuilds the stack at the cursor when the cursor moved while the primary
/// button is up and no marquee is active; otherwise leaves it as it is.
pub fn cursor_hover_detect_system(
    stack: &mut ShapeStack,
    shapes: &Vec<ShapeRecord>,
    cursor: Point,
    cursor_changed: bool,
    button_held: bool,
    marquee_active: bool,
)
    requires
        old(stack).wf(),
    ensures
        final(stack).wf(),
        final(stack).offset == old(stack).offset,
        cursor_changed && !button_held && !marquee_active ==> final(stack).entries().to_multiset()
            == hits(shapes@, cursor).to_multiset(),
        !(cursor_changed && !button_held && !marquee_active) ==> final(stack).entries() == old(
            stack,
        ).entries(),
{
    if cursor_changed && !button_held && !marquee_active {
        stack.rebuild(shapes, cursor);
    }
}

/// Steps the cycle offset: one up for the forward key, else one down for the
/// backward key.
pub fn cycle_shape_stack_hover_system(stack: &mut ShapeStack, forward: bool, backward: bool)
    requires
        forward ==> old(stack).offset < isize::MAX,
        !forward && backward ==> old(stack).offset > isize::MIN,
    ensures
        final(stack).entries() == old(stack).entries(),
        final(stack).offset == if forward {
            old(stack).offset + 1
        } else if backward {
            old(stack).offset - 1
        } else {
            old(stack).offset as int
        },
{
    if forward {
        stack.offset = stack.offset + 1;
    } else if backward {
        stack.offset = stack.offset - 1;
    }
}

} // verus!
