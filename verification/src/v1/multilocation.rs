//! Relative locations: a number of steps up to ancestors, then a path down
//! through interior junctions.

use crate::rel::{compare_u32, compare_usize, int_rel, order_laws, Rel};
use crate::seqs::{lemma_views_add, lemma_views_push, lemma_views_subrange, views};
use crate::v0::junction::{lemma_junction_order, JunctionView};
use crate::v0::multi_location::{
    lemma_leading_parents_is, location_of_path, MultiLocation as MultiLocation0,
    MAX_MULTILOCATION_LENGTH,
};
use crate::v1::junction::Junction;
use vstd::prelude::*;

verus! {

/// A relative path between state-bearing consensus systems: go up `parents`
/// levels from the current context, then descend through `interior`.
#[derive(Debug)]
pub struct MultiLocation {
    /// The number of parent junctions at the beginning of this location.
    pub parents: u8,
    /// The interior (i.e. non-parent) junctions that this location contains.
    pub interior: Vec<Junction>,
}

/// The mathematical value of a [`MultiLocation`].
pub struct MultiLocationView {
    pub parents: u8,
    pub interior: Seq<JunctionView>,
}

impl View for MultiLocation {
    type V = MultiLocationView;

    open spec fn view(&self) -> MultiLocationView {
        MultiLocationView { parents: self.parents, interior: views(self.interior@) }
    }
}

/// The number of leading positions at which `a` and `b` agree, counted from
/// `i`, up to which they are taken to agree.
pub open spec fn common_prefix_from(a: Seq<JunctionView>, b: Seq<JunctionView>, i: int) -> int
    decreases a.len() - i,
{
    if 0 <= i < a.len() && i < b.len() && a[i] == b[i] {
        common_prefix_from(a, b, i + 1)
    } else {
        i
    }
}

/// The length of the longest common prefix of `a` and `b`.
pub open spec fn common_prefix_len(a: Seq<JunctionView>, b: Seq<JunctionView>) -> int {
    common_prefix_from(a, b, 0)
}

/// The order of two paths of equal length from index `i` on: that of the
/// first junctions that differ.
pub open spec fn junctions_rel_from(a: Seq<JunctionView>, b: Seq<JunctionView>, i: int) -> Rel
    decreases a.len() - i,
{
    if 0 <= i < a.len() && i < b.len() {
        a[i].rel(b[i]).followed_by(junctions_rel_from(a, b, i + 1))
    } else {
        Rel::Equal
    }
}

/// The total order of paths: a shorter path comes first, and paths of one
/// length are ordered by the first junctions that differ.
pub open spec fn junctions_rel(a: Seq<JunctionView>, b: Seq<JunctionView>) -> Rel {
    int_rel(a.len() as int, b.len() as int).followed_by(junctions_rel_from(a, b, 0))
}

impl MultiLocationView {
    /// The location of the context itself.
    pub open spec fn here() -> MultiLocationView {
        MultiLocationView { parents: 0, interior: Seq::empty() }
    }

    /// The number of ancestor steps of `self` that fall on the trailing
    /// junctions of `prefix` and cancel against them.
    pub open spec fn cancelled(self, prefix: MultiLocationView) -> int {
        if self.parents <= prefix.interior.len() {
            self.parents as int
        } else {
            prefix.interior.len() as int
        }
    }

    /// `prefix`, then `self`: each ancestor step of `self` undoes the last
    /// junction left of `prefix`, and those that find none are added to the
    /// ancestor steps of `prefix`. `None` where more than 255 ancestor steps
    /// would be needed.
    pub open spec fn prepend(self, prefix: MultiLocationView) -> Option<MultiLocationView> {
        let k = self.cancelled(prefix);
        let parents = prefix.parents + self.parents - k;
        if parents > 255 {
            None
        } else {
            Some(
                MultiLocationView {
                    parents: parents as u8,
                    interior: prefix.interior.take(prefix.interior.len() - k) + self.interior,
                },
            )
        }
    }

    /// The way from `from` to `self`, two locations given relative to one
    /// context: up from `from` to the deepest point that the two paths
    /// share, then down to `self`. `None` where `from` starts above `self`
    /// (the way down from there is not known) or more than 255 steps up
    /// would be needed.
    pub open spec fn relative_to(self, from: MultiLocationView) -> Option<MultiLocationView> {
        if from.parents > self.parents {
            None
        } else {
            let shared = if from.parents == self.parents {
                common_prefix_len(self.interior, from.interior)
            } else {
                0
            };
            let up = from.interior.len() - shared + (self.parents - from.parents);
            if up > 255 {
                None
            } else {
                Some(MultiLocationView { parents: up as u8, interior: self.interior.skip(shared) })
            }
        }
    }

    /// `self` as seen from `target`, where `self` and `target` are relative
    /// to a context whose own location is `ancestry`: both are first placed
    /// after `ancestry`, then `self` is taken relative to `target`.
    pub open spec fn reanchor(
        self,
        target: MultiLocationView,
        ancestry: MultiLocationView,
    ) -> Option<MultiLocationView> {
        match (self.prepend(ancestry), target.prepend(ancestry)) {
            (Some(s), Some(t)) => s.relative_to(t),
            _ => None,
        }
    }

    /// The total order: by the number of ancestor steps, then by the
    /// interior.
    pub open spec fn rel(self, other: MultiLocationView) -> Rel {
        int_rel(self.parents as int, other.parents as int).followed_by(
            junctions_rel(self.interior, other.interior),
        )
    }
}

/// `common_prefix_from` stays within both paths, and up to it they agree.
pub proof fn lemma_common_prefix(a: Seq<JunctionView>, b: Seq<JunctionView>, i: int)
    requires
        0 <= i <= a.len(),
        i <= b.len(),
        a.take(i) == b.take(i),
    ensures
        i <= common_prefix_from(a, b, i) <= a.len(),
        common_prefix_from(a, b, i) <= b.len(),
        a.take(common_prefix_from(a, b, i)) == b.take(common_prefix_from(a, b, i)),
        common_prefix_from(a, b, i) < a.len() && common_prefix_from(a, b, i) < b.len()
            ==> a[common_prefix_from(a, b, i)] != b[common_prefix_from(a, b, i)],
    decreases a.len() - i,
{
    if i < a.len() && i < b.len() && a[i] == b[i] {
        assert(a.take(i + 1) =~= a.take(i).push(a[i]));
        assert(b.take(i + 1) =~= b.take(i).push(b[i]));
        lemma_common_prefix(a, b, i + 1);
    }
}

/// A path that starts with all of `p` shares at least `p.len()` junctions
/// with any other such path.
pub proof fn lemma_common_prefix_of_extensions(
    p: Seq<JunctionView>,
    x: Seq<JunctionView>,
    y: Seq<JunctionView>,
    i: int,
)
    requires
        0 <= i <= p.len(),
    ensures
        common_prefix_from(p + x, p + y, i) == p.len() + common_prefix_from(x, y, 0),
    decreases p.len() - i,
{
    if i < p.len() {
        lemma_common_prefix_of_extensions(p, x, y, i + 1);
    } else {
        lemma_common_prefix_shift(p, x, y, 0);
    }
}

/// The common prefix of two extensions of `p`, counted past `p`, is that
/// of the extensions.
proof fn lemma_common_prefix_shift(
    p: Seq<JunctionView>,
    x: Seq<JunctionView>,
    y: Seq<JunctionView>,
    j: int,
)
    requires
        0 <= j <= x.len(),
    ensures
        common_prefix_from(p + x, p + y, p.len() + j) == p.len() + common_prefix_from(x, y, j),
    decreases x.len() - j,
{
    if j < x.len() && j < y.len() && x[j] == y[j] {
        lemma_common_prefix_shift(p, x, y, j + 1);
    }
}

/// What `junctions_rel_from` says of two and of three paths of one length.
proof fn lemma_junctions_rel_from(
    a: Seq<JunctionView>,
    b: Seq<JunctionView>,
    c: Seq<JunctionView>,
    i: int,
)
    requires
        0 <= i <= a.len(),
        a.len() == b.len(),
        b.len() == c.len(),
    ensures
        junctions_rel_from(a, b, i) == Rel::Equal <==> a.skip(i) == b.skip(i),
        junctions_rel_from(b, a, i) == junctions_rel_from(a, b, i).flip(),
        junctions_rel_from(a, b, i).at_most() && junctions_rel_from(b, c, i).at_most()
            ==> junctions_rel_from(a, c, i).at_most(),
        junctions_rel_from(a, b, i).at_most() && junctions_rel_from(b, c, i).at_most()
            && junctions_rel_from(a, c, i) == Rel::Equal ==> junctions_rel_from(a, b, i)
            == Rel::Equal && junctions_rel_from(b, c, i) == Rel::Equal,
    decreases a.len() - i,
{
    if i < a.len() {
        lemma_junction_order(a[i], b[i], c[i]);
        lemma_junctions_rel_from(a, b, c, i + 1);
        assert(a.skip(i)[0] == a[i]);
        assert(b.skip(i)[0] == b[i]);
        assert(a.skip(i).skip(1) =~= a.skip(i + 1));
        assert(b.skip(i).skip(1) =~= b.skip(i + 1));
        if a[i] == b[i] && a.skip(i + 1) == b.skip(i + 1) {
            assert(a.skip(i) =~= seq![a[i]] + a.skip(i + 1));
            assert(b.skip(i) =~= seq![b[i]] + b.skip(i + 1));
        }
    } else {
        assert(a.skip(i) =~= b.skip(i));
    }
}

/// `junctions_rel` is a total order.
pub proof fn lemma_junctions_order(a: Seq<JunctionView>, b: Seq<JunctionView>, c: Seq<JunctionView>)
    ensures
        order_laws(
            a,
            b,
            c,
            junctions_rel(a, b),
            junctions_rel(b, a),
            junctions_rel(b, c),
            junctions_rel(a, c),
        ),
{
    assert(a.skip(0) =~= a);
    assert(b.skip(0) =~= b);
    assert(c.skip(0) =~= c);
    if a.len() == b.len() && b.len() == c.len() {
        lemma_junctions_rel_from(a, b, c, 0);
    }
    if a.len() == b.len() {
        lemma_junctions_rel_from(a, b, b, 0);
    }
    if b.len() == c.len() {
        lemma_junctions_rel_from(b, c, c, 0);
    }
    if a.len() == c.len() {
        lemma_junctions_rel_from(a, c, c, 0);
    }
}

/// `MultiLocationView::rel` is a total order.
pub proof fn lemma_location_order(a: MultiLocationView, b: MultiLocationView, c: MultiLocationView)
    ensures
        order_laws(a, b, c, a.rel(b), b.rel(a), b.rel(c), a.rel(c)),
{
    lemma_junctions_order(a.interior, b.interior, c.interior);
}

/// Reanchoring keeps what a location stands for: seen from the place of
/// `target`, the reanchored location is the place that `loc` is seen at
/// from the context.
pub proof fn lemma_reanchor_resolves(
    loc: MultiLocationView,
    target: MultiLocationView,
    ancestry: MultiLocationView,
)
    requires
        loc.reanchor(target, ancestry) is Some,
    ensures
        target.prepend(ancestry) is Some,
        loc.reanchor(target, ancestry).unwrap().prepend(target.prepend(ancestry).unwrap())
            == loc.prepend(ancestry),
{
    lemma_relative_to_resolves(loc.prepend(ancestry).unwrap(), target.prepend(ancestry).unwrap());
}

/// The way from `from` to `to`, walked from `from`, ends at `to`.
pub proof fn lemma_relative_to_resolves(to: MultiLocationView, from: MultiLocationView)
    requires
        to.relative_to(from) is Some,
    ensures
        to.relative_to(from).unwrap().prepend(from) == Some(to),
{
    let way = to.relative_to(from).unwrap();
    if from.parents == to.parents {
        let shared = common_prefix_len(to.interior, from.interior);
        assert(to.interior.take(0) =~= from.interior.take(0));
        lemma_common_prefix(to.interior, from.interior, 0);
        assert(from.interior.take(from.interior.len() - way.cancelled(from)) =~= to.interior.take(
            shared,
        ));
        assert(to.interior.take(shared) + to.interior.skip(shared) =~= to.interior);
    } else {
        assert(from.interior.take(0) + to.interior.skip(0) =~= to.interior);
    }
}

/// Reanchoring there and back: where `loc` can be reanchored to `target`,
/// and the context itself can be seen from `target`, reanchoring the result
/// from the place of `target` back to the context succeeds and gives a
/// location that stands for the same place as `loc`: the one that `loc`
/// itself is reanchored to within its own context.
pub proof fn lemma_reanchor_round_trip(
    loc: MultiLocationView,
    target: MultiLocationView,
    ancestry: MultiLocationView,
)
    requires
        loc.reanchor(target, ancestry) is Some,
        MultiLocationView::here().reanchor(target, ancestry) is Some,
    ensures
        target.prepend(ancestry) is Some,
        ({
            let seen = loc.reanchor(target, ancestry).unwrap();
            let back = MultiLocationView::here().reanchor(target, ancestry).unwrap();
            let place = target.prepend(ancestry).unwrap();
            &&& seen.reanchor(back, place) is Some
            &&& seen.reanchor(back, place) == loc.reanchor(MultiLocationView::here(), ancestry)
            &&& seen.reanchor(back, place).unwrap().prepend(ancestry) == loc.prepend(ancestry)
        }),
{
    let here = MultiLocationView::here();
    let place = target.prepend(ancestry).unwrap();
    let absolute = loc.prepend(ancestry).unwrap();
    assert(ancestry.interior.take(ancestry.interior.len() as int) + here.interior
        =~= ancestry.interior);
    assert(here.prepend(ancestry) == Some(ancestry));
    lemma_relative_to_resolves(absolute, place);
    lemma_relative_to_resolves(ancestry, place);
    lemma_prepend_relative_to(loc, ancestry);
    lemma_relative_to_resolves(absolute, ancestry);
}

/// A location placed after `ancestry` can be taken relative to `ancestry`
/// again.
pub proof fn lemma_prepend_relative_to(loc: MultiLocationView, ancestry: MultiLocationView)
    requires
        loc.prepend(ancestry) is Some,
    ensures
        loc.prepend(ancestry).unwrap().relative_to(ancestry) is Some,
{
    let absolute = loc.prepend(ancestry).unwrap();
    if absolute.parents == ancestry.parents {
        let kept = ancestry.interior.len() - loc.parents;
        let p = ancestry.interior.take(kept);
        assert(p + ancestry.interior.skip(kept) =~= ancestry.interior);
        lemma_common_prefix_of_extensions(p, loc.interior, ancestry.interior.skip(kept), 0);
        assert(loc.interior.take(0) =~= ancestry.interior.skip(kept).take(0));
        lemma_common_prefix(loc.interior, ancestry.interior.skip(kept), 0);
    }
}

/// A copy of a path.
fn clone_junctions(v: &Vec<Junction>) -> (r: Vec<Junction>)
    ensures
        views(r@) == views(v@),
{
    let mut r: Vec<Junction> = Vec::new();
    let mut i: usize = 0;
    while i < v.len()
        invariant
            i <= v@.len(),
            r@.len() == i,
            views(r@) == views(v@).take(i as int),
        decreases v@.len() - i,
    {
        let ghost before = r@;
        r.push(v[i].clone());
        proof {
            lemma_views_push(before, r@[i as int]);
            assert(views(r@) =~= views(v@).take(i + 1));
        }
        i = i + 1;
    }
    assert(views(v@).take(v@.len() as int) =~= views(v@));
    r
}

/// The length of the longest common prefix of two paths.
fn shared_prefix(a: &Vec<Junction>, b: &Vec<Junction>) -> (n: usize)
    ensures
        n == common_prefix_len(views(a@), views(b@)),
{
    let mut i: usize = 0;
    while i < a.len() && i < b.len()
        invariant
            i <= a@.len(),
            i <= b@.len(),
            common_prefix_len(views(a@), views(b@)) == common_prefix_from(
                views(a@),
                views(b@),
                i as int,
            ),
        decreases a@.len() - i,
    {
        if a[i] != b[i] {
            return i;
        }
        i = i + 1;
    }
    i
}

/// Compares two paths in their total order.
fn compare_junctions(a: &Vec<Junction>, b: &Vec<Junction>) -> (r: Rel)
    ensures
        r == junctions_rel(views(a@), views(b@)),
{
    match compare_usize(a.len(), b.len()) {
        Rel::Equal => {
            let mut i: usize = 0;
            while i < a.len()
                invariant
                    a@.len() == b@.len(),
                    i <= a@.len(),
                    junctions_rel_from(views(a@), views(b@), 0) == junctions_rel_from(
                        views(a@),
                        views(b@),
                        i as int,
                    ),
                decreases a@.len() - i,
            {
                match a[i].compare(&b[i]) {
                    Rel::Equal => {},
                    r => {
                        return r;
                    },
                }
                i = i + 1;
            }
            Rel::Equal
        },
        r => r,
    }
}

impl MultiLocation {
    /// Creates a new location with the given number of parents and interior
    /// junctions.
    pub fn new(parents: u8, interior: Vec<Junction>) -> (r: MultiLocation)
        ensures
            r.parents == parents,
            r.interior == interior,
    {
        MultiLocation { parents, interior }
    }

    /// The location of the context itself: no parents, no interior.
    pub fn here() -> (r: MultiLocation)
        ensures
            r@ == MultiLocationView::here(),
    {
        let r = MultiLocation { parents: 0, interior: Vec::new() };
        assert(r@.interior =~= Seq::empty());
        r
    }

    /// Mutates `self` so that it is prefixed with `prefix`: the result
    /// stands, in the context of `prefix`, for the place that `self` stands
    /// for in the place of `prefix`. Each parent of `self` cancels against
    /// the last interior junction left of `prefix`.
    ///
    /// Fails, giving `prefix` back and leaving `self` as it was, where the
    /// result would need more than 255 parents.
    pub fn prepend_with(&mut self, prefix: MultiLocation) -> (r: Result<(), MultiLocation>)
        ensures
            match old(self)@.prepend(prefix@) {
                Some(joined) => r is Ok && final(self)@ == joined,
                None => r == Err::<(), MultiLocation>(prefix) && *final(self) == *old(self),
            },
    {
        let prefix_len = prefix.interior.len();
        let own = self.parents as usize;
        let cancelled = if own <= prefix_len {
            own
        } else {
            prefix_len
        };
        let parents = prefix.parents as usize + (own - cancelled);
        if parents > 255 {
            return Err(prefix);
        }
        let ghost prefix_interior = prefix.interior@;
        let ghost own_interior = self.interior@;
        let mut interior = prefix.interior;
        interior.truncate(prefix_len - cancelled);
        interior.append(&mut self.interior);
        proof {
            lemma_views_subrange(prefix_interior, 0, prefix_len - cancelled);
            lemma_views_add(prefix_interior.subrange(0, prefix_len - cancelled), own_interior);
        }
        self.interior = interior;
        self.parents = parents as u8;
        Ok(())
    }

    /// The way from `from` to `self`, both relative to one context.
    fn relative_to(self, from: &MultiLocation) -> (r: Option<MultiLocation>)
        ensures
            match self@.relative_to(from@) {
                Some(way) => r matches Some(found) && found@ == way,
                None => r is None,
            },
    {
        if from.parents > self.parents {
            return None;
        }
        let shared = if from.parents == self.parents {
            shared_prefix(&self.interior, &from.interior)
        } else {
            0
        };
        proof {
            assert(views(self.interior@).take(0) =~= views(from.interior@).take(0));
            lemma_common_prefix(views(self.interior@), views(from.interior@), 0);
        }
        let up = (from.interior.len() - shared) as u128 + (self.parents - from.parents) as u128;
        if up > 255 {
            return None;
        }
        let mut interior = self.interior;
        let ghost whole = interior@;
        let rest = interior.split_off(shared);
        proof {
            lemma_views_subrange(whole, shared as int, whole.len() as int);
        }
        Some(MultiLocation { parents: up as u8, interior: rest })
    }

    /// Mutates `self` so that it represents the same location from the point
    /// of view of `target`. The context of `self` and of `target` is
    /// provided as `ancestry`, its location relative to the root that all
    /// three share.
    ///
    /// Fails, leaving `self` as it was, where `self` or `target` cannot be
    /// placed after `ancestry`, where `target` lies above the highest
    /// ancestor that `self` reaches, or where the result would need more
    /// than 255 parents.
    pub fn reanchor(&mut self, target: &MultiLocation, ancestry: &MultiLocation) -> (r: Result<
        (),
        (),
    >)
        ensures
            match old(self)@.reanchor(target@, ancestry@) {
                Some(seen) => r is Ok && final(self)@ == seen,
                None => r is Err && *final(self) == *old(self),
            },
    {
        let mut absolute = self.clone();
        match absolute.prepend_with(ancestry.clone()) {
            Ok(()) => {},
            Err(_) => {
                return Err(());
            },
        }
        let mut place = target.clone();
        match place.prepend_with(ancestry.clone()) {
            Ok(()) => {},
            Err(_) => {
                return Err(());
            },
        }
        match absolute.relative_to(&place) {
            Some(seen) => {
                *self = seen;
                Ok(())
            },
            None => Err(()),
        }
    }

    /// Compares two locations in the total order: by the number of parents,
    /// then by the length of the interior, then by the first junctions that
    /// differ.
    pub fn compare(&self, other: &MultiLocation) -> (r: Rel)
        ensures
            r == self@.rel(other@),
    {
        match compare_u32(self.parents as u32, other.parents as u32) {
            Rel::Equal => compare_junctions(&self.interior, &other.interior),
            r => r,
        }
    }
}

impl PartialEq for MultiLocation {
    fn eq(&self, other: &MultiLocation) -> (r: bool) {
        proof {
            lemma_location_order(self@, other@, other@);
        }
        let r = self.compare(other);
        matches!(r, Rel::Equal)
    }
}

/// Two values are equal exactly when their views are.
impl vstd::std_specs::cmp::PartialEqSpecImpl for MultiLocation {
    open spec fn obeys_eq_spec() -> bool {
        true
    }

    open spec fn eq_spec(&self, other: &MultiLocation) -> bool {
        self@ == other@
    }
}

impl Clone for MultiLocation {
    fn clone(&self) -> (r: MultiLocation)
        ensures
            r@ == self@,
    {
        MultiLocation { parents: self.parents, interior: clone_junctions(&self.interior) }
    }
}

impl TryFrom<MultiLocation0> for MultiLocation {
    type Error = ();

    /// The location that a path of the first generation stands for: as
    /// many parents as the path begins with steps to the parent, and the
    /// rest as interior. Fails where a step to the parent follows an
    /// interior junction.
    fn try_from(old: MultiLocation0) -> (r: Result<MultiLocation, ()>)
        ensures
            match location_of_path(old@) {
                Some(loc) => r matches Ok(new) && new@ == loc,
                None => r is Err,
            },
    {
        let mut path = old.into_junctions();
        let ghost whole = views(path@);
        let mut parents: u8 = 0;
        let mut interior: Vec<Junction> = Vec::new();
        let mut leading = true;
        assert(views(path@) =~= whole.skip(0));
        assert(views(interior@) =~= whole.subrange(0, 0));
        while path.len() > 0
            invariant
                whole == old@,
                whole.len() <= MAX_MULTILOCATION_LENGTH,
                path@.len() <= whole.len(),
                views(path@) == whole.skip(whole.len() - path@.len()),
                parents <= whole.len() - path@.len(),
                forall|j: int| 0 <= j < parents ==> whole[j].is_parent(),
                forall|j: int| parents <= j < whole.len() - path@.len() ==> !whole[j].is_parent(),
                leading ==> parents == whole.len() - path@.len(),
                !leading ==> parents < whole.len() - path@.len(),
                views(interior@) == whole.subrange(parents as int, whole.len() - path@.len()),
            decreases path@.len(),
        {
            let ghost at = whole.len() - path@.len();
            let ghost left = path@;
            let ghost before = interior@;
            assert(views(left)[0] == whole[at]);
            let junction = path.remove(0);
            proof {
                assert(path@ =~= left.subrange(1, left.len() as int));
                lemma_views_subrange(left, 1, left.len() as int);
                assert(views(path@) =~= whole.skip(at + 1));
                assert(junction@ == whole[at]);
            }
            match Junction::try_from(junction) {
                Ok(inner) => {
                    leading = false;
                    interior.push(inner);
                    proof {
                        lemma_views_push(before, inner);
                        assert(views(interior@) =~= whole.subrange(parents as int, at + 1));
                    }
                },
                Err(_) => {
                    if leading {
                        parents = parents + 1;
                        assert(views(interior@) =~= whole.subrange(parents as int, at + 1));
                    } else {
                        proof {
                            lemma_leading_parents_is(whole, parents as int);
                            assert(whole[at].is_parent());
                        }
                        return Err(());
                    }
                },
            }
        }
        proof {
            lemma_leading_parents_is(whole, parents as int);
            assert(whole.subrange(parents as int, whole.len() as int) =~= whole.skip(
                parents as int,
            ));
        }
        Ok(MultiLocation { parents, interior })
    }
}

/// The conversion gives a value made anew, which no `spec` function can
/// name: it is specified by the `ensures` of its own, over views.
impl vstd::std_specs::convert::TryFromSpecImpl<MultiLocation0> for MultiLocation {
    open spec fn obeys_try_from_spec() -> bool {
        false
    }

    open spec fn try_from_spec(old: MultiLocation0) -> Result<MultiLocation, ()> {
        arbitrary()
    }
}

} // verus!
