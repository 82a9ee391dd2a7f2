//! Relative locations as one path of junctions, steps to the parent among
//! them.

use crate::seqs::{lemma_views_add, lemma_views_push, lemma_views_subrange, views};
use crate::v0::junction::{Junction, JunctionView};
use crate::v1::multilocation::{MultiLocation as MultiLocation1, MultiLocationView};
use vstd::prelude::*;

verus! {

/// The greatest number of junctions that a location can hold.
pub const MAX_MULTILOCATION_LENGTH: usize = 8;

/// A relative path between state-bearing consensus systems: a sequence of
/// at most [`MAX_MULTILOCATION_LENGTH`] junctions, each a step to the parent
/// or a step into the interior.
#[derive(Debug)]
pub struct MultiLocation {
    junctions: Vec<Junction>,
}

impl View for MultiLocation {
    type V = Seq<JunctionView>;

    closed spec fn view(&self) -> Seq<JunctionView> {
        views(self.junctions@)
    }
}

/// The number of steps to the parent that `path` begins with, counted from
/// `i`, before which all are taken to be such steps.
pub open spec fn leading_parents_from(path: Seq<JunctionView>, i: int) -> int
    decreases path.len() - i,
{
    if 0 <= i < path.len() && path[i].is_parent() {
        leading_parents_from(path, i + 1)
    } else {
        i
    }
}

/// The number of steps to the parent that `path` begins with.
pub open spec fn leading_parents(path: Seq<JunctionView>) -> int {
    leading_parents_from(path, 0)
}

/// The number of interior junctions that the first `n` junctions of `path`
/// end with.
pub open spec fn trailing_interior_upto(path: Seq<JunctionView>, n: int) -> int
    decreases n,
{
    if 0 < n <= path.len() && !path[n - 1].is_parent() {
        1 + trailing_interior_upto(path, n - 1)
    } else {
        0
    }
}

/// The number of interior junctions that `path` ends with.
pub open spec fn trailing_interior(path: Seq<JunctionView>) -> int {
    trailing_interior_upto(path, path.len() as int)
}

/// The number of junctions that cancel where `path` follows `prefix`: each
/// leading step to the parent of `path` undoes one trailing interior
/// junction of `prefix`.
pub open spec fn cancelled(path: Seq<JunctionView>, prefix: Seq<JunctionView>) -> int {
    if leading_parents(path) <= trailing_interior(prefix) {
        leading_parents(path)
    } else {
        trailing_interior(prefix)
    }
}

/// `prefix`, then `path`, without the junctions that cancel where the two
/// meet. `None` where more than [`MAX_MULTILOCATION_LENGTH`] junctions are
/// left.
pub open spec fn path_prepend(path: Seq<JunctionView>, prefix: Seq<JunctionView>) -> Option<
    Seq<JunctionView>,
> {
    let k = cancelled(path, prefix);
    let joined = prefix.take(prefix.len() - k) + path.skip(k);
    if joined.len() > MAX_MULTILOCATION_LENGTH {
        None
    } else {
        Some(joined)
    }
}

/// The path that stands for `loc`: its steps to the parent, then its
/// interior. `None` where that makes more than
/// [`MAX_MULTILOCATION_LENGTH`] junctions.
pub open spec fn path_of_location(loc: MultiLocationView) -> Option<Seq<JunctionView>> {
    if loc.parents + loc.interior.len() > MAX_MULTILOCATION_LENGTH {
        None
    } else {
        Some(Seq::new(loc.parents as nat, |i: int| JunctionView::Parent) + loc.interior)
    }
}

/// The location that stands for `path`: as many parents as `path` begins
/// with steps to the parent, and the rest as interior. `None` where a step
/// to the parent follows an interior junction.
pub open spec fn location_of_path(path: Seq<JunctionView>) -> Option<MultiLocationView> {
    let parents = leading_parents(path);
    if parents <= 255 && (forall|i: int| parents <= i < path.len() ==> !path[i].is_parent()) {
        Some(MultiLocationView { parents: parents as u8, interior: path.skip(parents) })
    } else {
        None
    }
}

/// `leading_parents_from` stays within the path; all before it are steps to
/// the parent, and the junction at it, if any, is none.
pub proof fn lemma_leading_parents(path: Seq<JunctionView>, i: int)
    requires
        0 <= i <= path.len(),
        forall|j: int| 0 <= j < i ==> path[j].is_parent(),
    ensures
        i <= leading_parents_from(path, i) <= path.len(),
        forall|j: int| 0 <= j < leading_parents_from(path, i) ==> path[j].is_parent(),
        leading_parents_from(path, i) < path.len() ==> !path[leading_parents_from(
            path,
            i,
        )].is_parent(),
    decreases path.len() - i,
{
    if i < path.len() && path[i].is_parent() {
        lemma_leading_parents(path, i + 1);
    }
}

/// `trailing_interior_upto` counts no more junctions than there are.
pub proof fn lemma_trailing_interior(path: Seq<JunctionView>, n: int)
    requires
        0 <= n <= path.len(),
    ensures
        0 <= trailing_interior_upto(path, n) <= n,
    decreases n,
{
    if 0 < n && !path[n - 1].is_parent() {
        lemma_trailing_interior(path, n - 1);
    }
}

/// A location of the second generation that has a path is the location of
/// that path, provided that its interior holds no step to the parent, as
/// that of every location does.
pub proof fn lemma_location_of_path_of_location(loc: MultiLocationView)
    requires
        path_of_location(loc) is Some,
        forall|i: int| 0 <= i < loc.interior.len() ==> !loc.interior[i].is_parent(),
    ensures
        location_of_path(path_of_location(loc).unwrap()) == Some(loc),
{
    let path = path_of_location(loc).unwrap();
    lemma_leading_parents_at_least(path, loc.parents as int, 0);
    lemma_leading_parents(path, 0);
    assert(leading_parents(path) == loc.parents) by {
        if leading_parents(path) > loc.parents {
            assert(path[loc.parents as int].is_parent());
            assert(path[loc.parents as int] == loc.interior[0]);
        }
    }
    assert(path.skip(loc.parents as int) =~= loc.interior);
    assert forall|i: int| loc.parents <= i < path.len() implies !path[i].is_parent() by {
        assert(path[i] == loc.interior[i - loc.parents]);
    }
}

/// A path whose first `n` junctions are steps to the parent, and whose next
/// one, if any, is none, begins with exactly `n` of them.
pub proof fn lemma_leading_parents_is(path: Seq<JunctionView>, n: int)
    requires
        0 <= n <= path.len(),
        forall|j: int| 0 <= j < n ==> path[j].is_parent(),
        n < path.len() ==> !path[n].is_parent(),
    ensures
        leading_parents(path) == n,
{
    lemma_leading_parents_at_least(path, n, 0);
    lemma_leading_parents(path, 0);
}

/// A path whose first `n` junctions are steps to the parent begins with at
/// least `n` of them.
proof fn lemma_leading_parents_at_least(path: Seq<JunctionView>, n: int, i: int)
    requires
        0 <= i <= n <= path.len(),
        forall|j: int| 0 <= j < n ==> path[j].is_parent(),
    ensures
        leading_parents_from(path, i) >= n,
    decreases n - i,
{
    if i < n {
        lemma_leading_parents_at_least(path, n, i + 1);
    } else {
        lemma_leading_parents(path, i);
    }
}

impl MultiLocation {
    #[verifier::type_invariant]
    spec fn fits(self) -> bool {
        self.junctions@.len() <= MAX_MULTILOCATION_LENGTH
    }

    /// The empty location: the context itself.
    pub fn null() -> (r: MultiLocation)
        ensures
            r@ == Seq::<JunctionView>::empty(),
    {
        let r = MultiLocation { junctions: Vec::new() };
        assert(r@ =~= Seq::<JunctionView>::empty());
        r
    }

    /// The location that holds `junctions`, or `junctions` given back where
    /// they are more than [`MAX_MULTILOCATION_LENGTH`].
    pub fn from_junctions(junctions: Vec<Junction>) -> (r: Result<MultiLocation, Vec<Junction>>)
        ensures
            match r {
                Ok(loc) => junctions@.len() <= MAX_MULTILOCATION_LENGTH && loc@ == views(
                    junctions@,
                ),
                Err(given) => junctions@.len() > MAX_MULTILOCATION_LENGTH && given == junctions,
            },
    {
        if junctions.len() > MAX_MULTILOCATION_LENGTH {
            Err(junctions)
        } else {
            Ok(MultiLocation { junctions })
        }
    }

    /// The junctions of the location, in order.
    pub fn junctions(&self) -> (r: &Vec<Junction>)
        ensures
            views(r@) == self@,
            r@.len() <= MAX_MULTILOCATION_LENGTH,
    {
        proof {
            use_type_invariant(self);
        }
        &self.junctions
    }

    /// Consumes the location and gives its junctions, in order.
    pub fn into_junctions(self) -> (r: Vec<Junction>)
        ensures
            views(r@) == self@,
            r@.len() <= MAX_MULTILOCATION_LENGTH,
    {
        proof {
            use_type_invariant(&self);
        }
        self.junctions
    }

    /// The number of junctions.
    pub fn len(&self) -> (r: usize)
        ensures
            r == self@.len(),
            r <= MAX_MULTILOCATION_LENGTH,
    {
        proof {
            use_type_invariant(self);
        }
        self.junctions.len()
    }

    fn leading_parents(&self) -> (r: usize)
        ensures
            r == leading_parents(self@),
            r <= self@.len(),
    {
        let mut i: usize = 0;
        proof {
            lemma_leading_parents(self@, 0);
        }
        while i < self.junctions.len()
            invariant
                i <= self.junctions@.len(),
                leading_parents(self@) == leading_parents_from(self@, i as int),
                self@ == views(self.junctions@),
                leading_parents(self@) <= self@.len(),
            decreases self.junctions@.len() - i,
        {
            if !self.junctions[i].is_parent() {
                return i;
            }
            i = i + 1;
        }
        i
    }

    fn trailing_interior(&self) -> (r: usize)
        ensures
            r == trailing_interior(self@),
            r <= self@.len(),
    {
        let n = self.junctions.len();
        let mut i: usize = n;
        proof {
            lemma_trailing_interior(self@, n as int);
        }
        while i > 0
            invariant
                i <= n,
                n == self.junctions@.len(),
                self@ == views(self.junctions@),
                trailing_interior(self@) == (n - i) + trailing_interior_upto(self@, i as int),
                trailing_interior(self@) <= self@.len(),
            decreases i,
        {
            if self.junctions[i - 1].is_parent() {
                return n - i;
            }
            i = i - 1;
        }
        n
    }

    /// Mutates `self` so that it is prefixed with `prefix`. Where `self`
    /// begins with steps to the parent and `prefix` ends with interior
    /// junctions, they cancel pair by pair.
    ///
    /// Fails, giving `prefix` back and leaving `self` as it was, where the
    /// result would hold more than [`MAX_MULTILOCATION_LENGTH`] junctions.
    pub fn prepend_with(&mut self, prefix: MultiLocation) -> (r: Result<(), MultiLocation>)
        ensures
            match path_prepend(old(self)@, prefix@) {
                Some(joined) => r is Ok && final(self)@ == joined,
                None => r == Err::<(), MultiLocation>(prefix) && *final(self) == *old(self),
            },
    {
        proof {
            use_type_invariant(&*self);
            use_type_invariant(&prefix);
        }
        let lead = self.leading_parents();
        let trail = prefix.trailing_interior();
        let k = if lead <= trail {
            lead
        } else {
            trail
        };
        let own_len = self.junctions.len();
        let prefix_len = prefix.junctions.len();
        if (prefix_len - k) + (own_len - k) > MAX_MULTILOCATION_LENGTH {
            return Err(prefix);
        }
        let ghost prefix_path = prefix.junctions@;
        let ghost own_path = self.junctions@;
        let mut joined = prefix.junctions;
        joined.truncate(prefix_len - k);
        let mut own: Vec<Junction> = Vec::new();
        std::mem::swap(&mut own, &mut self.junctions);
        let mut rest = own.split_off(k);
        joined.append(&mut rest);
        proof {
            lemma_views_subrange(prefix_path, 0, prefix_len - k);
            lemma_views_subrange(own_path, k as int, own_len as int);
            lemma_views_add(
                prefix_path.subrange(0, prefix_len - k),
                own_path.subrange(k as int, own_len as int),
            );
        }
        self.junctions = joined;
        Ok(())
    }
}

impl PartialEq for MultiLocation {
    fn eq(&self, other: &MultiLocation) -> (r: bool) {
        if self.junctions.len() != other.junctions.len() {
            return false;
        }
        let mut i: usize = 0;
        while i < self.junctions.len()
            invariant
                i <= self.junctions@.len(),
                self.junctions@.len() == other.junctions@.len(),
                self@ == views(self.junctions@),
                other@ == views(other.junctions@),
                forall|j: int| 0 <= j < i ==> self@[j] == other@[j],
            decreases self.junctions@.len() - i,
        {
            if self.junctions[i] != other.junctions[i] {
                assert(self@[i as int] != other@[i as int]);
                return false;
            }
            i = i + 1;
        }
        assert(self@ =~= other@);
        true
    }
}

/// Two values are equal exactly when their views are.
impl vstd::std_specs::cmp::PartialEqSpecImpl for MultiLocation {
    open spec fn obeys_eq_spec() -> bool {
        true
    }

    open spec fn eq_spec(&self, other: &MultiLocation) -> bool {
        self@ == other@
    }
}

impl Clone for MultiLocation {
    fn clone(&self) -> (r: MultiLocation)
        ensures
            r@ == self@,
    {
        proof {
            use_type_invariant(self);
        }
        let mut junctions: Vec<Junction> = Vec::new();
        let mut i: usize = 0;
        while i < self.junctions.len()
            invariant
                i <= self.junctions@.len(),
                junctions@.len() == i,
                views(junctions@) == views(self.junctions@).take(i as int),
            decreases self.junctions@.len() - i,
        {
            let ghost before = junctions@;
            junctions.push(self.junctions[i].clone());
            proof {
                lemma_views_push(before, junctions@[i as int]);
                assert(views(junctions@) =~= views(self.junctions@).take(i + 1));
            }
            i = i + 1;
        }
        assert(views(self.junctions@).take(self.junctions@.len() as int) =~= views(
            self.junctions@,
        ));
        MultiLocation { junctions }
    }
}

impl TryFrom<MultiLocation1> for MultiLocation {
    type Error = ();

    /// The path of a location of the second generation: its parents as
    /// steps to the parent, then its interior. Fails where that makes more
    /// than [`MAX_MULTILOCATION_LENGTH`] junctions.
    fn try_from(new: MultiLocation1) -> (r: Result<MultiLocation, ()>)
        ensures
            match path_of_location(new@) {
                Some(path) => r matches Ok(old) && old@ == path,
                None => r is Err,
            },
    {
        if new.parents as usize > MAX_MULTILOCATION_LENGTH || new.interior.len()
            > MAX_MULTILOCATION_LENGTH - new.parents as usize {
            return Err(());
        }
        let mut junctions: Vec<Junction> = Vec::new();
        let mut i: u8 = 0;
        while i < new.parents
            invariant
                i <= new.parents,
                junctions@.len() == i,
                views(junctions@) == Seq::new(i as nat, |j: int| JunctionView::Parent),
            decreases new.parents - i,
        {
            let ghost before = junctions@;
            junctions.push(Junction::Parent);
            proof {
                lemma_views_push(before, Junction::Parent);
                assert(Junction::Parent@ == JunctionView::Parent);
                assert(before.push(Junction::Parent) == junctions@);
                assert(views(before).push(JunctionView::Parent) =~= Seq::new(
                    (i + 1) as nat,
                    |j: int| JunctionView::Parent,
                ));
            }
            i = i + 1;
        }
        let ghost parents = junctions@;
        let ghost interior = new.interior@;
        let mut rest = new.interior;
        while rest.len() > 0
            invariant
                views(junctions@) + views(rest@) == views(parents) + views(interior),
                junctions@.len() + rest@.len() == parents.len() + interior.len(),
            decreases rest@.len(),
        {
            let ghost before = junctions@;
            let ghost left = rest@;
            let junction = rest.remove(0);
            junctions.push(Junction::from(junction));
            proof {
                lemma_views_push(before, junctions@[before.len() as int]);
                assert(views(junctions@) + views(rest@) =~= views(before) + views(left));
            }
        }
        assert(views(junctions@) + views(rest@) =~= views(junctions@));
        Ok(MultiLocation { junctions })
    }
}

/// The conversion gives a value made anew, which no `spec` function can
/// name: it is specified by the `ensures` of its own, over views.
impl vstd::std_specs::convert::TryFromSpecImpl<MultiLocation1> for MultiLocation {
    open spec fn obeys_try_from_spec() -> bool {
        false
    }

    open spec fn try_from_spec(new: MultiLocation1) -> Result<MultiLocation, ()> {
        arbitrary()
    }
}

} // verus!
