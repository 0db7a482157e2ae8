//! The termination policy of the recursive radiance estimator. A path is
//! traced one scene query at a time: each query either misses (the path
//! ends on the sky), hits a material that absorbs (the path ends black), or
//! hits a material that scatters (the path goes on, one bounce poorer).
//! When the bounce budget runs out the path ends black.
use vstd::prelude::*;

verus! {

/// What one scene query met along a traced path.
#[derive(Clone, Copy, Debug, PartialEq, Eq, Structural)]
pub enum Bounce {
    /// The ray hit nothing.
    Miss,
    /// The ray hit a material that absorbed it.
    Absorbed,
    /// The ray hit a material that sent out a scattered ray.
    Scattered,
}

/// How a traced path ended.
#[derive(Clone, Copy, Debug, PartialEq, Eq, Structural)]
pub enum PathEnd {
    /// The bounce budget ran out: the path contributes black.
    Exhausted,
    /// A material absorbed the ray: the path contributes black.
    Absorbed,
    /// The last ray escaped: the path contributes the sky gradient, tinted
    /// by the attenuation of every scatter before it.
    Sky,
}

impl PathEnd {
    /// Whether the path carries no light at all.
    pub open spec fn is_black_spec(self) -> bool {
        !(self is Sky)
    }

    pub fn is_black(&self) -> (r: bool)
        ensures
            r == self.is_black_spec(),
    {
        !matches!(self, PathEnd::Sky)
    }
}

/// How a path traced with a budget of `depth` bounces ends, given what its
/// successive scene queries met, with the number of scatters before the end.
/// `None` when `events` runs out before the path ends.
pub open spec fn path_end(depth: int, events: Seq<Bounce>) -> Option<(PathEnd, nat)>
    decreases events.len(),
{
    if depth <= 0 {
        Some((PathEnd::Exhausted, 0nat))
    } else if events.len() == 0 {
        None
    } else {
        match events[0] {
            Bounce::Miss => Some((PathEnd::Sky, 0nat)),
            Bounce::Absorbed => Some((PathEnd::Absorbed, 0nat)),
            Bounce::Scattered => match path_end(depth - 1, events.drop_first()) {
                Some(e) => Some((e.0, e.1 + 1)),
                None => None,
            },
        }
    }
}

/// The progress of one traced path.
pub struct Path {
    max_depth: i32,
    remaining: i32,
    scatters: u32,
    end: Option<PathEnd>,
    events: Ghost<Seq<Bounce>>,
}

impl Path {
    /// The bounce budget the path started with.
    pub closed spec fn max_depth(&self) -> int {
        self.max_depth as int
    }

    /// What the scene queries of this path have met so far.
    pub closed spec fn events(&self) -> Seq<Bounce> {
        self.events@
    }

    /// How the path ended, with its number of scatters; `None` while it
    /// goes on.
    pub closed spec fn outcome(&self) -> Option<(PathEnd, nat)> {
        match self.end {
            Some(e) => Some((e, self.scatters as nat)),
            None => None,
        }
    }

    pub closed spec fn wf(&self) -> bool {
        &&& self.outcome() == path_end(self.max_depth as int, self.events@)
        &&& self.end is None ==> {
            &&& self.remaining > 0
            &&& self.remaining == self.max_depth - self.events@.len()
            &&& self.scatters == self.events@.len()
        }
    }

    /// A path with a budget of `max_depth` bounces and no query made yet. A
    /// budget of zero or less ends it at once.
    pub fn new(max_depth: i32) -> (r: Path)
        ensures
            r.wf(),
            r.max_depth() == max_depth,
            r.events() == Seq::<Bounce>::empty(),
            r.outcome() == path_end(max_depth as int, Seq::empty()),
    {
        let end = if max_depth <= 0 { Some(PathEnd::Exhausted) } else { None };
        Path { max_depth, remaining: max_depth, scatters: 0, end, events: Ghost(Seq::empty()) }
    }

    /// Whether the path needs another scene query.
    pub fn is_open(&self) -> (r: bool)
        requires
            self.wf(),
        ensures
            r == (self.outcome() is None),
    {
        self.end.is_none()
    }

    /// How the path ended, or `None` while it goes on.
    pub fn end(&self) -> (r: Option<PathEnd>)
        requires
            self.wf(),
        ensures
            r == (match self.outcome() {
                Some(e) => Some(e.0),
                None => None,
            }),
    {
        self.end
    }

    /// The number of scatters so far.
    pub fn scatters(&self) -> (r: u32)
        requires
            self.wf(),
        ensures
            self.outcome() matches Some(e) ==> r == e.1,
            self.outcome() is None ==> r == self.events().len(),
    {
        self.scatters
    }

    /// Takes in what the next scene query met.
    pub fn record(&mut self, b: Bounce)
        requires
            old(self).wf(),
            old(self).outcome() is None,
        ensures
            final(self).wf(),
            final(self).max_depth() == old(self).max_depth(),
            final(self).events() == old(self).events().push(b),
            final(self).outcome() == path_end(old(self).max_depth(), old(self).events().push(b)),
    {
        let ghost before = self.events@;
        let ghost after = before.push(b);
        proof {
            lemma_path_end_extend(self.max_depth as int, before, b);
        }
        self.events = Ghost(after);
        match b {
            Bounce::Miss => {
                self.end = Some(PathEnd::Sky);
            },
            Bounce::Absorbed => {
                self.end = Some(PathEnd::Absorbed);
            },
            Bounce::Scattered => {
                self.scatters = self.scatters + 1;
                self.remaining = self.remaining - 1;
                if self.remaining <= 0 {
                    self.end = Some(PathEnd::Exhausted);
                }
            },
        }
    }
}

/// While the path is open, it has made `events.len()` scatters and has
/// `depth - events.len()` bounces left.
proof fn lemma_open_path(depth: int, events: Seq<Bounce>)
    requires
        path_end(depth, events) is None,
    ensures
        depth > events.len(),
        forall|i: int| 0 <= i < events.len() ==> events[i] == Bounce::Scattered,
    decreases events.len(),
{
    if depth > 0 && events.len() > 0 {
        lemma_open_path(depth - 1, events.drop_first());
        assert forall|i: int| 0 <= i < events.len() implies events[i] == Bounce::Scattered by {
            if i > 0 {
                assert(events[i] == events.drop_first()[i - 1]);
            }
        }
    }
}

/// One more event on an open path: it ends the path as the rules say.
proof fn lemma_path_end_extend(depth: int, events: Seq<Bounce>, b: Bounce)
    requires
        path_end(depth, events) is None,
    ensures
        path_end(depth, events.push(b)) == (match b {
            Bounce::Miss => Some((PathEnd::Sky, events.len())),
            Bounce::Absorbed => Some((PathEnd::Absorbed, events.len())),
            Bounce::Scattered => if depth - events.len() - 1 <= 0 {
                Some((PathEnd::Exhausted, events.len() + 1))
            } else {
                None
            },
        }),
    decreases events.len(),
{
    lemma_open_path(depth, events);
    if events.len() > 0 {
        assert(events.push(b).drop_first() =~= events.drop_first().push(b));
        lemma_path_end_extend(depth - 1, events.drop_first(), b);
    }
}

/// Every path ends within its budget: once `depth` scene queries have been
/// made (none, for a budget of zero or less), the path has ended, and it
/// scattered at most `depth` times.
pub proof fn lemma_path_bounded(depth: int, events: Seq<Bounce>)
    requires
        events.len() >= depth,
    ensures
        path_end(depth, events) is Some,
        path_end(depth, events).unwrap().1 <= if depth <= 0 { 0 } else { depth },
    decreases events.len(),
{
    if depth > 0 {
        lemma_path_bounded(depth - 1, events.drop_first());
    }
}

/// Only an escaping ray lights a path: a path that ends on the sky made its
/// last query with budget left and met nothing there, after scattering at
/// every query before.
pub proof fn lemma_sky_only_after_miss(depth: int, events: Seq<Bounce>)
    requires
        path_end(depth, events) matches Some(e) && e.0 is Sky,
    ensures
        ({
            let n = path_end(depth, events).unwrap().1;
            &&& n < depth
            &&& n < events.len()
            &&& events[n as int] == Bounce::Miss
            &&& forall|i: int| 0 <= i < n ==> events[i] == Bounce::Scattered
        }),
    decreases events.len(),
{
    if events[0] == Bounce::Scattered {
        let rest = events.drop_first();
        lemma_sky_only_after_miss(depth - 1, rest);
        let n = path_end(depth, events).unwrap().1;
        assert(events[n as int] == rest[n - 1]);
        assert forall|i: int| 0 <= i < n implies events[i] == Bounce::Scattered by {
            if i > 0 {
                assert(events[i] == rest[i - 1]);
            }
        }
    }
}

} // verus!
