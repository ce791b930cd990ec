use vstd::prelude::*;

verus! {

/// What the scene and the material that was hit made of one ray.
#[derive(Clone, Copy, Debug, PartialEq, Eq, Structural)]
pub enum Surface {
    /// The ray hit nothing: it sees the sky.
    Miss,
    /// The ray hit a surface whose material absorbed it.
    Absorbed,
    /// The ray hit a surface whose material sent a new ray on, with an attenuation.
    Scattered,
}

/// How a light path ends: the color that the product of its attenuations multiplies.
#[derive(Clone, Copy, Debug, PartialEq, Eq, Structural)]
pub enum Terminal {
    /// No light: the path was absorbed or ran out of bounces.
    Black,
    /// The sky gradient, seen along the path's last ray.
    Sky,
}

/// How the recursive estimator, allowed `depth` more rays, ends on a path whose
/// rays meet `events` in turn; `None` while it still has to look at another ray.
pub open spec fn trace_end(depth: nat, events: Seq<Surface>) -> Option<Terminal>
    decreases events.len(),
{
    if depth == 0 {
        Some(Terminal::Black)
    } else if events.len() == 0 {
        None
    } else {
        match events[0] {
            Surface::Miss => Some(Terminal::Sky),
            Surface::Absorbed => Some(Terminal::Black),
            Surface::Scattered => trace_end((depth - 1) as nat, events.drop_first()),
        }
    }
}

/// Every event of `events` sent the ray on.
pub open spec fn all_scattered(events: Seq<Surface>) -> bool {
    forall|i: int| 0 <= i < events.len() ==> events[i] == Surface::Scattered
}

/// Scattering events consume depth one by one.
proof fn lemma_scattered_prefix(depth: nat, prefix: Seq<Surface>, rest: Seq<Surface>)
    requires
        all_scattered(prefix),
        prefix.len() <= depth,
    ensures
        trace_end(depth, prefix + rest) == trace_end((depth - prefix.len()) as nat, rest),
    decreases prefix.len(),
{
    if prefix.len() > 0 {
        assert((prefix + rest).drop_first() =~= prefix.drop_first() + rest);
        assert((prefix + rest)[0] == prefix[0]);
        lemma_scattered_prefix((depth - 1) as nat, prefix.drop_first(), rest);
    } else {
        assert(prefix + rest =~= rest);
    }
}

/// A path with no depth left is black, whatever its rays would meet.
pub proof fn lemma_depth_zero_is_black(events: Seq<Surface>)
    ensures
        trace_end(0, events) == Some(Terminal::Black),
{
}

/// With a depth of one, a first ray that hits anything gives black: no
/// secondary ray is traced.
pub proof fn lemma_depth_one_hit_is_black(events: Seq<Surface>)
    requires
        events.len() > 0,
        events[0] != Surface::Miss,
    ensures
        trace_end(1, events) == Some(Terminal::Black),
{
    assert(trace_end(0, events.drop_first()) == Some(Terminal::Black));
}

/// A path asks about at most `depth` rays: once it has seen that many, it has ended.
pub proof fn lemma_path_length_bound(depth: nat, events: Seq<Surface>)
    requires
        events.len() >= depth,
    ensures
        trace_end(depth, events) is Some,
    decreases depth,
{
    if depth > 0 {
        lemma_path_length_bound((depth - 1) as nat, events.drop_first());
    }
}

/// The state of one light path, traced iteratively: the rays it has seen so far
/// and, once known, how it ends.
pub struct PathState {
    pub max_depth: u32,
    pub remaining: u32,
    pub end: Option<Terminal>,
    pub events: Ghost<Seq<Surface>>,
}

impl PathState {
    pub open spec fn wf(&self) -> bool {
        &&& self.events@.len() <= self.max_depth
        &&& self.end == trace_end(self.max_depth as nat, self.events@)
        &&& self.end is None ==> {
            &&& all_scattered(self.events@)
            &&& self.remaining == self.max_depth - self.events@.len()
        }
    }

    /// A path whose first ray is yet to be traced, allowed `max_depth` rays.
    pub fn new(max_depth: u32) -> (r: PathState)
        ensures
            r.wf(),
            r.max_depth == max_depth,
            r.events@ == Seq::<Surface>::empty(),
            r.end == (if max_depth == 0 {
                Some(Terminal::Black)
            } else {
                None
            }),
    {
        let end = if max_depth == 0 {
            Some(Terminal::Black)
        } else {
            None
        };
        PathState { max_depth, remaining: max_depth, end, events: Ghost(Seq::empty()) }
    }

    /// How the path ends, or `None` while the current ray must still be traced.
    pub fn end(&self) -> (r: Option<Terminal>)
        requires
            self.wf(),
        ensures
            r == trace_end(self.max_depth as nat, self.events@),
    {
        self.end
    }

    /// Number of attenuations that the path's color is a product of.
    pub fn bounces(&self) -> (r: u32)
        requires
            self.wf(),
            self.end is None,
        ensures
            r == self.events@.len(),
    {
        self.max_depth - self.remaining
    }

    /// Records what the current ray met.
    pub fn record(&mut self, surface: Surface)
        requires
            old(self).wf(),
            old(self).end is None,
        ensures
            final(self).wf(),
            final(self).max_depth == old(self).max_depth,
            final(self).events@ == old(self).events@.push(surface),
            final(self).end == match surface {
                Surface::Miss => Some(Terminal::Sky),
                Surface::Absorbed => Some(Terminal::Black),
                Surface::Scattered => if old(self).remaining == 1 {
                    Some(Terminal::Black)
                } else {
                    None
                },
            },
    {
        let ghost before = self.events@;
        proof {
            if self.remaining == 0 {
                lemma_path_length_bound(self.max_depth as nat, before);
            }
            assert(self.remaining > 0);
            lemma_scattered_prefix(self.max_depth as nat, before, seq![surface]);
            assert(before + seq![surface] =~= before.push(surface));
            assert(seq![surface].drop_first() =~= Seq::<Surface>::empty());
            assert(seq![surface][0] == surface);
            let r = (self.max_depth - before.len()) as nat;
            assert(r == self.remaining);
            assert(trace_end(self.max_depth as nat, before.push(surface)) == trace_end(r, seq![surface]));
            assert(trace_end(r, seq![surface]) == match surface {
                Surface::Miss => Some(Terminal::Sky),
                Surface::Absorbed => Some(Terminal::Black),
                Surface::Scattered => trace_end((r - 1) as nat, Seq::<Surface>::empty()),
            });
        }
        self.events = Ghost(before.push(surface));
        match surface {
            Surface::Miss => {
                self.end = Some(Terminal::Sky);
            },
            Surface::Absorbed => {
                self.end = Some(Terminal::Black);
            },
            Surface::Scattered => {
                self.remaining = self.remaining - 1;
                if self.remaining == 0 {
                    self.end = Some(Terminal::Black);
                }
                proof {
                    assert forall|i: int| 0 <= i < self.events@.len() implies self.events@[i]
                        == Surface::Scattered by {
                        if i < before.len() {
                            assert(self.events@[i] == before[i]);
                        }
                    }
                }
            },
        }
    }
}

} // verus!
