use vstd::prelude::*;

use crate::engine::state::{state_wf, State, StateModel};
use crate::engine::tokens::{tokens_view, Token, TokenModel};

verus! {

/// One lexical frame: its own bindings, a non-owning reference to its
/// parent frame (as an index into the arena of the owning [`Scope`]), and
/// the token span it was created to evaluate.
///
/// Bindings are kept in insertion order and the latest insertion of a name
/// wins, which is how re-declaring a name in the same frame overwrites it.
#[derive(Debug)]
pub struct Frame {
    pub state: Vec<(String, State)>,
    pub parent: Option<usize>,
    pub instructions: Vec<Token>,
}

/// Mathematical model of a frame.
pub struct FrameModel {
    pub entries: Seq<(Seq<char>, StateModel)>,
    pub parent: Option<int>,
    pub instructions: Seq<TokenModel>,
}

pub open spec fn frame_view(f: Frame) -> FrameModel {
    FrameModel {
        entries: Seq::new(f.state@.len(), |i: int| (f.state@[i].0@, f.state@[i].1@)),
        parent: match f.parent {
            Some(p) => Some(p as int),
            None => None,
        },
        instructions: tokens_view(f.instructions@),
    }
}

impl View for Frame {
    type V = FrameModel;

    open spec fn view(&self) -> FrameModel {
        frame_view(*self)
    }
}

/// The chain of lexical frames, owned as one arena; frame 0 is the root.
/// A child frame refers to its parent by index, so a lookup through the
/// chain always observes the parent's current bindings, never a snapshot
/// taken when the child was created.
#[derive(Debug)]
pub struct Scope {
    pub frames: Vec<Frame>,
}

pub open spec fn scope_view(s: Scope) -> Seq<FrameModel> {
    Seq::new(s.frames@.len(), |i: int| s.frames@[i]@)
}

impl View for Scope {
    type V = Seq<FrameModel>;

    open spec fn view(&self) -> Seq<FrameModel> {
        scope_view(*self)
    }
}

/// Well-formedness of a scope: every parent reference points at an earlier
/// frame, so walking outward terminates.
pub open spec fn scope_wf(frames: Seq<FrameModel>) -> bool {
    forall|i: int|
        0 <= i < frames.len() ==> ((#[trigger] frames[i].parent) matches Some(p) ==> 0 <= p < i)
}

/// Every binding of every frame holds a well-formed value.
pub open spec fn scope_values_wf(frames: Seq<FrameModel>) -> bool {
    forall|i: int, j: int|
        0 <= i < frames.len() && 0 <= j < frames[i].entries.len() ==> state_wf(
            (#[trigger] frames[i].entries[j]).1,
        )
}

/// The binding a name resolves to within one frame: the latest insertion
/// of that name, or `None`.
pub open spec fn frame_lookup(entries: Seq<(Seq<char>, StateModel)>, key: Seq<char>) -> Option<
    StateModel,
>
    decreases entries.len(),
{
    if entries.len() == 0 {
        None
    } else if entries.last().0 == key {
        Some(entries.last().1)
    } else {
        frame_lookup(entries.drop_last(), key)
    }
}

/// The frame a name resolves in, walking from `f` outward through the live
/// parent chain: the innermost frame whose own bindings hold the name.
pub open spec fn chain_frame(frames: Seq<FrameModel>, f: int, key: Seq<char>) -> Option<int>
    decreases
            if 0 <= f < frames.len() {
                f + 1
            } else {
                0
            },
{
    if !(0 <= f < frames.len()) {
        None
    } else if frame_lookup(frames[f].entries, key) is Some {
        Some(f)
    } else {
        match frames[f].parent {
            Some(p) => if 0 <= p < f {
                chain_frame(frames, p, key)
            } else {
                None
            },
            None => None,
        }
    }
}

/// The binding a name resolves to through the live scope chain.
pub open spec fn chain_lookup(frames: Seq<FrameModel>, f: int, key: Seq<char>) -> Option<
    StateModel,
> {
    match chain_frame(frames, f, key) {
        Some(i) => frame_lookup(frames[i].entries, key),
        None => None,
    }
}

impl Scope {
    /// A scope with a single root frame over the given instructions.
    pub fn new(instructions: Vec<Token>) -> (r: Scope)
        ensures
            r@.len() == 1,
            r@[0].entries == Seq::<(Seq<char>, StateModel)>::empty(),
            r@[0].parent is None,
            r@[0].instructions == tokens_view(instructions@),
            scope_wf(r@),
            scope_values_wf(r@),
    {
        let root = Frame { state: Vec::new(), parent: None, instructions };
        let r = Scope { frames: vec![root] };
        proof {
            assert(r@[0].entries =~= Seq::<(Seq<char>, StateModel)>::empty());
        }
        r
    }

    /// How many frames the arena holds.
    pub fn len(&self) -> (r: usize)
        ensures
            r == self@.len(),
    {
        self.frames.len()
    }

    /// Adds a fresh, empty child frame under `parent` and returns its
    /// handle.
    pub fn add_child(&mut self, parent: usize, instructions: Vec<Token>) -> (c: usize)
        requires
            parent < old(self)@.len(),
        ensures
            c == old(self)@.len(),
            final(self)@.len() == old(self)@.len() + 1,
            forall|i: int| 0 <= i < old(self)@.len() ==> final(self)@[i] == old(self)@[i],
            final(self)@[c as int].entries == Seq::<(Seq<char>, StateModel)>::empty(),
            final(self)@[c as int].parent == Some(parent as int),
            final(self)@[c as int].instructions == tokens_view(instructions@),
            scope_wf(old(self)@) ==> scope_wf(final(self)@),
            scope_values_wf(old(self)@) ==> scope_values_wf(final(self)@),
    {
        let c = self.frames.len();
        let child = Frame { state: Vec::new(), parent: Some(parent), instructions };
        self.frames.push(child);
        proof {
            assert(final(self)@[c as int].entries =~= Seq::<(Seq<char>, StateModel)>::empty());
            assert forall|i: int| 0 <= i < old(self)@.len() implies final(self)@[i] == old(
                self,
            )@[i] by {
                assert(final(self).frames@[i] == old(self).frames@[i]);
            }
        }
        c
    }

    /// The token span frame `frame` was created to evaluate.
    pub fn instructions(&self, frame: usize) -> (r: &Vec<Token>)
        requires
            frame < self@.len(),
        ensures
            tokens_view(r@) == self@[frame as int].instructions,
    {
        &self.frames[frame].instructions
    }

    /// Binds `key` in exactly the frame `frame`; a later lookup of `key`
    /// there finds this binding, overwriting any earlier one of the same
    /// name in that frame.
    pub fn insert_state(&mut self, frame: usize, key: String, state: State)
        requires
            frame < old(self)@.len(),
        ensures
            final(self)@.len() == old(self)@.len(),
            forall|i: int|
                0 <= i < old(self)@.len() && i != frame ==> final(self)@[i] == old(self)@[i],
            final(self)@[frame as int].entries == old(self)@[frame as int].entries.push(
                (key@, state@),
            ),
            final(self)@[frame as int].parent == old(self)@[frame as int].parent,
            final(self)@[frame as int].instructions == old(self)@[frame as int].instructions,
            scope_wf(old(self)@) ==> scope_wf(final(self)@),
            scope_values_wf(old(self)@) && state_wf(state@) ==> scope_values_wf(final(self)@),
    {
        let f = &mut self.frames[frame];
        f.state.push((key, state));
        proof {
            assert(final(self)@[frame as int].entries =~= old(self)@[frame as int].entries.push(
                (key@, state@),
            ));
            assert forall|i: int|
                0 <= i < old(self)@.len() && i != frame implies final(self)@[i] == old(
                self,
            )@[i] by {
                assert(final(self).frames@[i] == old(self).frames@[i]);
            }
        }
    }

    /// The bindings of exactly the frame `frame`, in insertion order.
    pub fn state(&self, frame: usize) -> (r: &Vec<(String, State)>)
        requires
            frame < self@.len(),
        ensures
            r@.len() == self@[frame as int].entries.len(),
            forall|j: int|
                0 <= j < r@.len() ==> (#[trigger] r@[j]).0@ == self@[frame as int].entries[j].0
                    && r@[j].1@ == self@[frame as int].entries[j].1,
    {
        &self.frames[frame].state
    }

    /// Drops every binding of exactly the frame `frame`.
    pub fn clear_state(&mut self, frame: usize)
        requires
            frame < old(self)@.len(),
        ensures
            final(self)@.len() == old(self)@.len(),
            forall|i: int|
                0 <= i < old(self)@.len() && i != frame ==> final(self)@[i] == old(self)@[i],
            final(self)@[frame as int].entries == Seq::<(Seq<char>, StateModel)>::empty(),
            final(self)@[frame as int].parent == old(self)@[frame as int].parent,
            final(self)@[frame as int].instructions == old(self)@[frame as int].instructions,
            scope_wf(old(self)@) ==> scope_wf(final(self)@),
            scope_values_wf(old(self)@) ==> scope_values_wf(final(self)@),
    {
        let f = &mut self.frames[frame];
        f.state = Vec::new();
        proof {
            assert(final(self)@[frame as int].entries =~= Seq::<(
                Seq<char>,
                StateModel,
            )>::empty());
            assert forall|i: int|
                0 <= i < old(self)@.len() && i != frame implies final(self)@[i] == old(
                self,
            )@[i] by {
                assert(final(self).frames@[i] == old(self).frames@[i]);
            }
        }
    }

    /// The latest binding of `key` in exactly the frame `frame`, without
    /// walking the chain.
    #[verifier::loop_isolation(false)]
    pub fn get_own_state(&self, frame: usize, key: &String) -> (r: Option<State>)
        requires
            frame < self@.len(),
        ensures
            match r {
                Some(st) => frame_lookup(self@[frame as int].entries, key@) == Some(st@),
                None => frame_lookup(self@[frame as int].entries, key@) is None,
            },
    {
        let entries = &self.frames[frame].state;
        let ghost m = self@[frame as int].entries;
        proof {
            assert(m.subrange(0, m.len() as int) =~= m);
        }
        let mut i: usize = entries.len();
        while i > 0
            invariant
                i <= entries@.len(),
                m.len() == entries@.len(),
                forall|j: int|
                    0 <= j < m.len() ==> #[trigger] m[j] == (entries@[j].0@, entries@[j].1@),
                frame_lookup(m, key@) == frame_lookup(m.subrange(0, i as int), key@),
            decreases i,
        {
            i = i - 1;
            let hit = entries[i].0.eq(key);
            proof {
                assert(m.subrange(0, i as int + 1).last() == m[i as int]);
                assert(m.subrange(0, i as int + 1).drop_last() =~= m.subrange(0, i as int));
            }
            if hit {
                let st = entries[i].1.clone();
                proof {
                    assert(frame_lookup(m.subrange(0, i as int + 1), key@) == Some(m[i as int].1));
                }
                return Some(st);
            }
        }
        proof {
            assert(m.subrange(0, 0) =~= Seq::<(Seq<char>, StateModel)>::empty());
        }
        None
    }

    /// The frame in which `key` resolves, walking from `frame` outward
    /// through the live parent chain.
    #[verifier::loop_isolation(false)]
    pub fn resolve_frame(&self, frame: usize, key: &String) -> (r: Option<usize>)
        requires
            scope_wf(self@),
            frame < self@.len(),
        ensures
            match r {
                Some(f) => chain_frame(self@, frame as int, key@) == Some(f as int) && f
                    < self@.len(),
                None => chain_frame(self@, frame as int, key@) is None,
            },
    {
        let mut cur: usize = frame;
        loop
            invariant
                scope_wf(self@),
                cur < self@.len(),
                chain_frame(self@, frame as int, key@) == chain_frame(self@, cur as int, key@),
            decreases cur,
        {
            if self.get_own_state(cur, key).is_some() {
                return Some(cur);
            }
            match self.frames[cur].parent {
                Some(p) => {
                    proof {
                        assert(self@[cur as int].parent == Some(p as int));
                    }
                    cur = p;
                },
                None => {
                    proof {
                        assert(self@[cur as int].parent is None);
                    }
                    return None;
                },
            }
        }
    }

    /// The binding `key` resolves to through the live scope chain: the
    /// lookup walks from `frame` outward at call time, so it observes every
    /// mutation made to an outer binding after inner frames were created.
    pub fn get_state(&self, frame: usize, key: &String) -> (r: Option<State>)
        requires
            scope_wf(self@),
            frame < self@.len(),
        ensures
            match r {
                Some(st) => chain_lookup(self@, frame as int, key@) == Some(st@),
                None => chain_lookup(self@, frame as int, key@) is None,
            },
    {
        match self.resolve_frame(frame, key) {
            Some(f) => self.get_own_state(f, key),
            None => None,
        }
    }
}

} // verus!
