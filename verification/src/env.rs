//! The scope-chain environment: an arena of frames indexed by handle.
//!
//! A frame owns a mapping from name to [`Value`] and an optional parent
//! handle; the handle of a parent is always strictly below the frame's own
//! handle, so chain walks terminate. Lookups walk from the given frame
//! outward and the first match wins; insertion (`set`) always targets the
//! given frame itself; assignment overwrites the nearest existing binding in
//! the chain and never creates one.
//!
//! The model of a frame keeps the bindings as a sequence of pairs in
//! insertion order, read through first-match lookup ([`frame_lookup`]), and
//! the model of the whole environment is the sequence of frame models.

use vstd::prelude::*;

use crate::ast::Value;
use crate::ast::ValueSpec;

verus! {

/// Model of one environment frame.
#[verifier::ext_equal]
pub struct FrameSpec {
    /// Handle of the parent frame, absent for a root frame.
    pub parent: Option<int>,
    /// The bindings, in insertion order, read by first match.
    pub binds: Seq<(Seq<char>, ValueSpec)>,
}

/// Model of an `Option<usize>` parent handle.
pub open spec fn parent_model(p: Option<usize>) -> Option<int> {
    match p {
        Some(i) => Some(i as int),
        None => None,
    }
}

/// First-match lookup of `name` among the bindings of one frame.
pub open spec fn frame_lookup(binds: Seq<(Seq<char>, ValueSpec)>, name: Seq<char>) -> Option<
    ValueSpec,
>
    decreases binds.len(),
{
    if binds.len() == 0 {
        None
    } else if binds[0].0 == name {
        Some(binds[0].1)
    } else {
        frame_lookup(binds.drop_first(), name)
    }
}

/// Insert-or-overwrite of `name` among the bindings of one frame: the first
/// binding of the name is replaced in place, and an unbound name is appended.
pub open spec fn frame_set(
    binds: Seq<(Seq<char>, ValueSpec)>,
    name: Seq<char>,
    v: ValueSpec,
) -> Seq<(Seq<char>, ValueSpec)>
    decreases binds.len(),
{
    if binds.len() == 0 {
        seq![(name, v)]
    } else if binds[0].0 == name {
        binds.update(0, (name, v))
    } else {
        seq![binds[0]] + frame_set(binds.drop_first(), name, v)
    }
}

/// Lookup of `name` along the scope chain that starts at frame `i`.
pub open spec fn lookup_chain(frames: Seq<FrameSpec>, i: int, name: Seq<char>) -> Option<ValueSpec>
    decreases i,
{
    if i < 0 || i >= frames.len() {
        None
    } else {
        match frame_lookup(frames[i].binds, name) {
            Some(v) => Some(v),
            None => match frames[i].parent {
                Some(p) => if 0 <= p < i {
                    lookup_chain(frames, p, name)
                } else {
                    None
                },
                None => None,
            },
        }
    }
}

/// Overwrite of the nearest binding of `name` along the chain that starts at
/// frame `i`: the updated environment, or `None` when no frame in the chain
/// binds the name.
pub open spec fn assign_chain(
    frames: Seq<FrameSpec>,
    i: int,
    name: Seq<char>,
    v: ValueSpec,
) -> Option<Seq<FrameSpec>>
    decreases i,
{
    if i < 0 || i >= frames.len() {
        None
    } else if frame_lookup(frames[i].binds, name) is Some {
        Some(
            frames.update(
                i,
                FrameSpec { parent: frames[i].parent, binds: frame_set(frames[i].binds, name, v) },
            ),
        )
    } else {
        match frames[i].parent {
            Some(p) => if 0 <= p < i {
                assign_chain(frames, p, name, v)
            } else {
                None
            },
            None => None,
        }
    }
}

/// The parent handle of a frame standing at handle `i` points strictly below
/// `i`.
pub open spec fn frame_parent_ok(fr: FrameSpec, i: int) -> bool {
    match fr.parent {
        Some(p) => 0 <= p < i,
        None => true,
    }
}

/// Well-formedness of the whole arena: every parent handle points strictly
/// below its frame.
pub open spec fn env_wf(frames: Seq<FrameSpec>) -> bool {
    forall|i: int| 0 <= i < frames.len() ==> frame_parent_ok(#[trigger] frames[i], i)
}

/// First-match lookup finds the first binding of the name.
proof fn lemma_frame_lookup_at(binds: Seq<(Seq<char>, ValueSpec)>, name: Seq<char>, j: int)
    requires
        0 <= j < binds.len(),
        binds[j].0 == name,
        forall|k: int| 0 <= k < j ==> (#[trigger] binds[k]).0 != name,
    ensures
        frame_lookup(binds, name) == Some(binds[j].1),
    decreases j,
{
    if j > 0 {
        let rest = binds.drop_first();
        assert(forall|k: int| 0 <= k < j - 1 ==> (#[trigger] rest[k]).0 != name);
        lemma_frame_lookup_at(rest, name, j - 1);
    }
}

/// A name bound by no binding of the frame is not found.
proof fn lemma_frame_lookup_none(binds: Seq<(Seq<char>, ValueSpec)>, name: Seq<char>)
    requires
        forall|k: int| 0 <= k < binds.len() ==> (#[trigger] binds[k]).0 != name,
    ensures
        frame_lookup(binds, name) is None,
    decreases binds.len(),
{
    if binds.len() > 0 {
        lemma_frame_lookup_none(binds.drop_first(), name);
    }
}

/// Insert-or-overwrite replaces the first binding of the name in place.
proof fn lemma_frame_set_at(
    binds: Seq<(Seq<char>, ValueSpec)>,
    name: Seq<char>,
    v: ValueSpec,
    j: int,
)
    requires
        0 <= j < binds.len(),
        binds[j].0 == name,
        forall|k: int| 0 <= k < j ==> (#[trigger] binds[k]).0 != name,
    ensures
        frame_set(binds, name, v) == binds.update(j, (name, v)),
    decreases j,
{
    if j == 0 {
        assert(frame_set(binds, name, v) =~= binds.update(0, (name, v)));
    } else {
        let rest = binds.drop_first();
        assert(forall|k: int| 0 <= k < j - 1 ==> (#[trigger] rest[k]).0 != name);
        lemma_frame_set_at(rest, name, v, j - 1);
        assert(frame_set(binds, name, v) =~= binds.update(j, (name, v)));
    }
}

/// Insert-or-overwrite of an unbound name appends it.
proof fn lemma_frame_set_none(binds: Seq<(Seq<char>, ValueSpec)>, name: Seq<char>, v: ValueSpec)
    requires
        forall|k: int| 0 <= k < binds.len() ==> (#[trigger] binds[k]).0 != name,
    ensures
        frame_set(binds, name, v) == binds.push((name, v)),
    decreases binds.len(),
{
    if binds.len() == 0 {
        assert(frame_set(binds, name, v) =~= binds.push((name, v)));
    } else {
        lemma_frame_set_none(binds.drop_first(), name, v);
        assert(frame_set(binds, name, v) =~= binds.push((name, v)));
    }
}

/// One frame of the scope chain: a set of name-to-value bindings and an
/// optional parent handle.
pub struct EnvFrame {
    pub(crate) parent: Option<usize>,
    pub(crate) binds: Vec<(String, Value)>,
}

impl DeepView for EnvFrame {
    type V = FrameSpec;

    closed spec fn deep_view(&self) -> FrameSpec {
        FrameSpec { parent: parent_model(self.parent), binds: self.binds.deep_view() }
    }
}

impl EnvFrame {
    /// A fresh frame with no bindings, chained under the given parent
    /// handle.
    pub fn new(parent: Option<usize>) -> (fr: EnvFrame)
        ensures
            fr.deep_view() == (FrameSpec { parent: parent_model(parent), binds: Seq::empty() }),
    {
        let fr = EnvFrame { parent, binds: Vec::new() };
        proof {
            assert(fr.deep_view().binds =~= Seq::<(Seq<char>, ValueSpec)>::empty());
        }
        fr
    }

    /// First-match lookup of `name` in this frame alone.
    fn frame_get(&self, name: &String) -> (r: Option<&Value>)
        ensures
            (match r {
                Some(v) => frame_lookup(self.deep_view().binds, name@) == Some(v.deep_view()),
                None => frame_lookup(self.deep_view().binds, name@) is None,
            }),
    {
        let ghost dbinds = self.deep_view().binds;
        let mut j: usize = 0;
        while j < self.binds.len()
            invariant
                j <= self.binds.len(),
                dbinds == self.deep_view().binds,
                dbinds.len() == self.binds.len(),
                forall|k: int| 0 <= k < j ==> (#[trigger] dbinds[k]).0 != name@,
            decreases self.binds.len() - j,
        {
            if self.binds[j].0 == *name {
                proof {
                    lemma_frame_lookup_at(dbinds, name@, j as int);
                }
                return Some(&self.binds[j].1);
            }
            j += 1;
        }
        proof {
            lemma_frame_lookup_none(dbinds, name@);
        }
        None
    }

    /// Insert-or-overwrite of `name` in this frame alone.
    fn frame_put(&mut self, name: &String, v: Value)
        ensures
            final(self).deep_view() == (FrameSpec {
                parent: old(self).deep_view().parent,
                binds: frame_set(old(self).deep_view().binds, name@, v.deep_view()),
            }),
    {
        let ghost dbinds = self.deep_view().binds;
        let mut j: usize = 0;
        while j < self.binds.len()
            invariant
                j <= self.binds.len(),
                *self == *old(self),
                dbinds == self.deep_view().binds,
                dbinds.len() == self.binds.len(),
                forall|k: int| 0 <= k < j ==> (#[trigger] dbinds[k]).0 != name@,
            decreases self.binds.len() - j,
        {
            if self.binds[j].0 == *name {
                proof {
                    lemma_frame_set_at(dbinds, name@, v.deep_view(), j as int);
                }
                self.binds[j] = (name.clone(), v);
                proof {
                    assert(self.deep_view().binds =~= dbinds.update(
                        j as int,
                        (name@, v.deep_view()),
                    ));
                    assert(self.deep_view() =~= (FrameSpec {
                        parent: old(self).deep_view().parent,
                        binds: frame_set(dbinds, name@, v.deep_view()),
                    }));
                }
                return ;
            }
            j += 1;
        }
        proof {
            lemma_frame_set_none(dbinds, name@, v.deep_view());
        }
        self.binds.push((name.clone(), v));
        proof {
            assert(self.deep_view().binds =~= dbinds.push((name@, v.deep_view())));
            assert(self.deep_view() =~= (FrameSpec {
                parent: old(self).deep_view().parent,
                binds: frame_set(dbinds, name@, v.deep_view()),
            }));
        }
    }
}

/// The environment: an arena of frames, indexed by handle.
pub struct Env {
    pub(crate) frames: Vec<EnvFrame>,
}

impl DeepView for Env {
    type V = Seq<FrameSpec>;

    closed spec fn deep_view(&self) -> Seq<FrameSpec> {
        self.frames.deep_view()
    }
}

impl Env {
    /// A fresh environment holding one empty root frame, handle `0`.
    pub fn new() -> (e: Env)
        ensures
            e.deep_view() == seq![FrameSpec { parent: None, binds: Seq::empty() }],
            env_wf(e.deep_view()),
    {
        let mut frames: Vec<EnvFrame> = Vec::new();
        frames.push(EnvFrame::new(None));
        let e = Env { frames };
        proof {
            assert(e.deep_view() =~= seq![FrameSpec { parent: None, binds: Seq::empty() }]);
        }
        e
    }

    /// The number of frames in the arena.
    pub fn frame_count(&self) -> (n: usize)
        ensures
            n == self.deep_view().len(),
    {
        self.frames.len()
    }

    /// Append a fresh empty frame under the given parent and return its
    /// handle.
    pub fn push_frame(&mut self, parent: Option<usize>) -> (idx: usize)
        requires
            env_wf(old(self).deep_view()),
            (match parent {
                Some(p) => p < old(self).deep_view().len(),
                None => true,
            }),
        ensures
            idx == old(self).deep_view().len(),
            final(self).deep_view() == old(self).deep_view().push(
                FrameSpec { parent: parent_model(parent), binds: Seq::empty() },
            ),
            env_wf(final(self).deep_view()),
    {
        let idx = self.frames.len();
        self.frames.push(EnvFrame::new(parent));
        proof {
            assert(self.deep_view() =~= old(self).deep_view().push(
                FrameSpec { parent: parent_model(parent), binds: Seq::empty() },
            ));
        }
        idx
    }

    /// Drop the most recently pushed frame.
    pub fn pop_frame(&mut self)
        requires
            old(self).deep_view().len() > 0,
        ensures
            final(self).deep_view() == old(self).deep_view().drop_last(),
            env_wf(old(self).deep_view()) ==> env_wf(final(self).deep_view()),
    {
        self.frames.pop();
        proof {
            assert(self.deep_view() =~= old(self).deep_view().drop_last());
        }
    }

    /// Lookup of `name` along the chain that starts at frame `cur`.
    pub fn get(&self, cur: usize, name: &String) -> (r: Option<&Value>)
        requires
            env_wf(self.deep_view()),
            cur < self.deep_view().len(),
        ensures
            (match r {
                Some(v) => lookup_chain(self.deep_view(), cur as int, name@) == Some(v.deep_view()),
                None => lookup_chain(self.deep_view(), cur as int, name@) is None,
            }),
    {
        let ghost deep = self.deep_view();
        let mut i: usize = cur;
        loop
            invariant
                env_wf(deep),
                deep == self.deep_view(),
                deep.len() == self.frames.len(),
                i < deep.len(),
                lookup_chain(deep, cur as int, name@) == lookup_chain(deep, i as int, name@),
            decreases i,
        {
            let fr = &self.frames[i];
            proof {
                assert(fr.deep_view() == deep[i as int]);
            }
            match fr.frame_get(name) {
                Some(v) => {
                    return Some(v);
                },
                None => {
                    match fr.parent {
                        Some(p) => {
                            proof {
                                assert(frame_parent_ok(deep[i as int], i as int));
                            }
                            i = p;
                        },
                        None => {
                            return None;
                        },
                    }
                },
            }
        }
    }

    /// Insert-or-overwrite of `name` in frame `cur` itself, never in an
    /// ancestor.
    pub fn set(&mut self, cur: usize, name: &String, v: Value)
        requires
            env_wf(old(self).deep_view()),
            cur < old(self).deep_view().len(),
        ensures
            final(self).deep_view() == old(self).deep_view().update(
                cur as int,
                FrameSpec {
                    parent: old(self).deep_view()[cur as int].parent,
                    binds: frame_set(
                        old(self).deep_view()[cur as int].binds,
                        name@,
                        v.deep_view(),
                    ),
                },
            ),
            env_wf(final(self).deep_view()),
    {
        let ghost deep = self.deep_view();
        let fr = &mut self.frames[cur];
        fr.frame_put(name, v);
        proof {
            assert(self.deep_view() =~= deep.update(
                cur as int,
                FrameSpec {
                    parent: deep[cur as int].parent,
                    binds: frame_set(deep[cur as int].binds, name@, v.deep_view()),
                },
            ));
            assert forall|k: int| 0 <= k < self.deep_view().len() implies frame_parent_ok(
                #[trigger] self.deep_view()[k],
                k,
            ) by {
                assert(frame_parent_ok(deep[k], k));
            }
        }
    }

    /// Overwrite of the nearest binding of `name` in the chain that starts
    /// at frame `cur`; `false` when no frame in the chain binds it.
    pub fn assign(&mut self, cur: usize, name: &String, v: Value) -> (r: bool)
        requires
            env_wf(old(self).deep_view()),
            cur < old(self).deep_view().len(),
        ensures
            r ==> assign_chain(old(self).deep_view(), cur as int, name@, v.deep_view()) == Some(
                final(self).deep_view(),
            ),
            !r ==> assign_chain(old(self).deep_view(), cur as int, name@, v.deep_view()) is None
                && final(self).deep_view() == old(self).deep_view(),
            env_wf(final(self).deep_view()),
            final(self).deep_view().len() == old(self).deep_view().len(),
    {
        let ghost deep = self.deep_view();
        let mut i: usize = cur;
        loop
            invariant
                env_wf(deep),
                deep == old(self).deep_view(),
                deep == self.deep_view(),
                deep.len() == self.frames.len(),
                i < deep.len(),
                assign_chain(deep, cur as int, name@, v.deep_view()) == assign_chain(
                    deep,
                    i as int,
                    name@,
                    v.deep_view(),
                ),
            decreases i,
        {
            let found = {
                let fr = &self.frames[i];
                proof {
                    assert(fr.deep_view() == deep[i as int]);
                }
                fr.frame_get(name).is_some()
            };
            if found {
                let fr = &mut self.frames[i];
                fr.frame_put(name, v);
                proof {
                    assert(self.deep_view() =~= deep.update(
                        i as int,
                        FrameSpec {
                            parent: deep[i as int].parent,
                            binds: frame_set(deep[i as int].binds, name@, v.deep_view()),
                        },
                    ));
                    assert forall|k: int| 0 <= k < self.deep_view().len() implies frame_parent_ok(
                        #[trigger] self.deep_view()[k],
                        k,
                    ) by {
                        assert(frame_parent_ok(deep[k], k));
                    }
                }
                return true;
            }
            let parent = self.frames[i].parent;
            proof {
                assert(self.frames@[i as int].deep_view() == deep[i as int]);
                assert(frame_parent_ok(deep[i as int], i as int));
            }
            match parent {
                Some(p) => {
                    i = p;
                },
                None => {
                    return false;
                },
            }
        }
    }
}

} // verus!
