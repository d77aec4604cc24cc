//! Lending the pictures of WebGL contexts to the renderer.
//!
//! While the renderer reads a picture, its context counts as busy. Each lock that the renderer
//! takes counts once, and each is undone once: when the picture is given back, or at once where
//! there was none to lend.
use crate::fx::{fx_insert, fx_remove, fx_set_insert};
use crate::frame_queue::since;
use crate::profile::WINDOW_NS;
use rustc_hash::{FxHashMap, FxHashSet};
use std::collections::HashMap;
use vstd::prelude::*;

verus! {

broadcast use vstd::std_specs::hash::group_hash_axioms;

/// How often each context is being read by one painter. The WebGL threads look at the tables of
/// all painters.
#[derive(Debug)]
pub struct BusyContexts {
    pub painter_id: u64,
    pub counts: HashMap<u64, u64>,
}

/// The count of a context.
pub open spec fn busy_count(counts: Map<u64, u64>, context: u64) -> u64 {
    if counts.contains_key(context) {
        counts[context]
    } else {
        0
    }
}

/// The counts with one more reader.
pub open spec fn marked(counts: Map<u64, u64>, context: u64) -> Map<u64, u64> {
    counts.insert(context, (busy_count(counts, context) + 1) as u64)
}

/// The counts with one reader less, where there is one.
pub open spec fn unmarked(counts: Map<u64, u64>, context: u64) -> Map<u64, u64> {
    if busy_count(counts, context) > 0 {
        counts.insert(context, (busy_count(counts, context) - 1) as u64)
    } else {
        counts
    }
}

impl BusyContexts {
    pub fn new(painter_id: u64) -> (b: BusyContexts)
        ensures
            b.painter_id == painter_id,
            b.counts@ == Map::<u64, u64>::empty(),
    {
        BusyContexts { painter_id, counts: HashMap::new() }
    }

    /// One more reader.
    pub fn mark_busy(&mut self, context: u64)
        requires
            busy_count(old(self).counts@, context) < u64::MAX,
        ensures
            final(self).painter_id == old(self).painter_id,
            final(self).counts@ == marked(old(self).counts@, context),
    {
        let n: u64 = match self.counts.get(&context) {
            Some(n) => *n,
            None => 0,
        };
        let _ = self.counts.insert(context, n + 1);
    }

    /// One reader less. The answer says whether there was one.
    pub fn mark_not_busy(&mut self, context: u64) -> (was_busy: bool)
        ensures
            final(self).painter_id == old(self).painter_id,
            was_busy == (busy_count(old(self).counts@, context) > 0),
            final(self).counts@ == unmarked(old(self).counts@, context),
    {
        let n: u64 = match self.counts.get(&context) {
            Some(n) => *n,
            None => {
                return false;
            },
        };
        if n == 0 {
            return false;
        }
        let _ = self.counts.insert(context, n - 1);
        true
    }
}

/// What became of an attempt to lend a picture.
#[derive(Clone, Copy, Debug, PartialEq, Eq, Structural)]
pub enum LockOutcome {
    NoSwapChain,
    NoFrontBuffer,
    /// The picture could not be made a texture; it goes back to its swap chain.
    NoTexture,
    /// The texture of the host, its name for the renderer and its size.
    Texture { texture: u64, gl_texture: u32, width: i32, height: i32 },
}

/// What the renderer gets: a texture and its size, or nothing.
#[derive(Clone, Copy, Debug, PartialEq, Eq, Structural)]
pub struct LockedImage {
    pub gl_texture: Option<u32>,
    pub width: i32,
    pub height: i32,
}

/// What the host does after a lock.
#[derive(Clone, Copy, Debug, PartialEq, Eq, Structural)]
pub struct LockResult {
    pub image: LockedImage,
    /// The context is told that it is no longer read.
    pub finished: bool,
    /// The picture goes back to its swap chain.
    pub recycle: bool,
    /// The context is lent for the first time.
    pub first: bool,
}

pub struct WebGLExternalImages {
    pub painter_id: u64,
    /// The textures that are lent, by context, the latest last.
    pub locked_front_buffers: FxHashMap<u64, Vec<u64>>,
    pub logged_locked_surfaces: FxHashSet<u64>,
}

/// The lent textures as values.
pub open spec fn lent(m: Map<u64, Vec<u64>>) -> Map<u64, Seq<u64>> {
    Map::new(|k: u64| m.contains_key(k), |k: u64| m[k]@)
}

/// The textures that are lent of a context.
pub open spec fn lent_of(m: Map<u64, Seq<u64>>, context: u64) -> Seq<u64> {
    if m.contains_key(context) {
        m[context]
    } else {
        Seq::empty()
    }
}

/// The lent textures and the counts after a lock has ended: with a texture, which is lent, or
/// without, and then the context is no longer busy on its account.
pub open spec fn lock_ended(
    textures: Map<u64, Seq<u64>>,
    counts: Map<u64, u64>,
    context: u64,
    outcome: LockOutcome,
) -> (Map<u64, Seq<u64>>, Map<u64, u64>) {
    match outcome {
        LockOutcome::Texture { texture, .. } => (
            textures.insert(context, lent_of(textures, context).push(texture)),
            counts,
        ),
        _ => (textures, unmarked(counts, context)),
    }
}

/// The lent textures and the counts after an unlock, and the texture that comes back: the one that
/// was lent last.
pub open spec fn unlocked(
    textures: Map<u64, Seq<u64>>,
    counts: Map<u64, u64>,
    context: u64,
) -> (Map<u64, Seq<u64>>, Map<u64, u64>, Option<u64>) {
    if textures.contains_key(context) {
        let list = textures[context];
        (
            if list.len() == 1 {
                textures.remove(context)
            } else {
                textures.insert(context, list.drop_last())
            },
            unmarked(counts, context),
            Some(list.last()),
        )
    } else {
        (textures, counts, None)
    }
}

impl View for WebGLExternalImages {
    type V = Map<u64, Seq<u64>>;

    open spec fn view(&self) -> Map<u64, Seq<u64>> {
        lent(self.locked_front_buffers@)
    }
}

impl WebGLExternalImages {
    /// A context has an entry only while something of it is lent.
    pub open spec fn wf(self) -> bool {
        forall|c: u64| #[trigger] self@.contains_key(c) ==> self@[c].len() > 0
    }

    pub fn new(painter_id: u64) -> (w: WebGLExternalImages)
        ensures
            w.wf(),
            w@ == Map::<u64, Seq<u64>>::empty(),
            w.painter_id == painter_id,
            w.logged_locked_surfaces@ == Set::<u64>::empty(),
    {
        let w = WebGLExternalImages {
            painter_id,
            locked_front_buffers: FxHashMap::default(),
            logged_locked_surfaces: FxHashSet::default(),
        };
        assert(w@ =~= Map::<u64, Seq<u64>>::empty());
        w
    }

    /// The renderer locks a context: it counts as busy before its picture is taken.
    pub fn begin_lock(&self, context: u64, busy: &mut BusyContexts)
        requires
            old(busy).painter_id == self.painter_id,
            busy_count(old(busy).counts@, context) < u64::MAX,
        ensures
            final(busy).painter_id == self.painter_id,
            final(busy).counts@ == marked(old(busy).counts@, context),
    {
        busy.mark_busy(context);
    }

    /// The lock ends: with a texture, which is lent, or without, and then the context is no longer
    /// busy on its account.
    pub fn finish_lock(
        &mut self,
        context: u64,
        outcome: LockOutcome,
        busy: &mut BusyContexts,
    ) -> (r: LockResult)
        requires
            old(self).wf(),
            old(busy).painter_id == old(self).painter_id,
            busy_count(old(busy).counts@, context) > 0,
        ensures
            final(self).wf(),
            final(busy).painter_id == old(self).painter_id,
            final(self).painter_id == old(self).painter_id,
            (final(self)@, final(busy).counts@) == lock_ended(
                old(self)@,
                old(busy).counts@,
                context,
                outcome,
            ),
            match outcome {
                LockOutcome::Texture { texture, gl_texture, width, height } => {
                    &&& final(self).logged_locked_surfaces@
                        == old(self).logged_locked_surfaces@.insert(context)
                    &&& r == (LockResult {
                        image: LockedImage { gl_texture: Some(gl_texture), width, height },
                        finished: false,
                        recycle: false,
                        first: !old(self).logged_locked_surfaces@.contains(context),
                    })
                },
                _ => {
                    &&& final(self).logged_locked_surfaces@ == old(self).logged_locked_surfaces@
                    &&& r == (LockResult {
                        image: LockedImage { gl_texture: None, width: 0, height: 0 },
                        finished: true,
                        recycle: outcome == LockOutcome::NoTexture,
                        first: false,
                    })
                },
            },
    {
        match outcome {
            LockOutcome::Texture { texture, gl_texture, width, height } => {
                let ghost before = self.locked_front_buffers@;
                let mut list: Vec<u64> = match fx_remove(&mut self.locked_front_buffers, context) {
                    Some(list) => list,
                    None => Vec::new(),
                };
                list.push(texture);
                let _ = fx_insert(&mut self.locked_front_buffers, context, list);
                proof {
                    assert(self@ =~= lent(before).insert(
                        context,
                        lent_of(lent(before), context).push(texture),
                    ));
                    assert forall|c: u64| #[trigger]
                        self@.contains_key(c) implies self@[c].len() > 0 by {
                        if c != context {
                            assert(old(self)@.contains_key(c));
                        }
                    }
                }
                let first: bool = fx_set_insert(&mut self.logged_locked_surfaces, context);
                LockResult {
                    image: LockedImage { gl_texture: Some(gl_texture), width, height },
                    finished: false,
                    recycle: false,
                    first,
                }
            },
            _ => {
                let _ = busy.mark_not_busy(context);
                LockResult {
                    image: LockedImage { gl_texture: None, width: 0, height: 0 },
                    finished: true,
                    recycle: matches!(outcome, LockOutcome::NoTexture),
                    first: false,
                }
            },
        }
    }

    /// The renderer unlocks a context: the texture that was lent last is taken back, and the
    /// context is no longer busy on its account. `None` where nothing is lent: the lock found
    /// nothing to lend and was undone already.
    pub fn unlock(&mut self, context: u64, busy: &mut BusyContexts) -> (r: Option<u64>)
        requires
            old(self).wf(),
            old(busy).painter_id == old(self).painter_id,
        ensures
            final(self).wf(),
            final(busy).painter_id == old(self).painter_id,
            final(self).painter_id == old(self).painter_id,
            final(self).logged_locked_surfaces == old(self).logged_locked_surfaces,
            (final(self)@, final(busy).counts@, r) == unlocked(
                old(self)@,
                old(busy).counts@,
                context,
            ),
    {
        let ghost before = self.locked_front_buffers@;
        match fx_remove(&mut self.locked_front_buffers, context) {
            None => {
                proof {
                    assert(before.remove(context) =~= before);
                }
                None
            },
            Some(mut list) => {
                let ghost all = list@;
                proof {
                    assert(old(self)@.contains_key(context));
                    assert(all.len() > 0);
                }
                match list.pop() {
                    None => None,
                    Some(texture) => {
                        if list.len() > 0 {
                            let _ = fx_insert(&mut self.locked_front_buffers, context, list);
                            proof {
                                assert(self@ =~= lent(before).insert(context, all.drop_last()));
                            }
                        } else {
                            proof {
                                assert(self@ =~= lent(before).remove(context));
                            }
                        }
                        proof {
                            assert forall|c: u64| #[trigger]
                                self@.contains_key(c) implies self@[c].len() > 0 by {
                                if c != context {
                                    assert(old(self)@.contains_key(c));
                                }
                            }
                        }
                        let _ = busy.mark_not_busy(context);
                        Some(texture)
                    },
                }
            },
        }
    }
}

/// What the lending cost in a window of time, in nanoseconds.
#[derive(Clone, Copy, Debug, PartialEq, Eq, Structural)]
pub struct ExternalImageProfile {
    pub window_start: Option<u64>,
    pub locks: u64,
    pub lock_ns: u64,
    /// Taking the pictures from their swap chains.
    pub take_ns: u64,
    /// Making textures of them.
    pub create_ns: u64,
    /// The locks that found no picture.
    pub no_front_buffer: u64,
    pub unlocks: u64,
    pub unlock_ns: u64,
    /// Giving the textures up.
    pub destroy_ns: u64,
}

impl ExternalImageProfile {
    pub open spec fn empty(window_start: Option<u64>) -> ExternalImageProfile {
        ExternalImageProfile {
            window_start,
            locks: 0,
            lock_ns: 0,
            take_ns: 0,
            create_ns: 0,
            no_front_buffer: 0,
            unlocks: 0,
            unlock_ns: 0,
            destroy_ns: 0,
        }
    }

    /// An empty profile.
    pub fn new(window_start: Option<u64>) -> (p: ExternalImageProfile)
        ensures
            p == ExternalImageProfile::empty(window_start),
    {
        ExternalImageProfile {
            window_start,
            locks: 0,
            lock_ns: 0,
            take_ns: 0,
            create_ns: 0,
            no_front_buffer: 0,
            unlocks: 0,
            unlock_ns: 0,
            destroy_ns: 0,
        }
    }

    /// A lock and its parts.
    pub fn note_lock(&mut self, lock_ns: u64, take_ns: u64, create_ns: u64, no_front_buffer: bool)
        ensures
            *final(self) == (ExternalImageProfile {
                locks: old(self).locks.wrapping_add(1),
                lock_ns: old(self).lock_ns.wrapping_add(lock_ns),
                take_ns: old(self).take_ns.wrapping_add(take_ns),
                create_ns: old(self).create_ns.wrapping_add(create_ns),
                no_front_buffer: if no_front_buffer {
                    old(self).no_front_buffer.wrapping_add(1)
                } else {
                    old(self).no_front_buffer
                },
                ..*old(self)
            }),
    {
        self.locks = self.locks.wrapping_add(1);
        self.lock_ns = self.lock_ns.wrapping_add(lock_ns);
        self.take_ns = self.take_ns.wrapping_add(take_ns);
        self.create_ns = self.create_ns.wrapping_add(create_ns);
        if no_front_buffer {
            self.no_front_buffer = self.no_front_buffer.wrapping_add(1);
        }
    }

    /// An unlock and its part.
    pub fn note_unlock(&mut self, unlock_ns: u64, destroy_ns: u64)
        ensures
            *final(self) == (ExternalImageProfile {
                unlocks: old(self).unlocks.wrapping_add(1),
                unlock_ns: old(self).unlock_ns.wrapping_add(unlock_ns),
                destroy_ns: old(self).destroy_ns.wrapping_add(destroy_ns),
                ..*old(self)
            }),
    {
        self.unlocks = self.unlocks.wrapping_add(1);
        self.unlock_ns = self.unlock_ns.wrapping_add(unlock_ns);
        self.destroy_ns = self.destroy_ns.wrapping_add(destroy_ns);
    }

    /// Closes the window once it has lasted a second, and hands it out with its length. The first
    /// call opens it.
    pub fn maybe_emit(&mut self, now: u64) -> (r: Option<(ExternalImageProfile, u64)>)
        ensures
            ({
                let start = match old(self).window_start {
                    Some(t) => t,
                    None => now,
                };
                let window = since(now, start);
                let opened = ExternalImageProfile { window_start: Some(start), ..*old(self) };
                if window < WINDOW_NS {
                    r is None && *final(self) == opened
                } else {
                    r == Some((opened, window)) && *final(self)
                        == ExternalImageProfile::empty(Some(now))
                }
            }),
    {
        let start: u64 = match self.window_start {
            Some(t) => t,
            None => now,
        };
        self.window_start = Some(start);
        let window: u64 = now.saturating_sub(start);
        if window < WINDOW_NS {
            return None;
        }
        let closed = *self;
        *self = ExternalImageProfile::new(Some(now));
        Some((closed, window))
    }
}

/// A lock that lends nothing leaves every count and every lent texture as it was.
pub proof fn law_failed_lock_is_undone(
    textures: Map<u64, Seq<u64>>,
    counts: Map<u64, u64>,
    context: u64,
    outcome: LockOutcome,
    c: u64,
)
    requires
        busy_count(counts, context) < u64::MAX,
        outcome !is Texture,
    ensures
        ({
            let (after, undone) = lock_ended(textures, marked(counts, context), context, outcome);
            &&& after == textures
            &&& busy_count(undone, c) == busy_count(counts, c)
        }),
{
}

/// A lock and its unlock cancel out: of a context of which nothing is lent, whatever the lock
/// found, the counts and the lent textures are afterwards what they were before. In between the
/// context counts once more exactly where a texture is lent, and that texture comes back. A lock
/// that lent nothing leaves nothing for the unlock to do.
pub proof fn law_lock_and_unlock_cancel_out(
    textures: Map<u64, Seq<u64>>,
    counts: Map<u64, u64>,
    context: u64,
    outcome: LockOutcome,
)
    requires
        !textures.contains_key(context),
        busy_count(counts, context) < u64::MAX,
    ensures
        ({
            let n = busy_count(counts, context);
            let (lent, locked) = lock_ended(textures, marked(counts, context), context, outcome);
            let (after, restored, back) = unlocked(lent, locked, context);
            &&& match outcome {
                LockOutcome::Texture { texture, .. } => busy_count(locked, context) == n + 1
                    && back == Some(texture),
                _ => busy_count(locked, context) == n && back is None && (after, restored) == (
                    lent,
                    locked,
                ),
            }
            &&& after == textures
            &&& forall|c: u64| #[trigger] busy_count(restored, c) == busy_count(counts, c)
        }),
{
    let (lent, locked) = lock_ended(textures, marked(counts, context), context, outcome);
    let (after, restored, back) = unlocked(lent, locked, context);
    assert(after =~= textures);
}

/// As long as every lent texture counts its context as busy, giving one back finds the count above
/// nought, and the rest stays accounted for.
pub proof fn law_unlock_never_runs_short(
    textures: Map<u64, Seq<u64>>,
    counts: Map<u64, u64>,
    context: u64,
    c: u64,
)
    requires
        forall|k: u64| #[trigger]
            textures.contains_key(k) ==> 0 < textures[k].len() <= busy_count(counts, k),
        textures.contains_key(context),
    ensures
        busy_count(counts, context) > 0,
        ({
            let (rest, after, _) = unlocked(textures, counts, context);
            rest.contains_key(c) ==> 0 < rest[c].len() <= busy_count(after, c)
        }),
{
    assert(textures[context].len() <= busy_count(counts, context));
    if textures.contains_key(c) {
        assert(textures[c].len() <= busy_count(counts, c));
    }
}

/// A texture that was lent comes back at the next unlock of its context.
pub proof fn law_unlock_returns_what_was_lent(
    textures: Map<u64, Seq<u64>>,
    context: u64,
    texture: u64,
)
    ensures
        ({
            let with = textures.insert(context, lent_of(textures, context).push(texture));
            &&& with[context].last() == texture
            &&& with[context].drop_last() == lent_of(textures, context)
        }),
{
    assert(lent_of(textures, context).push(texture).drop_last() =~= lent_of(textures, context));
}

} // verus!
