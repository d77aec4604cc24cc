//! The end of a frame, step by step.
//!
//! First every surface decides what it does: present, keep the frame back, or ask for another
//! storage. Then the flip chains that were asked for are made, those whose extent has changed
//! are made anew, and the demotions are carried out. At last the visuals are put in order, unless
//! the device is gone.
use vstd::prelude::*;

use crate::dcomp_compositor::DCompNativeCompositor;
use crate::geometry::{DeviceIntPoint, DeviceIntRect};
use crate::surface::{
    size_in_range, size_of_extent, DemotionPlan, EndFrameAction, FrameContext, StorageMode,
    SwapChainStorage, DEMOTE_COOLDOWN_CAP,
};
use crate::surface_entry::{LastPlacement, SurfaceEntry, SurfaceStorage};
use crate::table::{table_get_mut, table_ids};
use crate::tiles::TileIndex;

verus! {

broadcast use vstd::std_specs::hash::group_hash_axioms;

/// How far the end of a frame has come.
#[derive(Debug)]
pub struct EndFrame {
    pub mode: StorageMode,
    pub resize_active: bool,
    pub ids: Vec<u64>,
    pub next_id: usize,
    pub promote: Vec<(u64, DeviceIntRect)>,
    pub next_promote: usize,
    pub regen: Vec<(u64, DeviceIntRect)>,
    pub next_regen: usize,
    pub demote: Vec<u64>,
    pub next_demote: usize,
}

/// The next thing to do at the end of a frame.
#[derive(Debug)]
pub enum EndFrameStep {
    /// Carry the action out, report its outcome, and finish the surface.
    Surface { id: u64, action: EndFrameAction },
    /// Make a flip chain for the extent and report it as promotion.
    MakeChain { id: u64, extent: DeviceIntRect, is_opaque: bool },
    /// Make a flip chain for the extent and report it as regeneration.
    RemakeChain { id: u64, extent: DeviceIntRect, is_opaque: bool },
    /// Seed the virtual surface and report the demotion.
    Demote { id: u64, plan: DemotionPlan },
    /// The surface of this request is gone.
    Skip,
    /// Show these visuals, from bottom to top, and commit.
    Compose { visuals: Vec<u64> },
    /// The device is gone: nothing is shown, committed or counted.
    Over,
}

/// Where the visual has to be placed after its content was exchanged.
#[derive(Clone, Copy, PartialEq, Eq, Debug)]
pub struct Reattach {
    pub placement: Option<LastPlacement>,
    pub virtual_offset: DeviceIntPoint,
    pub anchor: DeviceIntPoint,
}

/// The extent of every request has a size within range.
pub open spec fn extents_fit(requests: Seq<(u64, DeviceIntRect)>) -> bool {
    forall|i: int| 0 <= i < requests.len() ==> size_in_range((#[trigger] requests[i]).1)
}

impl EndFrame {
    pub open spec fn wf(self) -> bool {
        &&& self.next_id <= self.ids@.len()
        &&& self.next_promote <= self.promote@.len()
        &&& self.next_regen <= self.regen@.len()
        &&& self.next_demote <= self.demote@.len()
        &&& extents_fit(self.promote@)
        &&& extents_fit(self.regen@)
    }

    /// The end of the frame is at its start: every surface is still to decide, once.
    pub open spec fn begun(self, c: DCompNativeCompositor) -> bool {
        &&& self.ids@.no_duplicates()
        &&& self.ids@.to_set() == c.surfaces@.dom()
        &&& self.next_id == 0
        &&& self.promote@.len() == 0
        &&& self.regen@.len() == 0
        &&& self.demote@.len() == 0
        &&& self.next_promote == 0
        &&& self.next_regen == 0
        &&& self.next_demote == 0
    }

    /// The frame as the surfaces see it.
    pub open spec fn context(self, c: DCompNativeCompositor) -> FrameContext {
        FrameContext {
            frame_counter: c.frame_counter,
            mode: self.mode,
            resize_active: self.resize_active,
            promote_disabled: c.promote_disabled,
            regen_disabled: c.regen_disabled,
            has_factory: c.has_factory,
        }
    }

    /// The requests after the surface `id` has decided on `action`.
    pub open spec fn queued(self, id: u64, action: EndFrameAction, after: EndFrame) -> bool {
        &&& after.promote@ == (match action {
            EndFrameAction::Promote(e) => self.promote@.push((id, e)),
            _ => self.promote@,
        })
        &&& after.regen@ == (match action {
            EndFrameAction::Regenerate(e) => self.regen@.push((id, e)),
            _ => self.regen@,
        })
        &&& after.demote@ == (match action {
            EndFrameAction::Demote => self.demote@.push(id),
            EndFrameAction::Withhold { demote } if demote => self.demote@.push(id),
            _ => self.demote@,
        })
        &&& after == (EndFrame {
            promote: after.promote,
            regen: after.regen,
            demote: after.demote,
            ..self
        })
    }

    /// A present that failed asks for a demotion.
    pub open spec fn present_noted(self, id: u64, presented: bool, after: EndFrame) -> bool {
        &&& after.demote@ == (if presented {
            self.demote@
        } else {
            self.demote@.push(id)
        })
        &&& after == (EndFrame { demote: after.demote, ..self })
    }

    fn enqueue(&mut self, id: u64, action: &EndFrameAction)
        requires
            old(self).wf(),
            action matches EndFrameAction::Promote(e) ==> size_in_range(*e),
            action matches EndFrameAction::Regenerate(e) ==> size_in_range(*e),
        ensures
            final(self).wf(),
            old(self).queued(id, *action, *final(self)),
    {
        match action {
            EndFrameAction::Promote(e) => {
                self.promote.push((id, *e));
            },
            EndFrameAction::Regenerate(e) => {
                self.regen.push((id, *e));
            },
            EndFrameAction::Demote => {
                self.demote.push(id);
            },
            EndFrameAction::Withhold { demote } => {
                if *demote {
                    self.demote.push(id);
                }
            },
            _ => {},
        }
    }
}

impl DCompNativeCompositor {
    /// Starts the end of a frame. Returns the run and whether the converter has to end its
    /// batch first.
    pub fn begin_end_frame(&mut self, mode: StorageMode, resize_active: bool) -> (r: (
        EndFrame,
        bool,
    ))
        requires
            old(self).wf(),
        ensures
            final(self).wf(),
            *final(self) == (DCompNativeCompositor { external_batch_active: false, ..*old(self) }),
            r.1 == old(self).batch_to_end(),
            r.0.wf(),
            r.0.mode == mode,
            r.0.resize_active == resize_active,
            r.0.begun(*final(self)),
    {
        let end_batch = self.close_external_batch();
        let ids = table_ids(&self.surfaces);
        let run = EndFrame {
            mode,
            resize_active,
            ids,
            next_id: 0,
            promote: Vec::new(),
            next_promote: 0,
            regen: Vec::new(),
            next_regen: 0,
            demote: Vec::new(),
            next_demote: 0,
        };
        (run, end_batch)
    }

    /// What the next step is, and what it leaves the compositor and the run as.
    pub open spec fn stepped(
        self,
        run: EndFrame,
        step: EndFrameStep,
        after: DCompNativeCompositor,
        run_after: EndFrame,
    ) -> bool {
        if run.next_id < run.ids@.len() {
            let id = run.ids@[run.next_id as int];
            let passed = EndFrame { next_id: (run.next_id + 1) as usize, ..run };
            if self.surfaces@.contains_key(id) {
                &&& step matches EndFrameStep::Surface { id: i, action }
                &&& i == id
                &&& self.surfaces@[id].planned(run.context(self), action, after.surfaces@[id])
                &&& after.surfaces@ == self.surfaces@.insert(id, after.surfaces@[id])
                &&& after == (DCompNativeCompositor { surfaces: after.surfaces, ..self })
                &&& passed.queued(id, action, run_after)
            } else {
                step is Skip && after == self && run_after == passed
            }
        } else if run.next_promote < run.promote@.len() {
            let (id, extent) = run.promote@[run.next_promote as int];
            &&& after == self
            &&& run_after == (EndFrame { next_promote: (run.next_promote + 1) as usize, ..run })
            &&& step == (if self.surfaces@.contains_key(id) {
                EndFrameStep::MakeChain { id, extent, is_opaque: self.surfaces@[id].is_opaque }
            } else {
                EndFrameStep::Skip
            })
        } else if run.next_regen < run.regen@.len() {
            let (id, extent) = run.regen@[run.next_regen as int];
            &&& after == self
            &&& run_after == (EndFrame { next_regen: (run.next_regen + 1) as usize, ..run })
            &&& step == (if self.surfaces@.contains_key(id) {
                EndFrameStep::RemakeChain { id, extent, is_opaque: self.surfaces@[id].is_opaque }
            } else {
                EndFrameStep::Skip
            })
        } else if self.alive && run.next_demote < run.demote@.len() {
            let id = run.demote@[run.next_demote as int];
            &&& run_after == (EndFrame { next_demote: (run.next_demote + 1) as usize, ..run })
            &&& if self.surfaces@.contains_key(id) && self.surfaces@[id].storage is SwapChain {
                let e = self.surfaces@[id];
                let entry = after.surfaces@[id];
                &&& step matches EndFrameStep::Demote { id: i, plan }
                &&& i == id
                &&& entry.storage is SwapChain
                &&& (e.storage->SwapChain_0).demotion_planned(
                    e.tiles.tiles@,
                    e.virtual_offset,
                    e.tile_size,
                    run.resize_active,
                    self.has_context,
                    plan,
                    entry.storage->SwapChain_0,
                )
                &&& entry == (SurfaceEntry { storage: entry.storage, ..e })
                &&& after.surfaces@ == self.surfaces@.insert(id, entry)
                &&& after == (DCompNativeCompositor { surfaces: after.surfaces, ..self })
            } else {
                &&& step is Skip
                &&& after.surfaces@ == self.surfaces@
                &&& after == (DCompNativeCompositor { surfaces: after.surfaces, ..self })
            }
        } else if self.alive {
            &&& after == self
            &&& run_after == run
            &&& step matches EndFrameStep::Compose { visuals }
            &&& visuals@ == self.shown_visuals(self.frame_surfaces@)
        } else {
            after == self && run_after == run && step is Over
        }
    }

    /// Says what comes next at the end of a frame.
    pub fn next_step(&mut self, run: &mut EndFrame) -> (step: EndFrameStep)
        requires
            old(self).wf(),
            old(self).fits(),
            old(run).wf(),
        ensures
            final(self).wf(),
            final(run).wf(),
            old(self).stepped(*old(run), step, *final(self), *final(run)),
    {
        if run.next_id < run.ids.len() {
            let id: u64 = run.ids[run.next_id];
            run.next_id = run.next_id + 1;
            let ctx = FrameContext {
                frame_counter: self.frame_counter,
                mode: run.mode,
                resize_active: run.resize_active,
                promote_disabled: self.promote_disabled,
                regen_disabled: self.regen_disabled,
                has_factory: self.has_factory,
            };
            return match table_get_mut(&mut self.surfaces, id) {
                Some(entry) => {
                    let action = entry.plan_end_frame(&ctx);
                    run.enqueue(id, &action);
                    EndFrameStep::Surface { id, action }
                },
                None => EndFrameStep::Skip,
            };
        }
        if run.next_promote < run.promote.len() {
            let (id, extent) = run.promote[run.next_promote];
            run.next_promote = run.next_promote + 1;
            return match self.surfaces.get(&id) {
                Some(entry) => EndFrameStep::MakeChain { id, extent, is_opaque: entry.is_opaque },
                None => EndFrameStep::Skip,
            };
        }
        if run.next_regen < run.regen.len() {
            let (id, extent) = run.regen[run.next_regen];
            run.next_regen = run.next_regen + 1;
            return match self.surfaces.get(&id) {
                Some(entry) => EndFrameStep::RemakeChain { id, extent, is_opaque: entry.is_opaque },
                None => EndFrameStep::Skip,
            };
        }
        if self.alive && run.next_demote < run.demote.len() {
            let id: u64 = run.demote[run.next_demote];
            run.next_demote = run.next_demote + 1;
            let has_context = self.has_context;
            let mut step = EndFrameStep::Skip;
            if let Some(entry) = table_get_mut(&mut self.surfaces, id) {
                if let SurfaceStorage::SwapChain(sc) = &mut entry.storage {
                    let plan = sc.plan_demotion(
                        &entry.tiles,
                        entry.virtual_offset,
                        entry.tile_size,
                        run.resize_active,
                        has_context,
                    );
                    step = EndFrameStep::Demote { id, plan };
                }
            }
            proof {
                if old(self).surfaces@.contains_key(id) && !(old(self).surfaces@[id].storage is SwapChain) {
                    assert(self.surfaces@ =~= old(self).surfaces@);
                }
            }
            return step;
        }
        if !self.alive {
            return EndFrameStep::Over;
        }
        EndFrameStep::Compose { visuals: self.frame_visuals() }
    }

    /// The compositor and the run after a full present: whether it was shown, whether the flip chain
    /// was attached, and whether partial presents work.
    pub open spec fn full_presented(
        self,
        run: EndFrame,
        id: u64,
        presented: bool,
        content_set: bool,
        partial_ok: bool,
        after: DCompNativeCompositor,
        run_after: EndFrame,
    ) -> bool {
        let e = self.surfaces@[id];
        let entry = after.surfaces@[id];
        &&& entry.storage is SwapChain
        &&& (e.storage->SwapChain_0).after_full_present(
            presented,
            content_set,
            partial_ok,
            entry.storage->SwapChain_0,
        )
        &&& entry == (SurfaceEntry { storage: entry.storage, ..e })
        &&& after.surfaces@ == self.surfaces@.insert(id, entry)
        &&& after == (DCompNativeCompositor { surfaces: after.surfaces, ..self })
        &&& run.present_noted(id, presented, run_after)
    }

    /// The same after a partial present.
    pub open spec fn partially_presented(
        self,
        run: EndFrame,
        id: u64,
        presented: bool,
        after: DCompNativeCompositor,
        run_after: EndFrame,
    ) -> bool {
        let e = self.surfaces@[id];
        let entry = after.surfaces@[id];
        &&& entry.storage is SwapChain
        &&& (e.storage->SwapChain_0).after_partial_present(presented, entry.storage->SwapChain_0)
        &&& entry == (SurfaceEntry { storage: entry.storage, ..e })
        &&& after.surfaces@ == self.surfaces@.insert(id, entry)
        &&& after == (DCompNativeCompositor { surfaces: after.surfaces, ..self })
        &&& run.present_noted(id, presented, run_after)
    }

    /// The compositor after the frame of a surface was closed.
    pub open spec fn surface_finished(self, id: u64, after: DCompNativeCompositor) -> bool {
        &&& after == (DCompNativeCompositor { surfaces: after.surfaces, ..self })
        &&& if self.surfaces@.contains_key(id) && self.surfaces@[id].storage is SwapChain {
            let e = self.surfaces@[id];
            after.surfaces@ == self.surfaces@.insert(
                id,
                SurfaceEntry {
                    storage: SurfaceStorage::SwapChain(
                        SwapChainStorage {
                            frame_pbuffer: None,
                            drawn_this_frame: false,
                            ..e.storage->SwapChain_0
                        },
                    ),
                    ..e
                },
            )
        } else {
            after.surfaces@ == self.surfaces@
        }
    }

    /// The compositor after a flip chain was made for a promotion, or could not be made.
    pub open spec fn promotion_settled(
        self,
        id: u64,
        extent: DeviceIntRect,
        created: Option<u64>,
        after: DCompNativeCompositor,
    ) -> bool {
        match created {
            None => after == (DCompNativeCompositor {
                promote_disabled: true,
                ..self
            }),
            Some(chain) => {
                let e = self.surfaces@[id];
                let entry = after.surfaces@[id];
                &&& after.surfaces@ == self.surfaces@.insert(id, entry)
                &&& after == (DCompNativeCompositor {
                    surfaces: after.surfaces,
                    ..self
                })
                &&& entry == (SurfaceEntry {
                    storage: entry.storage,
                    promote_streak: 0,
                    ..e
                })
                &&& entry.storage matches SurfaceStorage::SwapChain(sc) && sc.swapchain == chain
                    && sc.anchor == extent.min && sc.size == size_of_extent(extent)
                    && sc.fallback_virtual == Some(e.storage->virtual_surface)
                    && sc.displayed_anchor is None && !sc.content_attached
                    && !sc.drawn_this_frame && !sc.partial_present && !sc.demote_blocked
                    && sc.withheld_frames == 0 && sc.frame_pbuffer is None && sc.coverage@
                    == Set::<TileIndex>::empty() && sc.frame_dirty@.len() == 0
                    && sc.stale.missed().len() == 0
            },
        }
    }

    /// The compositor after a flip chain was made anew, or could not be made.
    pub open spec fn regeneration_settled(
        self,
        id: u64,
        extent: DeviceIntRect,
        created: Option<u64>,
        after: DCompNativeCompositor,
    ) -> bool {
        match created {
            None => after == (DCompNativeCompositor {
                regen_disabled: true,
                ..self
            }),
            Some(chain) => {
                let e = self.surfaces@[id];
                let entry = after.surfaces@[id];
                let sc = entry.storage->SwapChain_0;
                &&& after.surfaces@ == self.surfaces@.insert(id, entry)
                &&& after == (DCompNativeCompositor {
                    surfaces: after.surfaces,
                    ..self
                })
                &&& entry == (SurfaceEntry { storage: entry.storage, ..e })
                &&& entry.storage is SwapChain
                &&& sc.coverage@ == Set::<TileIndex>::empty()
                &&& sc.frame_dirty@ == Seq::<DeviceIntRect>::empty()
                &&& sc.stale.missed() == Seq::<DeviceIntRect>::empty()
                &&& sc == (SwapChainStorage {
                    swapchain: chain,
                    anchor: extent.min,
                    size: size_of_extent(extent),
                    coverage: sc.coverage,
                    frame_pbuffer: None,
                    drawn_this_frame: false,
                    content_attached: false,
                    withheld_frames: 0,
                    frame_dirty: sc.frame_dirty,
                    stale: sc.stale,
                    partial_present: false,
                    demote_blocked: false,
                    ..e.storage->SwapChain_0
                })
            },
        }
    }

    /// The compositor after a virtual surface was seeded for a demotion, or could not be.
    pub open spec fn demotion_settled(
        self,
        run: EndFrame,
        id: u64,
        seeded: Option<u64>,
        after: DCompNativeCompositor,
    ) -> bool {
        &&& after.surfaces@ == self.surfaces@.insert(id, after.surfaces@[id])
        &&& match seeded {
            Some(v) => self.surfaces@[id].demoted(
                v,
                run.resize_active,
                self.frame_counter,
                after.surfaces@[id],
            ),
            None => after.surfaces@[id] == self.surfaces@[id],
        }
        &&& after == (DCompNativeCompositor { surfaces: after.surfaces, ..self })
    }

    fn settle_full(&mut self, id: u64, presented: bool, content_set: bool, partial_ok: bool) -> (r:
        Option<Reattach>)
        requires
            old(self).wf(),
            old(self).surfaces@.contains_key(id),
            old(self).surfaces@[id].storage is SwapChain,
        ensures
            final(self).wf(),
            ({
                let e = old(self).surfaces@[id];
                let before = e.storage->SwapChain_0;
                let entry = final(self).surfaces@[id];
                &&& entry.storage is SwapChain
                &&& before.after_full_present(
                    presented,
                    content_set,
                    partial_ok,
                    entry.storage->SwapChain_0,
                )
                &&& entry == (SurfaceEntry { storage: entry.storage, ..e })
                &&& final(self).surfaces@ == old(self).surfaces@.insert(id, entry)
                &&& r == (if presented && !before.content_attached && content_set {
                    Some(
                        Reattach {
                            placement: e.last_placement,
                            virtual_offset: e.virtual_offset,
                            anchor: before.anchor,
                        },
                    )
                } else {
                    None
                })
            }),
            *final(self) == (DCompNativeCompositor {
                surfaces: final(self).surfaces,
                ..*old(self)
            }),
    {
        let mut result: Option<Reattach> = None;
        if let Some(entry) = table_get_mut(&mut self.surfaces, id) {
            if let SurfaceStorage::SwapChain(sc) = &mut entry.storage {
                if sc.settle_full_present(presented, content_set, partial_ok) {
                    result =
                    Some(
                        Reattach {
                            placement: entry.last_placement,
                            virtual_offset: entry.virtual_offset,
                            anchor: sc.anchor,
                        },
                    );
                }
            }
        }
        result
    }

    /// Takes in the outcome of a full present: whether it was shown, whether the flip chain was
    /// attached to the visual, and whether partial presents work. A failure asks for a
    /// demotion. Returns where the visual has to be placed where its content was exchanged.
    pub fn full_present_done(
        &mut self,
        run: &mut EndFrame,
        id: u64,
        presented: bool,
        content_set: bool,
        partial_ok: bool,
    ) -> (r: Option<Reattach>)
        requires
            old(self).wf(),
            old(run).wf(),
            old(self).surfaces@.contains_key(id),
            old(self).surfaces@[id].storage is SwapChain,
        ensures
            final(self).wf(),
            final(run).wf(),
            ({
                let e = old(self).surfaces@[id];
                let before = e.storage->SwapChain_0;
                r == (if presented && !before.content_attached && content_set {
                    Some(
                        Reattach {
                            placement: e.last_placement,
                            virtual_offset: e.virtual_offset,
                            anchor: before.anchor,
                        },
                    )
                } else {
                    None
                })
            }),
            old(self).full_presented(
                *old(run),
                id,
                presented,
                content_set,
                partial_ok,
                *final(self),
                *final(run),
            ),
    {
        let result = self.settle_full(id, presented, content_set, partial_ok);
        if !presented {
            run.demote.push(id);
        }
        result
    }

    /// Takes in the outcome of a partial present. A failure asks for a demotion.
    pub fn partial_present_done(&mut self, run: &mut EndFrame, id: u64, presented: bool)
        requires
            old(self).wf(),
            old(run).wf(),
            old(self).surfaces@.contains_key(id),
            old(self).surfaces@[id].storage is SwapChain,
        ensures
            final(self).wf(),
            final(run).wf(),
            old(self).partially_presented(*old(run), id, presented, *final(self), *final(run)),
    {
        if let Some(entry) = table_get_mut(&mut self.surfaces, id) {
            if let SurfaceStorage::SwapChain(sc) = &mut entry.storage {
                sc.settle_partial_present(presented);
            }
        }
        if !presented {
            run.demote.push(id);
        }
    }

    /// Closes the frame of a surface. Returns the drawing surface of its frame, which is
    /// destroyed.
    pub fn finish_surface(&mut self, id: u64) -> (pbuffer: Option<u64>)
        requires
            old(self).wf(),
        ensures
            final(self).wf(),
            old(self).surface_finished(id, *final(self)),
            pbuffer == (if old(self).surfaces@.contains_key(id)
                && old(self).surfaces@[id].storage is SwapChain {
                (old(self).surfaces@[id].storage->SwapChain_0).frame_pbuffer
            } else {
                None
            }),
    {
        let mut pbuffer: Option<u64> = None;
        if let Some(entry) = table_get_mut(&mut self.surfaces, id) {
            if let SurfaceStorage::SwapChain(sc) = &mut entry.storage {
                pbuffer = sc.finish_frame();
            }
        }
        proof {
            if old(self).surfaces@.contains_key(id)
                && !(old(self).surfaces@[id].storage is SwapChain) {
                assert(self.surfaces@ =~= old(self).surfaces@);
            }
        }
        pbuffer
    }

    /// Takes in the flip chain that was made for a promotion. Where it could not be made, no
    /// surface is promoted any more.
    pub fn promotion_done(&mut self, id: u64, extent: DeviceIntRect, created: Option<u64>)
        requires
            old(self).wf(),
            old(self).surfaces@.contains_key(id),
            old(self).surfaces@[id].storage is Virtual,
            size_in_range(extent),
        ensures
            final(self).wf(),
            old(self).promotion_settled(id, extent, created, *final(self)),
    {
        match created {
            None => {
                self.promote_disabled = true;
            },
            Some(chain) => {
                if let Some(entry) = table_get_mut(&mut self.surfaces, id) {
                    entry.promote(chain, extent);
                }
            },
        }
    }

    /// Takes in the flip chain that was made anew for a changed extent. Where it could not be
    /// made, the old one stays and none is made anew any more.
    pub fn regeneration_done(&mut self, id: u64, extent: DeviceIntRect, created: Option<u64>)
        requires
            old(self).wf(),
            old(self).surfaces@.contains_key(id),
            old(self).surfaces@[id].storage is SwapChain,
            size_in_range(extent),
        ensures
            final(self).wf(),
            old(self).regeneration_settled(id, extent, created, *final(self)),
    {
        match created {
            None => {
                self.regen_disabled = true;
            },
            Some(chain) => {
                if let Some(entry) = table_get_mut(&mut self.surfaces, id) {
                    if let SurfaceStorage::SwapChain(sc) = &mut entry.storage {
                        sc.regenerate(chain, extent);
                    }
                }
            },
        }
    }

    /// Takes in the outcome of seeding a virtual surface for a demotion.
    pub fn demotion_done(&mut self, run: &EndFrame, id: u64, seeded: Option<u64>)
        requires
            old(self).wf(),
            old(self).surfaces@.contains_key(id),
            old(self).frame_counter + DEMOTE_COOLDOWN_CAP <= u64::MAX,
        ensures
            final(self).wf(),
            old(self).demotion_settled(*run, id, seeded, *final(self)),
    {
        let frame_counter: u64 = self.frame_counter;
        if let Some(entry) = table_get_mut(&mut self.surfaces, id) {
            entry.settle_demotion(seeded, run.resize_active, frame_counter);
        }
    }
}

/// While the window is being resized, no surface is promoted, presented or made anew: every flip
/// chain is demoted.
pub proof fn law_resize_demotes_every_chain(
    c: DCompNativeCompositor,
    run: EndFrame,
    step: EndFrameStep,
    after: DCompNativeCompositor,
    run_after: EndFrame,
)
    requires
        run.resize_active,
        run.next_id < run.ids@.len(),
        c.surfaces@.contains_key(run.ids@[run.next_id as int]),
        c.stepped(run, step, after, run_after),
    ensures
        run_after.promote@ == run.promote@,
        run_after.regen@ == run.regen@,
        c.surfaces@[run.ids@[run.next_id as int]].storage is SwapChain <==> (step
            matches EndFrameStep::Surface { id, action } && action is Demote),
        c.surfaces@[run.ids@[run.next_id as int]].storage is SwapChain ==> run_after.demote@
            == run.demote@.push(run.ids@[run.next_id as int]),
{
    let e = c.surfaces@[run.ids@[run.next_id as int]];
    if let EndFrameStep::Surface { id, action } = step {
        assert(e.planned(run.context(c), action, after.surfaces@[id]));
    }
}

/// A measure of what is left to do: a surface counts twice, since it may add a request.
pub open spec fn steps_left(run: EndFrame) -> int {
    2 * (run.ids@.len() - run.next_id) + (run.promote@.len() - run.next_promote) + (
    run.regen@.len() - run.next_regen) + (run.demote@.len() - run.next_demote)
}

/// Each step but the last uses up a surface or a request, so a frame ends after finitely many.
pub proof fn law_end_frame_terminates(
    c: DCompNativeCompositor,
    run: EndFrame,
    step: EndFrameStep,
    after: DCompNativeCompositor,
    run_after: EndFrame,
)
    requires
        run.wf(),
        c.stepped(run, step, after, run_after),
        !(step is Compose),
        !(step is Over),
    ensures
        0 <= steps_left(run_after) < steps_left(run),
{
    assert(run.ids@.len() == run.ids.len());
    assert(run.promote@.len() == run.promote.len());
    assert(run.regen@.len() == run.regen.len());
    assert(run.demote@.len() == run.demote.len());
    if run.next_id < run.ids@.len() {
        let id = run.ids@[run.next_id as int];
        if c.surfaces@.contains_key(id) {
            if let EndFrameStep::Surface { id: i, action } = step {
                let passed = EndFrame { next_id: (run.next_id + 1) as usize, ..run };
                assert(passed.queued(id, action, run_after));
            }
        }
    }
}

} // verus!
