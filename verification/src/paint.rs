//! The painters of an engine, and which of them paint a web view.
//!
//! A web view is painted by the painter that its id names, or, on a wall, by several: each paints
//! its part of the web view to a window of its own.
use crate::geometry::DeviceIntSize;
use crate::idmap::{contains_id, copy_ids, lemma_entry, lemma_find_entry, IdMap};
use crate::pacing::{
    CoalescedView, CoalescedWallFrameRequest, WallFramePacingBlockTally, WallFramePacingConfig,
};
use crate::painter::{Painter, PainterView, WebViewView};
use crate::seqs::kept;
use crate::table::table_ids;
use crate::wall_frame::{CoordinatorView, WallFrameCoordinator, WallFrameDelayInjection};
use std::collections::HashMap;
use vstd::prelude::*;

verus! {

broadcast use vstd::std_specs::hash::group_hash_axioms;

/// How far the engine's shutdown is.
#[derive(Clone, Copy, Debug, PartialEq, Eq, Structural)]
pub enum ShutdownState {
    NotShuttingDown,
    ShuttingDown,
    FinishedShuttingDown,
}

/// The painter that a web view's id names: its upper half.
pub open spec fn painter_of(webview_id: u64) -> u64 {
    webview_id / 0x1_0000_0000
}

/// The painter that a web view's id names.
pub fn own_painter(webview_id: u64) -> (p: u64)
    ensures
        p == painter_of(webview_id),
{
    webview_id / 0x1_0000_0000
}

pub struct Paint {
    pub painters: IdMap<Painter>,
    /// The painters of each web view, the primary one first.
    pub webview_painter_targets: HashMap<u64, Vec<u64>>,
    /// The id of the last logical frame.
    pub next_logical_frame_id: u64,
    pub wall_frame_coordinator: WallFrameCoordinator,
    pub wall_frame_pacing_config: WallFramePacingConfig,
    /// The request that is held for each web view.
    pub coalesced_wall_frame_requests: HashMap<u64, CoalescedWallFrameRequest>,
    pub last_wall_frame_issue_at: HashMap<u64, u64>,
    pub wall_frame_pacing_next_wake_at: Option<u64>,
    pub wall_frame_pacing_coalesced_count: u64,
    pub wall_frame_pacing_released_count: u64,
    pub wall_frame_pacing_block_tally: WallFramePacingBlockTally,
    pub shutdown_state: ShutdownState,
}

/// The engine's painting as a value.
#[verifier::ext_equal]
pub struct PaintView {
    pub painters: Map<u64, PainterView>,
    /// The painters in the order in which they were made.
    pub order: Seq<u64>,
    pub targets: Map<u64, Seq<u64>>,
    pub last_frame: u64,
    pub coordinator: CoordinatorView,
    pub config: WallFramePacingConfig,
    pub held: Map<u64, CoalescedView>,
    pub last_issue: Map<u64, u64>,
    pub next_wake: Option<u64>,
    pub held_count: u64,
    pub released_count: u64,
    pub tally: WallFramePacingBlockTally,
    pub shutdown: ShutdownState,
}

pub open spec fn painter_views(m: Map<u64, Painter>) -> Map<u64, PainterView> {
    Map::new(|k: u64| m.contains_key(k), |k: u64| m[k]@)
}

pub open spec fn target_views(m: Map<u64, Vec<u64>>) -> Map<u64, Seq<u64>> {
    Map::new(|k: u64| m.contains_key(k), |k: u64| m[k]@)
}

pub open spec fn held_views(m: Map<u64, CoalescedWallFrameRequest>) -> Map<u64, CoalescedView> {
    Map::new(|k: u64| m.contains_key(k), |k: u64| m[k]@)
}

impl View for Paint {
    type V = PaintView;

    open spec fn view(&self) -> PaintView {
        PaintView {
            painters: painter_views(self.painters@),
            order: self.painters.order(),
            targets: target_views(self.webview_painter_targets@),
            last_frame: self.next_logical_frame_id,
            coordinator: self.wall_frame_coordinator@,
            config: self.wall_frame_pacing_config,
            held: held_views(self.coalesced_wall_frame_requests@),
            last_issue: self.last_wall_frame_issue_at@,
            next_wake: self.wall_frame_pacing_next_wake_at,
            held_count: self.wall_frame_pacing_coalesced_count,
            released_count: self.wall_frame_pacing_released_count,
            tally: self.wall_frame_pacing_block_tally,
            shutdown: self.shutdown_state,
        }
    }
}

impl PaintView {
    /// The painters of a web view. One that is not registered is painted by its own painter.
    pub open spec fn targets_of(self, webview: u64) -> Seq<u64> {
        if self.targets.contains_key(webview) {
            self.targets[webview]
        } else {
            seq![painter_of(webview)]
        }
    }

    pub open spec fn primary_of(self, webview: u64) -> u64 {
        if self.targets_of(webview).len() > 0 {
            self.targets_of(webview)[0]
        } else {
            painter_of(webview)
        }
    }

    /// The painter is the primary one of the web view.
    pub open spec fn is_source(self, webview: u64, painter: u64) -> bool {
        self.targets.contains_key(webview) && self.targets[webview].len() > 0
            && self.targets[webview][0] == painter
    }

    /// The web view is the oldest one of which the painter is the primary one.
    pub open spec fn is_first_source(self, webview: u64, painter: u64) -> bool {
        self.is_source(webview, painter) && forall|v: u64| #[trigger]
            self.is_source(v, painter) ==> webview <= v
    }

    /// The oldest web view of which the painter is the primary one.
    pub open spec fn source_webview(self, painter: u64) -> Option<u64> {
        if exists|w: u64| #[trigger] self.is_first_source(w, painter) {
            Some(choose|w: u64| #[trigger] self.is_first_source(w, painter))
        } else {
            None
        }
    }

    /// The painters that get what is meant for a source painter.
    pub open spec fn source_targets(self, painter: u64) -> Seq<u64> {
        match self.source_webview(painter) {
            Some(w) => self.targets[w],
            None => seq![painter],
        }
    }

    /// The painter paints to the rendering context.
    pub open spec fn context_found(self, context: u64, painter: u64) -> bool {
        self.painters.contains_key(painter) && self.painters[painter].context == context
    }

    /// Some painter paints to the rendering context.
    pub open spec fn context_known(self, context: u64) -> bool {
        exists|p: u64| #[trigger] self.context_found(context, p)
    }

    pub open spec fn with_painter(self, id: u64, p: PainterView) -> PaintView {
        PaintView {
            painters: self.painters.insert(id, p),
            order: if self.painters.contains_key(id) {
                self.order
            } else {
                self.order.push(id)
            },
            ..self
        }
    }

    /// The order lists exactly the painters that are there, each once.
    pub open spec fn ordered(self) -> bool {
        &&& self.order.no_duplicates()
        &&& forall|p: u64| #[trigger] self.order.contains(p) <==> self.painters.contains_key(p)
    }

    pub open spec fn without_painter(self, id: u64) -> PaintView {
        let painters = self.painters.remove(id);
        PaintView { painters, order: kept(self.order, painters.dom()), ..self }
    }

    pub open spec fn with_target(self, webview: u64, painter: u64) -> PaintView {
        let now = if self.targets.contains_key(webview) {
            self.targets[webview]
        } else {
            Seq::empty()
        };
        PaintView {
            targets: self.targets.insert(
                webview,
                if now.contains(painter) {
                    now
                } else {
                    now.push(painter)
                },
            ),
            ..self
        }
    }

    pub open spec fn running(self) -> bool {
        self.shutdown == ShutdownState::NotShuttingDown
    }
}

/// The oldest web view is the only one.
pub proof fn lemma_source(v: PaintView, w: u64, painter: u64)
    requires
        v.is_first_source(w, painter),
    ensures
        v.source_webview(painter) == Some(w),
{
    let c = choose|c: u64| #[trigger] v.is_first_source(c, painter);
    assert(v.is_first_source(c, painter));
    assert(v.is_source(c, painter));
    assert(v.is_source(w, painter));
}

pub proof fn lemma_painter_insert(m: Map<u64, Painter>, k: u64, p: Painter)
    ensures
        painter_views(m.insert(k, p)) == painter_views(m).insert(k, p@),
        painter_views(m.remove(k)) == painter_views(m).remove(k),
{
    assert(painter_views(m.insert(k, p)) =~= painter_views(m).insert(k, p@));
    assert(painter_views(m.remove(k)) =~= painter_views(m).remove(k));
}

impl Paint {
    pub open spec fn wf(self) -> bool {
        &&& self.painters.wf()
        &&& self.painters_wf()
        &&& self.targets_wf()
        &&& self.held_wf()
    }

    /// No painter stands twice among the painters of a web view.
    pub open spec fn targets_wf(self) -> bool {
        forall|w: u64| #[trigger]
            self.webview_painter_targets@.contains_key(w)
                ==> self.webview_painter_targets@[w]@.no_duplicates()
    }

    /// The held requests repeat nothing.
    pub open spec fn held_wf(self) -> bool {
        forall|w: u64| #[trigger]
            self.coalesced_wall_frame_requests@.contains_key(w)
                ==> self.coalesced_wall_frame_requests@[w]@.request.wf()
    }

    /// Every painter is in order, stands under its id, and paints to a context of its own.
    pub open spec fn painters_wf(self) -> bool {
        &&& forall|p: u64| #[trigger]
            self.painters@.contains_key(p) ==> self.painters@[p].wf()
                && self.painters@[p].painter_id == p
        &&& forall|p: u64, q: u64|
            #![trigger self.painters@.contains_key(p), self.painters@.contains_key(q)]
            self.painters@.contains_key(p) && self.painters@.contains_key(q)
                && self.painters@[p].rendering_context == self.painters@[q].rendering_context ==> p
                == q
    }

    /// An engine without painters.
    pub fn new(
        config: WallFramePacingConfig,
        delay_injection: Option<WallFrameDelayInjection>,
    ) -> (p: Paint)
        ensures
            p.wf(),
            p@ == (PaintView {
                painters: Map::empty(),
                order: Seq::empty(),
                targets: Map::empty(),
                last_frame: 0,
                coordinator: CoordinatorView {
                    barriers: Map::empty(),
                    active: Map::empty(),
                    keep: Map::empty(),
                    injection: delay_injection,
                    expired_count: 0,
                },
                config,
                held: Map::empty(),
                last_issue: Map::empty(),
                next_wake: None,
                held_count: 0,
                released_count: 0,
                tally: WallFramePacingBlockTally { active: 0, pending: 0, too_soon: 0 },
                shutdown: ShutdownState::NotShuttingDown,
            }),
    {
        let p = Paint {
            painters: IdMap::new(),
            webview_painter_targets: HashMap::new(),
            next_logical_frame_id: 0,
            wall_frame_coordinator: WallFrameCoordinator::new(delay_injection),
            wall_frame_pacing_config: config,
            coalesced_wall_frame_requests: HashMap::new(),
            last_wall_frame_issue_at: HashMap::new(),
            wall_frame_pacing_next_wake_at: None,
            wall_frame_pacing_coalesced_count: 0,
            wall_frame_pacing_released_count: 0,
            wall_frame_pacing_block_tally: WallFramePacingBlockTally {
                active: 0,
                pending: 0,
                too_soon: 0,
            },
            shutdown_state: ShutdownState::NotShuttingDown,
        };
        proof {
            assert(painter_views(p.painters@) =~= Map::empty());
            assert(target_views(p.webview_painter_targets@) =~= Map::empty());
            assert(held_views(p.coalesced_wall_frame_requests@) =~= Map::empty());
        }
        p
    }

    /// The painter of a rendering context. The first call for a context makes one, under the fresh
    /// id; a further one finds it.
    pub fn register_rendering_context(
        &mut self,
        rendering_context: u64,
        fresh_painter_id: u64,
        native_active: bool,
        steady_tile_size: Option<DeviceIntSize>,
        canvas_ack_skips: u64,
    ) -> (id: u64)
        requires
            old(self).wf(),
            !old(self)@.painters.contains_key(fresh_painter_id),
        ensures
            final(self).wf(),
            old(self)@.context_known(rendering_context) ==> final(self)@ == old(self)@ && old(
                self,
            )@.context_found(rendering_context, id),
            !old(self)@.context_known(rendering_context) ==> id == fresh_painter_id && final(self)@
                == old(self)@.with_painter(
                id,
                PainterView::fresh(
                    id,
                    rendering_context,
                    native_active,
                    steady_tile_size,
                    canvas_ack_skips,
                ),
            ),
    {
        let mut i: usize = 0;
        while i < self.painters.entries.len()
            invariant
                self.wf(),
                self@ == old(self)@,
                i <= self.painters.entries@.len(),
                forall|k: int|
                    0 <= k < i ==> (#[trigger] self.painters.entries@[k]).1.rendering_context
                        != rendering_context,
            decreases self.painters.entries@.len() - i,
        {
            if self.painters.entries[i].1.rendering_context == rendering_context {
                proof {
                    lemma_entry(self.painters.entries@, i as int);
                    assert(self@.context_found(
                        rendering_context,
                        self.painters.entries@[i as int].0,
                    ));
                }
                return self.painters.entries[i].0;
            }
            i = i + 1;
        }
        proof {
            assert forall|p: u64| #[trigger]
                self.painters@.contains_key(p) implies self.painters@[p].rendering_context
                != rendering_context by {
                let k = lemma_find_entry(self.painters.entries@, p);
                assert(self.painters.entries@[k].1.rendering_context != rendering_context);
            }
            assert forall|p: u64| !#[trigger] self@.context_found(rendering_context, p) by {
                if self@.context_found(rendering_context, p) {
                    assert(self.painters@.contains_key(p));
                }
            }
        }
        let painter = Painter::new(
            fresh_painter_id,
            rendering_context,
            native_active,
            steady_tile_size,
            canvas_ack_skips,
        );
        proof {
            lemma_painter_insert(self.painters@, fresh_painter_id, painter);
            assert(!self.painters@.contains_key(fresh_painter_id));
        }
        self.painters.insert(fresh_painter_id, painter);
        fresh_painter_id
    }

    /// Takes a painter out, where it is there. The others keep their order.
    pub fn remove_painter(&mut self, painter_id: u64)
        requires
            old(self).wf(),
        ensures
            final(self).wf(),
            final(self)@ == old(self)@.without_painter(painter_id),
    {
        let ghost before = self.painters@;
        let _ = self.painters.remove(painter_id);
        proof {
            if before.contains_key(painter_id) {
                lemma_painter_insert(before, painter_id, before[painter_id]);
            } else {
                assert(before.remove(painter_id) =~= before);
                assert(painter_views(before).remove(painter_id) =~= painter_views(before));
            }
            assert(self.painters@.dom() =~= self@.painters.dom());
            assert forall|p: u64, q: u64|
                #![trigger self.painters@.contains_key(p), self.painters@.contains_key(q)]
                self.painters@.contains_key(p) && self.painters@.contains_key(q)
                    && self.painters@[p].rendering_context == self.painters@[q].rendering_context implies p
                == q by {
                assert(before.contains_key(p) && before.contains_key(q));
            }
        }
    }

    /// An engine in order lists each of its painters once.
    pub proof fn lemma_ordered(&self)
        requires
            self.wf(),
        ensures
            self@.ordered(),
    {
        let entries = self.painters.entries@;
        let order = self@.order;
        assert forall|i: int, j: int|
            0 <= i < order.len() && 0 <= j < order.len() && i != j implies order[i]
            != order[j] by {
            assert(entries[i].0 != entries[j].0);
        }
        assert forall|p: u64| #[trigger] order.contains(p) <==> self@.painters.contains_key(p) by {
            if order.contains(p) {
                let i = choose|i: int| 0 <= i < order.len() && order[i] == p;
                lemma_entry(entries, i);
            }
            if self@.painters.contains_key(p) {
                let i = lemma_find_entry(entries, p);
                assert(order[i] == p);
            }
        }
    }

    pub fn maybe_painter(&self, painter_id: u64) -> (r: Option<&Painter>)
        requires
            self.wf(),
        ensures
            match r {
                Some(p) => self@.painters.contains_key(painter_id) && p@
                    == self@.painters[painter_id] && p.wf(),
                None => !self@.painters.contains_key(painter_id),
            },
    {
        self.painters.get(painter_id)
    }

    /// A painter, to be changed. Whoever changes it leaves it in order, under its id and context.
    pub fn maybe_painter_mut(&mut self, painter_id: u64) -> (r: Option<&mut Painter>)
        requires
            old(self).wf(),
        ensures
            match r {
                Some(p) => old(self)@.painters.contains_key(painter_id) && p@ == old(
                    self,
                )@.painters[painter_id] && p.wf() && (final(p).wf() && final(p).painter_id
                    == p.painter_id && final(p).rendering_context == p.rendering_context ==> final(
                    self).wf() && final(self)@ == old(self)@.with_painter(painter_id, final(p)@)),
                None => !old(self)@.painters.contains_key(painter_id) && final(self)@ == old(
                    self,
                )@ && final(self).wf(),
            },
            *final(self) == (Paint { painters: final(self).painters, ..*old(self) }),
    {
        let ghost before = self.painters@;
        proof {
            assert forall|p: Painter|
                painter_views(#[trigger] before.insert(painter_id, p)) == painter_views(
                    before,
                ).insert(painter_id, p@) by {
                lemma_painter_insert(before, painter_id, p);
            }
        }
        self.painters.get_mut(painter_id)
    }

    /// Makes a painter one of the painters of a web view. The first one is the primary one.
    pub fn register_webview_painter_target(&mut self, webview_id: u64, painter_id: u64)
        requires
            old(self).wf(),
        ensures
            final(self).wf(),
            final(self)@ == old(self)@.with_target(webview_id, painter_id),
    {
        let ghost before = self.webview_painter_targets@;
        let mut list: Vec<u64> = match self.webview_painter_targets.get(&webview_id) {
            Some(list) => copy_ids(list),
            None => Vec::new(),
        };
        if !contains_id(&list, painter_id) {
            let ghost sofar = list@;
            list.push(painter_id);
            proof {
                assert forall|i: int, j: int|
                    0 <= i < list@.len() && 0 <= j < list@.len() && i != j implies list@[i]
                    != list@[j] by {
                    if i == sofar.len() {
                        assert(sofar.contains(sofar[j]));
                    }
                    if j == sofar.len() {
                        assert(sofar.contains(sofar[i]));
                    }
                }
            }
        }
        proof {
            assert(target_views(before.insert(webview_id, list)) =~= target_views(before).insert(
                webview_id,
                list@,
            ));
        }
        self.webview_painter_targets.insert(webview_id, list);
    }

    /// The painters of a web view.
    pub fn painter_targets_for_webview(&self, webview_id: u64) -> (out: Vec<u64>)
        requires
            self.wf(),
        ensures
            out@ == self@.targets_of(webview_id),
            out@.no_duplicates(),
    {
        match self.webview_painter_targets.get(&webview_id) {
            Some(list) => copy_ids(list),
            None => {
                let mut out: Vec<u64> = Vec::new();
                out.push(own_painter(webview_id));
                assert(out@ =~= seq![painter_of(webview_id)]);
                out
            },
        }
    }

    /// Forgets the painters of a web view and hands them back.
    pub fn remove_webview_painter_targets(&mut self, webview_id: u64) -> (out: Vec<u64>)
        requires
            old(self).wf(),
        ensures
            final(self).wf(),
            out@ == old(self)@.targets_of(webview_id),
            out@.no_duplicates(),
            final(self)@ == (PaintView {
                targets: old(self)@.targets.remove(webview_id),
                ..old(self)@
            }),
    {
        let ghost before = self.webview_painter_targets@;
        let out = self.painter_targets_for_webview(webview_id);
        let _ = self.webview_painter_targets.remove(&webview_id);
        proof {
            assert(target_views(before.remove(webview_id)) =~= target_views(before).remove(
                webview_id,
            ));
        }
        out
    }

    pub fn webview_has_painter_target(&self, webview_id: u64, painter_id: u64) -> (b: bool)
        requires
            self.wf(),
        ensures
            b == self@.targets_of(webview_id).contains(painter_id),
    {
        let list = self.painter_targets_for_webview(webview_id);
        contains_id(&list, painter_id)
    }

    pub fn primary_painter_id_for_webview(&self, webview_id: u64) -> (p: u64)
        requires
            self.wf(),
        ensures
            p == self@.primary_of(webview_id),
    {
        let list = self.painter_targets_for_webview(webview_id);
        if list.len() > 0 {
            list[0]
        } else {
            own_painter(webview_id)
        }
    }

    /// The oldest web view of which the painter is the primary one.
    pub fn source_webview_id_for_primary_painter(&self, painter_id: u64) -> (r: Option<u64>)
        requires
            self.wf(),
        ensures
            r == self@.source_webview(painter_id),
    {
        let mut best: Option<u64> = None;
        let ids = table_ids(&self.webview_painter_targets);
        let mut i: usize = 0;
        while i < ids.len()
            invariant
                self.wf(),
                i <= ids@.len(),
                ids@.to_set() == self.webview_painter_targets@.dom(),
                match best {
                    Some(b) => self@.is_source(b, painter_id),
                    None => true,
                },
                forall|k: int|
                    #![trigger ids@[k]]
                    0 <= k < i && self@.is_source(ids@[k], painter_id) ==> best is Some && best->0
                        <= ids@[k],
            decreases ids@.len() - i,
        {
            let id: u64 = ids[i];
            assert(ids@.to_set().contains(id));
            let primary: bool = match self.webview_painter_targets.get(&id) {
                Some(list) => list.len() > 0 && list[0] == painter_id,
                None => false,
            };
            if primary {
                assert(self@.is_source(id, painter_id));
                let older: bool = match best {
                    Some(b) => id < b,
                    None => true,
                };
                if older {
                    best = Some(id);
                }
            }
            i = i + 1;
        }
        proof {
            assert forall|v: u64| #[trigger] self@.is_source(v, painter_id) implies best is Some
                && best->0 <= v by {
                assert(ids@.to_set().contains(v));
                let k = choose|k: int| 0 <= k < ids@.len() && ids@[k] == v;
                assert(ids@[k] == v);
            }
            match best {
                Some(b) => {
                    assert(self@.is_first_source(b, painter_id));
                    lemma_source(self@, b, painter_id);
                },
                None => {
                    assert forall|w: u64| !#[trigger] self@.is_first_source(w, painter_id) by {
                        if self@.is_first_source(w, painter_id) {
                            assert(self@.is_source(w, painter_id));
                        }
                    }
                },
            }
        }
        best
    }

    /// The painters that get what is meant for a source painter: those of the web view of which it
    /// is the primary one, or the painter alone.
    pub fn target_painter_ids_for_source_painter(&self, painter_id: u64) -> (out: Vec<u64>)
        requires
            self.wf(),
        ensures
            out@ == self@.source_targets(painter_id),
    {
        match self.source_webview_id_for_primary_painter(painter_id) {
            Some(webview_id) => {
                proof {
                    let c = choose|c: u64| #[trigger] self@.is_first_source(c, painter_id);
                    assert(self@.is_first_source(c, painter_id));
                    assert(self@.targets.contains_key(webview_id));
                }
                self.painter_targets_for_webview(webview_id)
            },
            None => {
                let mut out: Vec<u64> = Vec::new();
                out.push(painter_id);
                assert(out@ =~= seq![painter_id]);
                out
            },
        }
    }

    /// Adds a web view to its own painter, which becomes its primary one. The painter has to be
    /// there.
    pub fn add_webview(&mut self, webview_id: u64)
        requires
            old(self).wf(),
            old(self)@.painters.contains_key(painter_of(webview_id)),
        ensures
            final(self).wf(),
            final(self)@ == old(self)@.with_webview_on(webview_id, painter_of(webview_id)),
    {
        let painter_id: u64 = own_painter(webview_id);
        self.add_webview_on(webview_id, painter_id);
    }

    /// Adds a web view to a painter of its own or another's context, and makes that painter one of
    /// its painters.
    pub fn add_webview_on(&mut self, webview_id: u64, painter_id: u64)
        requires
            old(self).wf(),
            old(self)@.painters.contains_key(painter_id),
        ensures
            final(self).wf(),
            final(self)@ == old(self)@.with_webview_on(webview_id, painter_id),
    {
        self.register_webview_painter_target(webview_id, painter_id);
        let ghost mid = self@;
        match self.maybe_painter_mut(painter_id) {
            Some(painter) => {
                painter.add_webview(webview_id);
            },
            None => {},
        }
        proof {
            assert(self@ =~= old(self)@.with_webview_on(webview_id, painter_id));
        }
    }

    /// Adds a web view to the painter of a rendering context, which is made where there is none.
    /// The painter's id is handed back.
    pub fn add_webview_paint_target(
        &mut self,
        webview_id: u64,
        rendering_context: u64,
        fresh_painter_id: u64,
        native_active: bool,
        steady_tile_size: Option<DeviceIntSize>,
        canvas_ack_skips: u64,
    ) -> (id: u64)
        requires
            old(self).wf(),
            !old(self)@.painters.contains_key(fresh_painter_id),
        ensures
            final(self).wf(),
            old(self)@.context_known(rendering_context) ==> old(self)@.context_found(
                rendering_context,
                id,
            ) && final(self)@ == old(self)@.with_webview_on(webview_id, id),
            !old(self)@.context_known(rendering_context) ==> id == fresh_painter_id && final(self)@
                == old(self)@.with_painter(
                id,
                PainterView::fresh(
                    id,
                    rendering_context,
                    native_active,
                    steady_tile_size,
                    canvas_ack_skips,
                ),
            ).with_webview_on(webview_id, id),
    {
        let id: u64 = self.register_rendering_context(
            rendering_context,
            fresh_painter_id,
            native_active,
            steady_tile_size,
            canvas_ack_skips,
        );
        self.add_webview_on(webview_id, id);
        id
    }

    /// The frame that a painter of a web view is to skip. A painter that is not one of its painters
    /// skips none.
    pub fn paint_target_keep_previous_logical_frame(&mut self, webview_id: u64, painter_id: u64) -> (
    r: Option<u64>)
        requires
            old(self).wf(),
        ensures
            final(self).wf(),
            ({
                let (coordinator, frame) = old(self)@.coordinator.queried(painter_id);
                if old(self)@.targets_of(webview_id).contains(painter_id) {
                    r == frame && final(self)@ == (PaintView { coordinator, ..old(self)@ })
                } else {
                    r is None && final(self)@ == old(self)@
                }
            }),
    {
        if !self.webview_has_painter_target(webview_id, painter_id) {
            return None;
        }
        self.wall_frame_coordinator.keep_previous_logical_frame(painter_id)
    }

    /// Whether the embedder's changes are taken: only while the engine is not shutting down.
    pub fn is_running(&self) -> (b: bool)
        ensures
            b == self@.running(),
    {
        match self.shutdown_state {
            ShutdownState::NotShuttingDown => true,
            _ => false,
        }
    }

    /// Whether a change of one painter of a web view is taken: while the engine is not shutting
    /// down, for one of its painters.
    pub fn accepts_target_update(&self, webview_id: u64, painter_id: u64) -> (b: bool)
        requires
            self.wf(),
        ensures
            b == (self@.running() && self@.targets_of(webview_id).contains(painter_id)),
    {
        self.is_running() && self.webview_has_painter_target(webview_id, painter_id)
    }

    /// The painter that an input event goes to. `contains` says of each painter of the web view, in
    /// order, whether the point of the event lies in its part; an event without a point, or with
    /// one that lies in none, goes to the primary painter.
    pub fn input_painter(&self, webview_id: u64, contains: &[bool]) -> (p: u64)
        requires
            self.wf(),
            contains@.len() <= self@.targets_of(webview_id).len(),
        ensures
            ({
                let targets = self@.targets_of(webview_id);
                ||| exists|i: int|
                    0 <= i < contains@.len() && contains@[i] && p == targets[i] && forall|j: int|
                        0 <= j < i ==> !contains@[j]
                ||| p == self@.primary_of(webview_id) && forall|j: int|
                    0 <= j < contains@.len() ==> !contains@[j]
            }),
    {
        let targets = self.painter_targets_for_webview(webview_id);
        let mut i: usize = 0;
        while i < contains.len()
            invariant
                i <= contains@.len() <= targets@.len(),
                targets@ == self@.targets_of(webview_id),
                forall|j: int| 0 <= j < i ==> !contains@[j],
            decreases contains@.len() - i,
        {
            if contains[i] {
                return targets[i];
            }
            i = i + 1;
        }
        self.primary_painter_id_for_webview(webview_id)
    }
}

impl PaintView {
    /// A web view is on a painter, which is one of its painters.
    pub open spec fn with_webview_on(self, webview: u64, painter: u64) -> PaintView {
        let s = self.with_target(webview, painter);
        let p = s.painters[painter];
        s.with_painter(
            painter,
            if p.webviews.contains_key(webview) {
                p
            } else {
                p.with_webview(webview, WebViewView::fresh())
            },
        )
    }
}

/// Registering a painter for a web view keeps those that it has, in order: the primary one stays.
pub proof fn law_primary_painter_stays(v: PaintView, webview: u64, painter: u64)
    requires
        v.targets.contains_key(webview),
        v.targets[webview].len() > 0,
    ensures
        v.with_target(webview, painter).primary_of(webview) == v.primary_of(webview),
        v.with_target(webview, painter).targets_of(webview).contains(painter),
{
    let now = v.targets[webview];
    if !now.contains(painter) {
        assert(now.push(painter)[now.len() as int] == painter);
    }
}

/// A web view that is added is painted by the painter that its id names, first of all.
pub proof fn law_own_painter_is_primary(v: PaintView, webview: u64)
    requires
        !v.targets.contains_key(webview),
    ensures
        v.primary_of(webview) == painter_of(webview),
        v.with_webview_on(webview, painter_of(webview)).primary_of(webview) == painter_of(webview),
{
    assert(v.targets_of(webview) =~= seq![painter_of(webview)]);
}

} // verus!
