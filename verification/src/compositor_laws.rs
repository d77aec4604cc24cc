//! Laws of the compositor: the steps of an external present, the steps that end a frame, and what
//! they leave behind.

use crate::dcomp_compositor::{
    can_create, pbuffer_of, pbuffers_of, with_external, DCompNativeCompositor,
    DeviceProbe,
};
use crate::end_frame::{EndFrame, EndFrameStep};
use crate::external_present::{
    ExternalEvent, ExternalPresent, ExternalStage, ExternalStep, PresentView,
};
use crate::external_surface::ExternalStorage;
use crate::geometry::DeviceIntRect;
use crate::surface::EndFrameAction;
use crate::surface_entry::{SurfaceEntry, SurfaceStorage};
use crate::tiles::TileIndex;
use vstd::prelude::*;

verus! {

/// An external present starts with the conversion pass, which is made once. The flip chain is kept while the
/// window is being resized and while it has the size of the picture; else it is made anew, or
/// dropped where it cannot be.
pub proof fn law_external_present_has_a_chain_of_its_size(v: PresentView, run: ExternalPresent)
    requires
        run.stage is Begin,
    ensures
        ({
            let (after, next, step) = v.stepped(run, ExternalEvent::Begin);
            let tried = !(v.convert_pass is NotTried);
            let keeps = run.resize_active || (v.ext.chain is Some && v.ext.size == run.size);
            let makes = v.has_factory && run.size.width > 0 && run.size.height > 0;
            let ready = v.convert_pass is Ready && v.has_context1 && v.ext.last != Some(
                (run.ring_id, run.seq),
            ) && v.ext.size.width > 0 && v.ext.size.height > 0 && v.ext.chain is Some;
            &&& !tried ==> step is MakeConvertPass && next.stage is ConvertPass && after == v
            &&& tried && !keeps && makes ==> step == (ExternalStep::MakeChain {
                size: run.size,
                is_opaque: v.is_opaque,
            }) && next.stage is Chain && after == v
            &&& tried && !keeps && !makes ==> step is Done && after.ext.chain is None
                && after.ext.size.width == 0 && after.ext.size.height == 0 && !after.ext.attached
            &&& tried && keeps && ready ==> step == (ExternalStep::GetBackBuffer {
                chain: v.ext.chain->0,
            }) && next.stage is BackBuffer && next.chain == v.ext.chain->0 && next.chain_size
                == v.ext.size && after == v
            &&& tried && keeps && !ready ==> step is Done && after == v
        }),
{
}

/// The conversion pass is ready where it could be made, and has failed for good where not.
pub proof fn law_conversion_pass_is_tried_once(v: PresentView, run: ExternalPresent, made: bool)
    requires
        run.stage is ConvertPass,
        v.convert_pass is NotTried,
    ensures
        ({
            let (after, next, step) = v.stepped(run, ExternalEvent::Made(made));
            &&& made ==> after.convert_pass is Ready
            &&& !made ==> after.convert_pass is Failed && !(step is GetBackBuffer)
            &&& step is MakeChain ==> next.stage is Chain
            &&& after.batch == v.batch
        }),
{
}

/// A new chain has the size of the picture, and nothing of the old one is left; its back buffer is drawn to
/// next. Where none could be made the present is over.
pub proof fn law_new_external_chain_starts_empty(
    v: PresentView,
    run: ExternalPresent,
    created: Option<u64>,
    k: u64,
)
    requires
        run.stage is Chain,
    ensures
        ({
            let (after, next, step) = v.stepped(run, ExternalEvent::Handle(created));
            &&& after.ext.chain == created
            &&& created is Some ==> after.ext.size == run.size
            &&& created is None ==> after.ext.size.width == 0 && after.ext.size.height == 0 && step
                is Done
            &&& !after.ext.attached && after.ext.last is None && !after.ext.views.contains_key(k)
            &&& after.ext.image == v.ext.image
            &&& created is Some && v.convert_pass is Ready && v.has_context1 && run.size.width > 0
                && run.size.height > 0 ==> step == (ExternalStep::GetBackBuffer {
                chain: created->0,
            }) && next.chain_size == run.size
        }),
{
}

/// The back buffer is converted into through its render target, which is made once for each buffer; the
/// batch begins with the first conversion.
pub proof fn law_back_buffer_is_converted_into(
    v: PresentView,
    run: ExternalPresent,
    handle: Option<u64>,
    back: u64,
)
    ensures
        run.stage is BackBuffer ==> {
            let (after, next, step) = v.stepped(run, ExternalEvent::Handle(handle));
            let known = handle is Some && v.ext.views.contains_key(handle->0);
            &&& known ==> step == (ExternalStep::Convert {
                target: v.ext.views[handle->0],
                size: run.chain_size,
                begin_batch: !v.batch,
            }) && after.batch && after.ext == v.ext && next.stage is Convert
            &&& handle is Some && !known ==> step == (ExternalStep::MakeRenderTarget {
                back: handle->0,
            }) && next.stage == (ExternalStage::RenderTarget { back: handle->0 }) && after == v
            &&& handle is None ==> step is Done && after == v
        },
        run.stage == (ExternalStage::RenderTarget { back }) ==> {
            let (after, next, step) = v.stepped(run, ExternalEvent::Handle(handle));
            &&& handle is Some ==> step == (ExternalStep::Convert {
                target: handle->0,
                size: run.chain_size,
                begin_batch: !v.batch,
            }) && after.batch && after.ext.views.contains_key(back) && after.ext.views[back]
                == handle->0 && next.stage is Convert
            &&& handle is None ==> step is Done && after == v
        },
{
}

/// A picture that was converted is presented, and then counts as shown; the chain is attached the first
/// time. Each step is taken only where the one before it worked.
pub proof fn law_converted_picture_is_presented(v: PresentView, run: ExternalPresent, made: bool)
    ensures
        ({
            let (after, next, step) = v.stepped(run, ExternalEvent::Made(made));
            &&& run.stage is Convert && made ==> step == (ExternalStep::Present { chain: run.chain })
                && next.stage is Present && after == v
            &&& run.stage is Present && made ==> after.ext.last == Some((run.ring_id, run.seq))
                && after.ext.attached == v.ext.attached && (v.ext.attached ==> step is Done) && (
            !v.ext.attached ==> step == (ExternalStep::Attach { chain: run.chain }) && next.stage
                is Attach)
            &&& run.stage is Attach && made ==> after.ext.attached && step is Done
            &&& !made && (run.stage is Convert || run.stage is Present || run.stage is Attach)
                ==> after == v && step is Done
            &&& run.stage is Convert || run.stage is Present || run.stage is Attach
                ==> after.ext.chain == v.ext.chain && after.ext.size == v.ext.size && after.ext.views
                == v.ext.views
        }),
{
}

/// A picture is shown in the chain of its surface, unless it is shown already or there is no chain.
pub proof fn law_external_target(e: ExternalStorage, ring: u64, seq: u64)
    ensures
        ({
            let shown = e.last_presented is Some && e.last_presented->0 == (ring, seq);
            let solid = e.swapchain is Some && e.swapchain_size.width > 0 && e.swapchain_size.height
                > 0;
            &&& e.target(ring, seq) is Some <==> !shown && solid
            &&& e.target(ring, seq) is Some ==> e.target(ring, seq) == Some(
                (e.swapchain->0, e.swapchain_size),
            )
        }),
{
}

/// What the compositor offers a picture, and what it changes of an external surface.
pub proof fn law_external_surfaces_change_alone(
    c: DCompNativeCompositor,
    id: u64,
    ext: ExternalStorage,
    other: u64,
    ring: u64,
    seq: u64,
)
    ensures
        c.is_external(id) <==> c.surfaces@.contains_key(id) && c.surfaces@[id].storage is External,
        ({
            let after = with_external(c.surfaces@, id, ext);
            &&& after.contains_key(id) && after[id].storage == SurfaceStorage::External(ext)
            &&& after[id].tiles == c.surfaces@[id].tiles && after[id].visual
                == c.surfaces@[id].visual && after[id].is_opaque == c.surfaces@[id].is_opaque
            &&& other != id ==> (after.contains_key(other) <==> c.surfaces@.contains_key(other)) && (
            c.surfaces@.contains_key(other) ==> after[other] == c.surfaces@[other])
        }),
        c.external_target_of(id, ring, seq) is Some ==> c.surfaces@.contains_key(id)
            && c.surfaces@[id].storage is External && c.convert_pass is Ready && c.has_context1
            && c.external_target_of(id, ring, seq) == (c.surfaces@[id].storage->External_0).target(
            ring,
            seq,
        ),
        c.surfaces@.contains_key(id) && c.surfaces@[id].storage is External && c.convert_pass is Ready
            && c.has_context1 ==> c.external_target_of(id, ring, seq) == (
        c.surfaces@[id].storage->External_0).target(ring, seq),
        c.batch_to_end() <==> c.external_batch_active && c.convert_pass is Ready && c.has_context1,
{
}

/// A compositor can be created where each of its parts can.
pub proof fn law_compositor_needs_all_its_parts(p: DeviceProbe)
    ensures
        can_create(p) <==> p.window && p.d3d11_device && p.dxgi_device && p.dcomp_device && p.target
            && p.root_visual && p.root_set,
{
}

/// The buffers that are bound are those of the flip chains, in the order of the surfaces.
pub proof fn law_bound_buffers_are_those_of_the_chains(
    surfaces: Map<u64, SurfaceEntry>,
    ids: Seq<u64>,
    id: u64,
)
    ensures
        ({
            let s = surfaces[id].storage;
            let bound = s is SwapChain && (s->SwapChain_0).frame_pbuffer is Some;
            &&& bound ==> pbuffers_of(surfaces, ids.push(id)) == pbuffers_of(surfaces, ids).push(
                (s->SwapChain_0).frame_pbuffer->0,
            )
            &&& !bound ==> pbuffers_of(surfaces, ids.push(id)) == pbuffers_of(surfaces, ids)
            &&& pbuffer_of(surfaces[id]) is Some <==> bound
        }),
        pbuffers_of(surfaces, Seq::empty()).len() == 0,
{
    assert(ids.push(id).drop_last() =~= ids);
}

/// The end of a frame goes through every surface that is there; then it makes the chains that were
/// promised, makes anew those whose tiles moved, and demotes; and composes last.
pub proof fn law_end_of_frame_has_its_order(
    c: DCompNativeCompositor,
    run: EndFrame,
    step: EndFrameStep,
    after: DCompNativeCompositor,
    run_after: EndFrame,
)
    requires
        c.stepped(run, step, after, run_after),
    ensures
        step is Surface ==> run.next_id < run.ids@.len() && step->Surface_id
            == run.ids@[run.next_id as int] && c.surfaces@.contains_key(step->Surface_id),
        step is MakeChain ==> run.next_id >= run.ids@.len() && run.next_promote < run.promote@.len()
            && step->MakeChain_id == run.promote@[run.next_promote as int].0 && step->MakeChain_extent
            == run.promote@[run.next_promote as int].1 && step->MakeChain_is_opaque
            == c.surfaces@[step->MakeChain_id].is_opaque,
        step is RemakeChain ==> run.next_id >= run.ids@.len() && run.next_promote
            >= run.promote@.len() && run.next_regen < run.regen@.len() && step->RemakeChain_id
            == run.regen@[run.next_regen as int].0 && step->RemakeChain_extent
            == run.regen@[run.next_regen as int].1,
        step is Demote ==> run.next_id >= run.ids@.len() && run.next_promote >= run.promote@.len()
            && run.next_regen >= run.regen@.len() && run.next_demote < run.demote@.len() && c.alive
            && step->Demote_id == run.demote@[run.next_demote as int]
            && c.surfaces@[step->Demote_id].storage is SwapChain,
        step is Compose ==> run.next_id >= run.ids@.len() && run.next_promote >= run.promote@.len()
            && run.next_regen >= run.regen@.len() && run.next_demote >= run.demote@.len() && c.alive,
        step is Over ==> !c.alive && run.next_id >= run.ids@.len(),
        run.next_id < run.ids@.len() ==> run_after.next_id == run.next_id + 1,
        run.next_id < run.ids@.len() ==> run_after.next_promote == run.next_promote
            && run_after.next_regen == run.next_regen && run_after.next_demote == run.next_demote,
        run.next_id >= run.ids@.len() ==> run_after.next_id == run.next_id && run_after.promote
            == run.promote && run_after.regen == run.regen && run_after.demote == run.demote,
        run.next_id >= run.ids@.len() && run.next_promote < run.promote@.len()
            ==> run_after.next_promote == run.next_promote + 1 && run_after.next_regen
            == run.next_regen && run_after.next_demote == run.next_demote && (step is MakeChain
            <==> c.surfaces@.contains_key(run.promote@[run.next_promote as int].0)),
        run.next_id >= run.ids@.len() && run.next_promote >= run.promote@.len() && run.next_regen
            < run.regen@.len() ==> run_after.next_promote == run.next_promote
            && run_after.next_regen == run.next_regen + 1 && run_after.next_demote
            == run.next_demote && (step is RemakeChain <==> c.surfaces@.contains_key(
            run.regen@[run.next_regen as int].0,
        )),
        run.next_id >= run.ids@.len() && run.next_promote >= run.promote@.len() && run.next_regen
            >= run.regen@.len() ==> run_after.next_promote == run.next_promote
            && run_after.next_regen == run.next_regen && run_after.next_demote == run.next_demote + (
        if c.alive && run.next_demote < run.demote@.len() {
            1int
        } else {
            0
        }),
        run.next_id >= run.ids@.len() && run.next_promote >= run.promote@.len() && run.next_regen
            >= run.regen@.len() && c.alive && run.next_demote < run.demote@.len() ==> (step is Demote
            <==> c.surfaces@.contains_key(run.demote@[run.next_demote as int])
            && c.surfaces@[run.demote@[run.next_demote as int]].storage is SwapChain),
        step is Skip && run.next_id < run.ids@.len() ==> !c.surfaces@.contains_key(
            run.ids@[run.next_id as int],
        ),
        run_after.ids == run.ids && run_after.mode == run.mode && run_after.resize_active
            == run.resize_active,
        step is Compose || step is Over || step is MakeChain || step is RemakeChain ==> after == c,
        after.frame_counter == c.frame_counter && after.frame_surfaces == c.frame_surfaces,
        forall|id: u64| #[trigger]
            c.surfaces@.contains_key(id) && !(step is Surface && step->Surface_id == id) && !(step
                is Demote && step->Demote_id == id) ==> after.surfaces@.contains_key(id)
                && after.surfaces@[id] == c.surfaces@[id],
{
    assert(run.ids.len() == run.ids@.len());
    assert(run.promote.len() == run.promote@.len());
    assert(run.regen.len() == run.regen@.len());
    assert(run.demote.len() == run.demote@.len());
}

/// What a surface asks for is carried out in this frame: a promotion, a new chain, a demotion each joins its
/// queue, and nothing else does.
pub proof fn law_every_request_is_queued(
    run: EndFrame,
    id: u64,
    action: EndFrameAction,
    after: EndFrame,
)
    requires
        run.queued(id, action, after),
    ensures
        action is Promote ==> after.promote@ == run.promote@.push((id, action->Promote_0)),
        !(action is Promote) ==> after.promote@ == run.promote@,
        action is Regenerate ==> after.regen@ == run.regen@.push((id, action->Regenerate_0)),
        !(action is Regenerate) ==> after.regen@ == run.regen@,
        action is Demote || (action is Withhold && action->demote) ==> after.demote@
            == run.demote@.push(id),
        !(action is Demote) && !(action is Withhold && action->demote) ==> after.demote@
            == run.demote@,
        after.ids == run.ids && after.next_id == run.next_id && after.next_promote
            == run.next_promote && after.next_regen == run.next_regen && after.next_demote
            == run.next_demote && after.mode == run.mode && after.resize_active
            == run.resize_active,
{
}

/// A present that failed asks for a demotion, and one that worked does not.
pub proof fn law_failed_present_is_demoted(run: EndFrame, id: u64, presented: bool, after: EndFrame)
    requires
        run.present_noted(id, presented, after),
    ensures
        presented ==> after.demote@ == run.demote@,
        !presented ==> after.demote@ == run.demote@.push(id),
        after.promote@ == run.promote@ && after.regen@ == run.regen@ && after.next_id == run.next_id
            && after.next_demote == run.next_demote,
{
}

/// The end of a frame starts with every surface once, and nothing queued; it decides by what the compositor
/// is told.
pub proof fn law_end_of_frame_starts_with_every_surface(
    c: DCompNativeCompositor,
    run: EndFrame,
    id: u64,
)
    requires
        run.begun(c),
    ensures
        c.surfaces@.contains_key(id) <==> run.ids@.contains(id),
        run.ids@.no_duplicates(),
        run.next_id == 0 && run.promote@.len() == 0 && run.regen@.len() == 0 && run.demote@.len()
            == 0,
        run.context(c).frame_counter == c.frame_counter && run.context(c).mode == run.mode
            && run.context(c).resize_active == run.resize_active && run.context(c).promote_disabled
            == c.promote_disabled && run.context(c).regen_disabled == c.regen_disabled
            && run.context(c).has_factory == c.has_factory,
{
    assert(run.ids@.to_set().contains(id) <==> run.ids@.contains(id));
}

/// A promoted surface has a chain of the size of its tiles, at their place, with nothing drawn yet; the
/// virtual surface stays behind it until the chain is shown. A chain that could not be made stops
/// all promotions.
pub proof fn law_promoted_surface_covers_its_tiles(
    c: DCompNativeCompositor,
    id: u64,
    extent: DeviceIntRect,
    created: Option<u64>,
    after: DCompNativeCompositor,
    other: u64,
    t: TileIndex,
)
    requires
        c.promotion_settled(id, extent, created, after),
        c.surfaces@.contains_key(id),
        c.surfaces@[id].storage is Virtual,
        crate::surface::size_in_range(extent),
    ensures
        created is None ==> after.promote_disabled && after.surfaces@ == c.surfaces@,
        created is Some ==> {
            let e = after.surfaces@[id];
            let sc = e.storage->SwapChain_0;
            &&& e.storage is SwapChain
            &&& sc.swapchain == created->0
            &&& sc.anchor == extent.min
            &&& sc.size.width == extent.max.x - extent.min.x
            &&& sc.size.height == extent.max.y - extent.min.y
            &&& sc.fallback_virtual is Some && SurfaceStorage::Virtual {
                virtual_surface: sc.fallback_virtual->0,
            } == c.surfaces@[id].storage
            &&& !sc.content_attached && sc.displayed_anchor is None && !sc.drawn_this_frame
                && !sc.coverage@.contains(t) && sc.withheld_frames == 0
            &&& e.promote_streak == 0 && e.tiles == c.surfaces@[id].tiles && e.visual
                == c.surfaces@[id].visual
            &&& after.promote_disabled == c.promote_disabled
        },
        other != id && c.surfaces@.contains_key(other) ==> after.surfaces@.contains_key(other)
            && after.surfaces@[other] == c.surfaces@[other],
        after.frame_counter == c.frame_counter && after.regen_disabled == c.regen_disabled,
{
}

/// A chain that was made anew covers the tiles as they lie now, and waits for a full frame; what is shown
/// stays where it is until then. One that could not be made stops all such.
pub proof fn law_remade_chain_covers_its_tiles(
    c: DCompNativeCompositor,
    id: u64,
    extent: DeviceIntRect,
    created: Option<u64>,
    after: DCompNativeCompositor,
    other: u64,
    t: TileIndex,
)
    requires
        c.regeneration_settled(id, extent, created, after),
        c.surfaces@.contains_key(id),
        c.surfaces@[id].storage is SwapChain,
        crate::surface::size_in_range(extent),
    ensures
        created is None ==> after.regen_disabled && after.surfaces@ == c.surfaces@,
        created is Some ==> {
            let before = c.surfaces@[id].storage->SwapChain_0;
            let sc = after.surfaces@[id].storage->SwapChain_0;
            &&& after.surfaces@[id].storage is SwapChain
            &&& sc.swapchain == created->0
            &&& sc.anchor == extent.min
            &&& sc.size.width == extent.max.x - extent.min.x
            &&& sc.size.height == extent.max.y - extent.min.y
            &&& !sc.content_attached && !sc.drawn_this_frame && !sc.partial_present
                && sc.withheld_frames == 0 && !sc.coverage@.contains(t) && sc.frame_dirty@.len() == 0
                && sc.stale.missed().len() == 0
            &&& sc.displayed_anchor == before.displayed_anchor && sc.fallback_virtual
                == before.fallback_virtual
            &&& after.regen_disabled == c.regen_disabled
        },
        other != id && c.surfaces@.contains_key(other) ==> after.surfaces@.contains_key(other)
            && after.surfaces@[other] == c.surfaces@[other],
        after.promote_disabled == c.promote_disabled,
{
}

/// A demotion that was carried out leaves the virtual surface that was filled; one that failed leaves the
/// surface as it is.
pub proof fn law_settled_demotion_shows_what_was_filled(
    c: DCompNativeCompositor,
    run: EndFrame,
    id: u64,
    seeded: Option<u64>,
    after: DCompNativeCompositor,
    other: u64,
)
    requires
        c.demotion_settled(run, id, seeded, after),
        c.surfaces@.contains_key(id),
    ensures
        seeded is Some ==> after.surfaces@[id].storage == (SurfaceStorage::Virtual {
            virtual_surface: seeded->0,
        }),
        seeded is None ==> after.surfaces@[id] == c.surfaces@[id],
        other != id && c.surfaces@.contains_key(other) ==> after.surfaces@.contains_key(other)
            && after.surfaces@[other] == c.surfaces@[other],
{
}

/// A surface whose frame is over has no buffer bound and counts as not drawn; only flip chains change.
pub proof fn law_finished_surface_is_unbound(
    c: DCompNativeCompositor,
    id: u64,
    after: DCompNativeCompositor,
    other: u64,
)
    requires
        c.surface_finished(id, after),
    ensures
        c.surfaces@.contains_key(id) && c.surfaces@[id].storage is SwapChain ==> {
            let before = c.surfaces@[id].storage->SwapChain_0;
            let sc = after.surfaces@[id].storage->SwapChain_0;
            &&& after.surfaces@[id].storage is SwapChain
            &&& sc.frame_pbuffer is None && !sc.drawn_this_frame
            &&& sc.swapchain == before.swapchain && sc.coverage == before.coverage && sc.stale
                == before.stale && sc.content_attached == before.content_attached
        },
        c.surfaces@.contains_key(id) && !(c.surfaces@[id].storage is SwapChain)
            ==> after.surfaces@[id] == c.surfaces@[id],
        other != id && c.surfaces@.contains_key(other) ==> after.surfaces@.contains_key(other)
            && after.surfaces@[other] == c.surfaces@[other],
{
}

/// After a full or a partial present only that chain changes, and the outcome is noted.
pub proof fn law_presented_chain_changes_alone(
    c: DCompNativeCompositor,
    run: EndFrame,
    id: u64,
    presented: bool,
    content_set: bool,
    partial_ok: bool,
    after: DCompNativeCompositor,
    run_after: EndFrame,
    other: u64,
)
    requires
        c.surfaces@.contains_key(id),
        c.surfaces@[id].storage is SwapChain,
    ensures
        c.full_presented(run, id, presented, content_set, partial_ok, after, run_after) ==> {
            &&& after.surfaces@[id].storage is SwapChain
            &&& presented ==> (after.surfaces@[id].storage->SwapChain_0).withheld_frames == 0
                && run_after.demote@ == run.demote@
            &&& !presented ==> run_after.demote@ == run.demote@.push(id)
            &&& after.surfaces@[id].visual == c.surfaces@[id].visual
            &&& other != id && c.surfaces@.contains_key(other) ==> after.surfaces@[other]
                == c.surfaces@[other]
        },
        c.partially_presented(run, id, presented, after, run_after) ==> {
            &&& after.surfaces@[id].storage is SwapChain
            &&& presented ==> run_after.demote@ == run.demote@
            &&& !presented ==> run_after.demote@ == run.demote@.push(id)
                && !(after.surfaces@[id].storage->SwapChain_0).partial_present
            &&& other != id && c.surfaces@.contains_key(other) ==> after.surfaces@[other]
                == c.surfaces@[other]
        },
{
}

/// What an external present starts from is what the compositor and the surface hold.
pub proof fn law_present_starts_from_the_surface(c: DCompNativeCompositor, id: u64)
    requires
        c.is_external(id),
    ensures
        ({
            let v = c.presenting(id);
            let e = c.surfaces@[id].storage->External_0;
            &&& v.convert_pass == c.convert_pass && v.batch == c.external_batch_active
            &&& v.has_context1 == c.has_context1 && v.has_factory == c.has_factory
            &&& v.is_opaque == c.surfaces@[id].is_opaque
            &&& v.ext.chain == e.swapchain && v.ext.size == e.swapchain_size && v.ext.attached
                == e.content_attached && v.ext.image == e.attached_external_id && v.ext.last
                == e.last_presented && v.ext.views == e.rtv_cache@
        }),
{
}

} // verus!
