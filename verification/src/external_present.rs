//! Presenting the frame of a video that an external surface shows, step by step.
//!
//! The converter is made at the first video, the flip chain where there is none of the right size.
//! Then the frame is converted into the back buffer, presented, and, after the first present, the
//! flip chain is attached to the visual. Where a step fails the rest is left out, and the next frame
//! tries again.
use vstd::prelude::*;

use crate::dcomp_compositor::{ConvertPass, DCompNativeCompositor};
use crate::external_surface::ExternalStorage;
use crate::geometry::DeviceIntSize;
use crate::surface_entry::SurfaceEntry;

verus! {

broadcast use vstd::std_specs::hash::group_hash_axioms;

/// What a run waits for.
#[derive(Clone, Copy, PartialEq, Eq, Debug, Structural)]
pub enum ExternalStage {
    Begin,
    ConvertPass,
    Chain,
    BackBuffer,
    RenderTarget { back: u64 },
    Convert,
    Present,
    Attach,
    /// Nothing: the run is over.
    Over,
}

/// How far the presenting of one frame has come. `chain` and `chain_size` are what the frame is
/// converted into, once that is known.
#[derive(Clone, Copy, PartialEq, Eq, Debug, Structural)]
pub struct ExternalPresent {
    pub id: u64,
    pub ring_id: u64,
    pub seq: u64,
    pub size: DeviceIntSize,
    pub resize_active: bool,
    pub stage: ExternalStage,
    pub chain: u64,
    pub chain_size: DeviceIntSize,
}

/// What the host answers to a step.
#[derive(Clone, Copy, PartialEq, Eq, Debug, Structural)]
pub enum ExternalEvent {
    /// The run begins.
    Begin,
    /// It worked, or not.
    Made(bool),
    /// The object that was made or found, or none.
    Handle(Option<u64>),
}

/// What the host does next.
#[derive(Clone, Copy, PartialEq, Eq, Debug, Structural)]
pub enum ExternalStep {
    MakeConvertPass,
    MakeChain { size: DeviceIntSize, is_opaque: bool },
    GetBackBuffer { chain: u64 },
    MakeRenderTarget { back: u64 },
    /// Convert the frame into the render target. The batch of conversions is begun before, where
    /// this is the first one.
    Convert { target: u64, size: DeviceIntSize, begin_batch: bool },
    Present { chain: u64 },
    Attach { chain: u64 },
    Done,
}

/// The storage of an external surface as a value.
#[verifier::ext_equal]
pub struct ExternalView {
    pub chain: Option<u64>,
    pub size: DeviceIntSize,
    pub attached: bool,
    pub image: Option<u64>,
    pub last: Option<(u64, u64)>,
    pub views: Map<u64, u64>,
}

impl View for ExternalStorage {
    type V = ExternalView;

    open spec fn view(&self) -> ExternalView {
        ExternalView {
            chain: self.swapchain,
            size: self.swapchain_size,
            attached: self.content_attached,
            image: self.attached_external_id,
            last: self.last_presented,
            views: self.rtv_cache@,
        }
    }
}

/// What the presenting of a frame reads and changes.
#[verifier::ext_equal]
pub struct PresentView {
    pub convert_pass: ConvertPass,
    pub batch: bool,
    pub ext: ExternalView,
    pub has_context1: bool,
    pub has_factory: bool,
    pub is_opaque: bool,
}

impl ExternalPresent {
    pub fn new(
        id: u64,
        ring_id: u64,
        seq: u64,
        size: DeviceIntSize,
        resize_active: bool,
    ) -> (run: ExternalPresent)
        ensures
            run == (ExternalPresent {
                id,
                ring_id,
                seq,
                size,
                resize_active,
                stage: ExternalStage::Begin,
                chain: 0,
                chain_size: DeviceIntSize { width: 0, height: 0 },
            }),
    {
        ExternalPresent {
            id,
            ring_id,
            seq,
            size,
            resize_active,
            stage: ExternalStage::Begin,
            chain: 0,
            chain_size: DeviceIntSize::new(0, 0),
        }
    }

    pub open spec fn at(self, stage: ExternalStage) -> ExternalPresent {
        ExternalPresent { stage, ..self }
    }

    /// The answer is one to what the run waits for.
    pub open spec fn awaits(self, event: ExternalEvent) -> bool {
        match self.stage {
            ExternalStage::Begin => event is Begin,
            ExternalStage::ConvertPass => event is Made,
            ExternalStage::Chain => event is Handle,
            ExternalStage::BackBuffer => event is Handle,
            ExternalStage::RenderTarget { .. } => event is Handle,
            ExternalStage::Convert => event is Made,
            ExternalStage::Present => event is Made,
            ExternalStage::Attach => event is Made,
            ExternalStage::Over => false,
        }
    }

    /// Once the flip chain of the run is known, the surface has it.
    pub open spec fn valid(self, ext: ExternalView) -> bool {
        match self.stage {
            ExternalStage::Begin => true,
            ExternalStage::ConvertPass => true,
            ExternalStage::Chain => true,
            ExternalStage::Over => true,
            _ => ext.chain == Some(self.chain),
        }
    }

    /// How many stages lie before this one.
    pub open spec fn rank(self) -> int {
        match self.stage {
            ExternalStage::Begin => 0,
            ExternalStage::ConvertPass => 1,
            ExternalStage::Chain => 2,
            ExternalStage::BackBuffer => 3,
            ExternalStage::RenderTarget { .. } => 4,
            ExternalStage::Convert => 5,
            ExternalStage::Present => 6,
            ExternalStage::Attach => 7,
            ExternalStage::Over => 8,
        }
    }
}

impl PresentView {
    /// The surface with the flip chain that was made for it, or without one.
    pub open spec fn with_chain(self, created: Option<u64>, size: DeviceIntSize) -> PresentView {
        PresentView {
            ext: ExternalView {
                chain: created,
                size: if created is Some {
                    size
                } else {
                    DeviceIntSize { width: 0, height: 0 }
                },
                attached: false,
                last: None,
                views: Map::empty(),
                ..self.ext
            },
            ..self
        }
    }

    /// The frame is presented, and the flip chain is attached where that worked.
    pub open spec fn presented(self, run: ExternalPresent, attached: bool) -> PresentView {
        PresentView {
            ext: ExternalView {
                last: Some((run.ring_id, run.seq)),
                attached: self.ext.attached || attached,
                ..self.ext
            },
            ..self
        }
    }

    /// There is something that the frame can be converted into, and it is not shown already.
    pub open spec fn can_present(self, run: ExternalPresent) -> bool {
        &&& self.convert_pass == ConvertPass::Ready
        &&& self.has_context1
        &&& self.ext.last != Some((run.ring_id, run.seq))
        &&& self.ext.size.width > 0
        &&& self.ext.size.height > 0
        &&& self.ext.chain is Some
    }

    pub open spec fn over(self, run: ExternalPresent) -> (
        PresentView,
        ExternalPresent,
        ExternalStep,
    ) {
        (self, run.at(ExternalStage::Over), ExternalStep::Done)
    }

    /// With the converter settled: a flip chain of the right size is needed, but not while the
    /// window is being resized.
    pub open spec fn to_chain(self, run: ExternalPresent) -> (
        PresentView,
        ExternalPresent,
        ExternalStep,
    ) {
        if run.resize_active || (self.ext.chain is Some && self.ext.size == run.size) {
            self.to_back_buffer(run)
        } else if self.has_factory && run.size.width > 0 && run.size.height > 0 {
            (
                self,
                run.at(ExternalStage::Chain),
                ExternalStep::MakeChain { size: run.size, is_opaque: self.is_opaque },
            )
        } else {
            self.with_chain(None, run.size).to_back_buffer(run)
        }
    }

    /// With the flip chain settled: its back buffer is looked for.
    pub open spec fn to_back_buffer(self, run: ExternalPresent) -> (
        PresentView,
        ExternalPresent,
        ExternalStep,
    ) {
        if self.can_present(run) {
            let chain = self.ext.chain->0;
            (
                self,
                ExternalPresent {
                    stage: ExternalStage::BackBuffer,
                    chain,
                    chain_size: self.ext.size,
                    ..run
                },
                ExternalStep::GetBackBuffer { chain },
            )
        } else {
            self.over(run)
        }
    }

    /// With the render target at hand: the frame is converted.
    pub open spec fn to_convert(self, run: ExternalPresent, target: u64) -> (
        PresentView,
        ExternalPresent,
        ExternalStep,
    ) {
        (
            PresentView { batch: true, ..self },
            run.at(ExternalStage::Convert),
            ExternalStep::Convert { target, size: run.chain_size, begin_batch: !self.batch },
        )
    }

    /// What is left, and what is done next, after the host's answer.
    pub open spec fn stepped(self, run: ExternalPresent, event: ExternalEvent) -> (
        PresentView,
        ExternalPresent,
        ExternalStep,
    ) {
        match (run.stage, event) {
            (ExternalStage::Begin, ExternalEvent::Begin) => {
                if self.convert_pass == ConvertPass::NotTried {
                    (self, run.at(ExternalStage::ConvertPass), ExternalStep::MakeConvertPass)
                } else {
                    self.to_chain(run)
                }
            },
            (ExternalStage::ConvertPass, ExternalEvent::Made(made)) => {
                PresentView {
                    convert_pass: if self.convert_pass != ConvertPass::NotTried {
                        self.convert_pass
                    } else if made {
                        ConvertPass::Ready
                    } else {
                        ConvertPass::Failed
                    },
                    ..self
                }.to_chain(run)
            },
            (ExternalStage::Chain, ExternalEvent::Handle(created)) => {
                self.with_chain(created, run.size).to_back_buffer(run)
            },
            (ExternalStage::BackBuffer, ExternalEvent::Handle(Some(back))) => {
                if self.ext.views.contains_key(back) {
                    self.to_convert(run, self.ext.views[back])
                } else {
                    (
                        self,
                        run.at(ExternalStage::RenderTarget { back }),
                        ExternalStep::MakeRenderTarget { back },
                    )
                }
            },
            (ExternalStage::RenderTarget { back }, ExternalEvent::Handle(Some(target))) => {
                PresentView {
                    ext: ExternalView { views: self.ext.views.insert(back, target), ..self.ext },
                    ..self
                }.to_convert(run, target)
            },
            (ExternalStage::Convert, ExternalEvent::Made(true)) => (
                self,
                run.at(ExternalStage::Present),
                ExternalStep::Present { chain: run.chain },
            ),
            (ExternalStage::Present, ExternalEvent::Made(true)) => {
                if self.ext.attached {
                    self.presented(run, false).over(run)
                } else {
                    (
                        self.presented(run, false),
                        run.at(ExternalStage::Attach),
                        ExternalStep::Attach { chain: run.chain },
                    )
                }
            },
            (ExternalStage::Attach, ExternalEvent::Made(true)) => {
                self.presented(run, true).over(run)
            },
            _ => self.over(run),
        }
    }
}

impl DCompNativeCompositor {
    /// What the presenting of a frame of an external surface reads and changes.
    pub open spec fn presenting(self, id: u64) -> PresentView {
        PresentView {
            convert_pass: self.convert_pass,
            batch: self.external_batch_active,
            ext: self.external(id)@,
            has_context1: self.has_context1,
            has_factory: self.has_factory,
            is_opaque: self.surfaces@[id].is_opaque,
        }
    }

    /// Nothing but the presenting of this surface has changed.
    pub open spec fn presents_only(self, id: u64, after: DCompNativeCompositor) -> bool {
        let entry = after.surfaces@[id];
        &&& after.surfaces@ == self.surfaces@.insert(id, entry)
        &&& entry == (SurfaceEntry { storage: entry.storage, ..self.surfaces@[id] })
        &&& after == (DCompNativeCompositor {
            surfaces: after.surfaces,
            convert_pass: after.convert_pass,
            external_batch_active: after.external_batch_active,
            ..self
        })
    }

    fn external_chain(&mut self, run: &mut ExternalPresent) -> (step: ExternalStep)
        requires
            old(self).wf(),
            old(self).is_external(old(run).id),
        ensures
            final(self).wf(),
            final(self).is_external(old(run).id),
            final(run).id == old(run).id,
            final(run).valid(final(self).external(old(run).id)@),
            (final(self).presenting(old(run).id), *final(run), step) == old(self).presenting(
                old(run).id,
            ).to_chain(*old(run)),
            old(self).presents_only(old(run).id, *final(self)),
    {
        if self.external_needs_chain(run.id, run.size, run.resize_active) {
            if self.chain_can_be_made(run.size) {
                run.stage = ExternalStage::Chain;
                let is_opaque: bool = match self.surfaces.get(&run.id) {
                    Some(entry) => entry.is_opaque,
                    None => false,
                };
                assert(self.surfaces@.insert(run.id, self.surfaces@[run.id]) =~= self.surfaces@);
                return ExternalStep::MakeChain { size: run.size, is_opaque };
            }
            self.install_external_chain(run.id, None, run.size);
            proof {
                assert(self.presenting(run.id) =~= old(self).presenting(run.id).with_chain(
                    None,
                    run.size,
                ));
            }
        }
        self.external_back_buffer(run)
    }

    fn external_back_buffer(&mut self, run: &mut ExternalPresent) -> (step: ExternalStep)
        requires
            old(self).wf(),
            old(self).is_external(old(run).id),
        ensures
            *final(self) == *old(self),
            final(self).surfaces@ == old(self).surfaces@.insert(
                old(run).id,
                old(self).surfaces@[old(run).id],
            ),
            final(run).id == old(run).id,
            final(run).valid(final(self).external(old(run).id)@),
            (final(self).presenting(old(run).id), *final(run), step) == old(self).presenting(
                old(run).id,
            ).to_back_buffer(*old(run)),
    {
        assert(self.surfaces@.insert(run.id, self.surfaces@[run.id]) =~= self.surfaces@);
        match self.external_target(run.id, run.ring_id, run.seq) {
            Some((chain, size)) => {
                run.stage = ExternalStage::BackBuffer;
                run.chain = chain;
                run.chain_size = size;
                ExternalStep::GetBackBuffer { chain }
            },
            None => {
                run.stage = ExternalStage::Over;
                ExternalStep::Done
            },
        }
    }

    fn external_chain_made(&mut self, run: &mut ExternalPresent, created: Option<u64>) -> (step:
        ExternalStep)
        requires
            old(self).wf(),
            old(self).is_external(old(run).id),
            old(run).stage is Chain,
        ensures
            final(self).wf(),
            final(self).is_external(old(run).id),
            final(run).id == old(run).id,
            final(run).valid(final(self).external(old(run).id)@),
            (final(self).presenting(old(run).id), *final(run), step) == old(self).presenting(
                old(run).id,
            ).stepped(*old(run), ExternalEvent::Handle(created)),
            old(self).presents_only(old(run).id, *final(self)),
    {
        let ghost before = self.presenting(run.id);
        self.install_external_chain(run.id, created, run.size);
        proof {
            assert(self.presenting(run.id) =~= before.with_chain(created, run.size));
        }
        self.external_back_buffer(run)
    }

    fn external_back_buffer_found(&mut self, run: &mut ExternalPresent, back: u64) -> (step:
        ExternalStep)
        requires
            old(self).wf(),
            old(self).is_external(old(run).id),
            old(run).stage is BackBuffer,
            old(self).external(old(run).id)@.chain == Some(old(run).chain),
        ensures
            final(self).wf(),
            final(self).is_external(old(run).id),
            final(run).id == old(run).id,
            final(run).valid(final(self).external(old(run).id)@),
            (final(self).presenting(old(run).id), *final(run), step) == old(self).presenting(
                old(run).id,
            ).stepped(*old(run), ExternalEvent::Handle(Some(back))),
            old(self).presents_only(old(run).id, *final(self)),
    {
        assert(self.surfaces@.insert(run.id, self.surfaces@[run.id]) =~= self.surfaces@);
        match self.external_view(run.id, back) {
            Some(target) => {
                let begin_batch: bool = self.open_external_batch();
                run.stage = ExternalStage::Convert;
                ExternalStep::Convert { target, size: run.chain_size, begin_batch }
            },
            None => {
                run.stage = ExternalStage::RenderTarget { back };
                ExternalStep::MakeRenderTarget { back }
            },
        }
    }

    fn external_target_made(&mut self, run: &mut ExternalPresent, back: u64, target: u64) -> (step:
        ExternalStep)
        requires
            old(self).wf(),
            old(self).is_external(old(run).id),
            old(run).stage == (ExternalStage::RenderTarget { back }),
            old(self).external(old(run).id)@.chain == Some(old(run).chain),
        ensures
            final(self).wf(),
            final(self).is_external(old(run).id),
            final(run).id == old(run).id,
            final(run).valid(final(self).external(old(run).id)@),
            (final(self).presenting(old(run).id), *final(run), step) == old(self).presenting(
                old(run).id,
            ).stepped(*old(run), ExternalEvent::Handle(Some(target))),
            old(self).presents_only(old(run).id, *final(self)),
    {
        let ghost before = self.presenting(run.id);
        self.remember_external_view(run.id, back, target);
        let begin_batch: bool = self.open_external_batch();
        run.stage = ExternalStage::Convert;
        proof {
            assert(self.external(run.id)@ =~= (ExternalView {
                views: before.ext.views.insert(back, target),
                ..before.ext
            }));
        }
        ExternalStep::Convert { target, size: run.chain_size, begin_batch }
    }

    fn external_frame_presented(&mut self, run: &mut ExternalPresent) -> (step: ExternalStep)
        requires
            old(self).wf(),
            old(self).is_external(old(run).id),
            old(run).stage is Present,
            old(self).external(old(run).id)@.chain == Some(old(run).chain),
        ensures
            final(self).wf(),
            final(self).is_external(old(run).id),
            final(run).id == old(run).id,
            final(run).valid(final(self).external(old(run).id)@),
            (final(self).presenting(old(run).id), *final(run), step) == old(self).presenting(
                old(run).id,
            ).stepped(*old(run), ExternalEvent::Made(true)),
            old(self).presents_only(old(run).id, *final(self)),
    {
        let attach: bool = self.external_needs_attach(run.id);
        self.settle_external_present(run.id, run.ring_id, run.seq, true, false);
        if attach {
            run.stage = ExternalStage::Attach;
            ExternalStep::Attach { chain: run.chain }
        } else {
            run.stage = ExternalStage::Over;
            ExternalStep::Done
        }
    }

    fn external_chain_attached(&mut self, run: &mut ExternalPresent) -> (step: ExternalStep)
        requires
            old(self).wf(),
            old(self).is_external(old(run).id),
            old(run).stage is Attach,
            old(self).external(old(run).id)@.chain == Some(old(run).chain),
        ensures
            final(self).wf(),
            final(self).is_external(old(run).id),
            final(run).id == old(run).id,
            final(run).valid(final(self).external(old(run).id)@),
            (final(self).presenting(old(run).id), *final(run), step) == old(self).presenting(
                old(run).id,
            ).stepped(*old(run), ExternalEvent::Made(true)),
            old(self).presents_only(old(run).id, *final(self)),
    {
        self.settle_external_present(run.id, run.ring_id, run.seq, true, true);
        run.stage = ExternalStage::Over;
        ExternalStep::Done
    }

    /// Says what comes next in the presenting of a frame, after the host's answer to what came
    /// before.
    pub fn external_step(&mut self, run: &mut ExternalPresent, event: ExternalEvent) -> (step:
        ExternalStep)
        requires
            old(self).wf(),
            old(self).is_external(old(run).id),
            old(run).awaits(event),
            old(run).valid(old(self).external(old(run).id)@),
        ensures
            final(self).wf(),
            final(self).is_external(old(run).id),
            final(run).id == old(run).id,
            final(run).valid(final(self).external(old(run).id)@),
            (final(self).presenting(old(run).id), *final(run), step) == old(self).presenting(
                old(run).id,
            ).stepped(*old(run), event),
            old(self).presents_only(old(run).id, *final(self)),
    {
        proof {
            assert(self.surfaces@.insert(run.id, self.surfaces@[run.id]) =~= self.surfaces@);
        }
        match (run.stage, event) {
            (ExternalStage::Begin, ExternalEvent::Begin) => {
                if self.needs_convert_pass() {
                    run.stage = ExternalStage::ConvertPass;
                    return ExternalStep::MakeConvertPass;
                }
                self.external_chain(run)
            },
            (ExternalStage::ConvertPass, ExternalEvent::Made(made)) => {
                self.settle_convert_pass(made);
                self.external_chain(run)
            },
            (ExternalStage::Chain, ExternalEvent::Handle(created)) => {
                self.external_chain_made(run, created)
            },
            (ExternalStage::BackBuffer, ExternalEvent::Handle(Some(back))) => {
                self.external_back_buffer_found(run, back)
            },
            (ExternalStage::RenderTarget { back }, ExternalEvent::Handle(Some(target))) => {
                self.external_target_made(run, back, target)
            },
            (ExternalStage::Convert, ExternalEvent::Made(true)) => {
                run.stage = ExternalStage::Present;
                ExternalStep::Present { chain: run.chain }
            },
            (ExternalStage::Present, ExternalEvent::Made(true)) => {
                self.external_frame_presented(run)
            },
            (ExternalStage::Attach, ExternalEvent::Made(true)) => {
                self.external_chain_attached(run)
            },
            _ => {
                run.stage = ExternalStage::Over;
                ExternalStep::Done
            },
        }
    }
}

/// A frame is converted before it is presented, and presented before it is recorded and before the
/// flip chain is attached. A frame that could not be converted or presented is not recorded, so it
/// is tried again.
pub proof fn law_present_follows_convert(v: PresentView, run: ExternalPresent, event: ExternalEvent)
    requires
        run.awaits(event),
    ensures
        ({
            let (after, next, step) = v.stepped(run, event);
            &&& step is Convert ==> next.stage is Convert && v.ext.last == after.ext.last
            &&& step is Present ==> run.stage is Convert && event == ExternalEvent::Made(true)
            &&& step is Attach ==> run.stage is Present && event == ExternalEvent::Made(true)
                && !v.ext.attached
            &&& after.ext.last is Some && after.ext.last != v.ext.last ==> (run.stage is Present
                || run.stage is Attach) && event == ExternalEvent::Made(true) && after.ext.last
                == Some((run.ring_id, run.seq))
            &&& run.stage is Present && event == ExternalEvent::Made(true) ==> after.ext.last
                == Some((run.ring_id, run.seq))
            &&& after.ext.attached && !v.ext.attached ==> run.stage is Attach && event
                == ExternalEvent::Made(true)
            &&& event == ExternalEvent::Made(false) && (run.stage is Convert
                || run.stage is Present) ==> after == v && step is Done
        }),
{
}

/// Every answer brings the run further, so it is over after a few steps; and nothing is asked for
/// twice.
pub proof fn law_external_present_ends(v: PresentView, run: ExternalPresent, event: ExternalEvent)
    requires
        run.awaits(event),
    ensures
        run.rank() < v.stepped(run, event).1.rank() <= 8,
        v.stepped(run, event).2 is Done <==> v.stepped(run, event).1.stage is Over,
{
}

/// The frame that is shown already is not converted again, and while the window is being resized no
/// flip chain is made for one.
pub proof fn law_shown_frame_is_left_alone(v: PresentView, run: ExternalPresent)
    requires
        run.stage is Begin,
        v.convert_pass != ConvertPass::NotTried,
    ensures
        ({
            let (after, next, step) = v.stepped(run, ExternalEvent::Begin);
            &&& v.ext.last == Some((run.ring_id, run.seq)) && v.ext.chain is Some && v.ext.size
                == run.size ==> after == v && step is Done
            &&& run.resize_active ==> !(step is MakeChain) && after.ext == v.ext
        }),
{
}

} // verus!
