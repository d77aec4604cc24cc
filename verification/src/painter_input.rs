//! What input does to a painter: where the mouse is, and whose cursor shows.
use vstd::prelude::*;

use crate::painter::{Painter, PainterView, TransactionOp};
use crate::painter_webviews::AnimationOutcome;

verus! {

/// An input event, as far as a painter tells events apart.
#[derive(Clone, Copy, Debug, PartialEq, Eq)]
pub enum InputKind {
    /// The mouse moved to a point, given as the bits of its coordinates. `for_touch` events
    /// accompany a touch.
    MouseMove { for_touch: bool, point: (u32, u32) },
    MouseLeftViewport,
    Other,
}

impl PainterView {
    /// The painter after an input event for one of its web views.
    pub open spec fn input_noted(self, webview: u64, event: InputKind) -> PainterView {
        if !self.webviews.contains_key(webview) {
            self
        } else {
            match event {
                InputKind::MouseMove { for_touch, point } => if for_touch {
                    self
                } else {
                    PainterView { mouse: Some(point), ..self }
                },
                InputKind::MouseLeftViewport => PainterView { mouse: None, ..self },
                InputKind::Other => self,
            }
        }
    }

    /// The pipeline whose cursor shows, of those that lie under the mouse.
    pub open spec fn cursor_pipeline(self, hits: Seq<u64>) -> Option<u64> {
        if self.mouse is Some && hits.len() > 0 {
            Some(hits[0])
        } else {
            None
        }
    }
}

impl Painter {
    /// An input event for a web view. The answer is `None` where the web view is not there; else
    /// it says whether the event ends the search for the largest contentful paint, which every
    /// event but those of the mouse's position does.
    pub fn notify_input_event(&mut self, webview_id: u64, event: InputKind) -> (r: Option<bool>)
        requires
            old(self).wf(),
        ensures
            final(self).wf(),
            final(self)@ == old(self)@.input_noted(webview_id, event),
            r == (if old(self)@.webviews.contains_key(webview_id) {
                Some(event is Other)
            } else {
                None
            }),
    {
        if !self.knows_webview(webview_id) {
            return None;
        }
        match event {
            InputKind::MouseMove { for_touch, point } => {
                if !for_touch {
                    self.last_mouse_move_position = Some(point);
                }
                Some(false)
            },
            InputKind::MouseLeftViewport => {
                self.last_mouse_move_position = None;
                Some(false)
            },
            InputKind::Other => Some(true),
        }
    }

    /// The pipeline that is asked for its cursor anew: the topmost of those under the last known
    /// position of the mouse.
    pub fn refresh_cursor(&self, hits: &[u64]) -> (r: Option<u64>)
        ensures
            r == self@.cursor_pipeline(hits@),
    {
        if self.last_mouse_move_position.is_none() || hits.len() == 0 {
            None
        } else {
            Some(hits[0])
        }
    }

    /// A pipeline was throttled or is not any more. `changed` says whether that changed anything,
    /// and `animating` whether the web view is animated then.
    pub fn set_throttled(
        &mut self,
        webview_id: u64,
        changed: bool,
        animating: bool,
        callbacks_running: bool,
    ) -> (r: AnimationOutcome)
        requires
            old(self).wf(),
        ensures
            final(self).wf(),
            (final(self)@, r) == old(self)@.animations_changed(
                webview_id,
                changed,
                animating,
                callbacks_running,
            ),
    {
        self.change_running_animations_state(webview_id, changed, animating, callbacks_running)
    }
}

/// The steps that take fonts out: the instances first.
pub open spec fn fonts_removed(keys: Seq<u64>, instance_keys: Seq<u64>) -> Seq<TransactionOp> {
    instance_keys.map_values(|key: u64| TransactionOp::DeleteFontInstance { key })
        + keys.map_values(|key: u64| TransactionOp::DeleteFont { key })
}

/// Takes fonts and instances of fonts out of the renderer.
pub fn remove_fonts(keys: &[u64], instance_keys: &[u64]) -> (transaction: Vec<TransactionOp>)
    ensures
        transaction@ == fonts_removed(keys@, instance_keys@),
{
    let mut transaction: Vec<TransactionOp> = Vec::new();
    let mut i: usize = 0;
    while i < instance_keys.len()
        invariant
            i <= instance_keys@.len(),
            transaction@ == fonts_removed(Seq::empty(), instance_keys@.take(i as int)),
        decreases instance_keys@.len() - i,
    {
        transaction.push(TransactionOp::DeleteFontInstance { key: instance_keys[i] });
        i = i + 1;
        assert(transaction@ =~= fonts_removed(Seq::empty(), instance_keys@.take(i as int)));
    }
    assert(instance_keys@.take(i as int) =~= instance_keys@);
    let mut k: usize = 0;
    assert(keys@.take(0) =~= Seq::<u64>::empty());
    while k < keys.len()
        invariant
            k <= keys@.len(),
            transaction@ == fonts_removed(keys@.take(k as int), instance_keys@),
        decreases keys@.len() - k,
    {
        transaction.push(TransactionOp::DeleteFont { key: keys[k] });
        k = k + 1;
        assert(transaction@ =~= fonts_removed(keys@.take(k as int), instance_keys@));
    }
    assert(keys@.take(k as int) =~= keys@);
    transaction
}

/// Once the mouse has left, no cursor is asked for until it comes back, whatever other events
/// arrive; a touch does not bring it back.
pub proof fn law_mouse_that_left_has_no_cursor(
    p: PainterView,
    webview: u64,
    other: u64,
    event: InputKind,
    hits: Seq<u64>,
)
    requires
        p.webviews.contains_key(webview),
        event matches InputKind::MouseMove { for_touch, .. } ==> for_touch,
    ensures
        p.input_noted(webview, InputKind::MouseLeftViewport).input_noted(
            other,
            event,
        ).cursor_pipeline(hits) is None,
{
}

} // verus!
