//! Whether the painters of a wall show a web view scrolled alike.
//!
//! Before a wall frame is asked of several painters, what each of them has scrolled is compared. A
//! painter that differs, or has nothing to compare, shows another picture than its neighbours.
use crate::paint::Paint;
use vstd::prelude::*;

verus! {

/// Why a painter of a web view has nothing to compare.
#[derive(Clone, Copy, Debug, PartialEq, Eq, Structural)]
pub enum MissingTarget {
    /// The painter is gone.
    Painter,
    /// The painter does not know the web view.
    WebView,
}

/// What the comparison of the painters of a web view gave.
#[derive(Debug)]
pub struct WallFrameMetadata {
    pub matched: bool,
    /// The painters that have nothing to compare, in their order.
    pub missing: Vec<u64>,
}

/// The painters that have nothing to compare, in their order.
pub open spec fn without_signature(targets: Seq<(u64, Option<String>)>) -> Seq<u64>
    decreases targets.len(),
{
    if targets.len() == 0 {
        Seq::empty()
    } else if targets.last().1 is None {
        without_signature(targets.drop_last()).push(targets.last().0)
    } else {
        without_signature(targets.drop_last())
    }
}

/// The signatures that are there are one and the same.
pub open spec fn alike(targets: Seq<(u64, Option<String>)>) -> bool {
    forall|i: int, j: int|
        0 <= i < j < targets.len() && (#[trigger] targets[i]).1 is Some && (
        #[trigger] targets[j]).1 is Some ==> targets[i].1->0@ == targets[j].1->0@
}

/// Compares what the painters of a web view have scrolled, each by a signature of its scroll
/// offsets. They match where none is missing and all are the same.
pub fn wall_frame_metadata(targets: &[(u64, Option<String>)]) -> (m: WallFrameMetadata)
    ensures
        m.missing@ == without_signature(targets@),
        m.matched <==> m.missing@.len() == 0 && alike(targets@),
{
    let mut missing: Vec<u64> = Vec::new();
    let mut first: Option<usize> = None;
    let mut same: bool = true;
    let mut i: usize = 0;
    assert(targets@.take(0) =~= Seq::<(u64, Option<String>)>::empty());
    while i < targets.len()
        invariant
            i <= targets@.len(),
            missing@ == without_signature(targets@.take(i as int)),
            match first {
                None => forall|j: int| 0 <= j < i ==> (#[trigger] targets@[j]).1 is None,
                Some(f) => f < i && targets@[f as int].1 is Some && forall|j: int|
                    0 <= j < f ==> (#[trigger] targets@[j]).1 is None,
            },
            first is None ==> same,
            first matches Some(f) ==> (same <==> forall|j: int|
                0 <= j < i && (#[trigger] targets@[j]).1 is Some ==> targets@[j].1->0@
                    == targets@[f as int].1->0@),
        decreases targets@.len() - i,
    {
        proof {
            assert(targets@.take(i + 1).drop_last() =~= targets@.take(i as int));
        }
        match &targets[i].1 {
            None => missing.push(targets[i].0),
            Some(signature) => match first {
                None => {
                    first = Some(i);
                },
                Some(f) => {
                    if let Some(known) = &targets[f].1 {
                        same = same && *signature == *known;
                    }
                },
            },
        }
        i = i + 1;
    }
    proof {
        assert(targets@.take(i as int) =~= targets@);
        if let Some(f) = first {
            if same {
                assert(alike(targets@));
            } else {
                let j = choose|j: int|
                    0 <= j < i && (#[trigger] targets@[j]).1 is Some && targets@[j].1->0@
                        != targets@[f as int].1->0@;
                assert(f < j);
                assert(!alike(targets@));
            }
        }
    }
    WallFrameMetadata { matched: missing.len() == 0 && same, missing }
}

impl Paint {
    /// Why a painter has nothing to compare of a web view; `None` where it has.
    pub fn missing_wall_target(&self, webview_id: u64, painter_id: u64) -> (r: Option<
        MissingTarget,
    >)
        requires
            self.wf(),
        ensures
            r == (if !self@.painters.contains_key(painter_id) {
                Some(MissingTarget::Painter)
            } else if !self@.painters[painter_id].webviews.contains_key(webview_id) {
                Some(MissingTarget::WebView)
            } else {
                None
            }),
    {
        match self.maybe_painter(painter_id) {
            None => Some(MissingTarget::Painter),
            Some(painter) => if painter.knows_webview(webview_id) {
                None
            } else {
                Some(MissingTarget::WebView)
            },
        }
    }
}

} // verus!
