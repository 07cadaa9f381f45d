//! Which map of the cells belongs to the frame that is on screen.
use vstd::prelude::*;
use std::sync::Arc;
use crate::unicode_layout::VisualGridMap;

verus! {

/// What a frame was made from.
#[derive(Clone, Copy, Debug, PartialEq, Eq, Structural)]
pub struct FrameKey {
    pub snapshot_generation: u64,
    pub layout_generation: u64,
    pub font_generation: u64,
    pub unicode_policy_generation: u64,
}

impl Default for FrameKey {
    fn default() -> (result: FrameKey)
        ensures
            result == (FrameKey {
                snapshot_generation: 0,
                layout_generation: 0,
                font_generation: 0,
                unicode_policy_generation: 0,
            }),
    {
        FrameKey {
            snapshot_generation: 0,
            layout_generation: 0,
            font_generation: 0,
            unicode_policy_generation: 0,
        }
    }
}

/// A frame that is on screen.
#[derive(Clone, Copy, Debug, PartialEq, Eq, Structural)]
pub struct CommittedFrameKey {
    pub frame: FrameKey,
    pub atlas_epoch: u64,
}

#[derive(Debug)]
struct PreparedFrame {
    key: FrameKey,
    visual_map: Arc<VisualGridMap>,
}

/// Keeps the preparation of a frame and the publication of its map in one transaction: a map is
/// published only when the very frame that it was prepared for is on screen.
#[derive(Debug)]
pub struct PresentationPipeline {
    pending: Option<PreparedFrame>,
    published_visual_map: Option<Arc<VisualGridMap>>,
}

/// The state of a pipeline.
pub struct PipelineModel {
    pub pending: Option<(FrameKey, VisualGridMap)>,
    pub published: Option<VisualGridMap>,
}

impl View for PresentationPipeline {
    type V = PipelineModel;

    closed spec fn view(&self) -> PipelineModel {
        PipelineModel {
            pending: match self.pending {
                Some(frame) => Some((frame.key, *frame.visual_map)),
                None => None,
            },
            published: match self.published_visual_map {
                Some(map) => Some(*map),
                None => None,
            },
        }
    }
}

impl PipelineModel {
    pub open spec fn staged(self, key: FrameKey, map: VisualGridMap) -> PipelineModel {
        PipelineModel { pending: Some((key, map)), ..self }
    }

    /// Whether the frame on screen is the one that was prepared last.
    pub open spec fn matches(self, committed: CommittedFrameKey) -> bool {
        self.pending is Some && (self.pending->0).0 == committed.frame
    }

    pub open spec fn committed(self, committed: CommittedFrameKey) -> PipelineModel {
        PipelineModel {
            pending: None,
            published: if self.matches(committed) {
                Some((self.pending->0).1)
            } else {
                self.published
            },
        }
    }
}

impl Default for PresentationPipeline {
    fn default() -> (result: PresentationPipeline)
        ensures
            result@ == (PipelineModel { pending: None, published: None }),
    {
        PresentationPipeline { pending: None, published_visual_map: None }
    }
}

impl PresentationPipeline {
    /// A frame was prepared. It takes the place of one that was not shown.
    pub fn stage(&mut self, key: FrameKey, visual_map: Arc<VisualGridMap>)
        ensures
            final(self)@ == old(self)@.staged(key, *visual_map),
    {
        self.pending = Some(PreparedFrame { key, visual_map });
    }

    /// A frame is on screen. Gives its map, if it is the one that was prepared last.
    pub fn commit(&mut self, committed: CommittedFrameKey) -> (result: Option<Arc<VisualGridMap>>)
        ensures
            final(self)@ == old(self)@.committed(committed),
            result is Some <==> old(self)@.matches(committed),
            result is Some ==> *result->0 == (old(self)@.pending->0).1,
    {
        match self.pending.take() {
            Some(prepared) => {
                if prepared.key != committed.frame {
                    return None;
                }
                let shared = prepared.visual_map.clone();
                self.published_visual_map = Some(shared);
                Some(prepared.visual_map)
            },
            None => None,
        }
    }

    /// The map of the frame on screen.
    pub fn published_visual_map(&self) -> (result: Option<&Arc<VisualGridMap>>)
        ensures
            result is Some <==> self@.published is Some,
            result is Some ==> **result->0 == self@.published->0,
    {
        self.published_visual_map.as_ref()
    }

    pub fn reset(&mut self)
        ensures
            final(self)@ == (PipelineModel { pending: None, published: None }),
    {
        self.pending = None;
        self.published_visual_map = None;
    }
}

/// A frame that was replaced before it was shown never publishes its map, and a commit consumes
/// what was prepared: a second one publishes nothing.
pub proof fn only_the_last_frame_is_published(
    state: PipelineModel,
    first: FrameKey,
    first_map: VisualGridMap,
    second: FrameKey,
    second_map: VisualGridMap,
    committed: CommittedFrameKey,
)
    requires
        committed.frame != second,
    ensures
        state.staged(first, first_map).staged(second, second_map).committed(committed).published
            == state.published,
        state.staged(first, first_map).staged(second, second_map).committed(committed).committed(
            committed,
        ).published == state.published,
{
}

/// What is on screen becomes what was prepared for it, once: a frame that was prepared and committed
/// is published, and what is committed after that publishes nothing new.
pub proof fn a_prepared_frame_is_published_once(
    state: PipelineModel,
    key: FrameKey,
    map: VisualGridMap,
    committed: CommittedFrameKey,
    other: CommittedFrameKey,
)
    requires
        committed.frame == key,
    ensures
        state.staged(key, map).published == state.published,
        state.staged(key, map).committed(committed).published == Some(map),
        state.committed(committed).pending is None,
        state.committed(committed).committed(other) == state.committed(committed),
{
}

} // verus!
