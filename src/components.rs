//! The pages that hold a player.
use vstd::prelude::*;

verus! {

/// The page of a live stream: it plays the stream of `topic`.
pub struct LiveStreamPlayer {
    pub topic: String,
}

impl LiveStreamPlayer {
    pub fn create(props: LiveStreamPlayer) -> (r: LiveStreamPlayer)
        ensures
            r.topic@ == props.topic@,
    {
        props
    }

    /// After rendering: the first render starts the stream of the topic,
    /// whose name is returned; later renders start nothing.
    pub fn rendered(&self, first_render: bool) -> (r: Option<String>)
        ensures
            first_render ==> (r matches Some(t) && t@ == self.topic@),
            !first_render ==> r is None,
    {
        if first_render {
            Some(self.topic.clone())
        } else {
            None
        }
    }

    /// On teardown: the topic to leave.
    pub fn destroy(&self) -> (r: String)
        ensures
            r@ == self.topic@,
    {
        self.topic.clone()
    }
}

/// The on-demand page.
pub struct VideoOnDemand {}

impl VideoOnDemand {
    pub fn create() -> (r: VideoOnDemand) {
        VideoOnDemand {}
    }
}

} // verus!
