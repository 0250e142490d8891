use vstd::prelude::*;

verus! {

/// The mathematical value of a [`Message`]: everything the dispatch logic reads.
pub struct MessageView {
    pub topic: Seq<char>,
    pub partition: int,
    pub offset: int,
    pub payload: Option<Seq<u8>>,
}

/// One unit of data pulled from a subscribed topic: a byte payload plus the
/// metadata that identifies where it came from. Immutable once produced;
/// handlers each work on an independent logical copy.
pub struct Message {
    pub topic: String,
    pub partition: i32,
    pub offset: i64,
    pub payload: Option<Vec<u8>>,
}

impl View for Message {
    type V = MessageView;

    open spec fn view(&self) -> MessageView {
        MessageView {
            topic: self.topic@,
            partition: self.partition as int,
            offset: self.offset as int,
            payload: match self.payload {
                Some(p) => Some(p@),
                None => None,
            },
        }
    }
}

impl Message {
    /// An independent logical copy: extraction works on copies, so one handler
    /// can never exhaust the message for its siblings.
    pub fn duplicate(&self) -> (r: Message)
        ensures
            r@ == self@,
    {
        Message {
            topic: self.topic.clone(),
            partition: self.partition,
            offset: self.offset,
            payload: match &self.payload {
                Some(p) => Some(vstd::slice::slice_to_vec(p.as_slice())),
                None => None,
            },
        }
    }
}

impl Clone for Message {
    fn clone(&self) -> (r: Self)
        ensures
            r@ == self@,
    {
        self.duplicate()
    }
}

/// A transport-level failure to pull the next message from a topic's stream.
/// It originates with the message-queue collaborator; the core only carries it.
#[derive(Clone, Copy, Debug, PartialEq, Eq, Structural)]
pub struct StreamError {
    pub code: u32,
}

} // verus!
