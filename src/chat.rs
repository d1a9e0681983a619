//! Assembling a streamed chat reply. The application frames the reply's
//! lines (with `LineFramer`), reads each line as a chat record, and hands the
//! record's message content and `done` flag to a `ChatAccumulator`, which
//! decides what is sent to the user interface and what the full reply is.
use vstd::prelude::*;

verus! {

/// One piece of a streamed reply, as sent to the user interface.
#[derive(Debug, Clone, PartialEq, Eq)]
pub struct StreamResponse {
    pub content: String,
    pub done: bool,
}

impl View for StreamResponse {
    type V = (Seq<char>, bool);

    open spec fn view(&self) -> (Seq<char>, bool) {
        (self.content@, self.done)
    }
}

pub open spec fn stream_views(v: Seq<StreamResponse>) -> Seq<(Seq<char>, bool)> {
    v.map_values(|r: StreamResponse| r@)
}

/// What one chat record sends to the user interface: its content when it has
/// any, then an empty final piece when the record ends the reply.
pub open spec fn pieces_of(content: Seq<char>, done: bool) -> Seq<(Seq<char>, bool)> {
    (if content.len() > 0 {
        seq![(content, false)]
    } else {
        Seq::empty()
    }) + (if done {
        seq![(Seq::<char>::empty(), true)]
    } else {
        Seq::empty()
    })
}

/// The reply assembled so far from a chat stream.
pub struct ChatAccumulator {
    full: String,
    finished: bool,
}

impl ChatAccumulator {
    /// The content received so far, in order.
    pub closed spec fn text(&self) -> Seq<char> {
        self.full@
    }

    /// Whether a record marked the reply as done.
    pub closed spec fn finished(&self) -> bool {
        self.finished
    }

    /// An empty reply.
    pub fn new() -> (r: ChatAccumulator)
        ensures
            r.text() == Seq::<char>::empty(),
            !r.finished(),
    {
        ChatAccumulator { full: String::new(), finished: false }
    }

    /// Takes the next chat record: its content is appended to the reply and
    /// sent on when non-empty; a record marked done ends the reply with an
    /// empty final piece. Records after the end are ignored.
    pub fn on_message(&mut self, content: String, done: bool) -> (r: Vec<StreamResponse>)
        ensures
            old(self).finished() ==> {
                &&& final(self).text() == old(self).text()
                &&& final(self).finished()
                &&& r@.len() == 0
            },
            !old(self).finished() ==> {
                &&& final(self).text() == old(self).text() + content@
                &&& final(self).finished() == done
                &&& stream_views(r@) == pieces_of(content@, done)
            },
    {
        let mut out: Vec<StreamResponse> = Vec::new();
        if self.finished {
            return out;
        }
        self.full.append(content.as_str());
        if content.as_str().unicode_len() > 0 {
            out.push(StreamResponse { content, done: false });
        }
        if done {
            out.push(StreamResponse { content: String::new(), done: true });
            self.finished = true;
        }
        proof {
            assert(stream_views(out@) =~= pieces_of(content@, done));
        }
        out
    }

    /// Whether a record marked the reply as done.
    pub fn is_finished(&self) -> (r: bool)
        ensures
            r == self.finished(),
    {
        self.finished
    }

    /// The reply assembled so far.
    pub fn response(&self) -> (r: &String)
        ensures
            r@ == self.text(),
    {
        &self.full
    }
}

} // verus!
