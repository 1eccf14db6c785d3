//! The stream aggregator: the fragments of one streamed response, taken in
//! the order of delivery and joined into one text. A failure of the
//! connection leaves no text at all.

use vstd::prelude::*;
use vstd::string::*;
use crate::britney::Britney;
use crate::error::{GenerationError, PipelineError};
use crate::issue::Issue;
use crate::response::{parsed_body, parsed_title};

verus! {

broadcast use vstd::string::group_string_axioms;

/// What a stream delivers, one event at a time.
#[derive(Debug)]
pub enum StreamEvent {
    /// A fragment of the assistant's message.
    Chunk(String),
    /// A chunk that was malformed or carried no message.
    Skipped,
    /// The connection failed.
    Failed,
}

/// A stream event with its fragment as a text.
pub enum StreamEventView {
    Chunk(Seq<char>),
    Skipped,
    Failed,
}

impl View for StreamEvent {
    type V = StreamEventView;

    open spec fn view(&self) -> StreamEventView {
        match self {
            StreamEvent::Chunk(text) => StreamEventView::Chunk(text@),
            StreamEvent::Skipped => StreamEventView::Skipped,
            StreamEvent::Failed => StreamEventView::Failed,
        }
    }
}

impl Clone for StreamEvent {
    fn clone(&self) -> (copy: StreamEvent)
        ensures
            copy@ == self@,
    {
        match self {
            StreamEvent::Chunk(text) => StreamEvent::Chunk(text.clone()),
            StreamEvent::Skipped => StreamEvent::Skipped,
            StreamEvent::Failed => StreamEvent::Failed,
        }
    }
}

impl DeepView for StreamEvent {
    type V = StreamEventView;

    open spec fn deep_view(&self) -> StreamEventView {
        self@
    }
}

/// What the consumer of a stream does after an event.
#[derive(Debug)]
pub enum StreamAction {
    /// Take the next event.
    Continue,
    /// Write this fragment to the live sink, then take the next event.
    Echo(String),
    /// Stop: the stream has failed.
    Stop,
}

/// A stream action with its fragment as a text.
pub enum StreamActionView {
    Continue,
    Echo(Seq<char>),
    Stop,
}

impl View for StreamAction {
    type V = StreamActionView;

    open spec fn view(&self) -> StreamActionView {
        match self {
            StreamAction::Continue => StreamActionView::Continue,
            StreamAction::Echo(text) => StreamActionView::Echo(text@),
            StreamAction::Stop => StreamActionView::Stop,
        }
    }
}

/// The text that one event adds.
pub open spec fn fragment(event: StreamEventView) -> Seq<char> {
    match event {
        StreamEventView::Chunk(text) => text,
        _ => Seq::empty(),
    }
}

/// The fragments of `events`, joined in the order of delivery.
pub open spec fn accumulated(events: Seq<StreamEventView>) -> Seq<char>
    decreases events.len(),
{
    if events.len() == 0 {
        Seq::empty()
    } else {
        accumulated(events.drop_last()) + fragment(events.last())
    }
}

/// The connection failed during `events`.
pub open spec fn broken(events: Seq<StreamEventView>) -> bool {
    exists|i: int| 0 <= i < events.len() && events[i] is Failed
}

/// What a stream that delivered `events` and then ended amounts to: all of
/// its text, or a failure and no text.
pub open spec fn aggregated(events: Seq<StreamEventView>) -> Result<
    Seq<char>,
    GenerationError,
> {
    if broken(events) {
        Err(GenerationError::TransportFailure)
    } else {
        Ok(accumulated(events))
    }
}

/// The events of a stream that delivers `pieces` and nothing else.
pub open spec fn chunks(pieces: Seq<Seq<char>>) -> Seq<StreamEventView> {
    pieces.map_values(|piece: Seq<char>| StreamEventView::Chunk(piece))
}

/// The pieces of `pieces`, joined in order.
pub open spec fn concatenation(pieces: Seq<Seq<char>>) -> Seq<char>
    decreases pieces.len(),
{
    if pieces.len() == 0 {
        Seq::empty()
    } else {
        concatenation(pieces.drop_last()) + pieces.last()
    }
}

/// The pieces of `text` between the cut positions `cuts`, which ascend from
/// 0 to the length of `text`.
pub open spec fn pieces_of(text: Seq<char>, cuts: Seq<int>) -> Seq<Seq<char>> {
    Seq::new((cuts.len() - 1) as nat, |i: int| text.subrange(cuts[i], cuts[i + 1]))
}

/// `cuts` ascends from 0 to `len`.
pub open spec fn cuts_of(cuts: Seq<int>, len: int) -> bool {
    &&& cuts.len() >= 1
    &&& cuts.first() == 0
    &&& cuts.last() == len
    &&& forall|i: int| 0 <= i < cuts.len() - 1 ==> #[trigger] cuts[i] <= cuts[i + 1]
}

/// A stream of chunks alone aggregates to the concatenation of the chunks,
/// in the order of delivery.
pub proof fn lemma_aggregate_concatenates(pieces: Seq<Seq<char>>)
    ensures
        aggregated(chunks(pieces)) == Ok::<Seq<char>, GenerationError>(concatenation(pieces)),
    decreases pieces.len(),
{
    if pieces.len() > 0 {
        lemma_aggregate_concatenates(pieces.drop_last());
        assert(chunks(pieces).drop_last() =~= chunks(pieces.drop_last()));
    }
}

/// The pieces between ascending cuts join to the text up to the last cut.
proof fn lemma_pieces_join(text: Seq<char>, cuts: Seq<int>)
    requires
        cuts.len() >= 1,
        cuts.first() == 0,
        cuts.last() <= text.len(),
        forall|i: int| 0 <= i < cuts.len() - 1 ==> #[trigger] cuts[i] <= cuts[i + 1],
    ensures
        concatenation(pieces_of(text, cuts)) == text.subrange(0, cuts.last()),
    decreases cuts.len(),
{
    if cuts.len() == 1 {
        assert(text.subrange(0, 0) =~= Seq::<char>::empty());
    } else {
        let front = cuts.drop_last();
        assert(front.last() == cuts[cuts.len() - 2]);
        assert forall|i: int| 0 <= i < front.len() - 1 implies #[trigger] front[i] <= front[i
            + 1] by {
            assert(front[i] == cuts[i] && front[i + 1] == cuts[i + 1]);
        }
        assert(0 <= front.last()) by {
            lemma_cuts_ascend(cuts, 0, cuts.len() - 2);
        }
        lemma_pieces_join(text, front);
        assert(pieces_of(text, cuts).drop_last() =~= pieces_of(text, front));
        assert(text.subrange(0, front.last()) + text.subrange(front.last(), cuts.last())
            =~= text.subrange(0, cuts.last()));
    }
}

/// Cuts that ascend step by step ascend over any distance.
proof fn lemma_cuts_ascend(cuts: Seq<int>, i: int, j: int)
    requires
        forall|k: int| 0 <= k < cuts.len() - 1 ==> #[trigger] cuts[k] <= cuts[k + 1],
        0 <= i <= j < cuts.len(),
    ensures
        cuts[i] <= cuts[j],
    decreases j - i,
{
    if i < j {
        lemma_cuts_ascend(cuts, i, j - 1);
    }
}

/// Wherever a text is cut into chunks, aggregating the chunks gives the
/// text back.
pub proof fn lemma_chunk_boundaries_do_not_matter(text: Seq<char>, cuts: Seq<int>)
    requires
        cuts_of(cuts, text.len() as int),
    ensures
        aggregated(chunks(pieces_of(text, cuts))) == Ok::<Seq<char>, GenerationError>(text),
{
    lemma_aggregate_concatenates(pieces_of(text, cuts));
    lemma_pieces_join(text, cuts);
    assert(text.subrange(0, text.len() as int) =~= text);
}

/// The accumulation of one stream.
#[derive(Debug)]
pub struct Aggregator {
    /// The text so far.
    pub text: String,
    /// The connection has failed.
    pub failed: bool,
    /// Fragments go to a live sink as they come.
    pub echo: bool,
}

impl Aggregator {
    /// The state matches a stream that has delivered `events`.
    pub open spec fn holds(&self, events: Seq<StreamEventView>) -> bool {
        &&& self.failed == broken(events)
        &&& !self.failed ==> self.text@ == accumulated(events)
    }

    /// An aggregator for a stream that has delivered nothing yet.
    pub fn new(echo: bool) -> (aggregator: Aggregator)
        ensures
            aggregator.text@ == Seq::<char>::empty(),
            !aggregator.failed,
            aggregator.echo == echo,
            aggregator.holds(Seq::empty()),
    {
        Aggregator { text: String::new(), failed: false, echo }
    }

    /// Takes one event. A chunk is appended to the text and, where a sink
    /// is wanted, handed back once for it; a skipped chunk changes nothing;
    /// a failure ends the stream. After a failure nothing is taken.
    pub fn accept(&mut self, event: StreamEvent) -> (action: StreamAction)
        ensures
            final(self).echo == old(self).echo,
            final(self).failed == (old(self).failed || event@ is Failed),
            final(self).text@ == if old(self).failed {
                old(self).text@
            } else {
                old(self).text@ + fragment(event@)
            },
            action@ == if final(self).failed {
                StreamActionView::Stop
            } else if old(self).echo && event@ is Chunk {
                StreamActionView::Echo(fragment(event@))
            } else {
                StreamActionView::Continue
            },
            forall|events: Seq<StreamEventView>| #[trigger]
                old(self).holds(events) ==> final(self).holds(events.push(event@)),
    {
        proof {
            assert forall|events: Seq<StreamEventView>| #[trigger]
                broken(events.push(event@)) == (broken(events) || event@ is Failed) by {
                let longer = events.push(event@);
                if broken(events) {
                    let i = choose|i: int| 0 <= i < events.len() && events[i] is Failed;
                    assert(longer[i] is Failed);
                }
                if event@ is Failed {
                    assert(longer[events.len() as int] is Failed);
                }
                if broken(longer) {
                    let i = choose|i: int| 0 <= i < longer.len() && longer[i] is Failed;
                    if i < events.len() {
                        assert(events[i] is Failed);
                    }
                }
            }
            assert forall|events: Seq<StreamEventView>| #[trigger]
                accumulated(events.push(event@)) == accumulated(events) + fragment(event@) by {
                assert(events.push(event@).drop_last() =~= events);
            }
            assert(self.text@ + Seq::<char>::empty() =~= self.text@);
        }
        if self.failed {
            return StreamAction::Stop;
        }
        match event {
            StreamEvent::Chunk(text) => {
                self.text.append(text.as_str());
                if self.echo {
                    StreamAction::Echo(text)
                } else {
                    StreamAction::Continue
                }
            },
            StreamEvent::Skipped => StreamAction::Continue,
            StreamEvent::Failed => {
                self.failed = true;
                StreamAction::Stop
            },
        }
    }

    /// The response, once the stream has ended: the whole text, or the
    /// failure and no text.
    pub fn finish(self) -> (response: Result<String, GenerationError>)
        ensures
            match response {
                Ok(text) => !self.failed && text@ == self.text@,
                Err(e) => self.failed && e == GenerationError::TransportFailure,
            },
    {
        if self.failed {
            Err(GenerationError::TransportFailure)
        } else {
            Ok(self.text)
        }
    }
}

/// The views of `events`, in order.
pub open spec fn event_views(events: Seq<StreamEvent>) -> Seq<StreamEventView> {
    events.map_values(|event: StreamEvent| event@)
}

/// The response of a stream that delivered `events` and then ended.
pub fn aggregate(events: &Vec<StreamEvent>) -> (response: Result<String, GenerationError>)
    ensures
        match response {
            Ok(text) => aggregated(event_views(events@)) == Ok::<Seq<char>, GenerationError>(
                text@,
            ),
            Err(e) => aggregated(event_views(events@)) == Err::<Seq<char>, GenerationError>(e),
        },
{
    let mut aggregator = Aggregator::new(false);
    let ghost all = event_views(events@);
    let mut taken: usize = 0;
    assert(all.take(0) =~= Seq::<StreamEventView>::empty());
    while taken < events.len()
        invariant
            taken <= events@.len(),
            all == event_views(events@),
            aggregator.holds(all.take(taken as int)),
        decreases events@.len() - taken,
    {
        let event = events[taken].clone();
        let ghost before = all.take(taken as int);
        assert(all.take(taken + 1) =~= before.push(event@));
        let _ = aggregator.accept(event);
        taken = taken + 1;
    }
    assert(all.take(events@.len() as int) =~= all);
    aggregator.finish()
}

impl Britney {
    /// The issue of one artifact, from the stream that answered its
    /// request: the parsed response, or the failure of the stream.
    pub fn issue_from_stream(&self, events: &Vec<StreamEvent>) -> (outcome: Result<
        Issue,
        PipelineError,
    >)
        ensures
            match aggregated(event_views(events@)) {
                Ok(text) => outcome matches Ok(issue) && issue@.title == parsed_title(text)
                    && issue@.body == parsed_body(text),
                Err(e) => outcome == Err::<Issue, PipelineError>(PipelineError::Generation(e)),
            },
    {
        match aggregate(events) {
            Ok(text) => Ok(self.parse_response(text)),
            Err(e) => Err(PipelineError::Generation(e)),
        }
    }
}

} // verus!
