//! The output of a running `ossutil`, as it arrives in pieces.
//!
//! `ossutil` paints its progress over and over on one line, with carriage returns and no line feed.
//! So the bytes are cut at both, and a reader that waits for whole lines would wait for ever.
use crate::event;
use crate::event::EventView;
use crate::event::UploadEvent;
use crate::outside;
use crate::text;
use vstd::prelude::*;
use vstd::string::*;

verus! {

/// The byte of a line feed.
pub const LINE_FEED: u8 = 10;

/// The byte of a carriage return.
pub const CARRIAGE_RETURN: u8 = 13;

/// Whether `b` ends a segment.
pub open spec fn is_break(b: u8) -> bool {
    b == LINE_FEED || b == CARRIAGE_RETURN
}

/// Whether `bytes` hold no break.
pub open spec fn is_unbroken(bytes: Seq<u8>) -> bool {
    forall|i: int| 0 <= i < bytes.len() ==> !is_break(#[trigger] bytes[i])
}

/// The text of a segment, which is not shown when it is empty.
pub open spec fn segment_text(segment: Seq<u8>) -> Seq<char> {
    text::strip_end(outside::utf8_lossy(segment), text::Margin::White)
}

/// The event of a text that is shown, if it is.
pub open spec fn shown(line: Seq<char>, task_id: Seq<char>) -> Seq<EventView> {
    if line.len() == 0 {
        seq![]
    } else {
        seq![EventView { task_id: Some(task_id), ..event::line_event(line) }]
    }
}

/// The event of a segment, if it has one.
pub open spec fn flushed(segment: Seq<u8>, task_id: Seq<char>) -> Seq<EventView> {
    if segment.len() == 0 {
        seq![]
    } else {
        shown(segment_text(segment), task_id)
    }
}

/// What comes of `bytes` when `pending` was left over from before: the events of the segments that
/// end in them, and what is left over then.
pub open spec fn pumped(pending: Seq<u8>, bytes: Seq<u8>, task_id: Seq<char>) -> (
    Seq<EventView>,
    Seq<u8>,
)
    decreases bytes.len(),
{
    if bytes.len() == 0 {
        (seq![], pending)
    } else if is_break(bytes[0]) {
        let (events, rest) = pumped(seq![], bytes.drop_first(), task_id);
        (flushed(pending, task_id) + events, rest)
    } else {
        pumped(pending.push(bytes[0]), bytes.drop_first(), task_id)
    }
}

/// What comes of a whole output.
pub open spec fn output_events(bytes: Seq<u8>, task_id: Seq<char>) -> Seq<EventView> {
    let (events, rest) = pumped(seq![], bytes, task_id);
    events + flushed(rest, task_id)
}

/// What comes of pieces that arrive one after the other.
pub open spec fn pumped_pieces(
    pending: Seq<u8>,
    pieces: Seq<Seq<u8>>,
    task_id: Seq<char>,
) -> (Seq<EventView>, Seq<u8>)
    decreases pieces.len(),
{
    if pieces.len() == 0 {
        (seq![], pending)
    } else {
        let (first, left) = pumped(pending, pieces[0], task_id);
        let (others, rest) = pumped_pieces(left, pieces.drop_first(), task_id);
        (first + others, rest)
    }
}

/// Bytes that arrive in two pieces give what they give in one.
pub proof fn lemma_pumped_concat(pending: Seq<u8>, a: Seq<u8>, b: Seq<u8>, task_id: Seq<char>)
    ensures
        ({
            let (first, left) = pumped(pending, a, task_id);
            let (second, rest) = pumped(left, b, task_id);
            pumped(pending, a + b, task_id) == (first + second, rest)
        }),
    decreases a.len(),
{
    if a.len() == 0 {
        assert(a + b =~= b);
        let (second, rest) = pumped(pending, b, task_id);
        assert(Seq::<EventView>::empty() + second =~= second);
    } else {
        assert((a + b).drop_first() =~= a.drop_first() + b);
        if is_break(a[0]) {
            lemma_pumped_concat(seq![], a.drop_first(), b, task_id);
            let (first, left) = pumped(seq![], a.drop_first(), task_id);
            let (second, rest) = pumped(left, b, task_id);
            assert(flushed(pending, task_id) + (first + second) =~= flushed(pending, task_id)
                + first + second);
        } else {
            lemma_pumped_concat(pending.push(a[0]), a.drop_first(), b, task_id);
        }
    }
}

/// However an output is cut into pieces, what comes of it is what comes of the whole.
pub proof fn lemma_pieces_do_not_matter(
    pending: Seq<u8>,
    pieces: Seq<Seq<u8>>,
    task_id: Seq<char>,
)
    ensures
        pumped_pieces(pending, pieces, task_id) == pumped(pending, pieces.flatten(), task_id),
    decreases pieces.len(),
{
    if pieces.len() > 0 {
        let (first, left) = pumped(pending, pieces[0], task_id);
        lemma_pieces_do_not_matter(left, pieces.drop_first(), task_id);
        lemma_pumped_concat(pending, pieces[0], pieces.drop_first().flatten(), task_id);
    }
}

/// However a whole output is cut into pieces, its events are the same: those that come while it is
/// read, and the one that may come at its end.
pub proof fn lemma_output_in_pieces(pieces: Seq<Seq<u8>>, task_id: Seq<char>)
    ensures
        ({
            let (events, rest) = pumped_pieces(seq![], pieces, task_id);
            events + flushed(rest, task_id) == output_events(pieces.flatten(), task_id)
        }),
{
    lemma_pieces_do_not_matter(seq![], pieces, task_id);
}

/// What is left over holds no break.
pub proof fn lemma_rest_has_no_break(pending: Seq<u8>, bytes: Seq<u8>, task_id: Seq<char>)
    requires
        is_unbroken(pending),
    ensures
        is_unbroken(pumped(pending, bytes, task_id).1),
    decreases bytes.len(),
{
    if bytes.len() > 0 {
        if is_break(bytes[0]) {
            lemma_rest_has_no_break(seq![], bytes.drop_first(), task_id);
        } else {
            lemma_rest_has_no_break(pending.push(bytes[0]), bytes.drop_first(), task_id);
        }
    }
}

/// A carriage return ends a segment as a line feed does: to exchange one for the other changes
/// nothing.
pub proof fn lemma_breaks_are_alike(
    pending: Seq<u8>,
    before: Seq<u8>,
    after: Seq<u8>,
    task_id: Seq<char>,
)
    ensures
        pumped(pending, before + seq![LINE_FEED] + after, task_id) == pumped(
            pending,
            before + seq![CARRIAGE_RETURN] + after,
            task_id,
        ),
{
    let (_, left) = pumped(pending, before, task_id);
    lemma_pumped_concat(pending, before, seq![LINE_FEED], task_id);
    lemma_pumped_concat(pending, before, seq![CARRIAGE_RETURN], task_id);
    lemma_pumped_concat(pending, before + seq![LINE_FEED], after, task_id);
    lemma_pumped_concat(pending, before + seq![CARRIAGE_RETURN], after, task_id);
    assert(seq![LINE_FEED].drop_first() =~= seq![CARRIAGE_RETURN].drop_first());
    assert(pumped(left, seq![LINE_FEED], task_id) == pumped(left, seq![CARRIAGE_RETURN], task_id));
}

/// Every event tells which task it comes from, and has a line that is not empty.
pub proof fn lemma_events_are_tagged(pending: Seq<u8>, bytes: Seq<u8>, task_id: Seq<char>)
    ensures
        are_tagged(pumped(pending, bytes, task_id).0, task_id),
    decreases bytes.len(),
{
    if bytes.len() > 0 {
        let rest = bytes.drop_first();
        if is_break(bytes[0]) {
            lemma_events_are_tagged(seq![], rest, task_id);
            let first = flushed(pending, task_id);
            let others = pumped(seq![], rest, task_id).0;
            let all = pumped(pending, bytes, task_id).0;
            assert(all == first + others);
            assert forall|i: int| 0 <= i < all.len() implies is_tagged(
                #[trigger] all[i],
                task_id,
            ) by {
                if i >= first.len() {
                    assert(all[i] == others[i - first.len()]);
                }
            }
        } else {
            lemma_events_are_tagged(pending.push(bytes[0]), rest, task_id);
        }
    }
}

/// Every event of a whole output tells which task it comes from, and has a line that is not empty:
/// those that come while it is read, and the one that may come at its end.
pub proof fn lemma_output_is_tagged(bytes: Seq<u8>, task_id: Seq<char>)
    ensures
        are_tagged(output_events(bytes, task_id), task_id),
{
    lemma_events_are_tagged(seq![], bytes, task_id);
}

/// Whether an event tells which task it comes from, and has a line that is not empty.
pub open spec fn is_tagged(event: EventView, task_id: Seq<char>) -> bool {
    event.task_id == Some(task_id) && event.line is Some && event.line->0.len() > 0
}

/// Whether all of `list` tell which task they come from, and have lines that are not empty.
pub open spec fn are_tagged(list: Seq<EventView>, task_id: Seq<char>) -> bool {
    forall|i: int| 0 <= i < list.len() ==> is_tagged(#[trigger] list[i], task_id)
}

/// The events that a list holds.
pub open spec fn events(list: Seq<UploadEvent>) -> Seq<EventView> {
    list.map_values(|e: UploadEvent| e@)
}

/// A reader of one output stream of one task.
pub struct Pump {
    acc: Vec<u8>,
}

impl View for Pump {
    type V = Seq<u8>;

    /// The bytes of the segment that has not ended yet.
    closed spec fn view(&self) -> Seq<u8> {
        self.acc@
    }
}

impl Pump {
    /// Whether the segment that has not ended yet holds no break.
    pub open spec fn wf(&self) -> bool {
        is_unbroken(self@)
    }

    /// A reader that has read nothing.
    pub fn new() -> (res: Self)
        ensures
            res@ == Seq::<u8>::empty(),
            res.wf(),
    {
        Pump { acc: Vec::new() }
    }

    /// Reads a piece, and gives the events of the segments that end in it.
    pub fn feed(&mut self, chunk: &[u8], task_id: &str) -> (res: Vec<UploadEvent>)
        ensures
            (events(res@), final(self)@) == pumped(old(self)@, chunk@, task_id@),
            old(self).wf() ==> final(self).wf(),
    {
        let mut res: Vec<UploadEvent> = Vec::new();
        let ghost pending = self@;
        let mut i: usize = 0;
        assert(chunk@.take(0) =~= seq![]);
        assert(events(res@) =~= seq![]);
        while i < chunk.len()
            invariant
                i <= chunk@.len(),
                pending == old(self)@,
                (events(res@), self@) == pumped(pending, chunk@.take(i as int), task_id@),
            decreases chunk.len() - i,
        {
            let byte: u8 = chunk[i];
            let ghost left = self@;
            let ghost given = events(res@);
            proof {
                lemma_pumped_concat(pending, chunk@.take(i as int), seq![byte], task_id@);
                assert(chunk@.take(i + 1) =~= chunk@.take(i as int) + seq![byte]);
                assert(seq![byte].drop_first() =~= seq![]);
                reveal_with_fuel(pumped, 2);
            }
            if byte == LINE_FEED || byte == CARRIAGE_RETURN {
                match self.flush(task_id) {
                    Some(event) => {
                        res.push(event);
                        assert(events(res@) =~= given + seq![event@]);
                    },
                    None => {
                        assert(events(res@) =~= given + Seq::<EventView>::empty());
                    },
                }
                assert(flushed(left, task_id@) + Seq::<EventView>::empty() =~= flushed(
                    left,
                    task_id@,
                ));
            } else {
                self.acc.push(byte);
                assert(given + Seq::<EventView>::empty() =~= given);
            }
            i = i + 1;
        }
        proof {
            assert(chunk@.take(i as int) =~= chunk@);
            if is_unbroken(pending) {
                lemma_rest_has_no_break(pending, chunk@, task_id@);
            }
        }
        res
    }

    /// Ends the segment, and gives its event if it has one.
    pub fn flush(&mut self, task_id: &str) -> (res: Option<UploadEvent>)
        ensures
            final(self)@ == Seq::<u8>::empty(),
            final(self).wf(),
            res is None ==> flushed(old(self)@, task_id@) == Seq::<EventView>::empty(),
            res matches Some(e) ==> flushed(old(self)@, task_id@) == seq![e@],
    {
        if self.acc.len() == 0 {
            assert(self@ =~= seq![]);
            return None;
        }
        let text = outside::lossy_text(self.acc.as_slice());
        self.acc.clear();
        line_shown(text.as_str(), task_id)
    }
}

/// The event of a decoded segment, without white space at its end. A blank one has none.
pub fn line_shown(segment: &str, task_id: &str) -> (res: Option<UploadEvent>)
    ensures
        res is None ==> shown(text::strip_end(segment@, text::Margin::White), task_id@) == Seq::<
            EventView,
        >::empty(),
        res matches Some(e) ==> shown(text::strip_end(segment@, text::Margin::White), task_id@)
            == seq![e@],
{
    let line = text::trim_end(segment);
    if line.is_empty() {
        return None;
    }
    Some(event::parse_line(line).for_task(task_id))
}

/// Bytes without a break give no event, and wait behind those that waited before.
pub proof fn lemma_unbroken_bytes_wait(pending: Seq<u8>, bytes: Seq<u8>, task_id: Seq<char>)
    requires
        forall|i: int| 0 <= i < bytes.len() ==> #[trigger] bytes[i] != 10 && bytes[i] != 13,
    ensures
        pumped(pending, bytes, task_id) == (Seq::<EventView>::empty(), pending + bytes),
    decreases bytes.len(),
{
    if bytes.len() == 0 {
        assert(pending + bytes =~= pending);
    } else {
        let rest = bytes.drop_first();
        assert(bytes[0] != 10 && bytes[0] != 13);
        assert forall|i: int| 0 <= i < rest.len() implies #[trigger] rest[i] != 10 && rest[i]
            != 13 by {
            assert(rest[i] == bytes[i + 1]);
        }
        lemma_unbroken_bytes_wait(pending.push(bytes[0]), rest, task_id);
        assert(pending.push(bytes[0]) + rest =~= pending + bytes);
    }
}

proof fn lemma_flushed_line(segment: Seq<u8>, task_id: Seq<char>)
    ensures
        ({
            let text = outside::utf8_lossy(segment);
            let blank = segment.len() == 0 || forall|i: int|
                0 <= i < text.len() ==> text::is_white(#[trigger] text[i]);
            let events = flushed(segment, task_id);
            &&& blank ==> events == Seq::<EventView>::empty()
            &&& !blank ==> events.len() == 1 && ({
                let line = events[0].line->0;
                &&& events[0].line is Some
                &&& 0 < line.len() <= text.len()
                &&& line == text.take(line.len() as int)
                &&& !text::is_white(line.last())
                &&& forall|i: int|
                    line.len() <= i < text.len() ==> text::is_white(#[trigger] text[i])
                &&& events[0] == EventView { task_id: Some(task_id), ..event::line_event(line) }
            })
        }),
{
    let text = outside::utf8_lossy(segment);
    text::lemma_end_is_stripped(text);
    let line = text::strip_end(text, text::Margin::White);
    if segment.len() > 0 {
        if forall|i: int| 0 <= i < text.len() ==> text::is_white(#[trigger] text[i]) {
            if line.len() > 0 {
                assert(!text::is_white(text[line.len() - 1]));
            }
        } else {
            let i = choose|i: int| 0 <= i < text.len() && !text::is_white(#[trigger] text[i]);
            assert(line.len() > i);
        }
    }
}

/// Every segment that a break ends, and whose text is not blank, gives exactly one event, whatever its
/// length, and that event comes from the task and has the text of the segment, without the white space
/// at its end, for its line. A blank segment gives none. What follows the break gives what it gives
/// alone.
pub proof fn lemma_each_segment_gives_one_event(
    segment: Seq<u8>,
    end: u8,
    rest: Seq<u8>,
    task_id: Seq<char>,
)
    requires
        forall|i: int| 0 <= i < segment.len() ==> #[trigger] segment[i] != 10 && segment[i] != 13,
        end == 10 || end == 13,
    ensures
        ({
            let text = outside::utf8_lossy(segment);
            let blank = segment.len() == 0 || forall|i: int|
                0 <= i < text.len() ==> text::is_white(#[trigger] text[i]);
            let (events, left) = pumped(seq![], segment + seq![end] + rest, task_id);
            let (others, others_left) = pumped(seq![], rest, task_id);
            &&& left == others_left
            &&& blank ==> events == others
            &&& !blank ==> events.len() == others.len() + 1 && events.skip(1) == others
                && events[0].task_id == Some(task_id) && ({
                let line = events[0].line->0;
                &&& events[0].line is Some
                &&& 0 < line.len() <= text.len()
                &&& line == text.take(line.len() as int)
                &&& !text::is_white(line.last())
                &&& forall|i: int|
                    line.len() <= i < text.len() ==> text::is_white(#[trigger] text[i])
                &&& events[0] == EventView { task_id: Some(task_id), ..event::line_event(line) }
            })
        }),
{
    let none = Seq::<u8>::empty();
    let tail = seq![end] + rest;
    lemma_unbroken_bytes_wait(none, segment, task_id);
    assert(none + segment =~= segment);
    lemma_pumped_concat(none, segment, tail, task_id);
    assert(segment + seq![end] + rest =~= segment + tail);
    assert(tail.drop_first() =~= rest);
    assert(tail[0] == end);
    let (others, others_left) = pumped(none, rest, task_id);
    let first = flushed(segment, task_id);
    assert(pumped(segment, tail, task_id) == (first + others, others_left));
    lemma_flushed_line(segment, task_id);
    let events = pumped(none, segment + seq![end] + rest, task_id).0;
    assert(events =~= first + others);
    if first.len() == 0 {
        assert(first + others =~= others);
    } else {
        assert((first + others).skip(1) =~= others);
    }
}

/// What an output ends with, behind its last break, gives an event too when the output is over, unless
/// it is blank.
pub proof fn lemma_last_segment_gives_one_event(segment: Seq<u8>, task_id: Seq<char>)
    requires
        forall|i: int| 0 <= i < segment.len() ==> #[trigger] segment[i] != 10 && segment[i] != 13,
    ensures
        ({
            let text = outside::utf8_lossy(segment);
            let blank = segment.len() == 0 || forall|i: int|
                0 <= i < text.len() ==> text::is_white(#[trigger] text[i]);
            let events = output_events(segment, task_id);
            &&& events == flushed(segment, task_id)
            &&& blank ==> events == Seq::<EventView>::empty()
            &&& !blank ==> events.len() == 1 && events[0].task_id == Some(task_id) && ({
                let line = events[0].line->0;
                &&& events[0].line is Some
                &&& 0 < line.len() <= text.len()
                &&& line == text.take(line.len() as int)
                &&& !text::is_white(line.last())
                &&& forall|i: int|
                    line.len() <= i < text.len() ==> text::is_white(#[trigger] text[i])
                &&& events[0] == EventView { task_id: Some(task_id), ..event::line_event(line) }
            })
        }),
{
    let none = Seq::<u8>::empty();
    lemma_unbroken_bytes_wait(none, segment, task_id);
    assert(none + segment =~= segment);
    lemma_flushed_line(segment, task_id);
    assert(Seq::<EventView>::empty() + flushed(segment, task_id) =~= flushed(segment, task_id));
}

/// The text of a segment, once it is known, gives one event with the text without white space at its
/// end for its line, or none where the text is blank.
pub proof fn lemma_text_is_shown(text: Seq<char>, task_id: Seq<char>)
    ensures
        ({
            let blank = forall|i: int| 0 <= i < text.len() ==> text::is_white(#[trigger] text[i]);
            let events = shown(text::strip_end(text, text::Margin::White), task_id);
            &&& blank ==> events == Seq::<EventView>::empty()
            &&& !blank ==> events.len() == 1 && events[0].task_id == Some(task_id) && ({
                let line = events[0].line->0;
                &&& events[0].line is Some
                &&& 0 < line.len() <= text.len()
                &&& line == text.take(line.len() as int)
                &&& !text::is_white(line.last())
                &&& forall|i: int|
                    line.len() <= i < text.len() ==> text::is_white(#[trigger] text[i])
                &&& events[0] == EventView { task_id: Some(task_id), ..event::line_event(line) }
            })
        }),
{
    text::lemma_end_is_stripped(text);
    let line = text::strip_end(text, text::Margin::White);
    if forall|i: int| 0 <= i < text.len() ==> text::is_white(#[trigger] text[i]) {
        if line.len() > 0 {
            assert(!text::is_white(text[line.len() - 1]));
        }
    } else {
        let i = choose|i: int| 0 <= i < text.len() && !text::is_white(#[trigger] text[i]);
        assert(line.len() > i);
    }
}

/// Events keep their number and their order.
pub proof fn lemma_events_one_by_one(list: Seq<UploadEvent>, i: int)
    requires
        0 <= i < list.len(),
    ensures
        events(list).len() == list.len(),
        events(list)[i] == list[i]@,
{
}

} // verus!
