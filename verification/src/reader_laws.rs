//! What holds of the event reader over several steps.

use vstd::prelude::*;

use crate::codec::utf8_text;
use crate::xml_parser::{
    appended, begin_model, classified, emit_model, feed_model, initial_model, is_text_piece, qname, split_name,
    start_event, text_piece, EventModel, ErrorKind, RawModel, ReaderModel, TagModel,
};

verus! {

/// Feeding raw events one after another: the final state and what each
/// step came to.
pub open spec fn feed_all(s: ReaderModel, raws: Seq<RawModel>) -> (ReaderModel, Seq<
    Result<Option<EventModel>, ErrorKind>,
>)
    decreases raws.len(),
{
    if raws.len() == 0 {
        (s, Seq::empty())
    } else {
        let (s1, outs) = feed_all(s, raws.drop_last());
        let (s2, out) = feed_model(s1, raws.last());
        (s2, outs.push(out))
    }
}

/// Every raw event is character data that decodes and unescapes.
pub open spec fn all_good_text(raws: Seq<RawModel>) -> bool {
    forall|i: int| 0 <= i < raws.len() ==> is_text_piece(#[trigger] raws[i]) && text_piece(raws[i]) is Ok
}

/// The characters that a run of character data adds up to.
pub open spec fn run_text(raws: Seq<RawModel>) -> Seq<char>
    decreases raws.len(),
{
    if raws.len() == 0 {
        Seq::empty()
    } else {
        run_text(raws.drop_last()) + text_piece(raws.last())->Ok_0
    }
}

/// Character data never makes an event by itself: a run of it, however
/// split into text chunks and references, only extends the text of the
/// current run, by the concatenation of its pieces.
pub proof fn law_text_run_accumulates(s: ReaderModel, raws: Seq<RawModel>)
    requires
        all_good_text(raws),
    ensures
        feed_all(s, raws).1 == Seq::new(raws.len(), |i: int| Ok::<Option<EventModel>, ErrorKind>(None)),
        feed_all(s, raws).0 == (ReaderModel {
            text: if raws.len() == 0 { s.text } else { appended(s.text, run_text(raws)) },
            ..s
        }),
    decreases raws.len(),
{
    if raws.len() > 0 {
        let init = raws.drop_last();
        assert forall|i: int| 0 <= i < init.len() implies is_text_piece(#[trigger] init[i])
            && text_piece(init[i]) is Ok by {
            assert(init[i] == raws[i]);
        }
        law_text_run_accumulates(s, init);
        assert(is_text_piece(raws[raws.len() - 1]));
        let p = text_piece(raws.last())->Ok_0;
        if init.len() > 0 {
            match s.text {
                Some(t) => {
                    assert(t + run_text(init) + p =~= t + (run_text(init) + p));
                },
                None => {},
            }
        } else {
            assert(run_text(raws) =~= p);
        }
        assert(feed_all(s, raws).1 =~= Seq::new(
            raws.len(),
            |i: int| Ok::<Option<EventModel>, ErrorKind>(None),
        ));
    }
}

/// A run of text read so far comes out as one event when a tag starts,
/// `Whitespace` or `Characters` as its characters are all white space or
/// not, and the start event is the next one read after it.
pub proof fn law_run_then_start(s: ReaderModel, t: Seq<char>, tag: TagModel)
    requires
        s.text == Some(t),
        start_event(tag) is Ok,
    ensures
        ({
            let (s1, out) = feed_model(s, RawModel::Start(tag));
            &&& out == Ok::<Option<EventModel>, ErrorKind>(Some(classified(t)))
            &&& begin_model(s1) == (
                ReaderModel { pending: s.pending, text: None, ..s },
                Some(start_event(tag)->Ok_0),
            )
        }),
{
    let (s1, out) = feed_model(s, RawModel::Start(tag));
    assert(s1.pending.drop_first() =~= s.pending);
}

/// An empty element `<a/>` is read as its start event followed by an end
/// event of the same name.
pub proof fn law_empty_element(s: ReaderModel, tag: TagModel)
    requires
        s.text is None,
        s.pending.len() == 0,
        start_event(tag) is Ok,
    ensures
        ({
            let (s1, out) = feed_model(s, RawModel::Empty(tag));
            let start = start_event(tag)->Ok_0;
            &&& out == Ok::<Option<EventModel>, ErrorKind>(Some(start))
            &&& start matches EventModel::Start { name, .. } && name == qname(tag.name)
            &&& begin_model(s1).1 == Some(EventModel::End { name: qname(tag.name) })
            &&& begin_model(s1).0.pending.len() == 0
        }),
{
    let (s1, out) = feed_model(s, RawModel::Empty(tag));
    assert(begin_model(s1).0.pending =~= Seq::<EventModel>::empty());
}

/// At the end of input a pending run of text is handed out first and the
/// end of the document is read right after it; with no text pending the end
/// of the document is handed out at once and the reader is finished.
pub proof fn law_end_of_input(s: ReaderModel)
    requires
        s.pending.len() == 0,
    ensures
        ({
            let (s1, out) = feed_model(s, RawModel::Eof);
            match s.text {
                Some(t) => {
                    &&& out == Ok::<Option<EventModel>, ErrorKind>(Some(classified(t)))
                    &&& begin_model(s1).1 == Some(EventModel::EndDocument)
                    &&& !s1.finished || s.finished
                },
                None => {
                    &&& out == Ok::<Option<EventModel>, ErrorKind>(Some(EventModel::EndDocument))
                    &&& s1.finished
                },
            }
        }),
{
}

/// Once the reader has read to the end of the document it stays finished,
/// whatever it is fed or asked afterwards.
pub proof fn law_finished_stays_finished(s: ReaderModel, raw: RawModel)
    requires
        s.finished,
    ensures
        feed_model(s, raw).0.finished,
        begin_model(s).0.finished,
{
}

/// A split name joins back to the text it came from: the prefix, a `:` and
/// the local name, where the prefix holds no `:`; a name without prefix is
/// the whole text, which then holds no `:`.
pub proof fn law_split_name_rejoins(t: Seq<char>)
    ensures
        match split_name(t).prefix {
            Some(p) => p + seq![':'] + split_name(t).local_name == t && !p.contains(':'),
            None => split_name(t).local_name == t && !t.contains(':'),
        },
        split_name(t).namespace is None,
{
    if t.contains(':') {
        t.index_of_first_ensures(':');
        let f = t.index_of_first(':')->Some_0;
        assert(!t.take(f).contains(':')) by {
            if t.take(f).contains(':') {
                let j = choose|j: int| 0 <= j < t.take(f).len() && t.take(f)[j] == ':';
                assert(t[j] == ':');
            }
        }
        let i = choose|i: int| 0 <= i < t.len() && t[i] == ':' && !t.take(i).contains(':');
        assert(t.take(i) + seq![':'] + t.skip(i + 1) =~= t);
    }
}

/// A structural event that ends a run of text: with no run pending it is
/// handed out at once and the pending events stay as they were; with a run
/// pending the run is handed out, the structural event is the next one read,
/// and the reader is then exactly where it would stand had the structural
/// event been handed out at once.
pub proof fn law_boundary_after_run(s: ReaderModel, boundary: EventModel)
    ensures
        ({
            let (s1, out) = emit_model(s, boundary);
            match s.text {
                None => out == boundary && s1 == (ReaderModel { text: None, ..s }),
                Some(t) => {
                    &&& out == classified(t)
                    &&& begin_model(s1).1 == Some(boundary)
                    &&& begin_model(s1).0 == (ReaderModel { text: None, ..s })
                },
            }
        }),
{
    let (s1, out) = emit_model(s, boundary);
    if s.text is Some {
        assert(s1.pending.drop_first() =~= s.pending);
    }
}

// ---------------------------------------------------------------------------
// The stream of events
// ---------------------------------------------------------------------------

/// Whether an event is character data.
pub open spec fn is_text_event(e: EventModel) -> bool {
    e is Characters || e is Whitespace
}

/// Which of the pending events are the content of a CDATA section, after a
/// raw event was taken in with nothing pending: only a CDATA section that
/// ends a run of text waits, at the front.
pub open spec fn pending_sources(s: ReaderModel, raw: RawModel, s1: ReaderModel) -> Seq<bool> {
    Seq::new(s1.pending.len(), |i: int| i == 0 && raw is CData && s.text is Some)
}

/// The events read one after another, as iteration hands them out, up to
/// the end of the document, an error, or the end of the raw events; each
/// with whether it is the content of a CDATA section. `sources` says the
/// same of the events pending.
pub open spec fn stream(s: ReaderModel, sources: Seq<bool>, raws: Seq<RawModel>) -> Seq<(EventModel, bool)>
    decreases raws.len(), s.pending.len(), 1nat,
{
    let (s1, popped) = begin_model(s);
    match popped {
        Some(e) => if e is EndDocument {
            seq![(e, sources[0])]
        } else {
            seq![(e, sources[0])] + stream(s1, sources.drop_first(), raws)
        },
        None => run(s1, raws),
    }
}

/// The events of a read that found nothing pending and feeds raw events
/// until one makes an event, and of the reads after it.
pub open spec fn run(s: ReaderModel, raws: Seq<RawModel>) -> Seq<(EventModel, bool)>
    decreases raws.len(), s.pending.len(), 0nat,
{
    if raws.len() == 0 {
        Seq::empty()
    } else {
        let (s1, out) = feed_model(s, raws[0]);
        match out {
            Ok(Some(e)) => {
                let here = (e, raws[0] is CData && s.text is None);
                if e is EndDocument {
                    seq![here]
                } else {
                    seq![here] + stream(s1, pending_sources(s, raws[0], s1), raws.drop_first())
                }
            },
            Ok(None) => run(s1, raws.drop_first()),
            Err(_) => Seq::empty(),
        }
    }
}

/// Of two character-data events in a row, one is the content of a CDATA
/// section.
pub open spec fn no_adjacent_runs(events: Seq<(EventModel, bool)>) -> bool {
    forall|i: int|
        #![trigger events[i], events[i + 1]]
        0 <= i && i + 1 < events.len() && is_text_event(events[i].0) && is_text_event(events[i + 1].0)
            ==> events[i].1 || events[i + 1].1
}

/// The sources match the pending events, and every pending character data
/// is the content of a CDATA section.
pub open spec fn sources_agree(s: ReaderModel, sources: Seq<bool>) -> bool {
    &&& sources.len() == s.pending.len()
    &&& forall|i: int| 0 <= i < sources.len() && is_text_event(#[trigger] s.pending[i]) ==> sources[i]
}

proof fn lemma_prepend_no_adjacent_runs(here: (EventModel, bool), rest: Seq<(EventModel, bool)>)
    requires
        no_adjacent_runs(rest),
        rest.len() > 0 && is_text_event(here.0) && is_text_event(rest[0].0) ==> here.1 || rest[0].1,
    ensures
        no_adjacent_runs(seq![here] + rest),
{
    let all = seq![here] + rest;
    assert forall|i: int|
        #![trigger all[i], all[i + 1]]
        0 <= i && i + 1 < all.len() && is_text_event(all[i].0) && is_text_event(all[i + 1].0)
            implies all[i].1 || all[i + 1].1 by {
        if i > 0 {
            let j = i - 1;
            assert(all[i] == rest[j]);
            assert(all[i + 1] == rest[j + 1]);
        } else {
            assert(all[0] == here);
            assert(all[1] == rest[0]);
        }
    }
}

proof fn lemma_stream_runs(s: ReaderModel, sources: Seq<bool>, raws: Seq<RawModel>)
    requires
        sources_agree(s, sources),
    ensures
        no_adjacent_runs(stream(s, sources, raws)),
        s.pending.len() > 0 ==> stream(s, sources, raws).len() > 0 && stream(s, sources, raws)[0] == (
            s.pending[0],
            sources[0],
        ),
    decreases raws.len(), s.pending.len(), 1nat,
{
    let (s1, popped) = begin_model(s);
    match popped {
        Some(e) => {
            if !(e is EndDocument) {
                let src1 = sources.drop_first();
                assert forall|i: int| 0 <= i < src1.len() && is_text_event(#[trigger] s1.pending[i]) implies src1[i] by {
                    assert(s1.pending[i] == s.pending[i + 1]);
                }
                lemma_stream_runs(s1, src1, raws);
                let rest = stream(s1, src1, raws);
                assert(is_text_event(e) ==> sources[0]);
                lemma_prepend_no_adjacent_runs((e, sources[0]), rest);
            }
        },
        None => {
            lemma_run_runs(s1, raws);
        },
    }
}

proof fn lemma_run_runs(s: ReaderModel, raws: Seq<RawModel>)
    requires
        s.pending.len() == 0,
    ensures
        no_adjacent_runs(run(s, raws)),
    decreases raws.len(), s.pending.len(), 0nat,
{
    if raws.len() > 0 {
        let raw = raws[0];
        let (s1, out) = feed_model(s, raw);
        match out {
            Ok(Some(e)) => {
                if !(e is EndDocument) {
                    let src1 = pending_sources(s, raw, s1);
                    assert forall|i: int|
                        0 <= i < src1.len() && is_text_event(#[trigger] s1.pending[i]) implies src1[i] by {
                        match raw {
                            RawModel::CData(_) => {},
                            RawModel::Empty(tag) => {
                                assert(s1.pending[i] is Start || s1.pending[i] is End);
                            },
                            _ => {},
                        }
                    }
                    lemma_stream_runs(s1, src1, raws.drop_first());
                    let here = (e, raw is CData && s.text is None);
                    assert(is_text_event(e) && !here.1 ==> s1.pending.len() > 0);
                    lemma_prepend_no_adjacent_runs(here, stream(s1, src1, raws.drop_first()));
                }
            },
            Ok(None) => {
                lemma_run_runs(s1, raws.drop_first());
            },
            Err(_) => {},
        }
    }
}

/// A fresh reader never hands out two runs of text in a row: of two
/// character-data events that follow each other, one is the content of a
/// CDATA section, however the raw events fall.
pub proof fn law_no_adjacent_text_runs(raws: Seq<RawModel>)
    ensures
        no_adjacent_runs(stream(initial_model(), Seq::empty(), raws)),
{
    lemma_stream_runs(initial_model(), Seq::empty(), raws);
}

proof fn lemma_run_text_front(raws: Seq<RawModel>)
    requires
        raws.len() > 0,
        all_good_text(raws),
    ensures
        run_text(raws) == text_piece(raws[0])->Ok_0 + run_text(raws.drop_first()),
    decreases raws.len(),
{
    let p0 = text_piece(raws[0])->Ok_0;
    if raws.len() == 1 {
        assert(raws.drop_last().len() == 0);
        assert(raws.drop_first().len() == 0);
        assert(run_text(raws.drop_last()) == Seq::<char>::empty());
        assert(run_text(raws.drop_first()) == Seq::<char>::empty());
        assert(raws.last() == raws[0]);
        assert(run_text(raws) =~= p0 + run_text(raws.drop_first()));
    } else {
        let init = raws.drop_last();
        assert forall|i: int| 0 <= i < init.len() implies is_text_piece(#[trigger] init[i])
            && text_piece(init[i]) is Ok by {
            assert(init[i] == raws[i]);
        }
        lemma_run_text_front(init);
        assert(init[0] == raws[0]);
        let tail = raws.drop_first();
        assert(tail.drop_last() =~= init.drop_first());
        assert(tail.last() == raws.last());
        assert(run_text(tail) == run_text(tail.drop_last()) + text_piece(tail.last())->Ok_0);
        assert(run_text(raws) =~= p0 + run_text(tail));
    }
}

proof fn lemma_run_over_text(s: ReaderModel, texts: Seq<RawModel>, rest: Seq<RawModel>)
    requires
        all_good_text(texts),
    ensures
        run(s, texts + rest) == run(
            ReaderModel {
                text: if texts.len() == 0 { s.text } else { appended(s.text, run_text(texts)) },
                ..s
            },
            rest,
        ),
    decreases texts.len(),
{
    if texts.len() == 0 {
        assert(texts + rest =~= rest);
        assert(s == ReaderModel { text: s.text, ..s });
    } else {
        let all = texts + rest;
        assert(all[0] == texts[0]);
        assert(is_text_piece(texts[0]) && text_piece(texts[0]) is Ok);
        let p0 = text_piece(texts[0])->Ok_0;
        let s1 = ReaderModel { text: appended(s.text, p0), ..s };
        assert(feed_model(s, all[0]) == (s1, Ok::<Option<EventModel>, ErrorKind>(None)));
        let tail = texts.drop_first();
        assert(all.drop_first() =~= tail + rest);
        assert forall|i: int| 0 <= i < tail.len() implies is_text_piece(#[trigger] tail[i])
            && text_piece(tail[i]) is Ok by {
            assert(tail[i] == texts[i + 1]);
        }
        lemma_run_over_text(s1, tail, rest);
        lemma_run_text_front(texts);
        if tail.len() == 0 {
            assert(run_text(tail) =~= Seq::<char>::empty());
            assert(run_text(texts) =~= p0);
        } else {
            match s.text {
                Some(t) => {
                    assert(t + p0 + run_text(tail) =~= t + (p0 + run_text(tail)));
                },
                None => {},
            }
        }
    }
}

/// Wherever the reader stands with nothing pending, a run of character data
/// followed by an empty element `<a/>` is read as the run, as one event,
/// then the start event of `a` and an end event of the same name; with no
/// character data before it, the start and the end come first. None of these
/// is the content of a CDATA section.
pub proof fn law_empty_element_in_stream(
    s: ReaderModel,
    sources: Seq<bool>,
    texts: Seq<RawModel>,
    tag: TagModel,
    rest: Seq<RawModel>,
)
    requires
        s.pending.len() == 0,
        all_good_text(texts),
        start_event(tag) is Ok,
    ensures
        ({
            let events = stream(s, sources, texts + seq![RawModel::Empty(tag)] + rest);
            let start = start_event(tag)->Ok_0;
            let end = EventModel::End { name: qname(tag.name) };
            &&& start matches EventModel::Start { name, .. } && name == qname(tag.name)
            &&& texts.len() == 0 ==> events.len() >= 2 && events[0] == (start, false) && events[1] == (end, false)
            &&& texts.len() > 0 ==> events.len() >= 3 && events[0] == (classified(run_text(texts)), false)
                && events[1] == (start, false) && events[2] == (end, false)
        }),
{
    let raws = texts + seq![RawModel::Empty(tag)] + rest;
    let after = seq![RawModel::Empty(tag)] + rest;
    assert(raws =~= texts + after);
    let s0 = ReaderModel { text: None, ..s };
    assert(stream(s, sources, raws) == run(s0, raws));
    lemma_run_over_text(s0, texts, after);
    let sr = ReaderModel {
        text: if texts.len() == 0 { s0.text } else { appended(s0.text, run_text(texts)) },
        ..s0
    };
    let start = start_event(tag)->Ok_0;
    let end = EventModel::End { name: qname(tag.name) };
    assert(after[0] == RawModel::Empty(tag));
    assert(after.drop_first() =~= rest);
    let (s1, out) = feed_model(sr, after[0]);
    let src1 = pending_sources(sr, after[0], s1);
    assert(run(sr, after) == seq![(out->Ok_0->Some_0, false)] + stream(s1, src1, rest));
    if texts.len() == 0 {
        assert(s1.pending =~= seq![end]);
        assert(out == Ok::<Option<EventModel>, ErrorKind>(Some(start)));
        let (s2, popped) = begin_model(s1);
        assert(popped == Some(end));
        assert(stream(s1, src1, rest) == seq![(end, false)] + stream(s2, src1.drop_first(), rest));
    } else {
        assert(s1.pending =~= seq![start, end]);
        assert(out == Ok::<Option<EventModel>, ErrorKind>(Some(classified(run_text(texts)))));
        let (s2, popped) = begin_model(s1);
        assert(popped == Some(start));
        assert(stream(s1, src1, rest) == seq![(start, false)] + stream(s2, src1.drop_first(), rest));
        let (s3, popped2) = begin_model(s2);
        assert(s2.pending =~= seq![end]);
        assert(popped2 == Some(end));
        assert(stream(s2, src1.drop_first(), rest) == seq![(end, false)] + stream(
            s3,
            src1.drop_first().drop_first(),
            rest,
        ));
    }
}

// ---------------------------------------------------------------------------
// Reads one at a time
// ---------------------------------------------------------------------------

/// One read, as the reader makes it: an event made earlier is handed out
/// first; otherwise raw events are fed until one makes an event or an
/// error. The state after it and what it came to; `None` where the raw
/// events ran out first.
pub open spec fn read_model(s: ReaderModel, raws: Seq<RawModel>) -> (ReaderModel, Option<
    Result<EventModel, ErrorKind>,
>) {
    let (s1, popped) = begin_model(s);
    match popped {
        Some(e) => (s1, Some(Ok(e))),
        None => feed_until_event(s1, raws),
    }
}

/// Raw events fed one after another until one makes an event or an error.
pub open spec fn feed_until_event(s: ReaderModel, raws: Seq<RawModel>) -> (ReaderModel, Option<
    Result<EventModel, ErrorKind>,
>)
    decreases raws.len(),
{
    if raws.len() == 0 {
        (s, None)
    } else {
        let (s1, out) = feed_model(s, raws[0]);
        match out {
            Ok(None) => feed_until_event(s1, raws.drop_first()),
            Ok(Some(e)) => (s1, Some(Ok(e))),
            Err(k) => (s1, Some(Err(k))),
        }
    }
}

/// What holds of the reader between two reads: while events wait, no run
/// of text is open, and the end of the document waits only as the last of
/// them.
pub open spec fn settled(s: ReaderModel) -> bool {
    &&& s.pending.len() > 0 ==> s.text is None
    &&& forall|i: int| 0 <= i < s.pending.len() - 1 ==> !(#[trigger] s.pending[i] is EndDocument)
}

/// `n` reads, each of which meets the end of input again.
pub open spec fn reads_at_end(s: ReaderModel, n: nat) -> (ReaderModel, Seq<
    Option<Result<EventModel, ErrorKind>>,
>)
    decreases n,
{
    if n == 0 {
        (s, Seq::empty())
    } else {
        let (s1, outs) = reads_at_end(s, (n - 1) as nat);
        let (s2, out) = read_model(s1, seq![RawModel::Eof]);
        (s2, outs.push(out))
    }
}

proof fn lemma_feed_until_settled(s: ReaderModel, raws: Seq<RawModel>)
    requires
        s.pending.len() == 0,
    ensures
        settled(feed_until_event(s, raws).0),
        feed_until_event(s, raws).1 == Some(Ok::<EventModel, ErrorKind>(EventModel::EndDocument)) ==> {
            let s1 = feed_until_event(s, raws).0;
            s1.pending.len() == 0 && s1.text is None
        },
    decreases raws.len(),
{
    if raws.len() > 0 {
        let (s1, out) = feed_model(s, raws[0]);
        match out {
            Ok(None) => {
                lemma_feed_until_settled(s1, raws.drop_first());
            },
            _ => {},
        }
    }
}

/// The reader is settled when it is made and after every read; and a read
/// that hands out the end of the document leaves nothing pending and no run
/// of text open.
pub proof fn law_reads_keep_settled(s: ReaderModel, raws: Seq<RawModel>)
    requires
        settled(s),
    ensures
        settled(initial_model()),
        settled(read_model(s, raws).0),
        read_model(s, raws).1 == Some(Ok::<EventModel, ErrorKind>(EventModel::EndDocument)) ==> {
            let s1 = read_model(s, raws).0;
            s1.pending.len() == 0 && s1.text is None
        },
{
    let (s1, popped) = begin_model(s);
    match popped {
        Some(e) => {
            assert forall|i: int| 0 <= i < s1.pending.len() - 1 implies !(#[trigger] s1.pending[i] is EndDocument) by {
                assert(s1.pending[i] == s.pending[i + 1]);
            }
            if e is EndDocument {
                assert(s.pending[0] is EndDocument);
                assert(s.pending.len() == 1);
            }
        },
        None => {
            lemma_feed_until_settled(s1, raws);
        },
    }
}

proof fn lemma_reads_at_end(s: ReaderModel, n: nat)
    requires
        s.pending.len() == 0,
        s.text is None,
    ensures
        reads_at_end(s, n).1 == Seq::new(n, |i: int| Some(Ok::<EventModel, ErrorKind>(EventModel::EndDocument))),
        reads_at_end(s, n).0 == (if n == 0 { s } else { ReaderModel { finished: true, ..s } }),
    decreases n,
{
    if n > 0 {
        lemma_reads_at_end(s, (n - 1) as nat);
        let (s1, outs) = reads_at_end(s, (n - 1) as nat);
        let raws = seq![RawModel::Eof];
        assert(raws.drop_first().len() == 0);
        assert(read_model(s1, raws) == (
            ReaderModel { finished: true, ..s },
            Some(Ok::<EventModel, ErrorKind>(EventModel::EndDocument)),
        ));
        assert(reads_at_end(s, n).1 =~= Seq::new(
            n,
            |i: int| Some(Ok::<EventModel, ErrorKind>(EventModel::EndDocument)),
        ));
    }
}

/// Once a read has handed out the end of the document, every later read
/// that meets the end of input again hands out the end of the document
/// again, never an error or another event; and a finished reader with
/// nothing pending and no text stays exactly as it is.
pub proof fn law_end_of_document_for_every_later_read(s: ReaderModel, raws: Seq<RawModel>, n: nat)
    requires
        settled(s),
        read_model(s, raws).1 == Some(Ok::<EventModel, ErrorKind>(EventModel::EndDocument)),
    ensures
        reads_at_end(read_model(s, raws).0, n).1 == Seq::new(
            n,
            |i: int| Some(Ok::<EventModel, ErrorKind>(EventModel::EndDocument)),
        ),
        ({
            let s1 = read_model(s, raws).0;
            s1.finished ==> reads_at_end(s1, n).0 == s1
        }),
{
    law_reads_keep_settled(s, raws);
    let s1 = read_model(s, raws).0;
    lemma_reads_at_end(s1, n);
    if s1.finished && n > 0 {
        assert(ReaderModel { finished: true, ..s1 } == s1);
    }
}

// ---------------------------------------------------------------------------
// Structure
// ---------------------------------------------------------------------------

/// The start and end events among some events, in order.
pub open spec fn structure(events: Seq<EventModel>) -> Seq<EventModel>
    decreases events.len(),
{
    if events.len() == 0 {
        Seq::empty()
    } else {
        let rest = structure(events.drop_first());
        if events[0] is Start || events[0] is End {
            seq![events[0]] + rest
        } else {
            rest
        }
    }
}

/// The start and end events that the tags among some raw events stand for:
/// a start tag its start event, an empty tag its start event and an end
/// event of the same name, an end tag its end event.
pub open spec fn tag_structure(raws: Seq<RawModel>) -> Seq<EventModel>
    decreases raws.len(),
{
    if raws.len() == 0 {
        Seq::empty()
    } else {
        let rest = tag_structure(raws.drop_first());
        match raws[0] {
            RawModel::Start(tag) => seq![start_event(tag)->Ok_0] + rest,
            RawModel::Empty(tag) => seq![start_event(tag)->Ok_0, EventModel::End { name: qname(tag.name) }] + rest,
            RawModel::End(n) => seq![EventModel::End { name: qname(n) }] + rest,
            _ => rest,
        }
    }
}

/// A raw event that makes an event, or a piece of one, without error.
pub open spec fn raw_ok(raw: RawModel) -> bool {
    match raw {
        RawModel::Start(tag) => start_event(tag) is Ok,
        RawModel::Empty(tag) => start_event(tag) is Ok,
        RawModel::Text(_) => text_piece(raw) is Ok,
        RawModel::GeneralRef(_) => text_piece(raw) is Ok,
        RawModel::CData(b) => utf8_text(b) is Some,
        _ => true,
    }
}

/// Raw events that all make events without error, with the end of input at
/// most as the last of them.
pub open spec fn clean_document(raws: Seq<RawModel>) -> bool {
    &&& forall|i: int| 0 <= i < raws.len() ==> raw_ok(#[trigger] raws[i])
    &&& forall|i: int| 0 <= i < raws.len() - 1 ==> !(#[trigger] raws[i] is Eof)
}

/// The events alone, without where they came from.
pub open spec fn event_parts(events: Seq<(EventModel, bool)>) -> Seq<EventModel> {
    events.map_values(|e: (EventModel, bool)| e.0)
}

proof fn lemma_structure_prepend(e: EventModel, rest: Seq<EventModel>)
    ensures
        structure(seq![e] + rest) == if e is Start || e is End {
            seq![e] + structure(rest)
        } else {
            structure(rest)
        },
{
    let all = seq![e] + rest;
    assert(all.drop_first() =~= rest);
    assert(all[0] == e);
}

proof fn lemma_structure_one(a: EventModel)
    ensures
        structure(seq![a]) == if a is Start || a is End {
            seq![a]
        } else {
            Seq::<EventModel>::empty()
        },
{
    lemma_structure_prepend(a, Seq::empty());
    assert(seq![a] + Seq::<EventModel>::empty() =~= seq![a]);
    assert(structure(Seq::<EventModel>::empty()) =~= Seq::<EventModel>::empty());
}

proof fn lemma_structure_pair(a: EventModel, b: EventModel)
    requires
        a is Start,
        b is End,
    ensures
        structure(seq![a, b]) == seq![a, b],
{
    lemma_structure_prepend(a, seq![b]);
    assert(seq![a] + seq![b] =~= seq![a, b]);
    lemma_structure_one(b);
}

proof fn lemma_event_parts_prepend(here: (EventModel, bool), rest: Seq<(EventModel, bool)>)
    ensures
        event_parts(seq![here] + rest) == seq![here.0] + event_parts(rest),
{
    assert(event_parts(seq![here] + rest) =~= seq![here.0] + event_parts(rest));
}

/// The end of the document waits only as the last pending event, and only
/// once the raw events are used up.
pub open spec fn end_waits_last(s: ReaderModel, raws: Seq<RawModel>) -> bool {
    forall|i: int|
        0 <= i < s.pending.len() && (#[trigger] s.pending[i] is EndDocument) ==> i == s.pending.len() - 1
            && raws.len() == 0
}

proof fn lemma_stream_structure(s: ReaderModel, sources: Seq<bool>, raws: Seq<RawModel>)
    requires
        clean_document(raws),
        end_waits_last(s, raws),
    ensures
        structure(event_parts(stream(s, sources, raws))) == structure(s.pending) + tag_structure(raws),
    decreases raws.len(), s.pending.len(), 1nat,
{
    let (s1, popped) = begin_model(s);
    match popped {
        Some(e) => {
            lemma_structure_prepend(e, s1.pending);
            assert(s.pending =~= seq![e] + s1.pending);
            if e is EndDocument {
                assert(s.pending.len() == 1);
                assert(s1.pending.len() == 0);
                assert(raws.len() == 0);
                lemma_event_parts_prepend((e, sources[0]), Seq::empty());
                assert(seq![(e, sources[0])] =~= seq![(e, sources[0])] + Seq::<(EventModel, bool)>::empty());
                lemma_structure_prepend(e, Seq::empty());
                assert(event_parts(Seq::<(EventModel, bool)>::empty()) =~= Seq::<EventModel>::empty());
            } else {
                assert forall|i: int|
                    0 <= i < s1.pending.len() && (#[trigger] s1.pending[i] is EndDocument) implies i
                    == s1.pending.len() - 1 && raws.len() == 0 by {
                    assert(s1.pending[i] == s.pending[i + 1]);
                }
                lemma_stream_structure(s1, sources.drop_first(), raws);
                let rest = stream(s1, sources.drop_first(), raws);
                lemma_event_parts_prepend((e, sources[0]), rest);
                lemma_structure_prepend(e, event_parts(rest));
                if e is Start || e is End {
                    assert(seq![e] + (structure(s1.pending) + tag_structure(raws)) =~= seq![e] + structure(
                        s1.pending,
                    ) + tag_structure(raws));
                }
            }
        },
        None => {
            assert(structure(s.pending) =~= Seq::<EventModel>::empty());
            lemma_run_structure(s1, raws);
            assert(Seq::<EventModel>::empty() + tag_structure(raws) =~= tag_structure(raws));
        },
    }
}

proof fn lemma_run_structure(s: ReaderModel, raws: Seq<RawModel>)
    requires
        clean_document(raws),
        s.pending.len() == 0,
    ensures
        structure(event_parts(run(s, raws))) == tag_structure(raws),
    decreases raws.len(), s.pending.len(), 0nat,
{
    if raws.len() == 0 {
        assert(event_parts(Seq::<(EventModel, bool)>::empty()) =~= Seq::<EventModel>::empty());
    } else {
        let raw = raws[0];
        let tail = raws.drop_first();
        assert(raw_ok(raw));
        assert(clean_document(tail)) by {
            assert forall|i: int| 0 <= i < tail.len() implies raw_ok(#[trigger] tail[i]) by {
                assert(tail[i] == raws[i + 1]);
            }
            assert forall|i: int| 0 <= i < tail.len() - 1 implies !(#[trigger] tail[i] is Eof) by {
                assert(tail[i] == raws[i + 1]);
            }
        }
        let (s1, out) = feed_model(s, raw);
        match out {
            Ok(Some(e)) => {
                let here = (e, raw is CData && s.text is None);
                lemma_structure_prepend(e, Seq::empty());
                if e is EndDocument {
                    assert(raw is Eof);
                    assert(tail.len() == 0);
                    assert(tag_structure(tail) =~= Seq::<EventModel>::empty());
                    lemma_event_parts_prepend(here, Seq::empty());
                    assert(seq![here] =~= seq![here] + Seq::<(EventModel, bool)>::empty());
                    assert(event_parts(Seq::<(EventModel, bool)>::empty()) =~= Seq::<EventModel>::empty());
                } else {
                    let src1 = pending_sources(s, raw, s1);
                    assert(end_waits_last(s1, tail)) by {
                        if raw is Eof {
                            assert(tail.len() == 0);
                        }
                    }
                    lemma_stream_structure(s1, src1, tail);
                    let rest = stream(s1, src1, tail);
                    lemma_event_parts_prepend(here, rest);
                    lemma_structure_prepend(e, event_parts(rest));
                    let head: Seq<EventModel> = if e is Start || e is End { seq![e] } else { Seq::empty() };
                    assert(structure(event_parts(run(s, raws))) == head + (structure(s1.pending) + tag_structure(tail)));
                    let x: Seq<EventModel> = match raw {
                        RawModel::Start(tag) => seq![start_event(tag)->Ok_0],
                        RawModel::Empty(tag) => seq![start_event(tag)->Ok_0, EventModel::End { name: qname(tag.name) }],
                        RawModel::End(n) => seq![EventModel::End { name: qname(n) }],
                        _ => Seq::empty(),
                    };
                    assert(tag_structure(raws) == x + tag_structure(tail));
                    match raw {
                        RawModel::Empty(tag) => {
                            if s.text is None {
                                assert(s1.pending =~= seq![EventModel::End { name: qname(tag.name) }]);
                            } else {
                                assert(s1.pending =~= seq![start_event(tag)->Ok_0, EventModel::End { name: qname(tag.name) }]);
                            }
                            lemma_structure_pair(start_event(tag)->Ok_0, EventModel::End { name: qname(tag.name) });
                            lemma_structure_one(EventModel::End { name: qname(tag.name) });
                        },
                        _ => {
                            if s1.pending.len() > 0 {
                                assert(s1.pending =~= seq![s1.pending[0]]);
                                lemma_structure_one(s1.pending[0]);
                            } else {
                                assert(structure(s1.pending) =~= Seq::<EventModel>::empty());
                            }
                        },
                    }
                    assert(head + structure(s1.pending) =~= x);
                    assert(head + (structure(s1.pending) + tag_structure(tail)) =~= x + tag_structure(tail));
                }
            },
            Ok(None) => {
                lemma_run_structure(s1, tail);
            },
            Err(_) => {},
        }
    }
}

/// Read from a fresh reader, a document whose raw events all make events
/// and whose end of input comes last gives its start and end events in the
/// order of its tags, each with its tag's name, and no other: an empty tag
/// as a start and an end of the same name. The events nest as the tags do.
pub proof fn law_stream_follows_tags(raws: Seq<RawModel>)
    requires
        clean_document(raws),
    ensures
        structure(event_parts(stream(initial_model(), Seq::empty(), raws))) == tag_structure(raws),
{
    lemma_stream_structure(initial_model(), Seq::empty(), raws);
    assert(structure(initial_model().pending) =~= Seq::<EventModel>::empty());
    assert(Seq::<EventModel>::empty() + tag_structure(raws) =~= tag_structure(raws));
}

} // verus!
