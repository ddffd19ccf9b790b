//! What holds of every conversation with netfilter.

use vstd::prelude::*;

use crate::error::Error;
use crate::firewall::{session_start, texts};
use crate::firewall::{CbResult, Event, Exchange, Phase, SessionView, Step};
use crate::nft::BatchView;

verus! {

/// How a session stands after the events, in order. Once it is over no event changes that.
pub open spec fn session_run(start: SessionView, events: Seq<Event>) -> Step
    decreases events.len(),
{
    if events.len() == 0 {
        Step::Next(start)
    } else {
        match session_run(start, events.drop_last()) {
            Step::Next(session) => session.next(events.last()),
            over => over,
        }
    }
}

/// The event with this number tells of a table with this name, in answer to the question for the
/// tables.
pub open spec fn told_at(
    start: SessionView,
    events: Seq<Event>,
    i: int,
    name: Seq<char>,
) -> bool {
    &&& 0 <= i < events.len()
    &&& events[i] matches Event::Processed(Ok(_), tables) && texts(tables@).contains(name)
    &&& session_run(start, events.take(i)) matches Step::Next(session) && session.exchange
        is Tables
}

/// One of the events of the session told of a table with this name, in answer to the question
/// for the tables.
pub open spec fn told_of(start: SessionView, events: Seq<Event>, name: Seq<char>) -> bool {
    exists|i: int| told_at(start, events, i, name)
}

/// What was told is not forgotten when more events come.
proof fn lemma_told_before(start: SessionView, events: Seq<Event>, name: Seq<char>)
    requires
        events.len() > 0,
        told_of(start, events.drop_last(), name),
    ensures
        told_of(start, events, name),
{
    let before = events.drop_last();
    let i = choose|i: int| told_at(start, before, i, name);
    lemma_earlier(start, events, i);
    assert(told_at(start, events, i, name));
}

/// What a session knows of after an event it knew of before or was told of by the event.
proof fn lemma_told_of(
    start: SessionView,
    session: SessionView,
    events: Seq<Event>,
    name: Seq<char>,
)
    requires
        events.len() > 0,
        session_run(start, events.drop_last()) == Step::Next(session),
        forall|name: Seq<char>| #[trigger]
            session.tables.contains(name) ==> told_of(start, events.drop_last(), name),
    ensures
        session.next(events.last()) matches Step::Next(after) ==> after.tables.contains(name)
            ==> told_of(start, events, name),
        events.last() matches Event::Processed(Ok(_), tables) ==> session.told(
            texts(tables@),
        ).tables.contains(name) ==> told_of(start, events, name),
        session.tables.contains(name) ==> told_of(start, events, name),
{
    let last = events.len() - 1;
    if session.tables.contains(name) {
        lemma_told_before(start, events, name);
    }
    if let Event::Processed(Ok(_), tables) = events[last] {
        let told = texts(tables@);
        if session.exchange is Tables && (session.tables + told).contains(name)
            && !session.tables.contains(name) {
            let k = choose|k: int|
                0 <= k < (session.tables + told).len() && (session.tables + told)[k] == name;
            if k < session.tables.len() {
                assert(session.tables[k] == name);
            }
            assert(told[k - session.tables.len()] == name);
            assert(events.take(last) =~= events.drop_last());
            assert(told_at(start, events, last, name));
        }
    }
}

/// A session knows of no table but those that events told of, and keeps to what it expects.
proof fn lemma_session_tables(start: SessionView, events: Seq<Event>)
    requires
        start.tables.len() == 0,
    ensures
        session_run(start, events) matches Step::Next(session) ==> session.expected
            == start.expected && forall|name: Seq<char>| #[trigger]
            session.tables.contains(name) ==> told_of(start, events, name),
    decreases events.len(),
{
    if events.len() > 0 {
        let before = events.drop_last();
        lemma_session_tables(start, before);
        if let Step::Next(session) = session_run(start, before) {
            if let Step::Next(after) = session.next(events.last()) {
                assert forall|name: Seq<char>| #[trigger] after.tables.contains(name) implies told_of(
                    start,
                    events,
                    name,
                ) by {
                    lemma_told_of(start, session, events, name);
                }
            }
        }
    }
}

/// Applying a policy succeeds only if netfilter, asked for the tables, told of all expected ones.
pub proof fn law_success_is_verified(
    batch: BatchView,
    expected: Seq<Seq<char>>,
    events: Seq<Event>,
    i: int,
)
    requires
        session_run(session_start(batch, Some(expected)), events) is Done,
        0 <= i < expected.len(),
    ensures
        told_of(session_start(batch, Some(expected)), events, expected[i]),
    decreases events.len(),
{
    let start = session_start(batch, Some(expected));
    let before = events.drop_last();
    lemma_session_tables(start, before);
    match session_run(start, before) {
        Step::Next(session) => {
            lemma_told_of(start, session, events, expected[i]);
            if let Event::Processed(Ok(_), tables) = events.last() {
                assert(session.told(texts(tables@)).tables.contains(expected[i]));
            } else {
                assert(session.tables.contains(expected[i]));
            }
        },
        _ => {
            law_success_is_verified(batch, expected, before, i);
            lemma_told_before(start, events, expected[i]);
        },
    }
}

/// The event with this number is about what was to be done when it came.
pub open spec fn asked_at(start: SessionView, events: Seq<Event>, i: int) -> bool {
    session_run(start, events.take(i)) matches Step::Next(session) && session.fits(events[i])
}

/// Each of the events is about what was to be done when it came. None came after the session was
/// over.
pub open spec fn asked_for(start: SessionView, events: Seq<Event>) -> bool {
    forall|i: int| 0 <= i < events.len() ==> #[trigger] asked_at(start, events, i)
}

/// The event with this number says that everything was sent that the exchange sends.
pub open spec fn sent_at(
    start: SessionView,
    events: Seq<Event>,
    i: int,
    exchange: Exchange,
) -> bool {
    &&& 0 <= i < events.len()
    &&& events[i] matches Event::Sent(Ok(_))
    &&& session_run(start, events.take(i)) matches Step::Next(session) && session.exchange
        == exchange
}

/// The event says, without an error, that an exchange is over: the message was the last one, or
/// was empty.
pub open spec fn ends_exchange(event: Event) -> bool {
    match event {
        Event::Received(Ok(len)) => len == 0,
        Event::Processed(Ok(CbResult::Stop), _) => true,
        _ => false,
    }
}

/// The event with this number says, without an error, that the exchange is over.
pub open spec fn ended_at(
    start: SessionView,
    events: Seq<Event>,
    i: int,
    exchange: Exchange,
) -> bool {
    &&& 0 <= i < events.len()
    &&& ends_exchange(events[i])
    &&& session_run(start, events.take(i)) matches Step::Next(session) && session.exchange
        == exchange
}

/// The batch was sent.
pub open spec fn batch_sent(start: SessionView, events: Seq<Event>) -> bool {
    exists|i: int| sent_at(start, events, i, Exchange::Batch)
}

/// The batch was sent, and after that netfilter said without an error that it was done with it.
pub open spec fn batch_done(start: SessionView, events: Seq<Event>) -> bool {
    exists|i: int, j: int|
        i < j && #[trigger] sent_at(start, events, i, Exchange::Batch) && #[trigger] ended_at(
            start,
            events,
            j,
            Exchange::Batch,
        )
}

/// The batch was sent, after that netfilter said without an error that it was done with it, and
/// after that the question for the tables was sent.
pub open spec fn tables_asked(start: SessionView, events: Seq<Event>) -> bool {
    exists|i: int, j: int, k: int|
        i < j < k && #[trigger] sent_at(start, events, i, Exchange::Batch) && #[trigger] ended_at(
            start,
            events,
            j,
            Exchange::Batch,
        ) && #[trigger] sent_at(start, events, k, Exchange::Tables)
}

/// Of earlier events, one more event changes nothing.
proof fn lemma_earlier(start: SessionView, events: Seq<Event>, i: int)
    requires
        0 <= i < events.len() - 1,
    ensures
        events.drop_last()[i] == events[i],
        session_run(start, events.drop_last().take(i)) == session_run(start, events.take(i)),
{
    assert(events.drop_last().take(i) =~= events.take(i));
}

/// Of earlier events, the session asked for each as well.
proof fn lemma_asked_before(start: SessionView, events: Seq<Event>)
    requires
        events.len() > 0,
        asked_for(start, events),
    ensures
        asked_for(start, events.drop_last()),
        session_run(start, events.drop_last()) matches Step::Next(session) && session.fits(
            events.last(),
        ),
{
    let before = events.drop_last();
    let last = events.len() - 1;
    assert(asked_at(start, events, last));
    assert(events.take(last) =~= before);
    assert forall|i: int| 0 <= i < before.len() implies #[trigger] asked_at(start, before, i) by {
        assert(asked_at(start, events, i));
        lemma_earlier(start, events, i);
    }
}

/// What was sent stays sent when one more event comes.
proof fn lemma_still_sent(start: SessionView, events: Seq<Event>)
    requires
        events.len() > 0,
        batch_sent(start, events.drop_last()),
    ensures
        batch_sent(start, events),
{
    let before = events.drop_last();
    let i = choose|i: int| sent_at(start, before, i, Exchange::Batch);
    lemma_earlier(start, events, i);
    assert(sent_at(start, events, i, Exchange::Batch));
}

/// What was done stays done when one more event comes.
proof fn lemma_still_done(start: SessionView, events: Seq<Event>)
    requires
        events.len() > 0,
        batch_done(start, events.drop_last()),
    ensures
        batch_done(start, events),
{
    let before = events.drop_last();
    let (i, j) = choose|i: int, j: int|
        i < j && #[trigger] sent_at(start, before, i, Exchange::Batch) && #[trigger] ended_at(
            start,
            before,
            j,
            Exchange::Batch,
        );
    lemma_earlier(start, events, i);
    lemma_earlier(start, events, j);
    assert(sent_at(start, events, i, Exchange::Batch));
    assert(ended_at(start, events, j, Exchange::Batch));
}

/// What was asked stays asked when one more event comes.
proof fn lemma_still_asked(start: SessionView, events: Seq<Event>)
    requires
        events.len() > 0,
        tables_asked(start, events.drop_last()),
    ensures
        tables_asked(start, events),
{
    let before = events.drop_last();
    let (i, j, k) = choose|i: int, j: int, k: int|
        i < j < k && #[trigger] sent_at(start, before, i, Exchange::Batch) && #[trigger] ended_at(
            start,
            before,
            j,
            Exchange::Batch,
        ) && #[trigger] sent_at(start, before, k, Exchange::Tables);
    lemma_earlier(start, events, i);
    lemma_earlier(start, events, j);
    lemma_earlier(start, events, k);
    assert(sent_at(start, events, i, Exchange::Batch));
    assert(ended_at(start, events, j, Exchange::Batch));
    assert(sent_at(start, events, k, Exchange::Tables));
}

/// The last event says that the batch was sent.
proof fn lemma_sent_last(start: SessionView, session: SessionView, events: Seq<Event>)
    requires
        events.len() > 0,
        session_run(start, events.drop_last()) == Step::Next(session),
        session.exchange is Batch,
        events.last() matches Event::Sent(Ok(_)),
    ensures
        batch_sent(start, events),
{
    let last = events.len() - 1;
    assert(events.take(last) =~= events.drop_last());
    assert(sent_at(start, events, last, Exchange::Batch));
}

/// The last event says that netfilter is done with the batch.
proof fn lemma_done_last(start: SessionView, session: SessionView, events: Seq<Event>)
    requires
        events.len() > 0,
        session_run(start, events.drop_last()) == Step::Next(session),
        session.exchange is Batch,
        batch_sent(start, events.drop_last()),
        ends_exchange(events.last()),
    ensures
        batch_done(start, events),
{
    let last = events.len() - 1;
    assert(events.take(last) =~= events.drop_last());
    let i = choose|i: int| sent_at(start, events.drop_last(), i, Exchange::Batch);
    lemma_earlier(start, events, i);
    assert(sent_at(start, events, i, Exchange::Batch));
    assert(ended_at(start, events, last, Exchange::Batch));
}

/// The last event says that the tables were asked for.
proof fn lemma_asked_last(start: SessionView, session: SessionView, events: Seq<Event>)
    requires
        events.len() > 0,
        session_run(start, events.drop_last()) == Step::Next(session),
        session.exchange is Tables,
        batch_done(start, events.drop_last()),
        events.last() matches Event::Sent(Ok(_)),
    ensures
        tables_asked(start, events),
{
    let before = events.drop_last();
    let last = events.len() - 1;
    assert(events.take(last) =~= before);
    let (i, j) = choose|i: int, j: int|
        i < j && #[trigger] sent_at(start, before, i, Exchange::Batch) && #[trigger] ended_at(
            start,
            before,
            j,
            Exchange::Batch,
        );
    lemma_earlier(start, events, i);
    lemma_earlier(start, events, j);
    assert(sent_at(start, events, i, Exchange::Batch));
    assert(ended_at(start, events, j, Exchange::Batch));
    assert(sent_at(start, events, last, Exchange::Tables));
}

/// How far a session has come tells what has happened.
pub open spec fn progress(
    start: SessionView,
    session: SessionView,
    events: Seq<Event>,
) -> bool {
    let answered = session.phase is Receive || session.phase is Process;
    &&& session.expected == start.expected
    &&& session.exchange is Batch && answered ==> batch_sent(start, events)
    &&& session.exchange is Tables ==> batch_done(start, events)
    &&& session.exchange is Tables && answered ==> tables_asked(start, events)
}

/// Every session has come as far as its events tell.
proof fn lemma_progress(batch: BatchView, expected: Option<Seq<Seq<char>>>, events: Seq<Event>)
    requires
        asked_for(session_start(batch, expected), events),
    ensures
        session_run(session_start(batch, expected), events) matches Step::Next(session)
            ==> progress(session_start(batch, expected), session, events),
    decreases events.len(),
{
    let start = session_start(batch, expected);
    if events.len() > 0 {
        let before = events.drop_last();
        lemma_asked_before(start, events);
        lemma_progress(batch, expected, before);
        if let Step::Next(session) = session_run(start, before) {
            if batch_sent(start, before) {
                lemma_still_sent(start, events);
            }
            if batch_done(start, before) {
                lemma_still_done(start, events);
            }
            if tables_asked(start, before) {
                lemma_still_asked(start, events);
            }
            if events.last() matches Event::Sent(Ok(_)) {
                if session.exchange is Batch {
                    lemma_sent_last(start, session, events);
                } else {
                    lemma_asked_last(start, session, events);
                }
            }
            if session.exchange is Batch && ends_exchange(events.last()) {
                lemma_done_last(start, session, events);
            }
        }
    }
}

/// Applying a policy succeeds only after the batch was sent, netfilter then said without an error
/// that it was done with it, and the tables were then asked for.
pub proof fn law_success_takes_both_exchanges(
    batch: BatchView,
    expected: Seq<Seq<char>>,
    events: Seq<Event>,
)
    requires
        asked_for(session_start(batch, Some(expected)), events),
        session_run(session_start(batch, Some(expected)), events) is Done,
    ensures
        tables_asked(session_start(batch, Some(expected)), events),
{
    let start = session_start(batch, Some(expected));
    lemma_asked_before(start, events);
    lemma_progress(batch, Some(expected), events.drop_last());
    lemma_still_asked(start, events);
}

/// The batch was sent, then netfilter said without an error that it was done with it, then the
/// tables were asked for, and then netfilter told of a table with this name.
pub open spec fn told_afterwards(
    start: SessionView,
    events: Seq<Event>,
    name: Seq<char>,
) -> bool {
    exists|i: int, j: int, k: int, l: int|
        i < j < k < l && #[trigger] sent_at(start, events, i, Exchange::Batch)
            && #[trigger] ended_at(start, events, j, Exchange::Batch) && #[trigger] sent_at(
            start,
            events,
            k,
            Exchange::Tables,
        ) && #[trigger] told_at(start, events, l, name)
}

/// Later events change nothing about earlier ones.
proof fn lemma_prefix(start: SessionView, events: Seq<Event>, len: int, i: int)
    requires
        0 <= i < len <= events.len(),
    ensures
        asked_at(start, events.take(len), i) == asked_at(start, events, i),
        forall|exchange: Exchange| #[trigger]
            sent_at(start, events.take(len), i, exchange) == sent_at(start, events, i, exchange),
        forall|exchange: Exchange| #[trigger]
            ended_at(start, events.take(len), i, exchange) == ended_at(start, events, i, exchange),
{
    assert(events.take(len).take(i) =~= events.take(i));
}

/// Before netfilter tells of a table, the tables were asked for.
proof fn lemma_told_after_asked(
    batch: BatchView,
    expected: Option<Seq<Seq<char>>>,
    events: Seq<Event>,
    l: int,
    name: Seq<char>,
)
    requires
        asked_for(session_start(batch, expected), events),
        told_at(session_start(batch, expected), events, l, name),
    ensures
        tables_asked(session_start(batch, expected), events.take(l)),
{
    let start = session_start(batch, expected);
    assert forall|i: int| 0 <= i < l implies #[trigger] asked_at(start, events.take(l), i) by {
        assert(asked_at(start, events, i));
        lemma_prefix(start, events, l, i);
    }
    lemma_progress(batch, expected, events.take(l));
    assert(asked_at(start, events, l));
}

/// Applying a policy succeeds only if netfilter told of every expected table after it had carried
/// out the batch and was then asked for the tables.
pub proof fn law_tables_are_verified_after_the_batch(
    batch: BatchView,
    expected: Seq<Seq<char>>,
    events: Seq<Event>,
    n: int,
)
    requires
        asked_for(session_start(batch, Some(expected)), events),
        session_run(session_start(batch, Some(expected)), events) is Done,
        0 <= n < expected.len(),
    ensures
        told_afterwards(session_start(batch, Some(expected)), events, expected[n]),
{
    let start = session_start(batch, Some(expected));
    law_success_is_verified(batch, expected, events, n);
    let l = choose|l: int| told_at(start, events, l, expected[n]);
    lemma_told_after_asked(batch, Some(expected), events, l, expected[n]);
    let prefix = events.take(l);
    let (i, j, k) = choose|i: int, j: int, k: int|
        i < j < k && #[trigger] sent_at(start, prefix, i, Exchange::Batch) && #[trigger] ended_at(
            start,
            prefix,
            j,
            Exchange::Batch,
        ) && #[trigger] sent_at(start, prefix, k, Exchange::Tables);
    lemma_prefix(start, events, l, i);
    lemma_prefix(start, events, l, j);
    lemma_prefix(start, events, l, k);
    assert(sent_at(start, events, i, Exchange::Batch));
    assert(ended_at(start, events, j, Exchange::Batch));
    assert(sent_at(start, events, k, Exchange::Tables));
}

/// Resetting the firewall succeeds only after the batch was sent and netfilter then said without
/// an error that it was done with it.
pub proof fn law_reset_takes_the_batch(batch: BatchView, events: Seq<Event>)
    requires
        asked_for(session_start(batch, None), events),
        session_run(session_start(batch, None), events) is Done,
    ensures
        batch_done(session_start(batch, None), events),
{
    let start = session_start(batch, None);
    lemma_asked_before(start, events);
    lemma_progress(batch, None, events.drop_last());
    if let Step::Next(session) = session_run(start, events.drop_last()) {
        if session.exchange is Batch {
            lemma_done_last(start, session, events);
        } else {
            lemma_still_done(start, events);
        }
    }
}

/// The event says that something failed.
pub open spec fn is_failure(event: Event) -> bool {
    match event {
        Event::Opened(result) => result is Err,
        Event::Sent(result) => result is Err,
        Event::Received(result) => result is Err,
        Event::Processed(result, _) => result is Err,
    }
}

/// What an event told of stays known as long as the session goes on.
proof fn lemma_told_stays_known(start: SessionView, events: Seq<Event>, name: Seq<char>)
    requires
        told_of(start, events, name),
    ensures
        session_run(start, events) matches Step::Next(session) ==> session.tables.contains(name),
    decreases events.len(),
{
    let i = choose|i: int| told_at(start, events, i, name);
    let before = events.drop_last();
    let last = events.len() - 1;
    if let Step::Next(session) = session_run(start, before) {
        if i < last {
            lemma_earlier(start, events, i);
            assert(told_at(start, before, i, name));
            lemma_told_stays_known(start, before, name);
            if let Event::Processed(_, tables) = events.last() {
                lemma_appended(session.tables, texts(tables@), name);
            }
        } else {
            assert(events.take(last) =~= before);
            if let Event::Processed(_, tables) = events.last() {
                lemma_appended(session.tables, texts(tables@), name);
            }
        }
    }
}

/// Of two lists, one after the other, each name is in one or the other.
proof fn lemma_appended(first: Seq<Seq<char>>, second: Seq<Seq<char>>, name: Seq<char>)
    ensures
        (first + second).contains(name) <==> first.contains(name) || second.contains(name),
{
    if first.contains(name) {
        let i = choose|i: int| 0 <= i < first.len() && first[i] == name;
        assert((first + second)[i] == name);
    }
    if second.contains(name) {
        let i = choose|i: int| 0 <= i < second.len() && second[i] == name;
        assert((first + second)[first.len() + i] == name);
    }
    if (first + second).contains(name) {
        let i = choose|i: int| 0 <= i < (first + second).len() && (first + second)[i] == name;
        if i < first.len() {
            assert(first[i] == name);
        } else {
            assert(second[i - first.len()] == name);
        }
    }
}

/// A session that is over after its last event failed only for a reason: that event carries the
/// failure, or some expected table was never told of.
proof fn lemma_reason(
    batch: BatchView,
    expected: Option<Seq<Seq<char>>>,
    events: Seq<Event>,
    error: Error,
)
    requires
        asked_for(session_start(batch, expected), events),
        session_run(session_start(batch, expected), events) == Step::Failed(error),
    ensures
        events.len() > 0,
        is_failure(events.last()) || (error is NetfilterTableNotSetError && (
        expected matches Some(expected) && exists|n: int|
            0 <= n < expected.len() && !told_of(
                session_start(batch, Some(expected)),
                events,
                #[trigger] expected[n],
            ))),
{
    let start = session_start(batch, expected);
    let before = events.drop_last();
    let last = events.len() - 1;
    lemma_asked_before(start, events);
    lemma_progress(batch, expected, before);
    if let Step::Next(session) = session_run(start, before) {
        if !is_failure(events.last()) {
            assert(expected is Some);
            let expected = expected->0;
            let known = match events.last() {
                Event::Processed(_, tables) => session.told(texts(tables@)).tables,
                _ => session.tables,
            };
            let n = choose|n: int|
                0 <= n < expected.len() && !known.contains(#[trigger] expected[n]);
            let name = expected[n];
            if told_of(start, events, name) {
                let i = choose|i: int| told_at(start, events, i, name);
                if i < last {
                    lemma_earlier(start, events, i);
                    assert(told_at(start, before, i, name));
                    lemma_told_stays_known(start, before, name);
                } else {
                    assert(events.take(last) =~= before);
                }
                if let Event::Processed(_, tables) = events.last() {
                    lemma_appended(session.tables, texts(tables@), name);
                }
            }
        }
    }
}

/// If nothing fails and netfilter tells of every expected table while it answers the question for
/// the tables, in whichever messages and with whatever other tables between, the session does not
/// fail: once it is over, the policy has been applied.
pub proof fn law_told_tables_suffice(
    batch: BatchView,
    expected: Seq<Seq<char>>,
    events: Seq<Event>,
)
    requires
        asked_for(session_start(batch, Some(expected)), events),
        forall|i: int| 0 <= i < events.len() ==> !is_failure(#[trigger] events[i]),
        forall|n: int|
            0 <= n < expected.len() ==> told_of(
                session_start(batch, Some(expected)),
                events,
                #[trigger] expected[n],
            ),
        !(session_run(session_start(batch, Some(expected)), events) is Next),
    ensures
        session_run(session_start(batch, Some(expected)), events) is Done,
{
    if let Step::Failed(error) = session_run(session_start(batch, Some(expected)), events) {
        lemma_reason(batch, Some(expected), events, error);
        assert(!is_failure(events[events.len() - 1]));
    }
}

/// Resetting the firewall does not fail if nothing fails.
pub proof fn law_reset_fails_only_by_failures(batch: BatchView, events: Seq<Event>)
    requires
        asked_for(session_start(batch, None), events),
        forall|i: int| 0 <= i < events.len() ==> !is_failure(#[trigger] events[i]),
    ensures
        !(session_run(session_start(batch, None), events) is Failed),
{
    if let Step::Failed(error) = session_run(session_start(batch, None), events) {
        lemma_reason(batch, None, events, error);
        assert(!is_failure(events[events.len() - 1]));
    }
}

/// While the tables are asked for, a message that is the last one or is empty ends the session,
/// and no other event does unless it carries a failure.
pub proof fn law_session_ends_with_the_answer(
    batch: BatchView,
    expected: Seq<Seq<char>>,
    events: Seq<Event>,
    session: SessionView,
    event: Event,
)
    requires
        session_run(session_start(batch, Some(expected)), events) == Step::Next(session),
        asked_for(session_start(batch, Some(expected)), events),
        session.fits(event),
        !is_failure(event),
    ensures
        session.next(event) is Next <==> !(session.exchange is Tables && match event {
            Event::Received(Ok(len)) => len == 0,
            Event::Processed(Ok(CbResult::Stop), _) => true,
            _ => false,
        }),
{
    lemma_progress(batch, Some(expected), events);
}

/// How a session starts: nothing has been sent, and no table is known.
pub proof fn law_session_start(batch: BatchView, expected: Option<Seq<Seq<char>>>)
    ensures
        session_start(batch, expected) == (SessionView {
            batch,
            exchange: Exchange::Batch,
            phase: Phase::Open,
            expected,
            tables: Seq::empty(),
        }),
{
}

/// Which events a session takes: those about what it asked for, whatever came of it.
pub proof fn law_session_takes_any_outcome(session: SessionView, event: Event)
    ensures
        session.phase is Open ==> (session.fits(event) <==> event is Opened),
        session.phase is Send ==> (session.fits(event) <==> event is Sent),
        session.phase is Receive ==> (session.fits(event) <==> event is Received),
        session.phase is Process ==> (session.fits(event) <==> event is Processed),
{
}

/// While netfilter says that there is more, the session goes on receiving. It keeps what it was
/// told.
pub proof fn law_receiving_goes_on(session: SessionView, len: usize, tables: Vec<String>)
    requires
        session.phase is Receive,
        len > 0,
    ensures
        session.next(Event::Received(Ok(len))) matches Step::Next(received) && received.next(
            Event::Processed(Ok(CbResult::More), tables),
        ) == Step::Next(session.told(texts(tables@))),
{
}

} // verus!
