//! Talks to netfilter to put policies into effect.
//!
//! A [`Session`] says what to do with the netlink socket next and is told what came of it.

use vstd::prelude::*;

use crate::batch::{failed_for, policy_batch, PolicyBatch};
use crate::error::Error;
use crate::nft::{Batch, BatchView, MessageView, MsgType, Object, ObjectView, ProtoFamily, Table};
use crate::nft::TableView;
use crate::policy::{iface_names, FirewallPolicy, IfaceLookups, NetworkParameters};

verus! {

/// The name of the netfilter table that holds all rules.
pub const TABLE_NAME: &'static str = "mullvad";

/// The Linux implementation for the firewall.
pub struct Firewall {
    table_name: String,
}

/// What processing a netlink message came to.
#[derive(Clone, Copy, Debug, PartialEq, Eq, Hash, Structural)]
pub enum CbResult {
    /// Everything went fine, and this was the last message.
    Stop,
    /// Everything went fine, but more messages are expected.
    More,
}

/// What a session exchanges with netfilter.
#[derive(Clone, Copy, Debug, PartialEq, Eq, Hash, Structural)]
pub enum Exchange {
    /// The batch is sent, and netfilter answers whether it was carried out.
    Batch,
    /// The names of the tables that are set are asked for.
    Tables,
}

/// What is to be done next in an exchange.
#[derive(Clone, Copy, Debug, PartialEq, Eq, Hash, Structural)]
pub enum Phase {
    /// Open a netlink socket to netfilter.
    Open,
    /// Send what the exchange sends: all messages of the batch, or the question for the tables.
    Send,
    /// Receive a message.
    Receive,
    /// Process the message that was received, which is so many bytes long.
    Process(usize),
}

/// What came of what was to be done.
pub enum Event {
    /// A socket was opened, or not.
    Opened(Result<(), std::io::Error>),
    /// Everything was sent, or not.
    Sent(Result<(), std::io::Error>),
    /// So many bytes were received, or nothing could be.
    Received(Result<usize, std::io::Error>),
    /// The message was processed, or could not be. It told of tables with these names, if they
    /// were asked for.
    Processed(Result<CbResult, std::io::Error>, Vec<String>),
}

/// A change of the firewall that is being carried out.
pub struct Session {
    batch: Batch,
    exchange: Exchange,
    phase: Phase,
    expected: Option<Vec<String>>,
    tables: Vec<String>,
}

/// The names in a list.
pub open spec fn texts(names: Seq<String>) -> Seq<Seq<char>> {
    names.map_values(|name: String| name@)
}

/// The model of a [`Session`].
pub struct SessionView {
    /// The messages that change the firewall.
    pub batch: BatchView,
    /// The exchange that is going on.
    pub exchange: Exchange,
    /// What is to be done next.
    pub phase: Phase,
    /// The tables that have to be there once the batch has been carried out, if that is to be
    /// verified.
    pub expected: Option<Seq<Seq<char>>>,
    /// The tables that netfilter told of.
    pub tables: Seq<Seq<char>>,
}

/// How a session goes on.
pub enum Step {
    /// There is more to do.
    Next(SessionView),
    /// The change has been carried out.
    Done,
    /// The change has failed.
    Failed(Error),
}

/// Every expected name is among the names found.
pub open spec fn all_found(expected: Seq<Seq<char>>, found: Seq<Seq<char>>) -> bool {
    forall|i: int| 0 <= i < expected.len() ==> found.contains(#[trigger] expected[i])
}

impl SessionView {
    /// The event is about what was to be done.
    pub open spec fn fits(self, event: Event) -> bool {
        match self.phase {
            Phase::Open => event is Opened,
            Phase::Send => event is Sent,
            Phase::Receive => event is Received,
            Phase::Process(_) => event is Processed,
        }
    }

    /// How the session goes on when an exchange is over. The batch having been carried out, the
    /// tables are asked for if they are to be verified, and those expected must be set.
    pub open spec fn exchange_over(self) -> Step {
        match (self.exchange, self.expected) {
            (Exchange::Batch, Some(_)) => Step::Next(
                SessionView { exchange: Exchange::Tables, phase: Phase::Open, ..self },
            ),
            (Exchange::Tables, Some(expected)) => if all_found(expected, self.tables) {
                Step::Done
            } else {
                Step::Failed(Error::NetfilterTableNotSetError)
            },
            (_, None) => Step::Done,
        }
    }

    /// This session after netfilter told of tables. That counts if they were asked for.
    pub open spec fn told(self, tables: Seq<Seq<char>>) -> SessionView {
        if self.exchange is Tables {
            SessionView { tables: self.tables + tables, ..self }
        } else {
            self
        }
    }

    /// How the session goes on after an event. An exchange ends with a message that is the last
    /// one or is empty.
    pub open spec fn next(self, event: Event) -> Step {
        match event {
            Event::Opened(Ok(_)) => Step::Next(SessionView { phase: Phase::Send, ..self }),
            Event::Opened(Err(cause)) => Step::Failed(Error::NetlinkOpenError(cause)),
            Event::Sent(Ok(_)) => Step::Next(SessionView { phase: Phase::Receive, ..self }),
            Event::Sent(Err(cause)) => Step::Failed(Error::NetlinkSendError(cause)),
            Event::Received(Ok(len)) => if len > 0 {
                Step::Next(SessionView { phase: Phase::Process(len), ..self })
            } else {
                self.exchange_over()
            },
            Event::Received(Err(cause)) => Step::Failed(Error::NetlinkRecvError(cause)),
            Event::Processed(Ok(CbResult::More), tables) => Step::Next(
                SessionView { phase: Phase::Receive, ..self.told(texts(tables@)) },
            ),
            Event::Processed(Ok(CbResult::Stop), tables) => self.told(
                texts(tables@),
            ).exchange_over(),
            Event::Processed(Err(cause), _) => Step::Failed(Error::ProcessNetlinkError(cause)),
        }
    }
}

/// The names in a list that there may be.
pub open spec fn optional_texts(names: Option<Vec<String>>) -> Option<Seq<Seq<char>>> {
    match names {
        Some(names) => Some(texts(names@)),
        None => None,
    }
}

/// A name is in a list if it is one of the texts in it.
pub proof fn law_texts_are_those_in_the_list(names: Seq<String>, name: Seq<char>)
    ensures
        texts(names).len() == names.len(),
        forall|j: int| 0 <= j < names.len() ==> #[trigger] texts(names)[j] == names[j]@,
        texts(names).contains(name) <==> exists|j: int|
            0 <= j < names.len() && (#[trigger] names[j])@ == name,
{
    if texts(names).contains(name) {
        let j = choose|j: int| 0 <= j < texts(names).len() && texts(names)[j] == name;
        assert(names[j]@ == name);
    }
    if exists|j: int| 0 <= j < names.len() && (#[trigger] names[j])@ == name {
        let j = choose|j: int| 0 <= j < names.len() && (#[trigger] names[j])@ == name;
        assert(texts(names)[j] == name);
    }
}

/// Whether the name is in the list.
fn contains(names: &Vec<String>, name: &String) -> (found: bool)
    ensures
        found == texts(names@).contains(name@),
{
    let mut i: usize = 0;
    while i < names.len()
        invariant
            i <= names.len(),
            forall|j: int| 0 <= j < i ==> texts(names@)[j] != name@,
        decreases names.len() - i,
    {
        if names[i] == *name {
            assert(texts(names@)[i as int] == name@);
            return true;
        }
        i = i + 1;
    }
    false
}

impl Session {
    /// The model of this value.
    pub closed spec fn view(self) -> SessionView {
        SessionView {
            batch: self.batch@,
            exchange: self.exchange,
            phase: self.phase,
            expected: optional_texts(self.expected),
            tables: texts(self.tables@),
        }
    }

    /// The messages that change the firewall.
    pub fn batch(&self) -> (batch: &Batch)
        ensures
            batch@ == self@.batch,
    {
        &self.batch
    }

    /// The exchange that is going on.
    pub fn exchange(&self) -> (exchange: Exchange)
        ensures
            exchange == self@.exchange,
    {
        self.exchange
    }

    /// What is to be done next.
    pub fn phase(&self) -> (phase: Phase)
        ensures
            phase == self@.phase,
    {
        self.phase
    }

    /// Goes on when an exchange is over.
    fn end_exchange(self) -> (next: Result<Option<Session>, Error>)
        ensures
            match self@.exchange_over() {
                Step::Next(session) => next matches Ok(Some(next)) && next@ == session,
                Step::Done => next matches Ok(None),
                Step::Failed(error) => next matches Err(e) && e == error,
            },
    {
        let mut this = self;
        match (this.exchange, &this.expected) {
            (Exchange::Batch, Some(_)) => {
                this.exchange = Exchange::Tables;
                this.phase = Phase::Open;
                Ok(Some(this))
            },
            (Exchange::Tables, Some(expected)) => {
                match Firewall::verify_tables(expected, &this.tables) {
                    Ok(_) => Ok(None),
                    Err(error) => Err(error),
                }
            },
            (_, None) => Ok(None),
        }
    }

    /// Adds the names of tables that netfilter told of, if they were asked for.
    fn add_tables(&mut self, tables: Vec<String>)
        ensures
            final(self)@ == old(self)@.told(texts(tables@)),
    {
        if self.exchange == Exchange::Tables {
            let mut tables = tables;
            let ghost added = tables@;
            self.tables.append(&mut tables);
            assert(self@.tables =~= old(self)@.tables + texts(added));
        }
    }

    /// Goes on after an event. Returns the session if there is more to do.
    pub fn handle(self, event: Event) -> (next: Result<Option<Session>, Error>)
        requires
            self@.fits(event),
        ensures
            match self@.next(event) {
                Step::Next(session) => next matches Ok(Some(next)) && next@ == session,
                Step::Done => next matches Ok(None),
                Step::Failed(error) => next matches Err(e) && e == error,
            },
            event matches Event::Opened(Ok(_)) ==> (next matches Ok(Some(session)) && session@ == (
            SessionView { phase: Phase::Send, ..self@ })),
            event matches Event::Opened(Err(cause)) ==> next == Err::<Option<Session>, Error>(
                Error::NetlinkOpenError(cause),
            ),
            event matches Event::Sent(Ok(_)) ==> (next matches Ok(Some(session)) && session@ == (
            SessionView { phase: Phase::Receive, ..self@ })),
            event matches Event::Sent(Err(cause)) ==> next == Err::<Option<Session>, Error>(
                Error::NetlinkSendError(cause),
            ),
            event matches Event::Received(Ok(len)) ==> len > 0 ==> (next matches Ok(Some(session))
                && session@ == (SessionView { phase: Phase::Process(len), ..self@ })),
            event matches Event::Received(Err(cause)) ==> next == Err::<Option<Session>, Error>(
                Error::NetlinkRecvError(cause),
            ),
            event matches Event::Processed(Err(cause), _) ==> next == Err::<
                Option<Session>,
                Error,
            >(Error::ProcessNetlinkError(cause)),
            event matches Event::Processed(Ok(CbResult::More), tables) ==> (
            next matches Ok(Some(session)) && session@ == (SessionView {
                phase: Phase::Receive,
                tables: if self@.exchange is Tables {
                    self@.tables + texts(tables@)
                } else {
                    self@.tables
                },
                ..self@
            })),
            // The exchange is over.
            (event matches Event::Received(Ok(0)) || event matches Event::Processed(
                Ok(CbResult::Stop),
                _,
            )) ==> ({
                let told = match event {
                    Event::Processed(_, tables) => self@.tables + texts(tables@),
                    _ => self@.tables,
                };
                match (self@.exchange, self@.expected) {
                    (_, None) => next matches Ok(None),
                    (Exchange::Batch, Some(_)) => next matches Ok(Some(session)) && session@ == (
                    SessionView { exchange: Exchange::Tables, phase: Phase::Open, ..self@ }),
                    (Exchange::Tables, Some(expected)) => if forall|i: int|
                        0 <= i < expected.len() ==> told.contains(#[trigger] expected[i]) {
                        next matches Ok(None)
                    } else {
                        next == Err::<Option<Session>, Error>(Error::NetfilterTableNotSetError)
                    },
                }
            }),
    {
        let mut this = self;
        match event {
            Event::Opened(Ok(_)) => {
                this.phase = Phase::Send;
                Ok(Some(this))
            },
            Event::Opened(Err(cause)) => Err(Error::NetlinkOpenError(cause)),
            Event::Sent(Ok(_)) => {
                this.phase = Phase::Receive;
                Ok(Some(this))
            },
            Event::Sent(Err(cause)) => Err(Error::NetlinkSendError(cause)),
            Event::Received(received) => match Firewall::socket_recv(received) {
                Ok(Some(len)) => {
                    this.phase = Phase::Process(len);
                    Ok(Some(this))
                },
                Ok(None) => this.end_exchange(),
                Err(error) => Err(error),
            },
            Event::Processed(Ok(CbResult::More), tables) => {
                this.add_tables(tables);
                this.phase = Phase::Receive;
                Ok(Some(this))
            },
            Event::Processed(Ok(CbResult::Stop), tables) => {
                this.add_tables(tables);
                this.end_exchange()
            },
            Event::Processed(Err(cause), _) => Err(Error::ProcessNetlinkError(cause)),
        }
    }
}

/// The session at its start.
pub open spec fn session_start(
    batch: BatchView,
    expected: Option<Seq<Seq<char>>>,
) -> SessionView {
    SessionView {
        batch,
        exchange: Exchange::Batch,
        phase: Phase::Open,
        expected,
        tables: Seq::empty(),
    }
}

/// The batch that makes sure that the table does not exist. Adding the table first keeps its
/// removal from failing if it does not exist.
pub open spec fn reset_batch(table: TableView) -> BatchView {
    BatchView {
        table,
        messages: seq![
            MessageView { object: ObjectView::Table, msg_type: MsgType::Add },
            MessageView { object: ObjectView::Table, msg_type: MsgType::Del },
        ],
    }
}

impl Firewall {
    /// The table that holds all rules.
    pub closed spec fn table(self) -> TableView {
        TableView { name: self.table_name@, family: ProtoFamily::Inet }
    }

    /// Creates the firewall. Nothing changes until a policy is applied.
    pub fn new() -> (firewall: Result<Firewall, Error>)
        ensures
            firewall matches Ok(firewall) && firewall.table() == (TableView {
                name: TABLE_NAME@,
                family: ProtoFamily::Inet,
            }) && firewall.table().name == "mullvad"@,
    {
        Ok(Firewall { table_name: TABLE_NAME.to_owned() })
    }

    /// Starts to put a policy into effect. Once the batch has been carried out, the session
    /// verifies that the table is set.
    ///
    /// The interface names of [`iface_names`] have to be translated beforehand. If that failed,
    /// so does this.
    pub fn apply_policy(
        &mut self,
        policy: &FirewallPolicy,
        params: NetworkParameters,
        counters: bool,
        lookups: IfaceLookups,
    ) -> (session: Result<Session, Error>)
        requires
            params@.wf(),
            lookups.over(iface_names(policy@).len()),
        ensures
            final(self).table() == old(self).table(),
            lookups.indices@.len() >= iface_names(policy@).len() ==> (session matches Ok(session)
                && session@ == session_start(
                policy_batch(old(self).table(), policy@, params@, lookups.indices@, counters),
                Some(seq![TABLE_NAME@]),
            )),
            lookups.indices@.len() < iface_names(policy@).len() ==> failed_for(
                iface_names(policy@)[lookups.indices@.len() as int],
                lookups.failure,
                session,
            ),
            session is Ok <==> lookups.indices@.len() >= match policy {
                FirewallPolicy::Connected { tunnel, .. } => if tunnel.ipv6_gateway is Some {
                    8int
                } else {
                    6
                },
                _ => 2,
            },
            session is Err ==> (session matches Err(Error::LookupIfaceIndexError(name, source))
                && lookups.failure == Some(source) && if lookups.indices@.len() < 2 {
                name@ == "lo"@
            } else {
                policy matches FirewallPolicy::Connected { tunnel, .. } && name@
                    == tunnel.interface@
            }),
            session matches Ok(session) ==> session@.exchange is Batch && session@.phase is Open
                && session@.expected == Some(seq!["mullvad"@]) && session@.tables.len() == 0
                && session@.batch.table == old(self).table(),
    {
        let table = Table { name: self.table_name.clone(), family: ProtoFamily::Inet };
        let batch = match PolicyBatch::new(&table, params, counters, lookups).finalize(policy) {
            Ok(batch) => batch,
            Err(error) => {
                return Err(error);
            },
        };
        let expected: Vec<String> = vec![TABLE_NAME.to_owned()];
        assert(texts(expected@) =~= seq![TABLE_NAME@]);
        let session = Session {
            batch,
            exchange: Exchange::Batch,
            phase: Phase::Open,
            expected: Some(expected),
            tables: Vec::new(),
        };
        assert(session@.tables =~= Seq::empty());
        Ok(session)
    }

    /// Starts to remove all rules.
    pub fn reset_policy(&mut self) -> (session: Session)
        ensures
            final(self).table() == old(self).table(),
            session@ == session_start(reset_batch(old(self).table()), None),
            session@.exchange is Batch,
            session@.phase is Open,
            session@.expected is None,
            session@.batch.table == old(self).table(),
            session@.batch.messages == seq![
                MessageView { object: ObjectView::Table, msg_type: MsgType::Add },
                MessageView { object: ObjectView::Table, msg_type: MsgType::Del },
            ],
    {
        let mut batch = Batch::new(
            Table { name: self.table_name.clone(), family: ProtoFamily::Inet },
        );
        // Our batch will add and remove the table even though the goal is just to remove it.
        // This because only removing it throws a strange error if the table does not exist.
        batch.add(Object::Table, MsgType::Add);
        batch.add(Object::Table, MsgType::Del);
        assert(batch@.messages =~= reset_batch(self.table()).messages);
        let session = Session {
            batch,
            exchange: Exchange::Batch,
            phase: Phase::Open,
            expected: None,
            tables: Vec::new(),
        };
        assert(session@.tables =~= Seq::empty());
        session
    }

    /// The length of the message that was received, unless it is empty.
    pub fn socket_recv(received: Result<usize, std::io::Error>) -> (message: Result<
        Option<usize>,
        Error,
    >)
        ensures
            match received {
                Ok(len) => message == Ok::<Option<usize>, Error>(
                    if len > 0 {
                        Some(len)
                    } else {
                        None
                    },
                ),
                Err(cause) => message == Err::<Option<usize>, Error>(
                    Error::NetlinkRecvError(cause),
                ),
            },
    {
        match received {
            Ok(len) => if len > 0 {
                Ok(Some(len))
            } else {
                Ok(None)
            },
            Err(cause) => Err(Error::NetlinkRecvError(cause)),
        }
    }

    /// Checks that all expected tables are set.
    pub fn verify_tables(expected_tables: &Vec<String>, table_set: &Vec<String>) -> (verified:
        Result<(), Error>)
        ensures
            if all_found(texts(expected_tables@), texts(table_set@)) {
                verified is Ok
            } else {
                verified == Err::<(), Error>(Error::NetfilterTableNotSetError)
            },
            verified is Ok ==> forall|i: int|
                0 <= i < expected_tables@.len() ==> texts(table_set@).contains(
                    (#[trigger] expected_tables@[i])@,
                ),
            verified is Err ==> exists|i: int|
                #![trigger expected_tables@[i]]
                0 <= i < expected_tables@.len() && forall|j: int|
                    #![trigger table_set@[j]]
                    0 <= j < table_set@.len() ==> table_set@[j]@ != expected_tables@[i]@,
            verified matches Err(error) ==> error is NetfilterTableNotSetError,
    {
        let ghost expected = texts(expected_tables@);
        let ghost found = texts(table_set@);
        let mut i: usize = 0;
        while i < expected_tables.len()
            invariant
                i <= expected_tables.len(),
                expected == texts(expected_tables@),
                found == texts(table_set@),
                forall|j: int| 0 <= j < i ==> found.contains(#[trigger] expected[j]),
            decreases expected_tables.len() - i,
        {
            assert(expected[i as int] == expected_tables@[i as int]@);
            if !contains(table_set, &expected_tables[i]) {
                assert(!found.contains(expected[i as int]));
                proof {
                    law_texts_are_those_in_the_list(table_set@, expected[i as int]);
                }
                return Err(Error::NetfilterTableNotSetError);
            }
            i = i + 1;
        }
        proof {
            assert forall|k: int| 0 <= k < expected_tables@.len() implies texts(
                table_set@,
            ).contains((#[trigger] expected_tables@[k])@) by {
                assert(expected[k] == expected_tables@[k]@);
            }
        }
        Ok(())
    }
}

} // verus!
