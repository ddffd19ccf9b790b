//! Netfilter tables, chains, rules and the messages that set them up.

use vstd::prelude::*;

use crate::net::{Ipv4Addr, Ipv6Addr};

verus! {

/// A value that expressions work on. Each variant has the width of its payload.
#[derive(Clone, Copy, Debug, PartialEq, Eq, Hash, Structural)]
pub enum Operand {
    /// One byte.
    U8(u8),
    /// Two bytes in network byte order: the most significant one comes first.
    U16 { high: u8, low: u8 },
    /// Four bytes in host byte order.
    U32(u32),
    /// The four octets of an address.
    V4(Ipv4Addr),
    /// The sixteen octets of an address.
    V6(Ipv6Addr),
}

/// What netfilter knows of a packet beside its bytes.
#[derive(Clone, Copy, Debug, PartialEq, Eq, Hash, Structural)]
pub enum Meta {
    /// The network layer protocol, as a number of the `NFPROTO_*` family.
    NfProto,
    /// The transport layer protocol, as an IP protocol number.
    L4Proto,
    /// The index of the interface that the packet came in on.
    Iif,
    /// The index of the interface that the packet goes out on.
    Oif,
}

/// A field of the network or the transport header.
#[derive(Clone, Copy, Debug, PartialEq, Eq, Hash, Structural)]
pub enum Payload {
    Ipv4Saddr,
    Ipv4Daddr,
    Ipv6Saddr,
    Ipv6Daddr,
    UdpSport,
    UdpDport,
    TcpSport,
    TcpDport,
    Icmpv6Type,
    Icmpv6Code,
}

/// How a loaded value is held against a given one.
#[derive(Clone, Copy, Debug, PartialEq, Eq, Hash, Structural)]
pub enum CompareOp {
    Eq,
    Neq,
}

/// What happens to a packet.
#[derive(Clone, Copy, Debug, PartialEq, Eq, Hash, Structural)]
pub enum Verdict {
    /// Let the packet pass.
    Accept,
    /// Silently discard the packet.
    Drop,
}

/// One expression of a rule. All expressions share one register.
#[derive(Clone, Copy, Debug, PartialEq, Eq, Hash, Structural)]
pub enum Expr {
    /// Loads metadata into the register.
    Meta(Meta),
    /// Loads the connection tracking state into the register.
    CtState,
    /// Loads a header field into the register.
    Payload(Payload),
    /// Masks the register, then applies exclusive or to it.
    Bitwise { mask: Operand, xor: Operand },
    /// Goes on only if the register compares to `data` as stated.
    Compare { op: CompareOp, data: Operand },
    /// Counts the packet.
    Counter,
    /// Ends the evaluation.
    Verdict(Verdict),
}

/// The chains that a policy fills.
#[derive(Clone, Copy, Debug, PartialEq, Eq, Hash, Structural)]
pub enum ChainName {
    /// The chain that sees what comes in.
    Input,
    /// The chain that sees what goes out.
    Output,
}

impl ChainName {
    /// The name that netfilter knows the chain by.
    pub open spec fn spec_as_str(self) -> Seq<char> {
        match self {
            ChainName::Input => "input"@,
            ChainName::Output => "output"@,
        }
    }

    /// The name that netfilter knows the chain by.
    pub fn as_str(&self) -> (name: &'static str)
        ensures
            name@ == self.spec_as_str(),
            self is Input ==> name@ == "input"@,
            self is Output ==> name@ == "output"@,
    {
        match self {
            ChainName::Input => "input",
            ChainName::Output => "output",
        }
    }
}

/// Where in the network stack a chain is consulted.
#[derive(Clone, Copy, Debug, PartialEq, Eq, Hash, Structural)]
pub enum Hook {
    /// Packets for this host.
    In,
    /// Packets that this host sends.
    Out,
}

/// A chain of rules that is consulted at a hook.
#[derive(Clone, Copy, Debug, PartialEq, Eq, Hash, Structural)]
pub struct Chain {
    pub name: ChainName,
    pub hook: Hook,
    pub priority: i32,
    /// What happens to a packet that no rule of the chain decides on.
    pub policy: Verdict,
}

/// The protocols that a table applies to.
#[derive(Clone, Copy, Debug, PartialEq, Eq, Hash, Structural)]
pub enum ProtoFamily {
    /// Both IPv4 and IPv6.
    Inet,
}

/// A table, which holds chains.
#[derive(Clone, Debug)]
pub struct Table {
    pub name: String,
    pub family: ProtoFamily,
}

/// The model of a [`Table`].
pub struct TableView {
    pub name: Seq<char>,
    pub family: ProtoFamily,
}

impl View for Table {
    type V = TableView;

    open spec fn view(&self) -> TableView {
        TableView { name: self.name@, family: self.family }
    }
}

/// A rule, which belongs to a chain.
#[derive(Clone, Debug)]
pub struct Rule {
    pub chain: ChainName,
    pub exprs: Vec<Expr>,
}

/// The model of a [`Rule`].
pub struct RuleView {
    pub chain: ChainName,
    pub exprs: Seq<Expr>,
}

impl RuleView {
    /// A rule of the chain without expressions.
    pub open spec fn empty(chain: ChainName) -> RuleView {
        RuleView { chain, exprs: Seq::empty() }
    }

    /// This rule with the given expressions added at its end.
    pub open spec fn with(self, exprs: Seq<Expr>) -> RuleView {
        RuleView { chain: self.chain, exprs: self.exprs + exprs }
    }
}

impl View for Rule {
    type V = RuleView;

    open spec fn view(&self) -> RuleView {
        RuleView { chain: self.chain, exprs: self.exprs@ }
    }
}

impl Rule {
    /// Creates a rule of the chain, without expressions.
    pub fn new(chain: &Chain) -> (rule: Rule)
        ensures
            rule@ == RuleView::empty(chain.name),
            rule.chain == chain.name,
            rule.exprs@.len() == 0,
    {
        Rule { chain: chain.name, exprs: Vec::new() }
    }

    /// Adds an expression at the end of the rule.
    pub fn add_expr(&mut self, expr: Expr)
        ensures
            final(self)@ == old(self)@.with(seq![expr]),
            final(self).chain == old(self).chain,
            final(self).exprs@ == old(self).exprs@.push(expr),
    {
        self.exprs.push(expr);
        assert(self.exprs@ =~= old(self).exprs@ + seq![expr]);
    }
}

/// What a message does with its object.
#[derive(Clone, Copy, Debug, PartialEq, Eq, Hash, Structural)]
pub enum MsgType {
    /// Add the object to netfilter.
    Add,
    /// Remove the object from netfilter.
    Del,
}

/// What a message is about.
#[derive(Clone, Debug)]
pub enum Object {
    /// The table of the batch.
    Table,
    /// A chain in the table of the batch.
    Chain(Chain),
    /// A rule in a chain of the table of the batch.
    Rule(Rule),
}

/// The model of an [`Object`].
pub enum ObjectView {
    Table,
    Chain(Chain),
    Rule(RuleView),
}

impl View for Object {
    type V = ObjectView;

    open spec fn view(&self) -> ObjectView {
        match self {
            Object::Table => ObjectView::Table,
            Object::Chain(chain) => ObjectView::Chain(*chain),
            Object::Rule(rule) => ObjectView::Rule(rule@),
        }
    }
}

/// One message to netfilter.
#[derive(Clone, Debug)]
pub struct Message {
    pub object: Object,
    pub msg_type: MsgType,
}

/// The model of a [`Message`].
pub struct MessageView {
    pub object: ObjectView,
    pub msg_type: MsgType,
}

impl View for Message {
    type V = MessageView;

    open spec fn view(&self) -> MessageView {
        MessageView { object: self.object@, msg_type: self.msg_type }
    }
}

/// The messages that add the rules, in order.
pub open spec fn rule_messages(rules: Seq<RuleView>) -> Seq<MessageView> {
    rules.map_values(
        |rule: RuleView| MessageView { object: ObjectView::Rule(rule), msg_type: MsgType::Add },
    )
}

/// Messages about one table, which netfilter carries out as one atomic operation.
#[derive(Clone, Debug)]
pub struct Batch {
    pub table: Table,
    pub messages: Vec<Message>,
}

/// The model of a [`Batch`].
pub struct BatchView {
    pub table: TableView,
    pub messages: Seq<MessageView>,
}

impl View for Batch {
    type V = BatchView;

    open spec fn view(&self) -> BatchView {
        BatchView {
            table: self.table@,
            messages: self.messages@.map_values(|message: Message| message@),
        }
    }
}

impl BatchView {
    /// This batch with one more message at its end.
    pub open spec fn push(self, object: ObjectView, msg_type: MsgType) -> BatchView {
        BatchView {
            table: self.table,
            messages: self.messages.push(MessageView { object, msg_type }),
        }
    }

    /// This batch with messages at its end that add the rules.
    pub open spec fn add_rules(self, rules: Seq<RuleView>) -> BatchView {
        BatchView { table: self.table, messages: self.messages + rule_messages(rules) }
    }
}

impl Batch {
    /// Creates a batch about the table, without messages.
    pub fn new(table: Table) -> (batch: Batch)
        ensures
            batch@ == (BatchView { table: table@, messages: Seq::empty() }),
            batch.table == table,
            batch.messages@.len() == 0,
    {
        let batch = Batch { table, messages: Vec::new() };
        assert(batch@.messages =~= Seq::empty());
        batch
    }

    /// Adds a message at the end of the batch.
    pub fn add(&mut self, object: Object, msg_type: MsgType)
        ensures
            final(self)@ == old(self)@.push(object@, msg_type),
            final(self).table == old(self).table,
            final(self).messages@ == old(self).messages@.push(Message { object, msg_type }),
    {
        self.messages.push(Message { object, msg_type });
        assert(self@.messages =~= old(self)@.messages.push(
            MessageView { object: object@, msg_type },
        ));
    }

    /// Adds a message at the end of the batch that adds the rule.
    pub fn add_rule(&mut self, rule: Rule)
        ensures
            final(self)@ == old(self)@.add_rules(seq![rule@]),
            final(self).table == old(self).table,
            final(self).messages@ == old(self).messages@.push(
                Message { object: Object::Rule(rule), msg_type: MsgType::Add },
            ),
    {
        self.add(Object::Rule(rule), MsgType::Add);
        assert(self@.messages =~= old(self)@.messages + rule_messages(seq![rule@]));
    }
}

} // verus!
