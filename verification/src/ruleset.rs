//! What a batch does to a table.

use vstd::prelude::*;

use crate::nft::{Chain, ChainName, Hook, MessageView, MsgType, ObjectView, RuleView, Verdict};
use crate::packet::{first_verdict, Packet};

verus! {

/// What netfilter holds for a table.
pub struct Ruleset {
    /// Whether the table exists.
    pub present: bool,
    /// The chains of the table.
    pub chains: Seq<Chain>,
    /// The rules of the chains, in the order in which they were added.
    pub rules: Seq<RuleView>,
}

impl Ruleset {
    /// The table does not exist.
    pub open spec fn absent() -> Ruleset {
        Ruleset { present: false, chains: Seq::empty(), rules: Seq::empty() }
    }

    /// Netfilter can carry out the message: what is removed exists, and so does what something is
    /// added to.
    pub open spec fn admits(self, message: MessageView) -> bool {
        match (message.object, message.msg_type) {
            (ObjectView::Table, MsgType::Add) => true,
            (ObjectView::Table, MsgType::Del) => self.present,
            (ObjectView::Chain(_), MsgType::Add) => self.present,
            (ObjectView::Chain(chain), MsgType::Del) => self.has_chain(chain.name),
            (ObjectView::Rule(rule), MsgType::Add) => self.has_chain(rule.chain),
            (ObjectView::Rule(rule), MsgType::Del) => self.rules.contains(rule),
        }
    }

    /// The table exists and has a chain of the name.
    pub open spec fn has_chain(self, name: ChainName) -> bool {
        self.present && exists|i: int|
            0 <= i < self.chains.len() && (#[trigger] self.chains[i]).name == name
    }

    /// What netfilter holds after it has carried out one message.
    pub open spec fn after_one(self, message: MessageView) -> Ruleset {
        match (message.object, message.msg_type) {
            (ObjectView::Table, MsgType::Add) => Ruleset { present: true, ..self },
            (ObjectView::Table, MsgType::Del) => Ruleset::absent(),
            (ObjectView::Chain(chain), MsgType::Add) => Ruleset {
                chains: self.chains.push(chain),
                ..self
            },
            (ObjectView::Chain(chain), MsgType::Del) => Ruleset {
                chains: self.chains.filter(|other: Chain| other.name != chain.name),
                rules: self.rules.filter(|rule: RuleView| rule.chain != chain.name),
                ..self
            },
            (ObjectView::Rule(rule), MsgType::Add) => Ruleset {
                rules: self.rules.push(rule),
                ..self
            },
            (ObjectView::Rule(rule), MsgType::Del) => Ruleset {
                rules: self.rules.filter(|other: RuleView| other != rule),
                ..self
            },
        }
    }

    /// What netfilter holds after it has carried out the messages, in order.
    pub open spec fn after(self, messages: Seq<MessageView>) -> Ruleset
        decreases messages.len(),
    {
        if messages.len() == 0 {
            self
        } else {
            self.after(messages.drop_last()).after_one(messages.last())
        }
    }

    /// What a chain does with a packet: what the first rule that matches it decides, or else
    /// what the policy of the chain says.
    pub open spec fn chain_verdict(self, chain: Chain, packet: Packet) -> Verdict {
        match first_verdict(self.rules, chain.name, packet) {
            Some(verdict) => verdict,
            None => chain.policy,
        }
    }

    /// What becomes of a packet at a hook: it is dropped if one of the chains at the hook drops
    /// it.
    pub open spec fn verdict(self, hook: Hook, packet: Packet) -> Verdict {
        if exists|i: int|
            0 <= i < self.chains.len() && (#[trigger] self.chains[i]).hook == hook
                && self.chain_verdict(self.chains[i], packet) is Drop {
            Verdict::Drop
        } else {
            Verdict::Accept
        }
    }
}

} // verus!
