//! Decides which packets a VPN client lets through on Linux.
//!
//! A [`policy::FirewallPolicy`] is turned into a batch of netfilter messages by
//! [`batch::PolicyBatch`], and [`firewall::Firewall`] puts that batch into effect. What a batch
//! does to a table is defined in [`ruleset`], what rules do to a packet in [`packet`]. What a
//! policy means for a packet is stated in [`verdicts`], and [`laws`] proves that the batch of a
//! policy does just that, and what follows for every policy. [`ordering`] states how the rules of
//! related policies relate, [`session_laws`] what it takes to put a policy into effect, and
//! [`contents`] what each rule and each batch holds, element by element.
//!
//! [`exclude`] launches programs whose traffic stays out of the tunnel, and [`settings`] says
//! where the settings are stored.
//!
//! Nothing here opens a socket, reads a file or makes a system call. Where that takes turns with
//! decisions, a state machine says what to do next and is told what came of it.

pub mod net;
pub mod proto;

pub mod nft;
pub mod checks;
pub mod policy;
pub mod rules;

pub mod error;
pub mod batch;
pub mod firewall;

pub mod packet;
pub mod ruleset;
pub mod verdicts;
pub mod wellformed;
mod matching;
mod deciding;
mod shape;
pub mod contents;
pub mod laws;
pub mod ordering;
pub mod session_laws;

pub mod exclude;
pub mod settings;
