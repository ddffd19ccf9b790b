//! What can go wrong when the firewall is changed.

use vstd::prelude::*;

verus! {

/// `std::io::Error`, carried along without looking inside.
#[verifier::external_type_specification]
#[verifier::external_body]
pub struct ExIoError(std::io::Error);

/// Errors that can happen when interacting with Linux netfilter.
#[derive(Debug)]
pub enum Error {
    /// Unable to open netlink socket to netfilter.
    NetlinkOpenError(std::io::Error),
    /// Unable to send netlink command to netfilter.
    NetlinkSendError(std::io::Error),
    /// Error while reading from netlink socket.
    NetlinkRecvError(std::io::Error),
    /// Error while processing an incoming netlink message.
    ProcessNetlinkError(std::io::Error),
    /// Failed to verify that our tables are set. Probably means that it's the host that does
    /// not support nftables properly.
    NetfilterTableNotSetError,
    /// Unable to translate network interface name into index.
    LookupIfaceIndexError(String, std::io::Error),
}

impl Error {
    /// The text that [`Error::message`] returns.
    pub open spec fn spec_message(self) -> Seq<char> {
        match self {
            Error::NetlinkOpenError(_) => "Unable to open netlink socket to netfilter"@,
            Error::NetlinkSendError(_) => "Unable to send netlink command to netfilter"@,
            Error::NetlinkRecvError(_) => "Error while reading from netlink socket"@,
            Error::ProcessNetlinkError(_) => "Error while processing an incoming netlink message"@,
            Error::NetfilterTableNotSetError => "Failed to set firewall rules"@,
            Error::LookupIfaceIndexError(iface, _) => {
                "Unable to translate network interface name \""@ + iface@ + "\" into index"@
            },
        }
    }

    /// Describes the error to a user.
    pub fn message(&self) -> (text: String)
        ensures
            text@ == self.spec_message(),
            match self {
                Error::NetlinkOpenError(_) => text@
                    == "Unable to open netlink socket to netfilter"@,
                Error::NetlinkSendError(_) => text@
                    == "Unable to send netlink command to netfilter"@,
                Error::NetlinkRecvError(_) => text@ == "Error while reading from netlink socket"@,
                Error::ProcessNetlinkError(_) => text@
                    == "Error while processing an incoming netlink message"@,
                Error::NetfilterTableNotSetError => text@ == "Failed to set firewall rules"@,
                Error::LookupIfaceIndexError(iface, _) => text@
                    == "Unable to translate network interface name \""@ + iface@
                    + "\" into index"@,
            },
    {
        match self {
            Error::NetlinkOpenError(_) => "Unable to open netlink socket to netfilter".to_owned(),
            Error::NetlinkSendError(_) => "Unable to send netlink command to netfilter".to_owned(),
            Error::NetlinkRecvError(_) => "Error while reading from netlink socket".to_owned(),
            Error::ProcessNetlinkError(_) => {
                "Error while processing an incoming netlink message".to_owned()
            },
            Error::NetfilterTableNotSetError => "Failed to set firewall rules".to_owned(),
            Error::LookupIfaceIndexError(iface, _) => {
                let mut text = "Unable to translate network interface name \"".to_owned();
                text.append(iface.as_str());
                text.append("\" into index");
                text
            },
        }
    }
}

} // verus!
