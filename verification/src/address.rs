//! Network addresses of REPL backends.

use crate::text::{decimal, decimal_text};
use vstd::prelude::*;
use vstd::string::*;

verus! {

/// Where a REPL backend listens: a host and a port.
#[derive(Debug, PartialEq, Eq)]
pub struct Address {
    pub host: String,
    pub port: u16,
}

/// An address as plain values.
pub struct AddressView {
    pub host: Seq<char>,
    pub port: u16,
}

impl View for Address {
    type V = AddressView;

    open spec fn view(&self) -> AddressView {
        AddressView { host: self.host@, port: self.port }
    }
}

/// An address written as `host:port`, the port in decimal.
pub open spec fn address_text(addr: AddressView) -> Seq<char> {
    addr.host + ":"@ + decimal(addr.port as nat)
}

impl Address {
    /// The address of `port` on `host`.
    pub fn new(host: String, port: u16) -> (addr: Address)
        ensures
            addr@ == (AddressView { host: host@, port }),
    {
        Address { host, port }
    }

    /// The address written as `host:port`.
    pub fn text(&self) -> (text: String)
        ensures
            text@ == address_text(self@),
    {
        let mut text = self.host.clone();
        text.append(":");
        let port = decimal_text(self.port);
        text.append(port.as_str());
        text
    }
}

impl Clone for Address {
    fn clone(&self) -> (copy: Address)
        ensures
            copy@ == self@,
    {
        Address { host: self.host.clone(), port: self.port }
    }
}

} // verus!
