//! Network addresses as the library sees them: an IP address in its text
//! form and a port.

use vstd::prelude::*;

use crate::text::{decimal, push_char, push_decimal, push_str};

verus! {

/// A socket address. `ip` is the address as `IpAddr` displays it.
pub struct Endpoint {
    pub ip: String,
    pub port: u16,
    pub is_ipv6: bool,
}

impl Clone for Endpoint {
    fn clone(&self) -> (r: Self)
        ensures
            r.ip@ == self.ip@,
            r.port == self.port,
            r.is_ipv6 == self.is_ipv6,
    {
        Endpoint { ip: self.ip.clone(), port: self.port, is_ipv6: self.is_ipv6 }
    }
}

/// How `SocketAddr` displays an address: `ip:port`, with an IPv6 address in
/// brackets.
pub open spec fn endpoint_text(ip: Seq<char>, port: u16, is_ipv6: bool) -> Seq<char> {
    if is_ipv6 {
        seq!['['] + ip + seq![']', ':'] + decimal(port as nat)
    } else {
        ip + seq![':'] + decimal(port as nat)
    }
}

impl Endpoint {
    /// The address as plain values: its text, port and family.
    pub open spec fn addr(self) -> (Seq<char>, u16, bool) {
        (self.ip@, self.port, self.is_ipv6)
    }

    pub open spec fn text(self) -> Seq<char> {
        endpoint_text(self.ip@, self.port, self.is_ipv6)
    }

    /// Appends the address as `SocketAddr` displays it.
    pub fn push_to(&self, out: &mut String)
        ensures
            final(out)@ == old(out)@ + self.text(),
    {
        if self.is_ipv6 {
            push_char(out, '[');
            push_str(out, self.ip.as_str());
            push_char(out, ']');
            push_char(out, ':');
        } else {
            push_str(out, self.ip.as_str());
            push_char(out, ':');
        }
        push_decimal(out, self.port as u64);
        assert(final(out)@ =~= old(out)@ + self.text());
    }
}

} // verus!
