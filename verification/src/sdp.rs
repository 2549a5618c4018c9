//! A session description so that `ffplay` can act as a receiver of the
//! stream sent to a static client.

use vstd::prelude::*;

use crate::net::Endpoint;
use crate::protocol::StreamParams;
use crate::text::{decimal, push_decimal, push_str};

verus! {

pub open spec fn family(target: Endpoint) -> Seq<char> {
    if target.is_ipv6 {
        "IP6"@
    } else {
        "IP4"@
    }
}

pub open spec fn describe_spec(target: Endpoint, stream: StreamParams, bitrate_kbps: u32) -> Seq<char> {
    let pt = decimal(stream.payload_type as nat);
    "v=0\n"@ + "o=- 0 0 IN "@ + family(target) + " "@ + target.ip@ + "\n"@ + "s=Ausha\n"@ + "c=IN "@
        + family(target) + " "@ + target.ip@ + "\n"@ + "t=0 0\n"@ + "m=audio "@ + decimal(
        target.port as nat,
    ) + " RTP/AVP "@ + pt + "\n"@ + "b=AS:"@ + decimal(bitrate_kbps as nat) + "\n"@ + "a=rtpmap:"@
        + pt + " opus/"@ + decimal(stream.rate as nat) + "/"@ + decimal(stream.channels as nat)
        + "\n"@ + "a=fmtp:"@ + pt + " sprop-stereo=1\n"@
}

pub fn describe(target: &Endpoint, stream: &StreamParams, bitrate_kbps: u32) -> (r: String)
    ensures
        r@ == describe_spec(*target, *stream, bitrate_kbps),
{
    let family = if target.is_ipv6 { "IP6" } else { "IP4" };
    let ip = target.ip.as_str();
    let mut s = "v=0\n".to_owned();
    push_str(&mut s, "o=- 0 0 IN ");
    push_str(&mut s, family);
    push_str(&mut s, " ");
    push_str(&mut s, ip);
    push_str(&mut s, "\n");
    push_str(&mut s, "s=Ausha\n");
    push_str(&mut s, "c=IN ");
    push_str(&mut s, family);
    push_str(&mut s, " ");
    push_str(&mut s, ip);
    push_str(&mut s, "\n");
    push_str(&mut s, "t=0 0\n");
    push_str(&mut s, "m=audio ");
    push_decimal(&mut s, target.port as u64);
    push_str(&mut s, " RTP/AVP ");
    push_decimal(&mut s, stream.payload_type as u64);
    push_str(&mut s, "\n");
    push_str(&mut s, "b=AS:");
    push_decimal(&mut s, bitrate_kbps as u64);
    push_str(&mut s, "\n");
    push_str(&mut s, "a=rtpmap:");
    push_decimal(&mut s, stream.payload_type as u64);
    push_str(&mut s, " opus/");
    push_decimal(&mut s, stream.rate as u64);
    push_str(&mut s, "/");
    push_decimal(&mut s, stream.channels as u64);
    push_str(&mut s, "\n");
    push_str(&mut s, "a=fmtp:");
    push_decimal(&mut s, stream.payload_type as u64);
    push_str(&mut s, " sprop-stereo=1\n");
    assert(s@ =~= describe_spec(*target, *stream, bitrate_kbps));
    s
}

} // verus!
