//! What the sender announces over mDNS and which local address it offers.
//!
//! Discovery is a convenience, never the only way in: mDNS is blocked on many
//! consumer routers, on enterprise WiFi with client isolation, and across
//! VLANs, so the pairing link and manual entry always remain. Registering
//! with the daemon belongs to the program.

use vstd::prelude::*;

use crate::command::output_text;
use crate::text::{
    chars_of, decimal, decimal_text, from_utf8_lossy, push_str, same_chars, string_from, trim,
    trimmed, words, words_of,
};

verus! {

pub const SERVICE_TYPE: &'static str = "_ausha._tcp.local.";

/// What a machine without a usable `/etc/hostname` is called.
pub const FALLBACK_HOSTNAME: &'static str = "ausha";

/// The host's name from the contents of `/etc/hostname` (`None` when it could
/// not be read): trimmed, and the fallback when that leaves nothing.
pub open spec fn hostname_spec(contents: Option<Seq<char>>) -> Seq<char> {
    match contents {
        Some(c) => if trim(c).len() > 0 {
            trim(c)
        } else {
            FALLBACK_HOSTNAME@
        },
        None => FALLBACK_HOSTNAME@,
    }
}

pub fn hostname_from(contents: Option<String>) -> (r: String)
    ensures
        r@ == hostname_spec(match contents {
            Some(c) => Some(c@),
            None => None,
        }),
{
    match contents {
        Some(c) => {
            let cs = chars_of(c.as_str());
            let name = trimmed(cs.as_slice());
            if name.len() > 0 {
                string_from(name.as_slice())
            } else {
                FALLBACK_HOSTNAME.to_owned()
            }
        },
        None => FALLBACK_HOSTNAME.to_owned(),
    }
}

/// The word after the first `src` among `ws`.
pub open spec fn after_src(ws: Seq<Seq<char>>) -> Option<Seq<char>>
    decreases ws.len(),
{
    if ws.len() == 0 {
        None
    } else if ws[0] == "src"@ {
        if ws.len() > 1 {
            Some(ws[1])
        } else {
            None
        }
    } else {
        after_src(ws.drop_first())
    }
}

/// The source address `ip -4 route get 1.1.1.1` reports: the word after
/// `src`. It is the best guess at the address a receiver should dial, since
/// the route to the internet skips loopback and container bridges.
pub fn route_source(stdout: &[u8]) -> (r: Option<String>)
    ensures
        match r {
            Some(a) => after_src(words(output_text(stdout@))) == Some(a@),
            None => after_src(words(output_text(stdout@))) is None,
        },
{
    let text = from_utf8_lossy(stdout);
    let cs = chars_of(text.as_str());
    let ws = words_of(cs.as_slice());
    let ghost all = words(output_text(stdout@));
    let mut i: usize = 0;
    assert(all.skip(0) =~= all);
    while i < ws.len()
        invariant
            ws@.len() == all.len(),
            forall|k: int| 0 <= k < ws@.len() ==> #[trigger] ws@[k]@ == all[k],
            all == words(output_text(stdout@)),
            i <= ws@.len(),
            after_src(all) == after_src(all.skip(i as int)),
        decreases ws@.len() - i,
    {
        let ghost rest = all.skip(i as int);
        assert(rest.len() > 0);
        assert(rest[0] == all[i as int]);
        assert(rest.drop_first() =~= all.skip(i + 1));
        if same_chars(ws[i].as_slice(), "src") {
            if i + 1 < ws.len() {
                assert(rest[1] == all[i + 1]);
                return Some(string_from(ws[i + 1].as_slice()));
            }
            return None;
        }
        i += 1;
    }
    assert(all.skip(i as int) =~= Seq::<Seq<char>>::empty());
    None
}

/// The TXT properties of the announcement.
pub open spec fn properties_spec(bitrate_kbps: u32) -> Seq<(Seq<char>, Seq<char>)> {
    seq![
        ("ver"@, "1"@),
        ("codec"@, "opus"@),
        ("rate"@, "48000"@),
        ("channels"@, "2"@),
        ("bitrate"@, decimal(bitrate_kbps as nat)),
    ]
}

pub open spec fn pair_texts(v: Seq<(String, String)>) -> Seq<(Seq<char>, Seq<char>)> {
    v.map_values(|p: (String, String)| (p.0@, p.1@))
}

fn push_pair(v: &mut Vec<(String, String)>, key: &str, value: String)
    ensures
        pair_texts(final(v)@) == pair_texts(old(v)@).push((key@, value@)),
{
    v.push((key.to_owned(), value));
    assert(pair_texts(v@) =~= pair_texts(old(v)@).push((key@, value@)));
}

pub fn service_properties(bitrate_kbps: u32) -> (r: Vec<(String, String)>)
    ensures
        pair_texts(r@) == properties_spec(bitrate_kbps),
{
    let mut v: Vec<(String, String)> = Vec::new();
    push_pair(&mut v, "ver", "1".to_owned());
    push_pair(&mut v, "codec", "opus".to_owned());
    push_pair(&mut v, "rate", "48000".to_owned());
    push_pair(&mut v, "channels", "2".to_owned());
    push_pair(&mut v, "bitrate", decimal_text(bitrate_kbps as u64));
    assert(pair_texts(v@) =~= properties_spec(bitrate_kbps));
    v
}

/// The host name the service is announced under.
pub fn service_host(host: &str) -> (r: String)
    ensures
        r@ == host@ + ".local."@,
{
    let mut s = host.to_owned();
    push_str(&mut s, ".local.");
    s
}

} // verus!
