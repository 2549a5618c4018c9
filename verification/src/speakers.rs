//! Silencing this machine's own speakers while any receiver is listening:
//! which sink to silence, and when the count of listeners says to.

use vstd::prelude::*;

use crate::command::{output_text, CommandOutput};
use crate::text::{
    chars_of, copy_range, ends_with, from_utf8_lossy, has_suffix, push_literal, string_from, texts,
    trim, trimmed,
};

verus! {

pub open spec fn monitor_suffix() -> Seq<char> {
    ".monitor"@
}

/// The speakers behind a captured device, and how many receivers are
/// listening to them.
pub struct Speakers {
    sink: String,
    listeners: u64,
}

impl Speakers {
    pub closed spec fn sink_name(self) -> Seq<char> {
        self.sink@
    }

    pub closed spec fn listeners(self) -> u64 {
        self.listeners
    }

    /// The speakers behind a captured device. Only a sink's monitor has any:
    /// capturing a microphone leaves nothing playing here to silence.
    pub fn behind(capture_device: &str) -> (r: Option<Self>)
        ensures
            ends_with(capture_device@, monitor_suffix()) ==> (r matches Some(s) && s.sink_name()
                == capture_device@.take(capture_device@.len() - monitor_suffix().len())
                && s.listeners() == 0),
            !ends_with(capture_device@, monitor_suffix()) ==> r is None,
    {
        let device = chars_of(capture_device);
        let suffix = chars_of(".monitor");
        if !has_suffix(device.as_slice(), suffix.as_slice()) {
            return None;
        }
        let kept = copy_range(device.as_slice(), 0, device.len() - suffix.len());
        assert(kept@ =~= capture_device@.take(capture_device@.len() - monitor_suffix().len()));
        Some(Self { sink: string_from(kept.as_slice()), listeners: 0 })
    }

    pub fn sink(&self) -> (r: &str)
        ensures
            r@ == self.sink_name(),
    {
        self.sink.as_str()
    }

    /// Counts a receiver in. True when it is the first, which is when the
    /// sink is muted; the mute lasts until the last one leaves.
    pub fn listen(&mut self) -> (first: bool)
        requires
            old(self).listeners() < u64::MAX,
        ensures
            final(self).listeners() == old(self).listeners() + 1,
            final(self).sink_name() == old(self).sink_name(),
            first == mutes_on_listen(old(self).listeners()),
            first <==> old(self).listeners() == 0,
    {
        self.listeners += 1;
        self.listeners == 1
    }

    /// Counts a receiver out. True when it was the last, which is when the
    /// sink is unmuted again.
    pub fn leave(&mut self) -> (last: bool)
        requires
            old(self).listeners() > 0,
        ensures
            final(self).listeners() == old(self).listeners() - 1,
            final(self).sink_name() == old(self).sink_name(),
            last == unmutes_on_leave(old(self).listeners()),
            last <==> final(self).listeners() == 0,
    {
        self.listeners -= 1;
        self.listeners == 0
    }
}

/// A listener arriving to `count` others mutes the sink.
pub open spec fn mutes_on_listen(count: u64) -> bool {
    count == 0
}

/// A listener leaving `count` (itself included) unmutes the sink.
pub open spec fn unmutes_on_leave(count: u64) -> bool {
    count == 1
}

/// Only the first listener mutes and only the last one unmutes: a listener
/// arriving mutes exactly when nobody was listening before it, and one
/// leaving unmutes exactly when nobody is listening after it.
pub proof fn lemma_first_mutes_last_unmutes(count: u64)
    ensures
        mutes_on_listen(count) <==> count == 0,
        count >= 1 ==> (unmutes_on_leave(count) <==> count - 1 == 0),
{
}

/// A receiver that arrives and then leaves puts the speakers back as they
/// were: the count returns to where it was, and the leave unmutes exactly
/// when the arrival muted.
pub proof fn lemma_listen_then_leave(count: u64)
    requires
        count < u64::MAX,
    ensures
        (count + 1) - 1 == count,
        unmutes_on_leave((count + 1) as u64) == mutes_on_listen(count),
{
}

/// What `pactl` gave back: its output as text when it succeeded, otherwise
/// what it said went wrong, trimmed.
pub open spec fn pactl_result(output: CommandOutput) -> Result<Seq<char>, Seq<char>> {
    if output.success {
        Ok(output_text(output.stdout@))
    } else {
        Err(trim(output_text(output.stderr@)))
    }
}

pub fn pactl_outcome(output: &CommandOutput) -> (r: Result<String, String>)
    ensures
        match r {
            Ok(t) => pactl_result(*output) == Ok::<Seq<char>, Seq<char>>(t@),
            Err(e) => pactl_result(*output) == Err::<Seq<char>, Seq<char>>(e@),
        },
{
    if output.success {
        Ok(from_utf8_lossy(output.stdout.as_slice()))
    } else {
        let text = from_utf8_lossy(output.stderr.as_slice());
        let cs = chars_of(text.as_str());
        let reason = trimmed(cs.as_slice());
        Err(string_from(reason.as_slice()))
    }
}

/// Whether `pactl get-sink-mute` reported the sink muted: its answer ends in
/// `yes`.
pub fn reports_muted(answer: &str) -> (r: bool)
    ensures
        r == ends_with(trim(answer@), "yes"@),
{
    let cs = chars_of(answer);
    let t = trimmed(cs.as_slice());
    let yes = chars_of("yes");
    has_suffix(t.as_slice(), yes.as_slice())
}

/// The sink this process muted and has not unmuted yet, if any. Only a sink
/// muted here is ever unmuted: one the user had muted already is left for
/// them.
pub struct MuteRecord {
    muted: Option<String>,
}

impl MuteRecord {
    pub closed spec fn muted_sink(self) -> Option<Seq<char>> {
        match self.muted {
            Some(s) => Some(s@),
            None => None,
        }
    }

    pub fn new() -> (r: Self)
        ensures
            r.muted_sink() is None,
    {
        MuteRecord { muted: None }
    }

    /// The first receiver has arrived and `pactl get-sink-mute` gave `answer`
    /// for `sink`: the `pactl` arguments that mute it, or nothing when the
    /// answer says it is muted already.
    pub fn first_listener(&self, sink: &str, answer: &str) -> (r: Option<Vec<String>>)
        ensures
            r is None <==> ends_with(trim(answer@), "yes"@),
            r matches Some(args) ==> texts(args@) == seq!["set-sink-mute"@, sink@, "1"@],
    {
        if reports_muted(answer) {
            None
        } else {
            Some(set_mute_args(sink, true))
        }
    }

    /// The command muting `sink` succeeded: this process muted it.
    pub fn muted(&mut self, sink: &str)
        ensures
            final(self).muted_sink() == Some(sink@),
    {
        self.muted = Some(sink.to_string());
    }

    /// The last receiver has left, or the process is stopping: the sink to
    /// unmute, which is the one this process muted if it muted one. The
    /// record is cleared, so the unmute happens once.
    pub fn restore(&mut self) -> (r: Option<String>)
        ensures
            match r {
                Some(sink) => old(self).muted_sink() == Some(sink@),
                None => old(self).muted_sink() is None,
            },
            final(self).muted_sink() is None,
    {
        self.muted.take()
    }
}

/// The `pactl` arguments that mute or unmute a sink.
pub fn set_mute_args(sink: &str, muted: bool) -> (r: Vec<String>)
    ensures
        texts(r@) == seq!["set-sink-mute"@, sink@, if muted { "1"@ } else { "0"@ }],
{
    let mut args: Vec<String> = Vec::new();
    push_literal(&mut args, "set-sink-mute");
    push_literal(&mut args, sink);
    push_literal(&mut args, if muted { "1" } else { "0" });
    assert(texts(args@) =~= seq!["set-sink-mute"@, sink@, if muted { "1"@ } else { "0"@ }]);
    args
}

} // verus!
