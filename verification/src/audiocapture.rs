//! The older capture command: AAC in MPEG-TS on stdout, recorded from the
//! monitor of whichever sink is playing.

use vstd::prelude::*;

use crate::command::{output_text, second_word, second_word_of, CommandOutput};
use crate::text::{chars_of, contains, find_in, from_utf8_lossy, lines, lines_of, push_literal, push_text, string_from, texts};

verus! {

/// The source named on the first line of `pactl list sources short` that
/// mentions both `RUNNING` and `sink` and has a second column.
pub open spec fn running_sink_in(ls: Seq<Seq<char>>) -> Option<Seq<char>>
    decreases ls.len(),
{
    if ls.len() == 0 {
        None
    } else if contains(ls[0], "RUNNING"@) && contains(ls[0], "sink"@) && second_word(ls[0]) is Some {
        second_word(ls[0])
    } else {
        running_sink_in(ls.drop_first())
    }
}

pub open spec fn capture_args(source: Seq<char>) -> Seq<Seq<char>> {
    seq![
        "-f"@, "pulse"@,
        "-i"@, source,
        "-c:a"@, "aac"@,
        "-b:a"@, "128k"@,
        "-ar"@, "48000"@,
        "-ac"@, "2"@,
        "-f"@, "mpegts"@,
        "-"@,
    ]
}

/// The ffmpeg input and output arguments for a `pactl list sources short`
/// run, or none when it failed or no running sink is listed.
pub open spec fn capture_command_spec(output: CommandOutput) -> Seq<Seq<char>> {
    if !output.success {
        Seq::empty()
    } else {
        match running_sink_in(lines(output_text(output.stdout@))) {
            Some(source) => capture_args(source),
            None => Seq::empty(),
        }
    }
}

/// The running sink's source out of a `pactl list sources short` listing.
pub fn running_sink_source(listing: &[u8]) -> (r: Option<String>)
    ensures
        match r {
            Some(s) => running_sink_in(lines(output_text(listing@))) == Some(s@),
            None => running_sink_in(lines(output_text(listing@))) is None,
        },
{
    let text = from_utf8_lossy(listing);
    let cs = chars_of(text.as_str());
    let ls = lines_of(cs.as_slice());
    let running = chars_of("RUNNING");
    let sink = chars_of("sink");
    let ghost all = lines(output_text(listing@));
    let mut i: usize = 0;
    assert(all.skip(0) =~= all);
    while i < ls.len()
        invariant
            ls@.len() == all.len(),
            forall|k: int| 0 <= k < ls@.len() ==> #[trigger] ls@[k]@ == all[k],
            running@ == "RUNNING"@,
            sink@ == "sink"@,
            all == lines(output_text(listing@)),
            i <= ls@.len(),
            running_sink_in(all) == running_sink_in(all.skip(i as int)),
        decreases ls@.len() - i,
    {
        let ghost rest = all.skip(i as int);
        assert(rest.len() > 0);
        assert(rest[0] == all[i as int]);
        assert(rest.drop_first() =~= all.skip(i + 1));
        let line = ls[i].as_slice();
        if find_in(line, running.as_slice()).is_some() && find_in(line, sink.as_slice()).is_some() {
            match second_word_of(line) {
                Some(name) => {
                    return Some(string_from(name.as_slice()));
                },
                None => {},
            }
        }
        i += 1;
    }
    assert(all.skip(i as int) =~= Seq::<Seq<char>>::empty());
    None
}

/// The arguments that record the running sink's monitor as AAC in MPEG-TS on
/// stdout, or none when `pactl` failed or nothing is playing.
pub fn get_audio_capture_command(output: &CommandOutput) -> (r: Vec<String>)
    ensures
        texts(r@) == capture_command_spec(*output),
{
    if !output.success {
        let none: Vec<String> = Vec::new();
        assert(texts(none@) =~= Seq::<Seq<char>>::empty());
        return none;
    }
    let source = match running_sink_source(output.stdout.as_slice()) {
        Some(source) => source,
        None => {
            let none: Vec<String> = Vec::new();
            assert(texts(none@) =~= Seq::<Seq<char>>::empty());
            return none;
        },
    };
    let mut args: Vec<String> = Vec::new();
    push_literal(&mut args, "-f");
    push_literal(&mut args, "pulse");
    push_literal(&mut args, "-i");
    push_text(&mut args, source);
    push_literal(&mut args, "-c:a");
    push_literal(&mut args, "aac");
    push_literal(&mut args, "-b:a");
    push_literal(&mut args, "128k");
    push_literal(&mut args, "-ar");
    push_literal(&mut args, "48000");
    push_literal(&mut args, "-ac");
    push_literal(&mut args, "2");
    push_literal(&mut args, "-f");
    push_literal(&mut args, "mpegts");
    push_literal(&mut args, "-");
    assert(texts(args@) =~= capture_args(source@));
    args
}

} // verus!
