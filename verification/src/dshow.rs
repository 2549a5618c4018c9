//! Finding a DirectShow loopback device on Windows.
//!
//! Windows has no equivalent of a PulseAudio monitor source, and ffmpeg has no
//! WASAPI loopback demuxer, so capturing what the desktop is playing means
//! finding a DirectShow device that exposes it: either a virtual loopback
//! filter the user installed, or a sound card that still offers Stereo Mix.

use vstd::prelude::*;

use crate::text::{
    chars_of, contains, copy_range, ends_with, find, find_in, has_prefix, has_suffix, join_texts,
    joined, lines, lines_of, push_str, starts_with, string_from, texts, trim, trimmed,
};

verus! {

/// Names recognised as "what the desktop is playing", best first. The first
/// is the device installed by virtual-audio-capturer, which works on any card;
/// the rest are the vendor names for a card's own loopback, which is only
/// present when the driver exposes it and the user enabled it.
pub open spec fn loopback_names() -> Seq<Seq<char>> {
    seq![
        "virtual-audio-capturer"@,
        "stereo mix"@,
        "what u hear"@,
        "wave out mix"@,
        "loopback"@,
    ]
}

fn loopback_name(i: usize) -> (name: &'static str)
    requires
        i < 5,
    ensures
        name@ == loopback_names()[i as int],
{
    match i {
        0 => "virtual-audio-capturer",
        1 => "stereo mix",
        2 => "what u hear",
        3 => "wave out mix",
        _ => "loopback",
    }
}

/// What `str::to_lowercase` makes of a string: every character mapped to its
/// Unicode lower-case form.
pub uninterp spec fn unicode_lowercase(s: Seq<char>) -> Seq<char>;

/// `str::to_lowercase`. The claim: the result is a function of the string
/// alone.
#[verifier::external_body]
fn to_lowercase(s: &str) -> (r: String)
    ensures
        r@ == unicode_lowercase(s@),
{
    s.to_lowercase()
}

/// Every device name in its lower-case form.
pub open spec fn lowered(devices: Seq<Seq<char>>) -> Seq<Seq<char>> {
    devices.map_values(|d: Seq<char>| unicode_lowercase(d))
}

/// The first name, in the order given, that contains `wanted`.
pub open spec fn first_containing(names: Seq<Seq<char>>, wanted: Seq<char>) -> Option<int>
    decreases names.len(),
{
    if names.len() == 0 {
        None
    } else if contains(names[0], wanted) {
        Some(0)
    } else {
        match first_containing(names.drop_first(), wanted) {
            Some(i) => Some(i + 1),
            None => None,
        }
    }
}

/// Among lower-cased device names, the one that carries the first loopback
/// name, in preference order, that any of them carries.
pub open spec fn preferred_index(lowered: Seq<Seq<char>>, names: Seq<Seq<char>>) -> Option<int>
    decreases names.len(),
{
    if names.len() == 0 {
        None
    } else {
        match first_containing(lowered, names[0]) {
            Some(i) => Some(i),
            None => preferred_index(lowered, names.drop_first()),
        }
    }
}

/// The device whose lower-cased name carries the first loopback name, in
/// preference order, that any device carries.
pub open spec fn chosen_from(devices: Seq<Seq<char>>, names: Seq<Seq<char>>) -> Option<Seq<char>> {
    match preferred_index(lowered(devices), names) {
        Some(i) => Some(devices[i]),
        None => None,
    }
}

pub open spec fn names_of(devices: Seq<String>) -> Seq<Seq<char>> {
    devices.map_values(|d: String| d@)
}

proof fn lemma_first_containing_bounds(names: Seq<Seq<char>>, wanted: Seq<char>)
    ensures
        first_containing(names, wanted) matches Some(i) ==> 0 <= i < names.len(),
    decreases names.len(),
{
    if names.len() > 0 {
        lemma_first_containing_bounds(names.drop_first(), wanted);
    }
}

proof fn lemma_preferred_index_bounds(lowered: Seq<Seq<char>>, names: Seq<Seq<char>>)
    ensures
        preferred_index(lowered, names) matches Some(i) ==> 0 <= i < lowered.len(),
    decreases names.len(),
{
    if names.len() > 0 {
        lemma_first_containing_bounds(lowered, names[0]);
        lemma_preferred_index_bounds(lowered, names.drop_first());
    }
}

proof fn lemma_first_containing_is_first(names: Seq<Seq<char>>, wanted: Seq<char>)
    ensures
        match first_containing(names, wanted) {
            Some(i) => {
                &&& 0 <= i < names.len()
                &&& contains(names[i], wanted)
                &&& forall|j: int| 0 <= j < i ==> !contains(#[trigger] names[j], wanted)
            },
            None => forall|j: int| 0 <= j < names.len() ==> !contains(#[trigger] names[j], wanted),
        },
    decreases names.len(),
{
    if names.len() > 0 {
        let rest = names.drop_first();
        lemma_first_containing_is_first(rest, wanted);
        assert forall|j: int| 1 <= j < names.len() implies names[j] == rest[j - 1] by {}
    }
}

/// The choice follows the order of preference: the device chosen carries
/// some loopback name, and no device at all carries a name preferred to it.
/// When nothing is chosen, no device carries any of the names.
pub proof fn lemma_choice_follows_preference(lowered: Seq<Seq<char>>, names: Seq<Seq<char>>)
    ensures
        match preferred_index(lowered, names) {
            Some(i) => exists|k: int|
                #![trigger names[k]]
                {
                    &&& 0 <= k < names.len()
                    &&& contains(lowered[i], names[k])
                    &&& forall|m: int, j: int|
                        0 <= m < k && 0 <= j < lowered.len() ==> !contains(
                            #[trigger] lowered[j],
                            #[trigger] names[m],
                        )
                },
            None => forall|m: int, j: int|
                0 <= m < names.len() && 0 <= j < lowered.len() ==> !contains(
                    #[trigger] lowered[j],
                    #[trigger] names[m],
                ),
        },
    decreases names.len(),
{
    if names.len() > 0 {
        let rest = names.drop_first();
        lemma_first_containing_is_first(lowered, names[0]);
        lemma_choice_follows_preference(lowered, rest);
        assert forall|m: int| 1 <= m < names.len() implies names[m] == rest[m - 1] by {}
        match first_containing(lowered, names[0]) {
            Some(_) => {},
            None => {
                match preferred_index(lowered, rest) {
                    Some(i) => {
                        let k = choose|k: int|
                            #![trigger rest[k]]
                            {
                                &&& 0 <= k < rest.len()
                                &&& contains(lowered[i], rest[k])
                                &&& forall|m: int, j: int|
                                    0 <= m < k && 0 <= j < lowered.len() ==> !contains(
                                        #[trigger] lowered[j],
                                        #[trigger] rest[m],
                                    )
                            };
                        assert(names[k + 1] == rest[k]);
                        assert forall|m: int, j: int|
                            0 <= m < k + 1 && 0 <= j < lowered.len() implies !contains(
                            #[trigger] lowered[j],
                            #[trigger] names[m],
                        ) by {
                            if m > 0 {
                                assert(names[m] == rest[m - 1]);
                            }
                        }
                    },
                    None => {
                        assert forall|m: int, j: int|
                            0 <= m < names.len() && 0 <= j < lowered.len() implies !contains(
                            #[trigger] lowered[j],
                            #[trigger] names[m],
                        ) by {
                            if m > 0 {
                                assert(names[m] == rest[m - 1]);
                            }
                        }
                    },
                }
            },
        }
    }
}

/// The five loopback names are recognised, in this order of preference:
/// "virtual-audio-capturer", "stereo mix", "what u hear", "wave out mix",
/// "loopback". A device whose lower-cased name carries the `k`th of them,
/// when no device carries one ranked above it, means the first device
/// carrying that name is chosen.
pub proof fn lemma_vendor_loopbacks_are_recognised(lowered: Seq<Seq<char>>, j: int, k: int, name: Seq<char>)
    requires
        0 <= j < lowered.len(),
        0 <= k < 5,
        name == if k == 0 {
            "virtual-audio-capturer"@
        } else if k == 1 {
            "stereo mix"@
        } else if k == 2 {
            "what u hear"@
        } else if k == 3 {
            "wave out mix"@
        } else {
            "loopback"@
        },
        contains(lowered[j], name),
        k >= 1 ==> forall|i: int|
            0 <= i < lowered.len() ==> !contains(#[trigger] lowered[i], "virtual-audio-capturer"@),
        k >= 2 ==> forall|i: int| 0 <= i < lowered.len() ==> !contains(#[trigger] lowered[i], "stereo mix"@),
        k >= 3 ==> forall|i: int| 0 <= i < lowered.len() ==> !contains(#[trigger] lowered[i], "what u hear"@),
        k >= 4 ==> forall|i: int| 0 <= i < lowered.len() ==> !contains(#[trigger] lowered[i], "wave out mix"@),
    ensures
        preferred_index(lowered, loopback_names()) matches Some(i) && contains(lowered[i], name) && (
        forall|x: int| 0 <= x < i ==> !contains(#[trigger] lowered[x], name)),
{
    let names = seq![
        "virtual-audio-capturer"@,
        "stereo mix"@,
        "what u hear"@,
        "wave out mix"@,
        "loopback"@,
    ];
    assert(loopback_names() =~= names);
    assert(names[k] == name);
    assert forall|m: int, i: int| 0 <= m < k && 0 <= i < lowered.len() implies !contains(
        #[trigger] lowered[i],
        #[trigger] names[m],
    ) by {
        if m == 0 {
            assert(!contains(lowered[i], "virtual-audio-capturer"@));
        } else if m == 1 {
            assert(!contains(lowered[i], "stereo mix"@));
        } else if m == 2 {
            assert(!contains(lowered[i], "what u hear"@));
        } else {
            assert(!contains(lowered[i], "wave out mix"@));
        }
    }
    lemma_preferred_skips(lowered, names, k);
    let rest = names.skip(k);
    assert(rest[0] == name);
    lemma_first_containing_is_first(lowered, name);
}

proof fn lemma_preferred_skips(lowered: Seq<Seq<char>>, names: Seq<Seq<char>>, k: int)
    requires
        0 <= k <= names.len(),
        forall|m: int, i: int|
            0 <= m < k && 0 <= i < lowered.len() ==> !contains(#[trigger] lowered[i], #[trigger] names[m]),
    ensures
        preferred_index(lowered, names) == preferred_index(lowered, names.skip(k)),
    decreases k,
{
    if k == 0 {
        assert(names.skip(0) =~= names);
    } else {
        lemma_preferred_skips(lowered, names, k - 1);
        let rest = names.skip(k - 1);
        assert(rest[0] == names[k - 1]);
        lemma_first_containing_is_first(lowered, names[k - 1]);
        if first_containing(lowered, names[k - 1]) is Some {
            let i = first_containing(lowered, names[k - 1])->0;
            assert(!contains(lowered[i], names[k - 1]));
        }
        assert(rest.drop_first() =~= names.skip(k));
    }
}

fn find_containing(names: &[String], wanted: &str) -> (r: Option<usize>)
    ensures
        match r {
            Some(i) => first_containing(names_of(names@), wanted@) == Some(i as int),
            None => first_containing(names_of(names@), wanted@) is None,
        },
{
    let pattern = chars_of(wanted);
    let mut i: usize = 0;
    assert(names_of(names@).skip(0) =~= names_of(names@));
    while i < names.len()
        invariant
            i <= names@.len(),
            pattern@ == wanted@,
            first_containing(names_of(names@), wanted@) == match first_containing(
                names_of(names@).skip(i as int),
                wanted@,
            ) {
                Some(j) => Some(j + i),
                None => None::<int>,
            },
        decreases names@.len() - i,
    {
        let name = chars_of(names[i].as_str());
        let found = find_in(name.as_slice(), pattern.as_slice());
        proof {
            let rest = names_of(names@).skip(i as int);
            assert(rest[0] == names@[i as int]@);
            assert(rest.drop_first() =~= names_of(names@).skip(i + 1));
        }
        if found.is_some() {
            return Some(i);
        }
        i += 1;
    }
    None
}

/// Picks, among device names already in lower case, the first that carries a
/// known loopback name, in preference order rather than in the order Windows
/// happened to enumerate them.
pub fn choose_from_lowered(lowered: &[String]) -> (r: Option<usize>)
    ensures
        match r {
            Some(i) => preferred_index(names_of(lowered@), loopback_names()) == Some(i as int),
            None => preferred_index(names_of(lowered@), loopback_names()) is None,
        },
{
    let mut k: usize = 0;
    assert(loopback_names().skip(0) =~= loopback_names());
    while k < 5
        invariant
            k <= 5,
            preferred_index(names_of(lowered@), loopback_names()) == preferred_index(
                names_of(lowered@),
                loopback_names().skip(k as int),
            ),
        decreases 5 - k,
    {
        let wanted = loopback_name(k);
        proof {
            assert(loopback_names().skip(k as int).drop_first() =~= loopback_names().skip(k + 1));
        }
        match find_containing(lowered, wanted) {
            Some(i) => {
                return Some(i);
            },
            None => {},
        }
        k += 1;
    }
    assert(loopback_names().skip(5) =~= Seq::<Seq<char>>::empty());
    None
}

/// Picks the first device whose name, in lower case, matches a known
/// loopback, in preference order.
pub fn choose_device(devices: &[String]) -> (r: Option<String>)
    ensures
        match r {
            Some(d) => chosen_from(names_of(devices@), loopback_names()) == Some(d@),
            None => chosen_from(names_of(devices@), loopback_names()) is None,
        },
{
    let mut lower: Vec<String> = Vec::new();
    let mut i: usize = 0;
    while i < devices.len()
        invariant
            i <= devices@.len(),
            lower@.len() == i,
            forall|j: int| 0 <= j < i ==> #[trigger] lower@[j]@ == unicode_lowercase(devices@[j]@),
        decreases devices@.len() - i,
    {
        lower.push(to_lowercase(devices[i].as_str()));
        i += 1;
    }
    assert(names_of(lower@) =~= lowered(names_of(devices@)));
    let chosen = choose_from_lowered(lower.as_slice());
    proof {
        lemma_preferred_index_bounds(names_of(lower@), loopback_names());
    }
    match chosen {
        Some(i) => Some(string_from(chars_of(devices[i].as_str()).as_slice())),
        None => None,
    }
}

/// A line of ffmpeg's log with its `[dshow @ ...] ` prefix and surrounding
/// whitespace removed.
pub open spec fn strip_log_prefix(line: Seq<char>) -> Seq<char> {
    match find(line, "] "@) {
        Some(k) => trim(line.skip(k + 2)),
        None => trim(line),
    }
}

/// The text between the first two double quotes of a line.
pub open spec fn quoted(line: Seq<char>) -> Option<Seq<char>> {
    match find(line, "\""@) {
        Some(s) => match find(line.skip(s + 1), "\""@) {
            Some(e) => Some(line.subrange(s + 1, s + 1 + e)),
            None => None,
        },
        None => None,
    }
}

/// Device names read line by line, `in_audio` saying whether the current
/// line sits under a "DirectShow audio devices" heading.
pub open spec fn devices_in(ls: Seq<Seq<char>>, in_audio: bool) -> Seq<Seq<char>>
    decreases ls.len(),
{
    if ls.len() == 0 {
        Seq::empty()
    } else {
        let line = strip_log_prefix(ls[0]);
        let rest = ls.drop_first();
        if starts_with(line, "DirectShow "@) {
            devices_in(rest, starts_with(line.skip(11), "audio"@))
        } else if starts_with(line, "Alternative name"@) {
            devices_in(rest, in_audio)
        } else {
            match quoted(line) {
                None => devices_in(rest, in_audio),
                Some(name) => if in_audio || ends_with(line, "(audio)"@) {
                    seq![name] + devices_in(rest, in_audio)
                } else {
                    devices_in(rest, in_audio)
                },
            }
        }
    }
}

fn strip_prefix_of_log(line: &[char]) -> (r: Vec<char>)
    ensures
        r@ == strip_log_prefix(line@),
{
    let marker = chars_of("] ");
    match find_in(line, marker.as_slice()) {
        Some(k) => {
            proof {
                reveal_strlit("] ");
                crate::text::lemma_find_from_bounds(line@, "] "@, 0);
            }
            let n = line.len();
            assert(k + 2 <= n);
            let rest = copy_range(line, k + 2, n);
            assert(rest@ =~= line@.skip(k + 2));
            trimmed(rest.as_slice())
        },
        None => trimmed(line),
    }
}

fn quoted_in(line: &[char]) -> (r: Option<Vec<char>>)
    ensures
        match r {
            Some(n) => quoted(line@) == Some(n@),
            None => quoted(line@) is None,
        },
{
    let quote = chars_of("\"");
    let start = match find_in(line, quote.as_slice()) {
        Some(s) => s,
        None => {
            return None;
        },
    };
    proof {
        reveal_strlit("\"");
        crate::text::lemma_find_from_bounds(line@, "\""@, 0);
    }
    let n = line.len();
    assert(start + 1 <= n);
    let rest = copy_range(line, start + 1, n);
    assert(rest@ =~= line@.skip(start + 1));
    let end = match find_in(rest.as_slice(), quote.as_slice()) {
        Some(e) => e,
        None => {
            return None;
        },
    };
    proof {
        crate::text::lemma_find_from_bounds(rest@, "\""@, 0);
    }
    Some(copy_range(line, start + 1, start + 1 + end))
}

/// Reads device names out of what `ffmpeg -list_devices true -f dshow` writes
/// to stderr. Two layouts are in the wild: older builds group devices under a
/// "DirectShow audio devices" heading, newer ones tag each line `(audio)`.
pub fn audio_devices(listing: &str) -> (r: Vec<String>)
    ensures
        r@.len() == devices_in(lines(listing@), false).len(),
        forall|i: int| 0 <= i < r@.len() ==> #[trigger] r@[i]@ == devices_in(lines(listing@), false)[i],
{
    let cs = chars_of(listing);
    let all = lines_of(cs.as_slice());
    let heading = chars_of("DirectShow ");
    let audio = chars_of("audio");
    let alternative = chars_of("Alternative name");
    let tagged = chars_of("(audio)");
    let ghost ls = lines(listing@);
    let mut devices: Vec<String> = Vec::new();
    let ghost mut found: Seq<Seq<char>> = Seq::empty();
    let mut in_audio_section = false;
    let mut i: usize = 0;
    assert(ls.skip(0) =~= ls);
    assert(found + devices_in(ls, false) =~= devices_in(ls, false));
    while i < all.len()
        invariant
            i <= all@.len(),
            all@.len() == ls.len(),
            ls == lines(listing@),
            forall|j: int| 0 <= j < all@.len() ==> #[trigger] all@[j]@ == ls[j],
            heading@ == "DirectShow "@,
            audio@ == "audio"@,
            alternative@ == "Alternative name"@,
            tagged@ == "(audio)"@,
            devices@.len() == found.len(),
            forall|j: int| 0 <= j < devices@.len() ==> #[trigger] devices@[j]@ == found[j],
            devices_in(ls, false) == found + devices_in(ls.skip(i as int), in_audio_section),
        decreases all@.len() - i,
    {
        let line = strip_prefix_of_log(all[i].as_slice());
        proof {
            let rest = ls.skip(i as int);
            assert(rest[0] == all@[i as int]@);
            assert(rest.drop_first() =~= ls.skip(i + 1));
        }
        if has_prefix(line.as_slice(), heading.as_slice()) {
            proof {
                reveal_strlit("DirectShow ");
            }
            let after = copy_range(line.as_slice(), 11, line.len());
            assert(after@ =~= line@.skip(11));
            in_audio_section = has_prefix(after.as_slice(), audio.as_slice());
        } else if has_prefix(line.as_slice(), alternative.as_slice()) {
        } else {
            match quoted_in(line.as_slice()) {
                None => {},
                Some(name) => {
                    if in_audio_section || has_suffix(line.as_slice(), tagged.as_slice()) {
                        let name = string_from(name.as_slice());
                        proof {
                            found = found.push(name@);
                        }
                        devices.push(name);
                    }
                },
            }
        }
        i += 1;
    }
    assert(ls.skip(i as int) =~= Seq::<Seq<char>>::empty());
    assert(found + Seq::<Seq<char>>::empty() =~= found);
    devices
}

pub const HINT: &'static str = "install virtual-audio-capturer, or enable Stereo Mix in Sound settings > Recording, then name the device with --capture";

/// Why no device was found: there were no audio devices at all, or none of
/// them is a loopback.
pub open spec fn no_loopback_message(devices: Seq<Seq<char>>) -> Seq<char> {
    if devices.len() == 0 {
        "no DirectShow audio devices found; "@ + HINT@
    } else {
        "no loopback device among the DirectShow audio devices ("@ + joined(devices, ", "@)
            + "); "@ + HINT@
    }
}

/// The loopback device in what `ffmpeg -list_devices true -f dshow` wrote to
/// stderr, or why there is none. (ffmpeg always exits non-zero for this query,
/// so neither its status nor its stdout says anything useful.)
pub fn detect(listing: &str) -> (r: Result<String, String>)
    ensures
        ({
            let devices = devices_in(lines(listing@), false);
            match r {
                Ok(d) => chosen_from(devices, loopback_names()) == Some(d@),
                Err(e) => chosen_from(devices, loopback_names()) is None && e@
                    == no_loopback_message(devices),
            }
        }),
{
    let devices = audio_devices(listing);
    let ghost found = devices_in(lines(listing@), false);
    assert(names_of(devices@) =~= found);
    assert(texts(devices@) =~= found);
    match choose_device(devices.as_slice()) {
        Some(d) => Ok(d),
        None => {
            if devices.len() == 0 {
                let mut m = "no DirectShow audio devices found; ".to_owned();
                push_str(&mut m, HINT);
                Err(m)
            } else {
                let mut m = "no loopback device among the DirectShow audio devices (".to_owned();
                let list = join_texts(devices.as_slice(), ", ");
                push_str(&mut m, list.as_str());
                push_str(&mut m, "); ");
                push_str(&mut m, HINT);
                Err(m)
            }
        },
    }
}

} // verus!
