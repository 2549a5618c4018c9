//! The virtual microphone: a PulseAudio `module-pipe-source` backed by a
//! FIFO. Running `pactl` and writing the FIFO belong to the program; which
//! modules to load and unload, and what `pactl` answered, are decided here.

use vstd::prelude::*;

use crate::command::{output_text, CommandOutput};
use crate::text::{
    chars_of, contains, copy_range, decimal, find_in, from_utf8_lossy, has_prefix, lines, lines_of,
    push_decimal, push_literal, push_str, push_text, same_text, starts_with, string_from, texts, trim,
    trimmed,
};

verus! {

/// Module ids this process has loaded and not yet unloaded.
///
/// A PulseAudio module outlives the process that asked for it, so the owner
/// of a pipe source unloading it is not enough: a sender stopped by a signal
/// unwinds nothing, and a phantom microphone would be left in everyone's
/// input list. [`LoadedModules::unload_all`] is the backstop for that path.
pub struct LoadedModules {
    modules: Vec<String>,
}

/// `modules` with every entry equal to `module` left out.
pub open spec fn without(modules: Seq<Seq<char>>, module: Seq<char>) -> Seq<Seq<char>>
    decreases modules.len(),
{
    if modules.len() == 0 {
        Seq::empty()
    } else {
        let kept = without(modules.drop_last(), module);
        if modules.last() == module {
            kept
        } else {
            kept.push(modules.last())
        }
    }
}

impl LoadedModules {
    pub closed spec fn modules(self) -> Seq<Seq<char>> {
        texts(self.modules@)
    }

    pub fn new() -> (l: Self)
        ensures
            l.modules() == Seq::<Seq<char>>::empty(),
    {
        let l = LoadedModules { modules: Vec::new() };
        assert(texts(l.modules@) =~= Seq::<Seq<char>>::empty());
        l
    }

    pub fn record(&mut self, module: &str)
        ensures
            final(self).modules() == old(self).modules().push(module@),
    {
        push_literal(&mut self.modules, module);
    }

    /// Drops `module` from the list once it has been unloaded.
    pub fn forget(&mut self, module: &str)
        ensures
            final(self).modules() == without(old(self).modules(), module@),
    {
        let ghost all = texts(self.modules@);
        let mut kept: Vec<String> = Vec::new();
        let mut i: usize = 0;
        assert(texts(kept@) =~= without(all.take(0), module@));
        while i < self.modules.len()
            invariant
                all == texts(self.modules@),
                i <= self.modules@.len(),
                texts(kept@) == without(all.take(i as int), module@),
            decreases self.modules@.len() - i,
        {
            let m = self.modules[i].as_str();
            assert(all.take(i + 1).drop_last() =~= all.take(i as int));
            assert(all.take(i + 1).last() == m@);
            if !same_text(m, module) {
                push_literal(&mut kept, m);
            }
            i += 1;
        }
        assert(all.take(i as int) =~= all);
        self.modules = kept;
    }

    /// Every module still loaded, in the order they were loaded, leaving the
    /// list empty: what a shutdown that runs no destructors must unload.
    pub fn unload_all(&mut self) -> (r: Vec<String>)
        ensures
            texts(r@) == old(self).modules(),
            final(self).modules() == Seq::<Seq<char>>::empty(),
    {
        let mut all: Vec<String> = Vec::new();
        std::mem::swap(&mut all, &mut self.modules);
        assert(texts(self.modules@) =~= Seq::<Seq<char>>::empty());
        all
    }
}

pub const MODULE_PREFIX: &'static str = "Module #";

pub const ARGUMENT_PREFIX: &'static str = "Argument:";

/// The modules a `pactl list modules` listing shows with `wanted` among
/// their arguments: each `Argument:` line that mentions it unloads the module
/// whose `Module #` line came last before it, once.
pub open spec fn stale_in(ls: Seq<Seq<char>>, current: Option<Seq<char>>, wanted: Seq<char>) -> Seq<Seq<char>>
    decreases ls.len(),
{
    if ls.len() == 0 {
        Seq::empty()
    } else {
        let line = trim(ls[0]);
        let module = if starts_with(line, MODULE_PREFIX@) {
            Some(line.skip(MODULE_PREFIX@.len() as int))
        } else {
            current
        };
        if starts_with(line, ARGUMENT_PREFIX@) && contains(line, wanted) && module is Some {
            seq![module.unwrap()] + stale_in(ls.drop_first(), None, wanted)
        } else {
            stale_in(ls.drop_first(), module, wanted)
        }
    }
}

/// The module argument that names the pipe at `path`.
pub open spec fn file_argument(path: Seq<char>) -> Seq<char> {
    "file="@ + path
}

/// The pipe sources a run that was killed rather than stopped left behind,
/// matched on the pipe they own (`path`, as displayed) so that only ours are
/// touched. `listing` is the output of `pactl list modules`.
pub fn stale_modules(listing: &[u8], path: &str) -> (r: Vec<String>)
    ensures
        texts(r@) == stale_in(lines(output_text(listing@)), None, file_argument(path@)),
{
    let text = from_utf8_lossy(listing);
    let cs = chars_of(text.as_str());
    let ls = lines_of(cs.as_slice());
    let mut wanted_text = "file=".to_owned();
    push_str(&mut wanted_text, path);
    let wanted = chars_of(wanted_text.as_str());
    let module_prefix = chars_of(MODULE_PREFIX);
    let argument_prefix = chars_of(ARGUMENT_PREFIX);
    let ghost all = lines(output_text(listing@));
    let ghost w = file_argument(path@);
    let mut module: Option<Vec<char>> = None;
    let mut out: Vec<String> = Vec::new();
    let mut i: usize = 0;
    assert(all.skip(0) =~= all);
    assert(texts(out@) + stale_in(all, None, w) =~= stale_in(all, None, w));
    while i < ls.len()
        invariant
            ls@.len() == all.len(),
            forall|k: int| 0 <= k < ls@.len() ==> #[trigger] ls@[k]@ == all[k],
            wanted@ == w,
            module_prefix@ == MODULE_PREFIX@,
            argument_prefix@ == ARGUMENT_PREFIX@,
            all == lines(output_text(listing@)),
            w == file_argument(path@),
            i <= ls@.len(),
            stale_in(all, None, w) == texts(out@) + stale_in(
                all.skip(i as int),
                match module {
                    Some(m) => Some(m@),
                    None => None,
                },
                w,
            ),
        decreases ls@.len() - i,
    {
        let ghost rest = all.skip(i as int);
        assert(rest.len() > 0);
        assert(rest[0] == all[i as int]);
        assert(rest.drop_first() =~= all.skip(i + 1));
        let line = trimmed(ls[i].as_slice());
        if has_prefix(line.as_slice(), module_prefix.as_slice()) {
            let index = copy_range(line.as_slice(), module_prefix.len(), line.len());
            assert(index@ =~= line@.skip(MODULE_PREFIX@.len() as int));
            module = Some(index);
        }
        if has_prefix(line.as_slice(), argument_prefix.as_slice()) && find_in(
            line.as_slice(),
            wanted.as_slice(),
        ).is_some() && module.is_some() {
            let stale = module.take().unwrap();
            let ghost before = texts(out@);
            push_text(&mut out, string_from(stale.as_slice()));
            assert(texts(out@) + stale_in(all.skip(i + 1), None, w) =~= before + (seq![stale@]
                + stale_in(all.skip(i + 1), None, w)));
        }
        i += 1;
    }
    assert(all.skip(i as int) =~= Seq::<Seq<char>>::empty());
    assert(texts(out@) + Seq::<Seq<char>>::empty() =~= texts(out@));
    out
}

/// The arguments to `pactl` that create the pipe source.
pub open spec fn load_module_args_spec(name: Seq<char>, path: Seq<char>, rate: u32, channels: u8) -> Seq<Seq<char>> {
    seq![
        "load-module"@,
        "module-pipe-source"@,
        "source_name="@ + name,
        file_argument(path),
        "format=s16le"@,
        "rate="@ + decimal(rate as nat),
        "channels="@ + decimal(channels as nat),
    ]
}

pub fn load_module_args(name: &str, path: &str, rate: u32, channels: u8) -> (r: Vec<String>)
    ensures
        texts(r@) == load_module_args_spec(name@, path@, rate, channels),
{
    let mut source_name = "source_name=".to_owned();
    push_str(&mut source_name, name);
    let mut file = "file=".to_owned();
    push_str(&mut file, path);
    let mut rate_arg = "rate=".to_owned();
    push_decimal(&mut rate_arg, rate as u64);
    let mut channels_arg = "channels=".to_owned();
    push_decimal(&mut channels_arg, channels as u64);
    let mut args: Vec<String> = Vec::new();
    push_literal(&mut args, "load-module");
    push_literal(&mut args, "module-pipe-source");
    push_text(&mut args, source_name);
    push_text(&mut args, file);
    push_literal(&mut args, "format=s16le");
    push_text(&mut args, rate_arg);
    push_text(&mut args, channels_arg);
    assert(texts(args@) =~= load_module_args_spec(name@, path@, rate, channels));
    args
}

pub const LOAD_FAILED: &'static str = "pactl could not create the microphone source: ";

pub const NO_MODULE_ID: &'static str = "pactl returned no module id";

/// What `pactl load-module` answered: the new module's id, or why there is
/// none.
pub open spec fn loaded_module_spec(output: CommandOutput) -> Result<Seq<char>, Seq<char>> {
    if !output.success {
        Err(LOAD_FAILED@ + trim(output_text(output.stderr@)))
    } else {
        let module = trim(output_text(output.stdout@));
        if module.len() == 0 {
            Err(NO_MODULE_ID@)
        } else {
            Ok(module)
        }
    }
}

pub fn loaded_module(output: &CommandOutput) -> (r: Result<String, String>)
    ensures
        match r {
            Ok(m) => loaded_module_spec(*output) == Ok::<Seq<char>, Seq<char>>(m@),
            Err(e) => loaded_module_spec(*output) == Err::<Seq<char>, Seq<char>>(e@),
        },
{
    if !output.success {
        let text = from_utf8_lossy(output.stderr.as_slice());
        let cs = chars_of(text.as_str());
        let reason = trimmed(cs.as_slice());
        let mut message = LOAD_FAILED.to_owned();
        let reason_text = string_from(reason.as_slice());
        push_str(&mut message, reason_text.as_str());
        return Err(message);
    }
    let text = from_utf8_lossy(output.stdout.as_slice());
    let cs = chars_of(text.as_str());
    let module = trimmed(cs.as_slice());
    if module.len() == 0 {
        return Err(NO_MODULE_ID.to_owned());
    }
    Ok(string_from(module.as_slice()))
}

} // verus!
