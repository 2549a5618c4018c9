use ausha::command::CommandOutput;
use ausha::pipesource::{load_module_args, loaded_module, stale_modules, LoadedModules};

const MODULES: &str = "Module #12\n\tName: module-pipe-source\n\tArgument: source_name=ausha file=/run/user/1000/ausha.mic format=s16le\n\
Module #13\n\tName: module-null-sink\n\tArgument: sink_name=other\n\
Module #14\n\tName: module-pipe-source\n\tArgument: source_name=theirs file=/tmp/theirs.mic\n\
Module #15\n\tName: module-pipe-source\n\tArgument: file=/run/user/1000/ausha.mic\n";

#[test]
fn only_our_stale_pipe_sources_are_unloaded() {
    assert_eq!(stale_modules(MODULES.as_bytes(), "/run/user/1000/ausha.mic"), ["12", "15"]);
    assert!(stale_modules(MODULES.as_bytes(), "/nowhere.mic").is_empty());
}

#[test]
fn an_argument_line_unloads_its_module_once() {
    let listing = "Module #3\nArgument: file=/p\nArgument: file=/p\n";
    assert_eq!(stale_modules(listing.as_bytes(), "/p"), ["3"]);
}

#[test]
fn the_pipe_source_is_asked_for_by_name_and_format() {
    assert_eq!(
        load_module_args("ausha", "/run/user/1000/ausha.mic", 48000, 1),
        [
            "load-module", "module-pipe-source", "source_name=ausha",
            "file=/run/user/1000/ausha.mic", "format=s16le", "rate=48000", "channels=1",
        ]
    );
}

#[test]
fn pactls_answer_gives_the_module_id_or_why_not() {
    let ok = CommandOutput { success: true, stdout: b"536870913\n".to_vec(), stderr: vec![] };
    assert_eq!(loaded_module(&ok), Ok("536870913".to_string()));
    let empty = CommandOutput { success: true, stdout: b"\n".to_vec(), stderr: vec![] };
    assert_eq!(loaded_module(&empty), Err("pactl returned no module id".to_string()));
    let failed = CommandOutput { success: false, stdout: vec![], stderr: b"Failure: Module initialization failed\n".to_vec() };
    assert_eq!(
        loaded_module(&failed),
        Err("pactl could not create the microphone source: Failure: Module initialization failed".to_string())
    );
}

#[test]
fn loaded_modules_are_unloaded_in_order_once() {
    let mut loaded = LoadedModules::new();
    loaded.record("7");
    loaded.record("9");
    loaded.record("11");
    loaded.forget("9");
    assert_eq!(loaded.unload_all(), ["7", "11"]);
    assert!(loaded.unload_all().is_empty());
}
