use rustcast::extensions::{
    call_command, populate, read_file, shell_command, ExtensionEngine, ExtensionItem, ExtensionType,
};
use rustcast::message::Message;
use std::collections::HashMap;
use std::path::PathBuf;
use std::time::Duration;

fn item(name: &str) -> ExtensionItem {
    ExtensionItem {
        src_file: PathBuf::from("src.scm"),
        name: name.to_string(),
        icon_source_file: PathBuf::from("icon.png"),
        ext_type: ExtensionType::Polled(Duration::from_secs(5)),
        ext_config: HashMap::new(),
    }
}

#[test]
fn extensions_are_loaded_in_order() {
    let mut engine = ExtensionEngine::new();
    assert!(engine.extensions().is_empty());
    engine.load_extension(Some(item("first")));
    engine.load_extension(None);
    engine.load_extension(Some(item("second")));
    let names: Vec<&str> = engine.extensions().iter().map(|i| i.name.as_str()).collect();
    assert_eq!(names, vec!["first", "second"]);
}

#[test]
fn commands_give_their_output_as_text() {
    assert_eq!(call_command(Some("grün\n".as_bytes().to_vec())), "grün\n");
    assert_eq!(call_command(Some(vec![])), "");
    assert_eq!(call_command(None), "");
}

#[test]
fn output_that_is_no_text_is_dropped() {
    for bytes in [
        vec![0xff],
        vec![b'a', 0x80],
        vec![0xc0, 0xaf],
        vec![0xed, 0xa0, 0x80],
        vec![0xf4, 0x90, 0x80, 0x80],
        vec![0xe2, 0x8c],
    ] {
        assert_eq!(call_command(Some(bytes)), "");
    }
}

#[test]
fn files_that_cannot_be_read_are_empty() {
    assert_eq!(read_file(Some("text".to_string())), "text");
    assert_eq!(read_file(None), "");
}

#[test]
fn populate_names_the_entry() {
    assert_eq!(
        populate("Show".to_string(), "search".to_string(), "/icon.png".to_string()),
        Message::AddExtensionApp {
            display: "Show".to_string(),
            search: "search".to_string(),
            icon_path: "/icon.png".to_string(),
        }
    );
}

#[test]
fn commands_are_run_by_the_shell() {
    let run = shell_command("echo hello".to_string());
    assert_eq!(run.program, "sh");
    assert_eq!(run.arguments, vec!["-c".to_string(), "echo hello".to_string()]);
}
