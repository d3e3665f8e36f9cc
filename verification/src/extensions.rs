//! Extensions: which of them are loaded, and what their calls give back.

use crate::message::Message;
use crate::text;
use std::collections::HashMap;
use std::path::PathBuf;
use std::time::Duration;
use vstd::prelude::*;
use vstd::string::*;
use vstd::utf8::*;

verus! {

/// `std::path::PathBuf`, a path of the file system. It is carried and never looked
/// into.
#[verifier::external_type_specification]
#[verifier::external_body]
pub struct ExPathBuf(std::path::PathBuf);

/// An extension as its configuration file describes it.
#[derive(Debug)]
pub struct ExtensionItem {
    /// The path of the extension's source.
    pub src_file: PathBuf,
    pub name: String,
    /// The path of the extension's icon.
    pub icon_source_file: PathBuf,
    pub ext_type: ExtensionType,
    pub ext_config: HashMap<String, String>,
}

/// When an extension is run.
#[derive(Debug, Clone, Copy, PartialEq, Eq)]
pub enum ExtensionType {
    Constant,
    /// Again and again, with the given time between.
    Polled(Duration),
    Dynamic,
}

/// What an entry of an extension does.
#[derive(Debug)]
pub struct Action {
    /// The path of the file to run.
    pub run_file: PathBuf,
}

/// The extensions that are loaded.
#[derive(Debug)]
pub struct ExtensionEngine {
    extensions: Vec<ExtensionItem>,
}

impl View for ExtensionEngine {
    type V = Seq<ExtensionItem>;

    closed spec fn view(&self) -> Seq<ExtensionItem> {
        self.extensions@
    }
}

impl ExtensionEngine {
    /// An engine without extensions.
    pub fn new() -> (engine: Self)
        ensures
            engine@ == Seq::<ExtensionItem>::empty(),
    {
        ExtensionEngine { extensions: Vec::new() }
    }

    /// Loads the extension that a configuration file describes, behind those that
    /// are loaded. `config` is what the file says; `None` where the file could not
    /// be read or does not describe an extension, which changes nothing.
    pub fn load_extension(&mut self, config: Option<ExtensionItem>)
        ensures
            final(self)@ == (match config {
                Some(item) => old(self)@.push(item),
                None => old(self)@,
            }),
    {
        if let Some(item) = config {
            self.extensions.push(item);
        }
    }

    /// The extensions that are loaded, in the order in which they were.
    pub fn extensions(&self) -> (items: &Vec<ExtensionItem>)
        ensures
            items@ == self@,
    {
        &self.extensions
    }
}

/// A program to run.
#[derive(Debug, PartialEq, Eq)]
pub struct ShellCommand {
    pub program: String,
    pub arguments: Vec<String>,
}

/// What is run for a command of an extension: the shell, with the command to read.
pub fn shell_command(command: String) -> (run: ShellCommand)
    ensures
        run.program@ == "sh"@,
        run.arguments@.len() == 2,
        run.arguments@[0]@ == "-c"@,
        run.arguments@[1] == command,
{
    let mut arguments: Vec<String> = Vec::new();
    arguments.push("-c".to_string());
    arguments.push(command);
    ShellCommand { program: "sh".to_string(), arguments }
}

/// What an extension gets back from a command: its output as text, or nothing
/// where the command did not run or its output is no text.
pub open spec fn command_text(output: Option<Seq<u8>>) -> Seq<char> {
    match output {
        Some(bytes) => if valid_utf8(bytes) {
            decode_utf8(bytes)
        } else {
            Seq::empty()
        },
        None => Seq::empty(),
    }
}

/// What an extension gets back from a command, given what the command put out;
/// `None` where it did not run.
pub fn call_command(output: Option<Vec<u8>>) -> (text: String)
    ensures
        text@ == command_text(
            match output {
                Some(bytes) => Some(bytes@),
                None => None,
            },
        ),
{
    match output {
        Some(bytes) => match text::text_from_utf8(bytes) {
            Some(text) => text,
            None => String::new(),
        },
        None => String::new(),
    }
}

/// What an extension gets back for a file, given what the file holds; `None` where
/// it could not be read.
pub fn read_file(contents: Option<String>) -> (text: String)
    ensures
        text@ == (match contents {
            Some(contents) => contents@,
            None => Seq::empty(),
        }),
{
    match contents {
        Some(contents) => contents,
        None => String::new(),
    }
}

/// The message that shows an entry of an extension.
pub fn populate(name: String, search_name: String, icon_path: String) -> (message: Message)
    ensures
        message == (Message::AddExtensionApp { display: name, search: search_name, icon_path }),
{
    Message::AddExtensionApp { display: name, search: search_name, icon_path }
}

/// An extension gets back every text that a command puts out as that text.
pub proof fn command_text_reads_back(text: Seq<char>)
    ensures
        command_text(Some(encode_utf8(text))) == text,
{
    encode_utf8_valid_utf8(text);
    encode_utf8_decode_utf8(text);
}

/// An extension gets nothing back from a command that did not run, or whose output is
/// not the UTF-8 form of any text; else it gets the text whose UTF-8 form the output
/// is.
pub proof fn output_is_read_as_utf8(bytes: Seq<u8>, text: Seq<char>)
    ensures
        command_text(None) == Seq::<char>::empty(),
        !valid_utf8(bytes) ==> command_text(Some(bytes)) == Seq::<char>::empty(),
        valid_utf8(bytes) ==> encode_utf8(command_text(Some(bytes))) == bytes,
        valid_utf8(bytes) ==> (command_text(Some(bytes)) == text <==> encode_utf8(text) == bytes),
{
    broadcast use {encode_utf8_decode_utf8, decode_utf8_encode_utf8};

}

} // verus!
