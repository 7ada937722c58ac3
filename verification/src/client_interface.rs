//! The session client's side of the library: where the emulator is reached,
//! and what it takes to execute a command.

use crate::command::{Command, CommandOutput};
use crate::execution_result::ExecutionResult;
use crate::text::{decimal, push_decimal, push_text};
use vstd::prelude::*;

verus! {

/// Whatever can carry out one exchange at a time: a connection to a running
/// emulator, or a stand-in that answers from memory.
///
/// The library asks nothing of an implementation but an answer. What it
/// proves of its own functions holds for every answer.
pub trait CommandExecutor {
    /// Performs the exchange of `command` and says how it ended.
    fn execute(&mut self, command: Command) -> ExecutionResult<CommandOutput>;
}

/// The program that is started as the terminal emulator.
pub open spec fn emulator_program() -> Seq<char> {
    "x3270"@
}

/// The address on which an emulator that was started with `client_port` as
/// its scripting port is reached.
pub open spec fn local_address(client_port: u16) -> Seq<char> {
    "localhost:"@ + decimal(client_port as nat)
}

/// The arguments that start an emulator which scripts on `client_address` and
/// displays the host at `mainframe_address`.
pub open spec fn emulator_arguments(
    mainframe_address: Seq<char>,
    client_address: Seq<char>,
) -> Seq<Seq<char>> {
    seq!["-scriptport"@, client_address, "-model"@, "3279-4"@, mainframe_address]
}

/// Where the host is, and where the emulator's scripting port is.
#[derive(Clone, Debug, PartialEq, Eq)]
pub struct ClientAddress {
    mainframe_address: String,
    client_address: String,
}

impl ClientAddress {
    /// The host address, as it was given.
    pub closed spec fn mainframe_address_view(&self) -> Seq<char> {
        self.mainframe_address@
    }

    /// The address of the scripting port.
    pub closed spec fn client_address_view(&self) -> Seq<char> {
        self.client_address@
    }

    /// The addresses of a session with the host at `mainframe_address`,
    /// scripted through the local port `client_port`.
    pub fn new(mainframe_address: &str, client_port: u16) -> (address: ClientAddress)
        ensures
            address.mainframe_address_view() == mainframe_address@,
            address.client_address_view() == local_address(client_port),
    {
        let mut client_address = String::new();
        push_text(&mut client_address, "localhost:");
        push_decimal(&mut client_address, client_port);
        assert(client_address@ =~= local_address(client_port));
        ClientAddress { mainframe_address: mainframe_address.to_owned(), client_address }
    }

    /// The host address.
    pub fn mainframe_address(&self) -> (text: &str)
        ensures
            text@ == self.mainframe_address_view(),
    {
        self.mainframe_address.as_str()
    }

    /// The address on which to connect to the emulator.
    pub fn client_address(&self) -> (text: &str)
        ensures
            text@ == self.client_address_view(),
    {
        self.client_address.as_str()
    }

    /// The program to start as the emulator.
    pub fn program(&self) -> (name: &'static str)
        ensures
            name@ == emulator_program(),
    {
        "x3270"
    }

    /// The arguments to start the emulator with.
    pub fn arguments(&self) -> (arguments: Vec<String>)
        ensures
            arguments.deep_view() == emulator_arguments(
                self.mainframe_address_view(),
                self.client_address_view(),
            ),
    {
        let mut arguments: Vec<String> = Vec::new();
        arguments.push("-scriptport".to_owned());
        arguments.push(self.client_address.clone());
        arguments.push("-model".to_owned());
        arguments.push("3279-4".to_owned());
        arguments.push(self.mainframe_address.clone());
        assert(arguments.deep_view() =~= emulator_arguments(
            self.mainframe_address_view(),
            self.client_address_view(),
        ));
        arguments
    }
}

} // verus!
