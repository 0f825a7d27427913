use vstd::prelude::*;

use crate::numtext::parsed_fixed;
use crate::numtext::parse_fixed;
use crate::timeline::TEMPO_DIGITS;

verus! {

/// A message on the control channel: a command or a reply, with its arguments as text.
#[derive(Debug)]
pub struct ClockControlMessage {
    pub name: String,
    pub args: Vec<String>,
}

/// The commands that the clock engine understands.
#[derive(Debug)]
pub enum Command {
    Report,
    GetTempo,
    GetPhase,
    Beats,
    Peers,
    Subscribers,
    /// in millionths of a beat per minute
    SetTempo(u64),
    Play,
    Sync,
    AddSubscriber(String),
    Unknown(String),
}

/// Why a control message could not be read as a command.
#[derive(Debug, Clone, Copy, PartialEq, Eq, Structural)]
pub enum ProtocolError {
    /// the command needs an argument and has none
    MissingArgument,
    /// the tempo is not a positive decimal number
    MalformedTempo,
}

/// What a command message named `name` with arguments `args` reads as.
pub open spec fn parses_to(name: Seq<char>, args: Seq<String>, r: Result<Command, ProtocolError>) -> bool {
    if name == "report"@ {
        r == Ok::<Command, ProtocolError>(Command::Report)
    } else if name == "get_tempo"@ {
        r == Ok::<Command, ProtocolError>(Command::GetTempo)
    } else if name == "get_phase"@ {
        r == Ok::<Command, ProtocolError>(Command::GetPhase)
    } else if name == "beats"@ {
        r == Ok::<Command, ProtocolError>(Command::Beats)
    } else if name == "peers"@ {
        r == Ok::<Command, ProtocolError>(Command::Peers)
    } else if name == "subscribers"@ {
        r == Ok::<Command, ProtocolError>(Command::Subscribers)
    } else if name == "play"@ {
        r == Ok::<Command, ProtocolError>(Command::Play)
    } else if name == "sync"@ {
        r == Ok::<Command, ProtocolError>(Command::Sync)
    } else if name == "set_tempo"@ {
        if args.len() == 0 {
            r == Err::<Command, ProtocolError>(ProtocolError::MissingArgument)
        } else {
            match parsed_fixed(args[0]@, TEMPO_DIGITS as nat) {
                Some(t) => if t > 0 {
                    r == Ok::<Command, ProtocolError>(Command::SetTempo(t))
                } else {
                    r == Err::<Command, ProtocolError>(ProtocolError::MalformedTempo)
                },
                None => r == Err::<Command, ProtocolError>(ProtocolError::MalformedTempo),
            }
        }
    } else if name == "add_subscriber"@ {
        if args.len() == 0 {
            r == Err::<Command, ProtocolError>(ProtocolError::MissingArgument)
        } else {
            r is Ok && r->Ok_0 is AddSubscriber && r->Ok_0->AddSubscriber_0@ == args[0]@
        }
    } else {
        r is Ok && r->Ok_0 is Unknown && r->Ok_0->Unknown_0@ == name
    }
}

fn is_named(name: &String, lit: &str) -> (r: bool)
    ensures
        r == (name@ == lit@),
{
    *name == String::from_str(lit)
}

impl ClockControlMessage {
    /// Reads the message as a command. A name that no command has reads as `Unknown`.
    pub fn parse_command(&self) -> (r: Result<Command, ProtocolError>)
        ensures
            parses_to(self.name@, self.args@, r),
    {
        let name = &self.name;
        if is_named(name, "report") {
            Ok(Command::Report)
        } else if is_named(name, "get_tempo") {
            Ok(Command::GetTempo)
        } else if is_named(name, "get_phase") {
            Ok(Command::GetPhase)
        } else if is_named(name, "beats") {
            Ok(Command::Beats)
        } else if is_named(name, "peers") {
            Ok(Command::Peers)
        } else if is_named(name, "subscribers") {
            Ok(Command::Subscribers)
        } else if is_named(name, "play") {
            Ok(Command::Play)
        } else if is_named(name, "sync") {
            Ok(Command::Sync)
        } else if is_named(name, "set_tempo") {
            if self.args.len() == 0 {
                Err(ProtocolError::MissingArgument)
            } else {
                match parse_fixed(self.args[0].as_str(), TEMPO_DIGITS) {
                    Some(t) => if t > 0 {
                        Ok(Command::SetTempo(t))
                    } else {
                        Err(ProtocolError::MalformedTempo)
                    },
                    None => Err(ProtocolError::MalformedTempo),
                }
            }
        } else if is_named(name, "add_subscriber") {
            if self.args.len() == 0 {
                Err(ProtocolError::MissingArgument)
            } else {
                Ok(Command::AddSubscriber(self.args[0].clone()))
            }
        } else {
            Ok(Command::Unknown(name.clone()))
        }
    }
}

} // verus!
