//! The SSH management shell: who may log in, which channel requests are
//! served, how terminal input becomes command lines, and what each command
//! answers.
use vstd::prelude::*;
use vstd::string::{StrSliceExecFns, StringExecFns};

use crate::counters::{decimal, push_decimal};
use crate::ssh_command::{str_equals, CommandView, SshCommand};
use crate::{SSH_PORT, SSH_USERNAME};

verus! {

/// Longest command line, in bytes.
pub const COMMAND_CAPACITY: usize = 128;

/// Sent when an interactive shell opens.
pub const SHELL_GREETING: &'static str = "\r\nNUCLEO-H723ZG Rust management shell\r\nType 'help' for commands.\r\n> ";

/// Sent after each executed line of an interactive shell.
pub const PROMPT: &'static str = "> ";

/// Sent when the user ends a line.
pub const LINE_END: &'static str = "\r\n";

/// Sent to erase the last character on the terminal.
pub const ERASE_SEQUENCE: &'static str = "\x08 \x08";

/// The answer to `help`.
pub const HELP_TEXT: &'static str = "help          show this command list\r\nstatus        show Ethernet and IPv4 state\r\necho TEXT     write TEXT back\r\nexit          close the SSH session\r\n";

/// The answer to `exit`.
pub const GOODBYE: &'static str = "bye\r\n";

/// Whether the SSH public-key login of `username` with Ed25519 key `key`
/// (`None` for a key of another kind) is allowed: only the fixed account with
/// the one authorized key.
pub fn pubkey_auth_allowed(username: &str, key: Option<[u8; 32]>, authorized: &[u8; 32]) -> (allowed: bool)
    ensures
        allowed == (username@ == SSH_USERNAME@ && key is Some && key.unwrap()@ == authorized@),
{
    let correct_user = str_equals(username, SSH_USERNAME);
    let correct_key = match key {
        None => false,
        Some(offered) => {
            let mut i: usize = 0;
            let mut same = true;
            while i < 32
                invariant
                    i <= 32,
                    same == forall|j: int| 0 <= j < i ==> offered@[j] == authorized@[j],
                decreases 32 - i,
            {
                if offered[i] != authorized[i] {
                    same = false;
                }
                i = i + 1;
            }
            assert(same ==> offered@ =~= authorized@);
            same
        },
    };
    correct_user && correct_key
}

/// Whether an `exec` request's command fits the command buffer.
pub fn exec_command_fits(command: &str) -> (fits: bool)
    ensures
        fits == (command.len() <= COMMAND_CAPACITY),
{
    command.len() <= COMMAND_CAPACITY
}

/// The one session channel a connection may use, from its opening until a
/// shell or command request claims it.
pub struct ChannelGate {
    pub opened: Option<u32>,
}

impl ChannelGate {
    /// No channel is open.
    pub fn new() -> (gate: Self)
        ensures
            gate.opened is None,
    {
        ChannelGate { opened: None }
    }

    /// Whether another session channel may be opened: only one per
    /// connection at a time.
    pub fn may_open(&self) -> (accept: bool)
        ensures
            accept == self.opened is None,
    {
        self.opened.is_none()
    }

    /// Session channel number `channel` was opened.
    pub fn record_opened(&mut self, channel: u32)
        requires
            old(self).opened is None,
        ensures
            final(self).opened == Some(channel),
    {
        self.opened = Some(channel);
    }

    /// A shell or command request arrived on `channel`. The open channel is
    /// claimed either way; the request may proceed only if it names that
    /// channel.
    pub fn claim(&mut self, channel: u32) -> (matches: bool)
        ensures
            final(self).opened is None,
            matches == (old(self).opened == Some(channel)),
    {
        let opened = self.opened;
        self.opened = None;
        match opened {
            Some(number) => number == channel,
            None => false,
        }
    }
}

/// An event of an SSH connection, as the server's protocol loop sees it.
#[derive(Debug)]
pub enum SshEvent<'a> {
    /// The transport needs the server's host key.
    Hostkeys,
    /// The client's first authentication probe.
    FirstAuth,
    /// A password was offered.
    PasswordAuth,
    /// A public key was offered for `username`; `key` holds it when it is an
    /// Ed25519 key.
    PubkeyAuth { username: &'a str, key: Option<[u8; 32]> },
    /// Authentication completed.
    Authenticated,
    /// The client asks to open a session channel.
    OpenSession,
    /// A pseudo-terminal was requested.
    SessionPty,
    /// An environment variable was sent.
    SessionEnv,
    /// An interactive shell was requested on `channel`.
    SessionShell { channel: u32 },
    /// The one-shot `command` was requested on `channel`.
    SessionExec { channel: u32, command: &'a str },
    /// A subsystem was requested.
    SessionSubsystem,
    /// The connection is finished.
    Defunct,
    /// Nothing happened; poll again.
    PollAgain,
}

/// How the server answers one SSH event.
#[derive(Clone, Copy, Debug, PartialEq, Eq, Structural)]
pub enum SshResponse {
    /// Present the host key.
    SendHostKey,
    /// Advertise public-key authentication only, and reject this probe.
    OfferPublicKeyOnly,
    /// Reject the authentication attempt.
    RejectAuth,
    /// Accept the authentication attempt.
    AllowAuth,
    /// Accept the channel; its number becomes the open channel.
    AcceptChannel,
    /// Refuse the channel as administratively prohibited.
    RejectChannel,
    /// Answer the request with success.
    Succeed,
    /// Answer the request with failure.
    Fail,
    /// Hand an interactive shell on this channel to the session task: succeed
    /// when the hand-over is taken, fail otherwise.
    QueueShell(u32),
    /// Hand the requested command on this channel to the session task:
    /// succeed when the hand-over is taken, fail otherwise.
    QueueExec(u32),
    /// End the connection with an error: the command does not fit.
    CommandTooLong,
    /// End the protocol loop.
    Finish,
    /// No answer is needed.
    Nothing,
}

/// The answer to `event` and the next state of the session-channel gate
/// `gate`, with `authorized` the one client key. Passwords are always refused, the
/// first probe advertises public keys only, and pseudo-terminal and
/// environment requests always succeed; subsystems always fail.
pub open spec fn spec_ssh_response(gate: Option<u32>, event: SshEvent, authorized: Seq<u8>) -> (
    SshResponse,
    Option<u32>,
) {
    match event {
        SshEvent::Hostkeys => (SshResponse::SendHostKey, gate),
        SshEvent::FirstAuth => (SshResponse::OfferPublicKeyOnly, gate),
        SshEvent::PasswordAuth => (SshResponse::RejectAuth, gate),
        SshEvent::PubkeyAuth { username, key } => (
            if username@ == SSH_USERNAME@ && key is Some && key.unwrap()@ == authorized {
                SshResponse::AllowAuth
            } else {
                SshResponse::RejectAuth
            },
            gate,
        ),
        SshEvent::Authenticated => (SshResponse::Nothing, gate),
        SshEvent::OpenSession => (
            if gate is None {
                SshResponse::AcceptChannel
            } else {
                SshResponse::RejectChannel
            },
            gate,
        ),
        SshEvent::SessionPty => (SshResponse::Succeed, gate),
        SshEvent::SessionEnv => (SshResponse::Succeed, gate),
        SshEvent::SessionShell { channel } => (
            if gate == Some(channel) {
                SshResponse::QueueShell(channel)
            } else {
                SshResponse::Fail
            },
            None,
        ),
        SshEvent::SessionExec { channel, command } => if command.len() > COMMAND_CAPACITY {
            (SshResponse::CommandTooLong, gate)
        } else {
            (
                if gate == Some(channel) {
                    SshResponse::QueueExec(channel)
                } else {
                    SshResponse::Fail
                },
                None,
            )
        },
        SshEvent::SessionSubsystem => (SshResponse::Fail, gate),
        SshEvent::Defunct => (SshResponse::Finish, gate),
        SshEvent::PollAgain => (SshResponse::Nothing, gate),
    }
}

/// Answer one SSH event, claiming the open session channel for a shell or a
/// command request.
pub fn respond_to_event(
    gate: &mut ChannelGate,
    event: &SshEvent,
    authorized: &[u8; 32],
) -> (response: SshResponse)
    ensures
        (response, final(gate).opened) == spec_ssh_response(old(gate).opened, *event, authorized@),
{
    match event {
        SshEvent::Hostkeys => SshResponse::SendHostKey,
        SshEvent::FirstAuth => SshResponse::OfferPublicKeyOnly,
        SshEvent::PasswordAuth => SshResponse::RejectAuth,
        SshEvent::PubkeyAuth { username, key } => {
            if pubkey_auth_allowed(username, *key, authorized) {
                SshResponse::AllowAuth
            } else {
                SshResponse::RejectAuth
            }
        },
        SshEvent::Authenticated => SshResponse::Nothing,
        SshEvent::OpenSession => {
            if gate.may_open() {
                SshResponse::AcceptChannel
            } else {
                SshResponse::RejectChannel
            }
        },
        SshEvent::SessionPty => SshResponse::Succeed,
        SshEvent::SessionEnv => SshResponse::Succeed,
        SshEvent::SessionShell { channel } => {
            if gate.claim(*channel) {
                SshResponse::QueueShell(*channel)
            } else {
                SshResponse::Fail
            }
        },
        SshEvent::SessionExec { channel, command } => {
            if !exec_command_fits(command) {
                SshResponse::CommandTooLong
            } else if gate.claim(*channel) {
                SshResponse::QueueExec(*channel)
            } else {
                SshResponse::Fail
            }
        },
        SshEvent::SessionSubsystem => SshResponse::Fail,
        SshEvent::Defunct => SshResponse::Finish,
        SshEvent::PollAgain => SshResponse::Nothing,
    }
}

/// A password never authenticates, and only the `board` user with the
/// authorized key does.
pub proof fn lemma_public_key_only(gate: Option<u32>, event: SshEvent, authorized: Seq<u8>)
    requires
        spec_ssh_response(gate, event, authorized).0 == SshResponse::AllowAuth,
    ensures
        event matches SshEvent::PubkeyAuth { username, key } && username@ == SSH_USERNAME@
            && key is Some && key.unwrap()@ == authorized,
{
}

/// A byte the terminal may put into a command line.
pub open spec fn printable(byte: u8) -> bool {
    0x20 <= byte <= 0x7e
}

/// What a typed byte asks the shell to do.
#[derive(Debug, PartialEq, Eq)]
pub enum LineAction {
    /// Nothing to send.
    Ignore,
    /// Echo the byte that was added to the line.
    Echo(u8),
    /// Erase the last character on the terminal.
    Erase,
    /// The line is complete: end it on the terminal and execute it.
    Submit(String),
    /// Ctrl-D: close the shell.
    Close,
}

/// The line being typed into an interactive shell.
pub struct LineEditor {
    line: Vec<u8>,
    previous_was_cr: bool,
}

impl LineEditor {
    /// The bytes typed into the current line.
    pub closed spec fn line(&self) -> Seq<u8> {
        self.line@
    }

    /// Whether the last byte ended a line with a carriage return.
    pub closed spec fn previous_was_cr(&self) -> bool {
        self.previous_was_cr
    }

    /// The line holds at most [`COMMAND_CAPACITY`] printable bytes.
    pub closed spec fn wf(&self) -> bool {
        &&& self.line@.len() <= COMMAND_CAPACITY
        &&& forall|i: int| 0 <= i < self.line@.len() ==> printable(#[trigger] self.line@[i])
    }

    /// An empty line.
    pub fn new() -> (editor: Self)
        ensures
            editor.wf(),
            editor.line() == Seq::<u8>::empty(),
            !editor.previous_was_cr(),
    {
        LineEditor { line: Vec::new(), previous_was_cr: false }
    }

    /// Process one byte of terminal input. CR, LF and CR LF each end a line;
    /// Ctrl-D closes the shell; backspace and delete remove the last byte;
    /// printable bytes are added while the line has room; other bytes are
    /// ignored.
    pub fn feed(&mut self, byte: u8) -> (action: LineAction)
        requires
            old(self).wf(),
        ensures
            final(self).wf(),
            byte == 0x0a && old(self).previous_was_cr() ==> {
                &&& action == LineAction::Ignore
                &&& final(self).line() == old(self).line()
                &&& !final(self).previous_was_cr()
            },
            (byte == 0x0d || (byte == 0x0a && !old(self).previous_was_cr())) ==> {
                &&& action matches LineAction::Submit(text) && text@ == ascii_chars(old(self).line())
                &&& final(self).line() == Seq::<u8>::empty()
                &&& final(self).previous_was_cr() == (byte == 0x0d)
            },
            byte == 0x04 ==> {
                &&& action == LineAction::Close
                &&& final(self).line() == old(self).line()
            },
            (byte == 0x08 || byte == 0x7f) ==> {
                &&& !final(self).previous_was_cr()
                &&& old(self).line().len() > 0 ==> (action == LineAction::Erase
                    && final(self).line() == old(self).line().drop_last())
                &&& old(self).line().len() == 0 ==> (action == LineAction::Ignore
                    && final(self).line() == old(self).line())
            },
            printable(byte) ==> {
                &&& !final(self).previous_was_cr()
                &&& old(self).line().len() < COMMAND_CAPACITY ==> (action == LineAction::Echo(byte)
                    && final(self).line() == old(self).line().push(byte))
                &&& old(self).line().len() >= COMMAND_CAPACITY ==> (action == LineAction::Ignore
                    && final(self).line() == old(self).line())
            },
            !(byte == 0x0a || byte == 0x0d || byte == 0x04 || byte == 0x08 || byte == 0x7f
                || printable(byte)) ==> {
                &&& action == LineAction::Ignore
                &&& final(self).line() == old(self).line()
                &&& !final(self).previous_was_cr()
            },
    {
        if byte == 0x0a && self.previous_was_cr {
            self.previous_was_cr = false;
            LineAction::Ignore
        } else if byte == 0x0d || byte == 0x0a {
            self.previous_was_cr = byte == 0x0d;
            let text = ascii_text(&self.line);
            self.line = Vec::new();
            LineAction::Submit(text)
        } else if byte == 0x04 {
            LineAction::Close
        } else if byte == 0x08 || byte == 0x7f {
            self.previous_was_cr = false;
            match self.line.pop() {
                Some(_) => LineAction::Erase,
                None => LineAction::Ignore,
            }
        } else if 0x20 <= byte && byte <= 0x7e {
            self.previous_was_cr = false;
            if self.line.len() < COMMAND_CAPACITY {
                self.line.push(byte);
                LineAction::Echo(byte)
            } else {
                LineAction::Ignore
            }
        } else {
            self.previous_was_cr = false;
            LineAction::Ignore
        }
    }
}

/// The characters of the printable ASCII bytes `bytes`.
pub open spec fn ascii_chars(bytes: Seq<u8>) -> Seq<char> {
    Seq::new(bytes.len(), |i: int| bytes[i] as char)
}

const PRINTABLE_ASCII: &'static str = " !\"#$%&'()*+,-./0123456789:;<=>?@ABCDEFGHIJKLMNOPQRSTUVWXYZ[\\]^_`abcdefghijklmnopqrstuvwxyz{|}~";

/// The text of a line of printable ASCII bytes.
pub fn ascii_text(bytes: &Vec<u8>) -> (text: String)
    requires
        forall|i: int| 0 <= i < bytes@.len() ==> printable(#[trigger] bytes@[i]),
    ensures
        text@ == ascii_chars(bytes@),
{
    proof {
        reveal_strlit(" !\"#$%&'()*+,-./0123456789:;<=>?@ABCDEFGHIJKLMNOPQRSTUVWXYZ[\\]^_`abcdefghijklmnopqrstuvwxyz{|}~");
    }
    assert forall|b: u8| printable(b) implies PRINTABLE_ASCII@[b - 0x20] == b as char by {
        assert(PRINTABLE_ASCII@.len() == 95);
    }
    let mut text = String::new();
    let mut i: usize = 0;
    while i < bytes.len()
        invariant
            i <= bytes@.len(),
            forall|j: int| 0 <= j < bytes@.len() ==> printable(#[trigger] bytes@[j]),
            forall|b: u8| printable(b) ==> PRINTABLE_ASCII@[b - 0x20] == b as char,
            PRINTABLE_ASCII@.len() == 95,
            text@ =~= ascii_chars(bytes@.subrange(0, i as int)),
        decreases bytes@.len() - i,
    {
        let b = bytes[i];
        let index = (b - 0x20) as usize;
        let character = PRINTABLE_ASCII.substring_char(index, index + 1);
        assert(character@ =~= seq![b as char]);
        text.append(character);
        i = i + 1;
        assert(ascii_chars(bytes@.subrange(0, i as int)) =~= ascii_chars(
            bytes@.subrange(0, i - 1),
        ).push(b as char));
    }
    assert(bytes@.subrange(0, bytes@.len() as int) =~= bytes@);
    text
}


/// The IPv4 configuration shown by `status`.
#[derive(Clone, Copy, Debug)]
pub struct Ipv4Status {
    pub address: [u8; 4],
    pub prefix_length: u8,
    pub gateway: Option<[u8; 4]>,
}

/// The network state shown by `status`.
#[derive(Clone, Copy, Debug)]
pub struct NetworkStatus {
    pub link_up: bool,
    pub ipv4: Option<Ipv4Status>,
}

/// An IPv4 address in dotted decimal.
pub open spec fn dotted(address: [u8; 4]) -> Seq<char> {
    decimal(address[0] as nat) + "."@ + decimal(address[1] as nat) + "."@ + decimal(
        address[2] as nat,
    ) + "."@ + decimal(address[3] as nat)
}

/// The answer to `status`.
pub open spec fn spec_status_text(status: NetworkStatus) -> Seq<char> {
    "Ethernet link: "@ + (if status.link_up {
        "up"@
    } else {
        "down"@
    }) + "\r\n"@ + match status.ipv4 {
        Some(config) => "IPv4 address: "@ + dotted(config.address) + "/"@ + decimal(
            config.prefix_length as nat,
        ) + "\r\n"@ + match config.gateway {
            Some(gateway) => "Gateway: "@ + dotted(gateway) + "\r\n"@,
            None => Seq::empty(),
        },
        None => "IPv4 address: not configured\r\n"@,
    } + "UDP echo: port 7\r\n"@ + "SSH: port "@ + decimal(SSH_PORT as nat) + "\r\n"@
}

fn push_str(out: &mut String, text: &str)
    ensures
        final(out)@ == old(out)@ + text@,
{
    out.append(text);
}

fn push_dotted(out: &mut String, address: [u8; 4])
    ensures
        final(out)@ == old(out)@ + dotted(address),
{
    push_decimal(out, address[0] as u64);
    push_str(out, ".");
    push_decimal(out, address[1] as u64);
    push_str(out, ".");
    push_decimal(out, address[2] as u64);
    push_str(out, ".");
    push_decimal(out, address[3] as u64);
    assert(final(out)@ =~= old(out)@ + dotted(address));
}

/// Format the live network state.
pub fn write_status(status: &NetworkStatus) -> (text: String)
    ensures
        text@ == spec_status_text(*status),
{
    let mut text = String::from_str("Ethernet link: ");
    if status.link_up {
        push_str(&mut text, "up");
    } else {
        push_str(&mut text, "down");
    }
    push_str(&mut text, "\r\n");
    let ghost head = text@;
    match status.ipv4 {
        Some(config) => {
            push_str(&mut text, "IPv4 address: ");
            push_dotted(&mut text, config.address);
            push_str(&mut text, "/");
            push_decimal(&mut text, config.prefix_length as u64);
            push_str(&mut text, "\r\n");
            match config.gateway {
                Some(gateway) => {
                    push_str(&mut text, "Gateway: ");
                    push_dotted(&mut text, gateway);
                    push_str(&mut text, "\r\n");
                },
                None => {},
            }
        },
        None => push_str(&mut text, "IPv4 address: not configured\r\n"),
    }
    let ghost middle = text@;
    push_str(&mut text, "UDP echo: port 7\r\n");
    push_str(&mut text, "SSH: port ");
    push_decimal(&mut text, SSH_PORT as u64);
    push_str(&mut text, "\r\n");
    assert(text@ =~= spec_status_text(*status));
    text
}

/// What a command writes back, and whether the session stays open.
#[derive(Debug)]
pub struct CommandReply {
    pub text: String,
    pub keep_open: bool,
}

/// The reply to one management command; only `exit` closes the session.
pub open spec fn spec_command_reply(command: CommandView, status: NetworkStatus) -> (Seq<char>, bool) {
    match command {
        CommandView::Help => (HELP_TEXT@, true),
        CommandView::Status => (spec_status_text(status), true),
        CommandView::Echo(text) => (text + "\r\n"@, true),
        CommandView::Exit => (GOODBYE@, false),
        CommandView::Unknown(text) => ("unknown command: "@ + text + "\r\n"@, true),
    }
}

/// Execute one parsed management command against the network state `status`.
pub fn execute_command(command: &SshCommand, status: &NetworkStatus) -> (reply: CommandReply)
    ensures
        (reply.text@, reply.keep_open) == spec_command_reply(command@, *status),
{
    match command {
        SshCommand::Help => CommandReply { text: String::from_str(HELP_TEXT), keep_open: true },
        SshCommand::Status => CommandReply { text: write_status(status), keep_open: true },
        SshCommand::Echo(text) => {
            let mut reply = String::from_str(text);
            push_str(&mut reply, "\r\n");
            CommandReply { text: reply, keep_open: true }
        },
        SshCommand::Exit => CommandReply { text: String::from_str(GOODBYE), keep_open: false },
        SshCommand::Unknown(text) => {
            let mut reply = String::from_str("unknown command: ");
            push_str(&mut reply, text);
            push_str(&mut reply, "\r\n");
            CommandReply { text: reply, keep_open: true }
        },
    }
}

} // verus!
