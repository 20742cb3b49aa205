use vstd::prelude::*;

use crate::text::same_text;

verus! {

/// The command line: global flags and the chosen command.
#[derive(Debug)]
pub struct Cli {
    /// How many times `-v` / `--verbose` was given (at most 255).
    pub verbose: u8,
    /// `-q` / `--quiet`, accepted before or after the command.
    pub quiet: bool,
    pub command: Option<Command>,
}

/// The commands of the tool.
#[derive(Debug)]
pub enum Command {
    /// `list`
    List,
    /// `login`
    Login,
    /// `logout`
    Logout,
    /// `verify`
    Verify,
    /// `harmony:add [-i IP] [-p PORT] [-l LABEL] [-x PREFIX] [-k KEY]`
    HarmonyAdd { ip: String, port: u16, label: Option<String>, path_prefix: String, encryption_key: Option<String> },
    /// `harmony:list`
    HarmonyList,
    /// `harmony:remove (--id ID | -l LABEL | -i IP -p PORT)`
    HarmonyRemove { id: Option<String>, label: Option<String>, ip: Option<String>, port: Option<u16> },
    /// `harmony:info [--id ID | -l LABEL]`
    HarmonyInfo { id: Option<String>, label: Option<String> },
    /// `harmony:pipelines [--id ID | -l LABEL]`
    HarmonyPipelines { id: Option<String>, label: Option<String> },
    /// `harmony:routes [--id ID | -l LABEL] [--json]`
    HarmonyRoutes { id: Option<String>, label: Option<String>, json: bool },
    /// `harmony:reload [--id ID | -l LABEL]`
    HarmonyReload { id: Option<String>, label: Option<String> },
    /// `harmony:authorize [--id ID | -l LABEL]`
    HarmonyAuthorize { id: Option<String>, label: Option<String> },
    /// `harmony:set-key --id ID -k KEY`
    HarmonySetKey { id: String, encryption_key: String },
    /// `harmony:show-key --id ID`
    HarmonyShowKey { id: String },
    /// `harmony:delete-key --id ID`
    HarmonyDeleteKey { id: String },
    /// `test-browser`
    TestBrowser,
    /// `config:set KEY VALUE`
    ConfigSet { key: String, value: String },
    /// `config:get [KEY]`
    ConfigGet { key: Option<String> },
    /// `config:unset KEY`
    ConfigUnset { key: String },
}

/// Why a command line was refused; each carries the offending word.
#[derive(Debug, Clone, PartialEq, Eq)]
pub enum CliError {
    UnknownCommand { word: String },
    UnknownArgument { word: String },
    /// An option that takes a value came last.
    MissingValue { option: String },
    /// An option was given twice.
    Repeated { option: String },
    /// A port that is no number from 0 to 65535.
    InvalidPort { value: String },
    /// A required option or argument is absent; `name` is how it is written.
    MissingArgument { name: String },
    /// Two options that exclude each other were both given.
    Conflict,
    /// A word the command takes no more of.
    UnexpectedArgument { word: String },
}

// ---------------------------------------------------------------------------
// The grammar, over character sequences
// ---------------------------------------------------------------------------

/// The commands, without their arguments.
#[derive(Debug, Clone, Copy, PartialEq, Eq, Structural)]
pub enum Kind {
    List,
    Login,
    Logout,
    Verify,
    Add,
    HList,
    Remove,
    Info,
    Pipelines,
    Routes,
    Reload,
    Authorize,
    SetKey,
    ShowKey,
    DeleteKey,
    TestBrowser,
    ConfigSet,
    ConfigGet,
    ConfigUnset,
}

/// The options a command may carry.
#[derive(Debug, Clone, Copy, PartialEq, Eq, Structural)]
pub enum Slot {
    Id,
    Label,
    Ip,
    Port,
    Prefix,
    Key,
    Json,
}

/// `CliError` with its words as character sequences.
pub enum CliFailure {
    UnknownCommand(Seq<char>),
    UnknownArgument(Seq<char>),
    MissingValue(Seq<char>),
    Repeated(Seq<char>),
    InvalidPort(Seq<char>),
    MissingArgument(Seq<char>),
    Conflict,
    UnexpectedArgument(Seq<char>),
}

impl View for CliError {
    type V = CliFailure;

    open spec fn view(&self) -> CliFailure {
        match self {
            CliError::UnknownCommand { word } => CliFailure::UnknownCommand(word@),
            CliError::UnknownArgument { word } => CliFailure::UnknownArgument(word@),
            CliError::MissingValue { option } => CliFailure::MissingValue(option@),
            CliError::Repeated { option } => CliFailure::Repeated(option@),
            CliError::InvalidPort { value } => CliFailure::InvalidPort(value@),
            CliError::MissingArgument { name } => CliFailure::MissingArgument(name@),
            CliError::Conflict => CliFailure::Conflict,
            CliError::UnexpectedArgument { word } => CliFailure::UnexpectedArgument(word@),
        }
    }
}

/// `Command` with its text as character sequences.
pub enum CommandV {
    List,
    Login,
    Logout,
    Verify,
    HarmonyAdd {
        ip: Seq<char>,
        port: u16,
        label: Option<Seq<char>>,
        path_prefix: Seq<char>,
        encryption_key: Option<Seq<char>>,
    },
    HarmonyList,
    HarmonyRemove { id: Option<Seq<char>>, label: Option<Seq<char>>, ip: Option<Seq<char>>, port: Option<u16> },
    HarmonyInfo { id: Option<Seq<char>>, label: Option<Seq<char>> },
    HarmonyPipelines { id: Option<Seq<char>>, label: Option<Seq<char>> },
    HarmonyRoutes { id: Option<Seq<char>>, label: Option<Seq<char>>, json: bool },
    HarmonyReload { id: Option<Seq<char>>, label: Option<Seq<char>> },
    HarmonyAuthorize { id: Option<Seq<char>>, label: Option<Seq<char>> },
    HarmonySetKey { id: Seq<char>, encryption_key: Seq<char> },
    HarmonyShowKey { id: Seq<char> },
    HarmonyDeleteKey { id: Seq<char> },
    TestBrowser,
    ConfigSet { key: Seq<char>, value: Seq<char> },
    ConfigGet { key: Option<Seq<char>> },
    ConfigUnset { key: Seq<char> },
}

pub open spec fn ov(o: Option<String>) -> Option<Seq<char>> {
    match o {
        Some(s) => Some(s@),
        None => None,
    }
}

impl View for Command {
    type V = CommandV;

    open spec fn view(&self) -> CommandV {
        match self {
            Command::List => CommandV::List,
            Command::Login => CommandV::Login,
            Command::Logout => CommandV::Logout,
            Command::Verify => CommandV::Verify,
            Command::HarmonyAdd { ip, port, label, path_prefix, encryption_key } => CommandV::HarmonyAdd {
                ip: ip@,
                port: *port,
                label: ov(*label),
                path_prefix: path_prefix@,
                encryption_key: ov(*encryption_key),
            },
            Command::HarmonyList => CommandV::HarmonyList,
            Command::HarmonyRemove { id, label, ip, port } => CommandV::HarmonyRemove {
                id: ov(*id),
                label: ov(*label),
                ip: ov(*ip),
                port: *port,
            },
            Command::HarmonyInfo { id, label } => CommandV::HarmonyInfo { id: ov(*id), label: ov(*label) },
            Command::HarmonyPipelines { id, label } => CommandV::HarmonyPipelines { id: ov(*id), label: ov(*label) },
            Command::HarmonyRoutes { id, label, json } => CommandV::HarmonyRoutes {
                id: ov(*id),
                label: ov(*label),
                json: *json,
            },
            Command::HarmonyReload { id, label } => CommandV::HarmonyReload { id: ov(*id), label: ov(*label) },
            Command::HarmonyAuthorize { id, label } => CommandV::HarmonyAuthorize { id: ov(*id), label: ov(*label) },
            Command::HarmonySetKey { id, encryption_key } => CommandV::HarmonySetKey {
                id: id@,
                encryption_key: encryption_key@,
            },
            Command::HarmonyShowKey { id } => CommandV::HarmonyShowKey { id: id@ },
            Command::HarmonyDeleteKey { id } => CommandV::HarmonyDeleteKey { id: id@ },
            Command::TestBrowser => CommandV::TestBrowser,
            Command::ConfigSet { key, value } => CommandV::ConfigSet { key: key@, value: value@ },
            Command::ConfigGet { key } => CommandV::ConfigGet { key: ov(*key) },
            Command::ConfigUnset { key } => CommandV::ConfigUnset { key: key@ },
        }
    }
}

/// `Cli` with its text as character sequences.
pub struct CliV {
    pub verbose: u8,
    pub quiet: bool,
    pub command: Option<CommandV>,
}

impl View for Cli {
    type V = CliV;

    open spec fn view(&self) -> CliV {
        CliV {
            verbose: self.verbose,
            quiet: self.quiet,
            command: match self.command {
                Some(c) => Some(c@),
                None => None,
            },
        }
    }
}

/// The command a word names.
pub open spec fn kind_of(w: Seq<char>) -> Option<Kind> {
    if w == "list"@ { Some(Kind::List) }
    else if w == "login"@ { Some(Kind::Login) }
    else if w == "logout"@ { Some(Kind::Logout) }
    else if w == "verify"@ { Some(Kind::Verify) }
    else if w == "harmony:add"@ { Some(Kind::Add) }
    else if w == "harmony:list"@ { Some(Kind::HList) }
    else if w == "harmony:remove"@ { Some(Kind::Remove) }
    else if w == "harmony:info"@ { Some(Kind::Info) }
    else if w == "harmony:pipelines"@ { Some(Kind::Pipelines) }
    else if w == "harmony:routes"@ { Some(Kind::Routes) }
    else if w == "harmony:reload"@ { Some(Kind::Reload) }
    else if w == "harmony:authorize"@ { Some(Kind::Authorize) }
    else if w == "harmony:set-key"@ { Some(Kind::SetKey) }
    else if w == "harmony:show-key"@ { Some(Kind::ShowKey) }
    else if w == "harmony:delete-key"@ { Some(Kind::DeleteKey) }
    else if w == "test-browser"@ { Some(Kind::TestBrowser) }
    else if w == "config:set"@ { Some(Kind::ConfigSet) }
    else if w == "config:get"@ { Some(Kind::ConfigGet) }
    else if w == "config:unset"@ { Some(Kind::ConfigUnset) }
    else { None }
}

/// The commands that pick an instance by `--id` or `--label` / `-l`.
pub open spec fn picks_instance(k: Kind) -> bool {
    k == Kind::Info || k == Kind::Pipelines || k == Kind::Routes || k == Kind::Reload || k == Kind::Authorize
}

/// The option a word names for command `k`.
pub open spec fn slot_of(k: Kind, w: Seq<char>) -> Option<Slot> {
    if k == Kind::Add {
        if w == "--ip"@ || w == "-i"@ { Some(Slot::Ip) }
        else if w == "--port"@ || w == "-p"@ { Some(Slot::Port) }
        else if w == "--label"@ || w == "-l"@ { Some(Slot::Label) }
        else if w == "--path-prefix"@ || w == "-x"@ { Some(Slot::Prefix) }
        else if w == "--key"@ || w == "-k"@ { Some(Slot::Key) }
        else { None }
    } else if k == Kind::Remove {
        if w == "--id"@ { Some(Slot::Id) }
        else if w == "--label"@ || w == "-l"@ { Some(Slot::Label) }
        else if w == "--ip"@ || w == "-i"@ { Some(Slot::Ip) }
        else if w == "--port"@ || w == "-p"@ { Some(Slot::Port) }
        else { None }
    } else if picks_instance(k) {
        if w == "--id"@ { Some(Slot::Id) }
        else if w == "--label"@ || w == "-l"@ { Some(Slot::Label) }
        else if k == Kind::Routes && w == "--json"@ { Some(Slot::Json) }
        else { None }
    } else if k == Kind::SetKey {
        if w == "--id"@ { Some(Slot::Id) }
        else if w == "--key"@ || w == "-k"@ { Some(Slot::Key) }
        else { None }
    } else if k == Kind::ShowKey || k == Kind::DeleteKey {
        if w == "--id"@ { Some(Slot::Id) } else { None }
    } else {
        None
    }
}

/// How many plain words command `k` takes.
pub open spec fn max_words(k: Kind) -> nat {
    if k == Kind::ConfigSet { 2 }
    else if k == Kind::ConfigGet || k == Kind::ConfigUnset { 1 }
    else { 0 }
}

/// What has been read after the command word.
pub struct SlotsV {
    pub id: Option<Seq<char>>,
    pub label: Option<Seq<char>>,
    pub ip: Option<Seq<char>>,
    pub port: Option<Seq<char>>,
    pub prefix: Option<Seq<char>>,
    pub key: Option<Seq<char>>,
    pub json: bool,
    pub quiet: bool,
    pub words: Seq<Seq<char>>,
}

pub open spec fn empty_slots() -> SlotsV {
    SlotsV {
        id: None,
        label: None,
        ip: None,
        port: None,
        prefix: None,
        key: None,
        json: false,
        quiet: false,
        words: Seq::empty(),
    }
}

pub open spec fn slot_value(st: SlotsV, s: Slot) -> Option<Seq<char>> {
    match s {
        Slot::Id => st.id,
        Slot::Label => st.label,
        Slot::Ip => st.ip,
        Slot::Port => st.port,
        Slot::Prefix => st.prefix,
        Slot::Key => st.key,
        Slot::Json => None,
    }
}

pub open spec fn with_slot(st: SlotsV, s: Slot, v: Seq<char>) -> SlotsV {
    match s {
        Slot::Id => SlotsV { id: Some(v), ..st },
        Slot::Label => SlotsV { label: Some(v), ..st },
        Slot::Ip => SlotsV { ip: Some(v), ..st },
        Slot::Port => SlotsV { port: Some(v), ..st },
        Slot::Prefix => SlotsV { prefix: Some(v), ..st },
        Slot::Key => SlotsV { key: Some(v), ..st },
        Slot::Json => SlotsV { json: true, ..st },
    }
}

pub open spec fn is_quiet_flag(w: Seq<char>) -> bool {
    w == "-q"@ || w == "--quiet"@
}

/// Reads the words at the front of `ws` (not empty) after command `k`: the
/// new state and how many words were used.
pub open spec fn read_one(k: Kind, st: SlotsV, ws: Seq<Seq<char>>) -> Result<(SlotsV, int), CliFailure> {
    let w = ws[0];
    if is_quiet_flag(w) {
        Ok((SlotsV { quiet: true, ..st }, 1))
    } else {
        match slot_of(k, w) {
            Some(Slot::Json) => if st.json {
                Err(CliFailure::Repeated(w))
            } else {
                Ok((SlotsV { json: true, ..st }, 1))
            },
            Some(s) => if ws.len() < 2 {
                Err(CliFailure::MissingValue(w))
            } else if slot_value(st, s) is Some {
                Err(CliFailure::Repeated(w))
            } else {
                Ok((with_slot(st, s, ws[1]), 2))
            },
            None => if w.len() > 0 && w[0] == '-' {
                Err(CliFailure::UnknownArgument(w))
            } else if st.words.len() < max_words(k) {
                Ok((SlotsV { words: st.words.push(w), ..st }, 1))
            } else {
                Err(CliFailure::UnexpectedArgument(w))
            },
        }
    }
}

/// Reads all of `ws` after command `k`, from state `st`.
pub open spec fn read_all(k: Kind, st: SlotsV, ws: Seq<Seq<char>>) -> Result<SlotsV, CliFailure>
    decreases ws.len(),
{
    if ws.len() == 0 {
        Ok(st)
    } else {
        match read_one(k, st, ws) {
            Err(e) => Err(e),
            Ok((st2, used)) => if 1 <= used <= ws.len() {
                read_all(k, st2, ws.skip(used))
            } else {
                Ok(st2)
            },
        }
    }
}

/// The value of a decimal numeral (digits only).
pub open spec fn numeral_value(s: Seq<char>) -> nat
    decreases s.len(),
{
    if s.len() == 0 {
        0
    } else {
        numeral_value(s.drop_last()) * 10 + (s.last() as nat - '0' as nat) as nat
    }
}

pub open spec fn all_digits(s: Seq<char>) -> bool {
    forall|i: int| 0 <= i < s.len() ==> '0' <= #[trigger] s[i] <= '9'
}

/// A port number: one or more decimal digits, at most 65535.
pub open spec fn port_of(s: Seq<char>) -> Option<u16> {
    if s.len() > 0 && all_digits(s) && numeral_value(s) <= 65535 {
        Some(numeral_value(s) as u16)
    } else {
        None
    }
}

/// The port read from an optional value: absent, present, or refused.
pub open spec fn opt_port(v: Option<Seq<char>>) -> Result<Option<u16>, CliFailure> {
    match v {
        None => Ok(None),
        Some(s) => match port_of(s) {
            Some(p) => Ok(Some(p)),
            None => Err(CliFailure::InvalidPort(s)),
        },
    }
}

pub open spec fn or_default(v: Option<Seq<char>>, d: Seq<char>) -> Seq<char> {
    match v {
        Some(s) => s,
        None => d,
    }
}

/// The command `k` with what was read after it, or why it is refused.
pub open spec fn build(k: Kind, st: SlotsV) -> Result<CommandV, CliFailure> {
    match k {
        Kind::List => Ok(CommandV::List),
        Kind::Login => Ok(CommandV::Login),
        Kind::Logout => Ok(CommandV::Logout),
        Kind::Verify => Ok(CommandV::Verify),
        Kind::HList => Ok(CommandV::HarmonyList),
        Kind::TestBrowser => Ok(CommandV::TestBrowser),
        Kind::Add => match opt_port(st.port) {
            Err(e) => Err(e),
            Ok(p) => Ok(
                CommandV::HarmonyAdd {
                    ip: or_default(st.ip, "127.0.0.1"@),
                    port: match p {
                        Some(n) => n,
                        None => 8081,
                    },
                    label: st.label,
                    path_prefix: or_default(st.prefix, "admin"@),
                    encryption_key: st.key,
                },
            ),
        },
        Kind::Remove => if st.id is Some && (st.label is Some || st.ip is Some || st.port is Some) {
            Err(CliFailure::Conflict)
        } else if st.label is Some && (st.ip is Some || st.port is Some) {
            Err(CliFailure::Conflict)
        } else if st.ip is Some && st.port is None {
            Err(CliFailure::MissingArgument("--port"@))
        } else if st.port is Some && st.ip is None {
            Err(CliFailure::MissingArgument("--ip"@))
        } else {
            match opt_port(st.port) {
                Err(e) => Err(e),
                Ok(p) => Ok(CommandV::HarmonyRemove { id: st.id, label: st.label, ip: st.ip, port: p }),
            }
        },
        Kind::SetKey => if st.id is None {
            Err(CliFailure::MissingArgument("--id"@))
        } else if st.key is None {
            Err(CliFailure::MissingArgument("--key"@))
        } else {
            Ok(CommandV::HarmonySetKey { id: st.id->Some_0, encryption_key: st.key->Some_0 })
        },
        Kind::ShowKey => if st.id is None {
            Err(CliFailure::MissingArgument("--id"@))
        } else {
            Ok(CommandV::HarmonyShowKey { id: st.id->Some_0 })
        },
        Kind::DeleteKey => if st.id is None {
            Err(CliFailure::MissingArgument("--id"@))
        } else {
            Ok(CommandV::HarmonyDeleteKey { id: st.id->Some_0 })
        },
        Kind::ConfigSet => if st.words.len() == 0 {
            Err(CliFailure::MissingArgument("KEY"@))
        } else if st.words.len() == 1 {
            Err(CliFailure::MissingArgument("VALUE"@))
        } else {
            Ok(CommandV::ConfigSet { key: st.words[0], value: st.words[1] })
        },
        Kind::ConfigGet => Ok(
            CommandV::ConfigGet {
                key: if st.words.len() > 0 {
                    Some(st.words[0])
                } else {
                    None
                },
            },
        ),
        Kind::ConfigUnset => if st.words.len() == 0 {
            Err(CliFailure::MissingArgument("KEY"@))
        } else {
            Ok(CommandV::ConfigUnset { key: st.words[0] })
        },
        _ => if st.id is Some && st.label is Some {
            Err(CliFailure::Conflict)
        } else {
            Ok(
                match k {
                    Kind::Info => CommandV::HarmonyInfo { id: st.id, label: st.label },
                    Kind::Pipelines => CommandV::HarmonyPipelines { id: st.id, label: st.label },
                    Kind::Routes => CommandV::HarmonyRoutes { id: st.id, label: st.label, json: st.json },
                    Kind::Reload => CommandV::HarmonyReload { id: st.id, label: st.label },
                    _ => CommandV::HarmonyAuthorize { id: st.id, label: st.label },
                },
            )
        },
    }
}

/// How many times a global flag word raises the verbosity, and whether it
/// asks for quiet output; `None` when it is no global flag. `-v`, `-vv`, ...
/// count their `v`s.
pub open spec fn global_flag(w: Seq<char>) -> Option<(nat, bool)> {
    if is_quiet_flag(w) {
        Some((0, true))
    } else if w == "--verbose"@ {
        Some((1, false))
    } else if w.len() >= 2 && w[0] == '-' && forall|i: int| 1 <= i < w.len() ==> #[trigger] w[i] == 'v' {
        Some(((w.len() - 1) as nat, false))
    } else {
        None
    }
}

pub open spec fn capped(n: nat) -> u8 {
    if n > 255 {
        255
    } else {
        n as u8
    }
}

/// Reads the words before and including the command word, `verbose` and
/// `quiet` being what the global flags read so far said.
pub open spec fn read_line(verbose: nat, quiet: bool, ws: Seq<Seq<char>>) -> Result<CliV, CliFailure>
    decreases ws.len(),
{
    if ws.len() == 0 {
        Ok(CliV { verbose: capped(verbose), quiet, command: None })
    } else {
        let w = ws[0];
        match global_flag(w) {
            Some((n, q)) => read_line(verbose + n, quiet || q, ws.skip(1)),
            None => if w.len() > 0 && w[0] == '-' {
                Err(CliFailure::UnknownArgument(w))
            } else {
                match kind_of(w) {
                    None => Err(CliFailure::UnknownCommand(w)),
                    Some(k) => match read_all(k, empty_slots(), ws.skip(1)) {
                        Err(e) => Err(e),
                        Ok(st) => match build(k, st) {
                            Err(e) => Err(e),
                            Ok(c) => Ok(CliV { verbose: capped(verbose), quiet: quiet || st.quiet, command: Some(c) }),
                        },
                    },
                }
            },
        }
    }
}

/// The words of a command line as character sequences.
pub open spec fn words_of(args: Seq<&str>) -> Seq<Seq<char>> {
    Seq::new(args.len(), |i: int| args[i]@)
}

/// What a command line means: its first word names the program and is
/// skipped.
pub open spec fn parse_line(args: Seq<&str>) -> Result<CliV, CliFailure> {
    if args.len() == 0 {
        read_line(0, false, Seq::empty())
    } else {
        read_line(0, false, words_of(args).skip(1))
    }
}

// ---------------------------------------------------------------------------
// The parser
// ---------------------------------------------------------------------------

/// What has been read after the command word.
struct Slots {
    id: Option<String>,
    label: Option<String>,
    ip: Option<String>,
    port: Option<String>,
    prefix: Option<String>,
    key: Option<String>,
    json: bool,
    quiet: bool,
    words: Vec<String>,
}

pub open spec fn strings_view(v: Seq<String>) -> Seq<Seq<char>> {
    Seq::new(v.len(), |i: int| v[i]@)
}

impl View for Slots {
    type V = SlotsV;

    closed spec fn view(&self) -> SlotsV {
        SlotsV {
            id: ov(self.id),
            label: ov(self.label),
            ip: ov(self.ip),
            port: ov(self.port),
            prefix: ov(self.prefix),
            key: ov(self.key),
            json: self.json,
            quiet: self.quiet,
            words: strings_view(self.words@),
        }
    }
}

fn kind_of_word(w: &str) -> (r: Option<Kind>)
    ensures
        r == kind_of(w@),
{
    if same_text(w, "list") { Some(Kind::List) }
    else if same_text(w, "login") { Some(Kind::Login) }
    else if same_text(w, "logout") { Some(Kind::Logout) }
    else if same_text(w, "verify") { Some(Kind::Verify) }
    else if same_text(w, "harmony:add") { Some(Kind::Add) }
    else if same_text(w, "harmony:list") { Some(Kind::HList) }
    else if same_text(w, "harmony:remove") { Some(Kind::Remove) }
    else if same_text(w, "harmony:info") { Some(Kind::Info) }
    else if same_text(w, "harmony:pipelines") { Some(Kind::Pipelines) }
    else if same_text(w, "harmony:routes") { Some(Kind::Routes) }
    else if same_text(w, "harmony:reload") { Some(Kind::Reload) }
    else if same_text(w, "harmony:authorize") { Some(Kind::Authorize) }
    else if same_text(w, "harmony:set-key") { Some(Kind::SetKey) }
    else if same_text(w, "harmony:show-key") { Some(Kind::ShowKey) }
    else if same_text(w, "harmony:delete-key") { Some(Kind::DeleteKey) }
    else if same_text(w, "test-browser") { Some(Kind::TestBrowser) }
    else if same_text(w, "config:set") { Some(Kind::ConfigSet) }
    else if same_text(w, "config:get") { Some(Kind::ConfigGet) }
    else if same_text(w, "config:unset") { Some(Kind::ConfigUnset) }
    else { None }
}

fn either(w: &str, long: &str, short: &str) -> (r: bool)
    ensures
        r == (w@ == long@ || w@ == short@),
{
    same_text(w, long) || same_text(w, short)
}

fn slot_of_word(k: Kind, w: &str) -> (r: Option<Slot>)
    ensures
        r == slot_of(k, w@),
{
    if k == Kind::Add {
        if either(w, "--ip", "-i") { Some(Slot::Ip) }
        else if either(w, "--port", "-p") { Some(Slot::Port) }
        else if either(w, "--label", "-l") { Some(Slot::Label) }
        else if either(w, "--path-prefix", "-x") { Some(Slot::Prefix) }
        else if either(w, "--key", "-k") { Some(Slot::Key) }
        else { None }
    } else if k == Kind::Remove {
        if same_text(w, "--id") { Some(Slot::Id) }
        else if either(w, "--label", "-l") { Some(Slot::Label) }
        else if either(w, "--ip", "-i") { Some(Slot::Ip) }
        else if either(w, "--port", "-p") { Some(Slot::Port) }
        else { None }
    } else if k == Kind::Info || k == Kind::Pipelines || k == Kind::Routes || k == Kind::Reload
        || k == Kind::Authorize {
        if same_text(w, "--id") { Some(Slot::Id) }
        else if either(w, "--label", "-l") { Some(Slot::Label) }
        else if k == Kind::Routes && same_text(w, "--json") { Some(Slot::Json) }
        else { None }
    } else if k == Kind::SetKey {
        if same_text(w, "--id") { Some(Slot::Id) }
        else if either(w, "--key", "-k") { Some(Slot::Key) }
        else { None }
    } else if k == Kind::ShowKey || k == Kind::DeleteKey {
        if same_text(w, "--id") { Some(Slot::Id) } else { None }
    } else {
        None
    }
}

fn max_words_of(k: Kind) -> (r: usize)
    ensures
        r == max_words(k),
{
    if k == Kind::ConfigSet { 2 }
    else if k == Kind::ConfigGet || k == Kind::ConfigUnset { 1 }
    else { 0 }
}

fn slot_is_set(st: &Slots, s: Slot) -> (r: bool)
    ensures
        r == (slot_value(st@, s) is Some),
{
    match s {
        Slot::Id => st.id.is_some(),
        Slot::Label => st.label.is_some(),
        Slot::Ip => st.ip.is_some(),
        Slot::Port => st.port.is_some(),
        Slot::Prefix => st.prefix.is_some(),
        Slot::Key => st.key.is_some(),
        Slot::Json => false,
    }
}

fn starts_with_dash(w: &str) -> (r: bool)
    ensures
        r == (w@.len() > 0 && w@[0] == '-'),
{
    w.unicode_len() > 0 && w.get_char(0) == '-'
}

fn read_one_word(k: Kind, st: Slots, args: &[&str], i: usize) -> (r: Result<(Slots, usize), CliError>)
    requires
        i < args@.len(),
    ensures
        match r {
            Ok((s2, used)) => read_one(k, st@, words_of(args@).skip(i as int)) == Ok::<(SlotsV, int), CliFailure>(
                (s2@, used as int),
            ),
            Err(e) => read_one(k, st@, words_of(args@).skip(i as int)) == Err::<(SlotsV, int), CliFailure>(e@),
        },
{
    let ghost ws = words_of(args@).skip(i as int);
    assert(ws[0] == args@[i as int]@);
    let w = args[i];
    let mut st = st;
    if either(w, "-q", "--quiet") {
        st.quiet = true;
        return Ok((st, 1));
    }
    match slot_of_word(k, w) {
        Some(Slot::Json) => {
            if st.json {
                Err(CliError::Repeated { option: String::from_str(w) })
            } else {
                st.json = true;
                Ok((st, 1))
            }
        },
        Some(s) => {
            if i + 1 >= args.len() {
                Err(CliError::MissingValue { option: String::from_str(w) })
            } else if slot_is_set(&st, s) {
                Err(CliError::Repeated { option: String::from_str(w) })
            } else {
                assert(ws[1] == args@[i + 1]@);
                let v = String::from_str(args[i + 1]);
                match s {
                    Slot::Id => st.id = Some(v),
                    Slot::Label => st.label = Some(v),
                    Slot::Ip => st.ip = Some(v),
                    Slot::Port => st.port = Some(v),
                    Slot::Prefix => st.prefix = Some(v),
                    _ => st.key = Some(v),
                }
                Ok((st, 2))
            }
        },
        None => {
            if starts_with_dash(w) {
                Err(CliError::UnknownArgument { word: String::from_str(w) })
            } else if st.words.len() < max_words_of(k) {
                let ghost before = st.words@;
                st.words.push(String::from_str(w));
                assert(strings_view(st.words@) =~= strings_view(before).push(w@));
                Ok((st, 1))
            } else {
                Err(CliError::UnexpectedArgument { word: String::from_str(w) })
            }
        },
    }
}

fn read_all_words(k: Kind, args: &[&str], start: usize) -> (r: Result<Slots, CliError>)
    requires
        start <= args@.len(),
    ensures
        match r {
            Ok(st) => read_all(k, empty_slots(), words_of(args@).skip(start as int)) == Ok::<SlotsV, CliFailure>(st@),
            Err(e) => read_all(k, empty_slots(), words_of(args@).skip(start as int)) == Err::<SlotsV, CliFailure>(e@),
        },
{
    let ghost ws = words_of(args@);
    let mut st = Slots {
        id: None,
        label: None,
        ip: None,
        port: None,
        prefix: None,
        key: None,
        json: false,
        quiet: false,
        words: Vec::new(),
    };
    assert(strings_view(st.words@) =~= Seq::<Seq<char>>::empty());
    let mut i = start;
    while i < args.len()
        invariant
            ws == words_of(args@),
            start <= i <= args@.len(),
            read_all(k, empty_slots(), ws.skip(start as int)) == read_all(k, st@, ws.skip(i as int)),
        decreases args@.len() - i,
    {
        match read_one_word(k, st, args, i) {
            Err(e) => return Err(e),
            Ok((s2, used)) => {
                assert(ws.skip(i as int).skip(used as int) =~= ws.skip(i + used));
                st = s2;
                i = i + used;
            },
        }
    }
    assert(ws.skip(i as int).len() == 0);
    Ok(st)
}

proof fn lemma_numeral_prefix(s: Seq<char>, j: int)
    requires
        0 <= j <= s.len(),
    ensures
        numeral_value(s) >= numeral_value(s.subrange(0, j)),
    decreases s.len(),
{
    if j < s.len() {
        assert(s.drop_last().subrange(0, j) =~= s.subrange(0, j));
        lemma_numeral_prefix(s.drop_last(), j);
    } else {
        assert(s.subrange(0, j) =~= s);
    }
}

fn parse_port(s: &String) -> (r: Option<u16>)
    ensures
        r == port_of(s@),
{
    let n = s.unicode_len();
    if n == 0 {
        return None;
    }
    let mut val: u64 = 0;
    let mut i: usize = 0;
    assert(s@.subrange(0, 0) =~= Seq::<char>::empty());
    while i < n
        invariant
            n == s@.len(),
            i <= n,
            val == numeral_value(s@.subrange(0, i as int)),
            val <= 65535,
            all_digits(s@.subrange(0, i as int)),
        decreases n - i,
    {
        let c = s.as_str().get_char(i);
        if c < '0' || c > '9' {
            assert(!all_digits(s@));
            return None;
        }
        assert(s@.subrange(0, i + 1).drop_last() =~= s@.subrange(0, i as int));
        val = val * 10 + (c as u64 - '0' as u64);
        assert(all_digits(s@.subrange(0, i + 1))) by {
            assert forall|t: int| 0 <= t < i + 1 implies '0' <= #[trigger] s@.subrange(0, i + 1)[t] <= '9' by {
                if t < i {
                    assert(s@.subrange(0, i + 1)[t] == s@.subrange(0, i as int)[t]);
                }
            }
        }
        if val > 65535 {
            proof {
                lemma_numeral_prefix(s@, i + 1);
            }
            return None;
        }
        i = i + 1;
    }
    assert(s@.subrange(0, n as int) =~= s@);
    Some(val as u16)
}

fn port_value(v: &Option<String>) -> (r: Result<Option<u16>, CliError>)
    ensures
        match r {
            Ok(p) => opt_port(ov(*v)) == Ok::<Option<u16>, CliFailure>(p),
            Err(e) => opt_port(ov(*v)) == Err::<Option<u16>, CliFailure>(e@),
        },
{
    match v {
        None => Ok(None),
        Some(s) => match parse_port(s) {
            Some(p) => Ok(Some(p)),
            None => Err(CliError::InvalidPort { value: s.clone() }),
        },
    }
}

fn or_default_string(v: Option<String>, d: &str) -> (r: String)
    ensures
        r@ == or_default(ov(v), d@),
{
    match v {
        Some(s) => s,
        None => String::from_str(d),
    }
}

fn missing(name: &str) -> (r: CliError)
    ensures
        r@ == CliFailure::MissingArgument(name@),
{
    CliError::MissingArgument { name: String::from_str(name) }
}

fn build_command(k: Kind, st: Slots) -> (r: Result<Command, CliError>)
    ensures
        match r {
            Ok(c) => build(k, st@) == Ok::<CommandV, CliFailure>(c@),
            Err(e) => build(k, st@) == Err::<CommandV, CliFailure>(e@),
        },
{
    let ghost v = st@;
    match k {
        Kind::List => Ok(Command::List),
        Kind::Login => Ok(Command::Login),
        Kind::Logout => Ok(Command::Logout),
        Kind::Verify => Ok(Command::Verify),
        Kind::HList => Ok(Command::HarmonyList),
        Kind::TestBrowser => Ok(Command::TestBrowser),
        Kind::Add => {
            let port = match port_value(&st.port) {
                Err(e) => return Err(e),
                Ok(p) => match p {
                    Some(n) => n,
                    None => 8081,
                },
            };
            Ok(
                Command::HarmonyAdd {
                    ip: or_default_string(st.ip, "127.0.0.1"),
                    port,
                    label: st.label,
                    path_prefix: or_default_string(st.prefix, "admin"),
                    encryption_key: st.key,
                },
            )
        },
        Kind::Remove => {
            if st.id.is_some() && (st.label.is_some() || st.ip.is_some() || st.port.is_some()) {
                Err(CliError::Conflict)
            } else if st.label.is_some() && (st.ip.is_some() || st.port.is_some()) {
                Err(CliError::Conflict)
            } else if st.ip.is_some() && st.port.is_none() {
                Err(missing("--port"))
            } else if st.port.is_some() && st.ip.is_none() {
                Err(missing("--ip"))
            } else {
                match port_value(&st.port) {
                    Err(e) => Err(e),
                    Ok(p) => Ok(Command::HarmonyRemove { id: st.id, label: st.label, ip: st.ip, port: p }),
                }
            }
        },
        Kind::SetKey => match st.id {
            None => Err(missing("--id")),
            Some(id) => match st.key {
                None => Err(missing("--key")),
                Some(key) => Ok(Command::HarmonySetKey { id, encryption_key: key }),
            },
        },
        Kind::ShowKey => match st.id {
            None => Err(missing("--id")),
            Some(id) => Ok(Command::HarmonyShowKey { id }),
        },
        Kind::DeleteKey => match st.id {
            None => Err(missing("--id")),
            Some(id) => Ok(Command::HarmonyDeleteKey { id }),
        },
        Kind::ConfigSet => {
            if st.words.len() == 0 {
                Err(missing("KEY"))
            } else if st.words.len() == 1 {
                Err(missing("VALUE"))
            } else {
                let key = st.words[0].clone();
                let value = st.words[1].clone();
                Ok(Command::ConfigSet { key, value })
            }
        },
        Kind::ConfigGet => {
            let key = if st.words.len() > 0 {
                Some(st.words[0].clone())
            } else {
                None
            };
            Ok(Command::ConfigGet { key })
        },
        Kind::ConfigUnset => {
            if st.words.len() == 0 {
                Err(missing("KEY"))
            } else {
                let key = st.words[0].clone();
                Ok(Command::ConfigUnset { key })
            }
        },
        _ => {
            if st.id.is_some() && st.label.is_some() {
                Err(CliError::Conflict)
            } else {
                let id = st.id;
                let label = st.label;
                Ok(
                    match k {
                        Kind::Info => Command::HarmonyInfo { id, label },
                        Kind::Pipelines => Command::HarmonyPipelines { id, label },
                        Kind::Routes => Command::HarmonyRoutes { id, label, json: st.json },
                        Kind::Reload => Command::HarmonyReload { id, label },
                        _ => Command::HarmonyAuthorize { id, label },
                    },
                )
            }
        },
    }
}

fn global_flag_word(w: &str) -> (r: Option<(usize, bool)>)
    ensures
        match r {
            Some((n, q)) => global_flag(w@) == Some((n as nat, q)),
            None => global_flag(w@) is None,
        },
{
    if either(w, "-q", "--quiet") {
        return Some((0, true));
    }
    if same_text(w, "--verbose") {
        return Some((1, false));
    }
    let n = w.unicode_len();
    if n < 2 || w.get_char(0) != '-' {
        return None;
    }
    let mut i: usize = 1;
    while i < n
        invariant
            n == w@.len(),
            1 <= i <= n,
            n >= 2 && w@[0] == '-',
            !is_quiet_flag(w@) && w@ != "--verbose"@,
            forall|j: int| 1 <= j < i ==> #[trigger] w@[j] == 'v',
        decreases n - i,
    {
        if w.get_char(i) != 'v' {
            assert(!(1 <= i < w@.len() ==> w@[i as int] == 'v'));
            return None;
        }
        i = i + 1;
    }
    Some((n - 1, false))
}

impl Cli {
    /// Reads a command line; its first word names the program. The result is
    /// what `parse_line` says of the words.
    pub fn try_parse_from(args: &[&str]) -> (r: Result<Cli, CliError>)
        ensures
            match r {
                Ok(c) => parse_line(args@) == Ok::<CliV, CliFailure>(c@),
                Err(e) => parse_line(args@) == Err::<CliV, CliFailure>(e@),
            },
    {
        let ghost ws = if args@.len() == 0 {
            Seq::<Seq<char>>::empty()
        } else {
            words_of(args@).skip(1)
        };
        let ghost all = words_of(args@);
        let mut verbose: u8 = 0;
        let ghost mut gv: nat = 0;
        let mut quiet = false;
        let mut i: usize = if args.len() == 0 { 0 } else { 1 };
        assert(args@.len() == 0 ==> ws =~= all.skip(0));
        while i < args.len()
            invariant
                all == words_of(args@),
                args@.len() > 0 ==> 1 <= i,
                i <= args@.len(),
                verbose == capped(gv),
                parse_line(args@) == read_line(gv, quiet, all.skip(i as int)),
            decreases args@.len() - i,
        {
            let w = args[i];
            assert(all.skip(i as int)[0] == w@);
            assert(all.skip(i as int).skip(1) =~= all.skip(i + 1));
            match global_flag_word(w) {
                Some((n, q)) => {
                    proof {
                        gv = gv + n as nat;
                    }
                    verbose = if n >= 255 || verbose as usize + n >= 255 {
                        255
                    } else {
                        (verbose as usize + n) as u8
                    };
                    quiet = quiet || q;
                    i = i + 1;
                },
                None => {
                    if starts_with_dash(w) {
                        return Err(CliError::UnknownArgument { word: String::from_str(w) });
                    }
                    let k = match kind_of_word(w) {
                        None => return Err(CliError::UnknownCommand { word: String::from_str(w) }),
                        Some(k) => k,
                    };
                    assert(all.skip(i + 1) =~= words_of(args@).skip(i + 1));
                    let st = match read_all_words(k, args, i + 1) {
                        Err(e) => return Err(e),
                        Ok(st) => st,
                    };
                    let sq = st.quiet;
                    let command = match build_command(k, st) {
                        Err(e) => return Err(e),
                        Ok(c) => c,
                    };
                    return Ok(Cli { verbose, quiet: quiet || sq, command: Some(command) });
                },
            }
        }
        assert(all.skip(i as int).len() == 0);
        Ok(Cli { verbose, quiet, command: None })
    }
}

} // verus!
