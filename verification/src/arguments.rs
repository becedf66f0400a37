//! The command line of the tool: global options, one subcommand, and
//! the subcommand's own options. `get_args` parses the argument vector
//! — everything after the program name — into `MainArgs`; collecting
//! that vector, environment fallbacks and help output stay with the
//! caller.

use vstd::prelude::*;

use crate::lookup::{hex_suffix, valid_hex_lookup, verify_lookup_hex};
use crate::records::opt_view;
use crate::strutil::{split_on, split_str, str_eq};

verus! {

/// Generate an SSH key (ed25519).
#[derive(Debug)]
pub struct CreateArgs {
    /// The name of the certificate.
    pub name: String,
    /// The email of the certificate.
    pub email: String,
}

/// List all the SSH keys in the keystore.
#[derive(Debug)]
pub struct ListArgs {
    /// Include the key id.
    pub include_key_id: bool,
}

/// Toggle which keys the SSH agent may use.
#[derive(Debug)]
pub struct ToggleArgs {
    /// Disable every key marked for SSH usage.
    pub disable_all: bool,
}

/// Hand public keys to the copy-id workflow.
#[derive(Debug)]
pub struct CopyIdArgs {
    /// Arguments passed on to the copy-id tool.
    pub args: Vec<String>,
    /// Keep the temporary files, for debugging.
    pub keep_temp_files: bool,
}

/// Print the public SSH key for a selected key.
#[derive(Debug)]
pub struct PublicKeyArgs {
    /// The normalized eight-digit lookup value, when one was given.
    pub lookup_hex: Option<String>,
}

/// Shell-completion support; no options of its own.
#[derive(Debug)]
pub struct CompletionArgs {
}

/// The subcommands of the tool.
#[derive(Debug)]
pub enum SubCommands {
    Create(CreateArgs),
    List(ListArgs),
    Toggle(ToggleArgs),
    CopyId(CopyIdArgs),
    PublicKey(PublicKeyArgs),
}

/// How much the caller should log.
#[derive(Debug, Clone, Copy, PartialEq, Eq, Structural)]
pub enum LogLevel {
    Off,
    Error,
    Warn,
    Info,
    Debug,
    Trace,
}

/// The whole command line.
#[derive(Debug)]
pub struct MainArgs {
    /// The log level; `info` when not given.
    pub log_level: LogLevel,
    /// Path to the agent socket for SSH.
    pub ssh_auth_sock: String,
    pub sub_commands: SubCommands,
}

/// The mathematical content of a parsed subcommand.
pub ghost enum SubView {
    Create { name: Seq<char>, email: Seq<char> },
    List { include_key_id: bool },
    Toggle { disable_all: bool },
    CopyId { args: Seq<Seq<char>>, keep_temp_files: bool },
    PublicKey { lookup_hex: Option<Seq<char>> },
}

/// The mathematical content of a parsed command line.
pub ghost struct MainArgsView {
    pub log_level: LogLevel,
    pub ssh_auth_sock: Seq<char>,
    pub sub: SubView,
}

impl View for SubCommands {
    type V = SubView;

    open spec fn view(&self) -> SubView {
        match self {
            SubCommands::Create(a) => SubView::Create { name: a.name@, email: a.email@ },
            SubCommands::List(a) => SubView::List { include_key_id: a.include_key_id },
            SubCommands::Toggle(a) => SubView::Toggle { disable_all: a.disable_all },
            SubCommands::CopyId(a) => SubView::CopyId {
                args: a.args.deep_view(),
                keep_temp_files: a.keep_temp_files,
            },
            SubCommands::PublicKey(a) => SubView::PublicKey { lookup_hex: opt_view(a.lookup_hex) },
        }
    }
}

impl View for MainArgs {
    type V = MainArgsView;

    open spec fn view(&self) -> MainArgsView {
        MainArgsView {
            log_level: self.log_level,
            ssh_auth_sock: self.ssh_auth_sock@,
            sub: self.sub_commands@,
        }
    }
}

/// Why a command line was rejected.
#[derive(Debug, PartialEq, Eq, Structural, Clone, Copy)]
pub enum ArgsError {
    /// An option that takes a value stood last.
    MissingValue,
    /// An option the subcommand does not know.
    UnknownOption,
    /// The log level is none of off, error, warn, info, debug, trace.
    InvalidLogLevel,
    /// No `--ssh-auth-sock` value was given before the subcommand.
    MissingSshAuthSock,
    /// The command line ended before a subcommand.
    MissingSubCommand,
    /// The first non-option token is no subcommand of the tool.
    UnknownSubCommand,
    /// `create` without `--name`.
    MissingName,
    /// `create` without `--email`.
    MissingEmail,
    /// `copy-id` without arguments to pass on.
    MissingCopyIdArgs,
    /// The `--lookup-hex` value does not end in eight hex digits.
    InvalidLookupHex,
}

/// The lowercase form of an ASCII letter; other characters are left
/// alone.
pub open spec fn spec_lower(c: char) -> char {
    if c == 'A' {
        'a'
    } else if c == 'B' {
        'b'
    } else if c == 'C' {
        'c'
    } else if c == 'D' {
        'd'
    } else if c == 'E' {
        'e'
    } else if c == 'F' {
        'f'
    } else if c == 'G' {
        'g'
    } else if c == 'H' {
        'h'
    } else if c == 'I' {
        'i'
    } else if c == 'J' {
        'j'
    } else if c == 'K' {
        'k'
    } else if c == 'L' {
        'l'
    } else if c == 'M' {
        'm'
    } else if c == 'N' {
        'n'
    } else if c == 'O' {
        'o'
    } else if c == 'P' {
        'p'
    } else if c == 'Q' {
        'q'
    } else if c == 'R' {
        'r'
    } else if c == 'S' {
        's'
    } else if c == 'T' {
        't'
    } else if c == 'U' {
        'u'
    } else if c == 'V' {
        'v'
    } else if c == 'W' {
        'w'
    } else if c == 'X' {
        'x'
    } else if c == 'Y' {
        'y'
    } else if c == 'Z' {
        'z'
    } else {
        c
    }
}

/// Each character lowered.
pub open spec fn to_lower(s: Seq<char>) -> Seq<char> {
    s.map_values(|c: char| spec_lower(c))
}

/// The lowercase form of an ASCII letter.
fn lower_char(c: char) -> (r: char)
    ensures
        r == spec_lower(c),
{
    match c {
        'A' => 'a',
        'B' => 'b',
        'C' => 'c',
        'D' => 'd',
        'E' => 'e',
        'F' => 'f',
        'G' => 'g',
        'H' => 'h',
        'I' => 'i',
        'J' => 'j',
        'K' => 'k',
        'L' => 'l',
        'M' => 'm',
        'N' => 'n',
        'O' => 'o',
        'P' => 'p',
        'Q' => 'q',
        'R' => 'r',
        'S' => 's',
        'T' => 't',
        'U' => 'u',
        'V' => 'v',
        'W' => 'w',
        'X' => 'x',
        'Y' => 'y',
        'Z' => 'z',
        _ => c,
    }
}

/// Case-insensitive string equality, ASCII letters only.
fn eq_ignore_case(a: &str, b: &str) -> (r: bool)
    ensures
        r == (to_lower(a@) == to_lower(b@)),
{
    let n = a.unicode_len();
    let m = b.unicode_len();
    if n != m {
        proof {
            assert(to_lower(a@).len() != to_lower(b@).len());
        }
        return false;
    }
    for i in 0..n
        invariant
            n == a@.len(),
            n == b@.len(),
            forall|j: int| 0 <= j < i ==> spec_lower(a@[j]) == spec_lower(b@[j]),
    {
        if lower_char(a.get_char(i)) != lower_char(b.get_char(i)) {
            proof {
                assert(to_lower(a@)[i as int] != to_lower(b@)[i as int]);
            }
            return false;
        }
    }
    proof {
        assert(to_lower(a@) =~= to_lower(b@));
    }
    true
}

/// The log level a token names, compared without regard to letter case.
pub open spec fn parse_log_level(s: Seq<char>) -> Option<LogLevel> {
    if to_lower(s) == "off"@ {
        Some(LogLevel::Off)
    } else if to_lower(s) == "error"@ {
        Some(LogLevel::Error)
    } else if to_lower(s) == "warn"@ {
        Some(LogLevel::Warn)
    } else if to_lower(s) == "info"@ {
        Some(LogLevel::Info)
    } else if to_lower(s) == "debug"@ {
        Some(LogLevel::Debug)
    } else if to_lower(s) == "trace"@ {
        Some(LogLevel::Trace)
    } else {
        None
    }
}

/// The log level a token names.
pub fn log_level_from_str(s: &str) -> (r: Option<LogLevel>)
    ensures
        r == parse_log_level(s@),
{
    proof {
        reveal_strlit("off");
        reveal_strlit("error");
        reveal_strlit("warn");
        reveal_strlit("info");
        reveal_strlit("debug");
        reveal_strlit("trace");
        assert(to_lower("off"@) =~= "off"@);
        assert(to_lower("error"@) =~= "error"@);
        assert(to_lower("warn"@) =~= "warn"@);
        assert(to_lower("info"@) =~= "info"@);
        assert(to_lower("debug"@) =~= "debug"@);
        assert(to_lower("trace"@) =~= "trace"@);
    }
    if eq_ignore_case(s, "off") {
        Some(LogLevel::Off)
    } else if eq_ignore_case(s, "error") {
        Some(LogLevel::Error)
    } else if eq_ignore_case(s, "warn") {
        Some(LogLevel::Warn)
    } else if eq_ignore_case(s, "info") {
        Some(LogLevel::Info)
    } else if eq_ignore_case(s, "debug") {
        Some(LogLevel::Debug)
    } else if eq_ignore_case(s, "trace") {
        Some(LogLevel::Trace)
    } else {
        None
    }
}

/// The `create` options: `--name` and `--email`, both required, later
/// values winning.
pub open spec fn parse_create(
    args: Seq<Seq<char>>,
    name: Option<Seq<char>>,
    email: Option<Seq<char>>,
) -> Result<SubView, ArgsError>
    decreases args.len(),
{
    if args.len() == 0 {
        match (name, email) {
            (Some(n), Some(e)) => Ok(SubView::Create { name: n, email: e }),
            (None, _) => Err(ArgsError::MissingName),
            (Some(_), None) => Err(ArgsError::MissingEmail),
        }
    } else if args[0] == "--name"@ {
        if args.len() < 2 {
            Err(ArgsError::MissingValue)
        } else {
            parse_create(args.skip(2), Some(args[1]), email)
        }
    } else if args[0] == "--email"@ {
        if args.len() < 2 {
            Err(ArgsError::MissingValue)
        } else {
            parse_create(args.skip(2), name, Some(args[1]))
        }
    } else {
        Err(ArgsError::UnknownOption)
    }
}

/// The `list` options: the `--include-key-id` flag.
pub open spec fn parse_list(args: Seq<Seq<char>>, include_key_id: bool) -> Result<
    SubView,
    ArgsError,
>
    decreases args.len(),
{
    if args.len() == 0 {
        Ok(SubView::List { include_key_id })
    } else if args[0] == "--include-key-id"@ {
        parse_list(args.drop_first(), true)
    } else {
        Err(ArgsError::UnknownOption)
    }
}

/// The `toggle` options: the `--disable-all` flag.
pub open spec fn parse_toggle(args: Seq<Seq<char>>, disable_all: bool) -> Result<
    SubView,
    ArgsError,
>
    decreases args.len(),
{
    if args.len() == 0 {
        Ok(SubView::Toggle { disable_all })
    } else if args[0] == "--disable-all"@ {
        parse_toggle(args.drop_first(), true)
    } else {
        Err(ArgsError::UnknownOption)
    }
}

/// The `copy-id` options: the `--keep-temp-files` flag, and at least one
/// argument to pass on; each passed-on token is split on spaces.
pub open spec fn parse_copy_id(
    args: Seq<Seq<char>>,
    acc: Seq<Seq<char>>,
    keep: bool,
) -> Result<SubView, ArgsError>
    decreases args.len(),
{
    if args.len() == 0 {
        if acc.len() == 0 {
            Err(ArgsError::MissingCopyIdArgs)
        } else {
            Ok(SubView::CopyId { args: acc, keep_temp_files: keep })
        }
    } else if args[0] == "--keep-temp-files"@ {
        parse_copy_id(args.drop_first(), acc, true)
    } else {
        parse_copy_id(args.drop_first(), acc + split_on(args[0], ' '), keep)
    }
}

/// The `public-key` options: an optional `--lookup-hex`, whose value
/// must end in eight hex digits and is stored normalized.
pub open spec fn parse_public_key(args: Seq<Seq<char>>, hex: Option<Seq<char>>) -> Result<
    SubView,
    ArgsError,
>
    decreases args.len(),
{
    if args.len() == 0 {
        Ok(SubView::PublicKey { lookup_hex: hex })
    } else if args[0] == "--lookup-hex"@ {
        if args.len() < 2 {
            Err(ArgsError::MissingValue)
        } else if valid_hex_lookup(args[1]) {
            parse_public_key(args.skip(2), Some(hex_suffix(args[1])))
        } else {
            Err(ArgsError::InvalidLookupHex)
        }
    } else {
        Err(ArgsError::UnknownOption)
    }
}

/// The subcommand at the front of `args` with its options.
pub open spec fn parse_sub(args: Seq<Seq<char>>) -> Result<SubView, ArgsError> {
    let rest = args.drop_first();
    if args[0] == "create"@ {
        parse_create(rest, None, None)
    } else if args[0] == "list"@ {
        parse_list(rest, false)
    } else if args[0] == "toggle"@ {
        parse_toggle(rest, false)
    } else if args[0] == "copy-id"@ {
        parse_copy_id(rest, Seq::empty(), false)
    } else if args[0] == "public-key"@ {
        parse_public_key(rest, None)
    } else {
        Err(ArgsError::UnknownSubCommand)
    }
}

/// The command line: global options first — `--log-level`, and the
/// required `--ssh-auth-sock` — then the subcommand and its options.
pub open spec fn parse_main(
    args: Seq<Seq<char>>,
    log_level: LogLevel,
    sock: Option<Seq<char>>,
) -> Result<MainArgsView, ArgsError>
    decreases args.len(),
{
    if args.len() == 0 {
        Err(ArgsError::MissingSubCommand)
    } else if args[0] == "--log-level"@ {
        if args.len() < 2 {
            Err(ArgsError::MissingValue)
        } else {
            match parse_log_level(args[1]) {
                None => Err(ArgsError::InvalidLogLevel),
                Some(l) => parse_main(args.skip(2), l, sock),
            }
        }
    } else if args[0] == "--ssh-auth-sock"@ {
        if args.len() < 2 {
            Err(ArgsError::MissingValue)
        } else {
            parse_main(args.skip(2), log_level, Some(args[1]))
        }
    } else {
        match sock {
            None => Err(ArgsError::MissingSshAuthSock),
            Some(s) => match parse_sub(args) {
                Err(e) => Err(e),
                Ok(sub) => Ok(MainArgsView { log_level, ssh_auth_sock: s, sub }),
            },
        }
    }
}

/// What a whole argument vector means: parsed with the default log
/// level `info` and no socket yet.
pub open spec fn parse_args_spec(args: Seq<Seq<char>>) -> Result<MainArgsView, ArgsError> {
    parse_main(args, LogLevel::Info, None)
}

/// Parses the argument vector (everything after the program name) into
/// the tool's command line, or says exactly why it is rejected.
pub fn get_args(args: &Vec<String>) -> (r: Result<MainArgs, ArgsError>)
    ensures
        match r {
            Ok(m) => parse_args_spec(args.deep_view()) == Ok::<MainArgsView, ArgsError>(m@),
            Err(e) => parse_args_spec(args.deep_view()) == Err::<MainArgsView, ArgsError>(e),
        },
{
    let ghost av = args.deep_view();
    proof {
        assert(av.skip(0) =~~= av);
    }
    let n = args.len();
    let mut log_level = LogLevel::Info;
    let mut sock: Option<String> = None;
    let mut i: usize = 0;
    while i < n
        invariant
            0 <= i <= n,
            n == args@.len(),
            av == args.deep_view(),
            parse_main(av.skip(i as int), log_level, opt_view(sock)) == parse_args_spec(av),
        decreases n - i,
    {
        proof {
            assert(av.skip(i as int)[0] == av[i as int]);
        }
        if str_eq(args[i].as_str(), "--log-level") {
            if i + 1 >= n {
                return Err(ArgsError::MissingValue);
            }
            proof {
                assert(av.skip(i as int)[1] == av[i + 1]);
                assert(av.skip(i as int).skip(2) =~~= av.skip(i + 2));
            }
            match log_level_from_str(args[i + 1].as_str()) {
                None => {
                    return Err(ArgsError::InvalidLogLevel);
                },
                Some(l) => {
                    log_level = l;
                    i = i + 2;
                },
            }
        } else if str_eq(args[i].as_str(), "--ssh-auth-sock") {
            if i + 1 >= n {
                return Err(ArgsError::MissingValue);
            }
            proof {
                assert(av.skip(i as int)[1] == av[i + 1]);
                assert(av.skip(i as int).skip(2) =~~= av.skip(i + 2));
            }
            sock = Some(args[i + 1].clone());
            i = i + 2;
        } else {
            // The subcommand starts here.
            let s = match sock {
                None => {
                    return Err(ArgsError::MissingSshAuthSock);
                },
                Some(s) => s,
            };
            let sub = match parse_sub_args(args, i) {
                Err(e) => {
                    return Err(e);
                },
                Ok(sub) => sub,
            };
            return Ok(MainArgs { log_level, ssh_auth_sock: s, sub_commands: sub });
        }
    }
    proof {
        assert(av.skip(n as int) =~~= Seq::<Seq<char>>::empty());
    }
    Err(ArgsError::MissingSubCommand)
}

/// The subcommand beginning at `start` with its options.
fn parse_sub_args(args: &Vec<String>, start: usize) -> (r: Result<SubCommands, ArgsError>)
    requires
        start < args@.len(),
    ensures
        match r {
            Ok(s) => parse_sub(args.deep_view().skip(start as int)) == Ok::<SubView, ArgsError>(s@),
            Err(e) => parse_sub(args.deep_view().skip(start as int)) == Err::<SubView, ArgsError>(e),
        },
{
    let ghost av = args.deep_view();
    let n = args.len();
    proof {
        assert(start + 1 <= n);
        assert(av.skip(start as int)[0] == av[start as int]);
        assert(av.skip(start as int).drop_first() =~~= av.skip(start + 1));
    }
    let c = args[start].as_str();
    if str_eq(c, "create") {
        match parse_create_args(args, start + 1) {
            Ok(a) => Ok(SubCommands::Create(a)),
            Err(e) => Err(e),
        }
    } else if str_eq(c, "list") {
        match parse_list_args(args, start + 1) {
            Ok(a) => Ok(SubCommands::List(a)),
            Err(e) => Err(e),
        }
    } else if str_eq(c, "toggle") {
        match parse_toggle_args(args, start + 1) {
            Ok(a) => Ok(SubCommands::Toggle(a)),
            Err(e) => Err(e),
        }
    } else if str_eq(c, "copy-id") {
        match parse_copy_id_args(args, start + 1) {
            Ok(a) => Ok(SubCommands::CopyId(a)),
            Err(e) => Err(e),
        }
    } else if str_eq(c, "public-key") {
        match parse_public_key_args(args, start + 1) {
            Ok(a) => Ok(SubCommands::PublicKey(a)),
            Err(e) => Err(e),
        }
    } else {
        Err(ArgsError::UnknownSubCommand)
    }
}

fn parse_create_args(args: &Vec<String>, start: usize) -> (r: Result<CreateArgs, ArgsError>)
    requires
        start <= args@.len(),
    ensures
        match r {
            Ok(a) => parse_create(args.deep_view().skip(start as int), None, None) == Ok::<SubView, ArgsError>(
                SubView::Create { name: a.name@, email: a.email@ },
            ),
            Err(e) => parse_create(args.deep_view().skip(start as int), None, None) == Err::<SubView, ArgsError>(e),
        },
{
    let ghost av = args.deep_view();
    proof {
        assert(av.skip(start as int).skip(0) =~~= av.skip(start as int));
    }
    let n = args.len();
    let mut name: Option<String> = None;
    let mut email: Option<String> = None;
    let mut i: usize = start;
    while i < n
        invariant
            start <= i <= n,
            n == args@.len(),
            av == args.deep_view(),
            parse_create(av.skip(i as int), opt_view(name), opt_view(email)) == parse_create(
                av.skip(start as int),
                None,
                None,
            ),
        decreases n - i,
    {
        proof {
            assert(av.skip(i as int)[0] == av[i as int]);
        }
        if str_eq(args[i].as_str(), "--name") {
            if i + 1 >= n {
                return Err(ArgsError::MissingValue);
            }
            proof {
                assert(av.skip(i as int)[1] == av[i + 1]);
                assert(av.skip(i as int).skip(2) =~~= av.skip(i + 2));
            }
            name = Some(args[i + 1].clone());
            i = i + 2;
        } else if str_eq(args[i].as_str(), "--email") {
            if i + 1 >= n {
                return Err(ArgsError::MissingValue);
            }
            proof {
                assert(av.skip(i as int)[1] == av[i + 1]);
                assert(av.skip(i as int).skip(2) =~~= av.skip(i + 2));
            }
            email = Some(args[i + 1].clone());
            i = i + 2;
        } else {
            return Err(ArgsError::UnknownOption);
        }
    }
    proof {
        assert(av.skip(n as int) =~~= Seq::<Seq<char>>::empty());
    }
    let name = match name {
        None => {
            return Err(ArgsError::MissingName);
        },
        Some(v) => v,
    };
    let email = match email {
        None => {
            return Err(ArgsError::MissingEmail);
        },
        Some(v) => v,
    };
    Ok(CreateArgs { name, email })
}

fn parse_list_args(args: &Vec<String>, start: usize) -> (r: Result<ListArgs, ArgsError>)
    requires
        start <= args@.len(),
    ensures
        match r {
            Ok(a) => parse_list(args.deep_view().skip(start as int), false) == Ok::<SubView, ArgsError>(
                SubView::List { include_key_id: a.include_key_id },
            ),
            Err(e) => parse_list(args.deep_view().skip(start as int), false) == Err::<SubView, ArgsError>(e),
        },
{
    let ghost av = args.deep_view();
    proof {
        assert(av.skip(start as int).skip(0) =~~= av.skip(start as int));
    }
    let n = args.len();
    let mut include_key_id = false;
    let mut i: usize = start;
    while i < n
        invariant
            start <= i <= n,
            n == args@.len(),
            av == args.deep_view(),
            parse_list(av.skip(i as int), include_key_id) == parse_list(
                av.skip(start as int),
                false,
            ),
        decreases n - i,
    {
        proof {
            assert(av.skip(i as int)[0] == av[i as int]);
            assert(av.skip(i as int).drop_first() =~~= av.skip(i + 1));
        }
        if str_eq(args[i].as_str(), "--include-key-id") {
            include_key_id = true;
            i = i + 1;
        } else {
            return Err(ArgsError::UnknownOption);
        }
    }
    proof {
        assert(av.skip(n as int) =~~= Seq::<Seq<char>>::empty());
    }
    Ok(ListArgs { include_key_id })
}

fn parse_toggle_args(args: &Vec<String>, start: usize) -> (r: Result<ToggleArgs, ArgsError>)
    requires
        start <= args@.len(),
    ensures
        match r {
            Ok(a) => parse_toggle(args.deep_view().skip(start as int), false) == Ok::<SubView, ArgsError>(
                SubView::Toggle { disable_all: a.disable_all },
            ),
            Err(e) => parse_toggle(args.deep_view().skip(start as int), false) == Err::<SubView, ArgsError>(e),
        },
{
    let ghost av = args.deep_view();
    proof {
        assert(av.skip(start as int).skip(0) =~~= av.skip(start as int));
    }
    let n = args.len();
    let mut disable_all = false;
    let mut i: usize = start;
    while i < n
        invariant
            start <= i <= n,
            n == args@.len(),
            av == args.deep_view(),
            parse_toggle(av.skip(i as int), disable_all) == parse_toggle(
                av.skip(start as int),
                false,
            ),
        decreases n - i,
    {
        proof {
            assert(av.skip(i as int)[0] == av[i as int]);
            assert(av.skip(i as int).drop_first() =~~= av.skip(i + 1));
        }
        if str_eq(args[i].as_str(), "--disable-all") {
            disable_all = true;
            i = i + 1;
        } else {
            return Err(ArgsError::UnknownOption);
        }
    }
    proof {
        assert(av.skip(n as int) =~~= Seq::<Seq<char>>::empty());
    }
    Ok(ToggleArgs { disable_all })
}

fn parse_copy_id_args(args: &Vec<String>, start: usize) -> (r: Result<CopyIdArgs, ArgsError>)
    requires
        start <= args@.len(),
    ensures
        match r {
            Ok(a) => parse_copy_id(args.deep_view().skip(start as int), Seq::empty(), false)
                == Ok::<SubView, ArgsError>(SubView::CopyId { args: a.args.deep_view(), keep_temp_files: a
                .keep_temp_files }),
            Err(e) => parse_copy_id(args.deep_view().skip(start as int), Seq::empty(), false)
                == Err::<SubView, ArgsError>(e),
        },
{
    let ghost av = args.deep_view();
    let n = args.len();
    let mut acc: Vec<String> = Vec::new();
    let mut keep = false;
    proof {
        assert(av.skip(start as int).skip(0) =~~= av.skip(start as int));
        assert(acc.deep_view() =~~= Seq::<Seq<char>>::empty());
    }
    let mut i: usize = start;
    while i < n
        invariant
            start <= i <= n,
            n == args@.len(),
            av == args.deep_view(),
            parse_copy_id(av.skip(i as int), acc.deep_view(), keep) == parse_copy_id(
                av.skip(start as int),
                Seq::empty(),
                false,
            ),
        decreases n - i,
    {
        proof {
            assert(av.skip(i as int)[0] == av[i as int]);
            assert(av.skip(i as int).drop_first() =~~= av.skip(i + 1));
        }
        if str_eq(args[i].as_str(), "--keep-temp-files") {
            keep = true;
        } else {
            let ghost pre = acc.deep_view();
            let parts = split_str(args[i].as_str(), ' ');
            let m = parts.len();
            let mut k: usize = 0;
            while k < m
                invariant
                    0 <= k <= m,
                    m == parts@.len(),
                    acc.deep_view() =~~= pre + parts.deep_view().take(k as int),
                decreases m - k,
            {
                let ghost acc_pre = acc.deep_view();
                acc.push(parts[k].clone());
                proof {
                    assert(acc.deep_view() =~~= acc_pre.push(parts.deep_view()[k as int]));
                    assert(acc.deep_view() =~~= pre + parts.deep_view().take(k + 1));
                }
                k = k + 1;
            }
            proof {
                assert(parts.deep_view().take(m as int) =~~= parts.deep_view());
                assert(acc.deep_view() =~~= pre + split_on(av[i as int], ' '));
            }
        }
        i = i + 1;
    }
    proof {
        assert(av.skip(n as int) =~~= Seq::<Seq<char>>::empty());
    }
    if acc.len() == 0 {
        return Err(ArgsError::MissingCopyIdArgs);
    }
    Ok(CopyIdArgs { args: acc, keep_temp_files: keep })
}

fn parse_public_key_args(args: &Vec<String>, start: usize) -> (r: Result<
    PublicKeyArgs,
    ArgsError,
>)
    requires
        start <= args@.len(),
    ensures
        match r {
            Ok(a) => parse_public_key(args.deep_view().skip(start as int), None) == Ok::<SubView, ArgsError>(
                SubView::PublicKey { lookup_hex: opt_view(a.lookup_hex) },
            ),
            Err(e) => parse_public_key(args.deep_view().skip(start as int), None) == Err::<SubView, ArgsError>(e),
        },
{
    let ghost av = args.deep_view();
    proof {
        assert(av.skip(start as int).skip(0) =~~= av.skip(start as int));
    }
    let n = args.len();
    let mut hex: Option<String> = None;
    let mut i: usize = start;
    while i < n
        invariant
            start <= i <= n,
            n == args@.len(),
            av == args.deep_view(),
            parse_public_key(av.skip(i as int), opt_view(hex)) == parse_public_key(
                av.skip(start as int),
                None,
            ),
        decreases n - i,
    {
        proof {
            assert(av.skip(i as int)[0] == av[i as int]);
        }
        if str_eq(args[i].as_str(), "--lookup-hex") {
            if i + 1 >= n {
                return Err(ArgsError::MissingValue);
            }
            proof {
                assert(av.skip(i as int)[1] == av[i + 1]);
                assert(av.skip(i as int).skip(2) =~~= av.skip(i + 2));
            }
            match verify_lookup_hex(args[i + 1].as_str()) {
                Ok(h) => {
                    hex = Some(h);
                    i = i + 2;
                },
                Err(_) => {
                    return Err(ArgsError::InvalidLookupHex);
                },
            }
        } else {
            return Err(ArgsError::UnknownOption);
        }
    }
    proof {
        assert(av.skip(n as int) =~~= Seq::<Seq<char>>::empty());
    }
    Ok(PublicKeyArgs { lookup_hex: hex })
}

} // verus!
