//! The command line: which flags are given, which command runs, and what is refused.
use vstd::prelude::*;
use crate::text::same_text;

verus! {

/// What the command line asks for, once it is checked.
pub struct Config {
    /// Name of the container that holds the network namespace open.
    pub name: String,
    /// The Docker network to join.
    pub net: String,
    /// The address the container gets on that network.
    pub ip: String,
    pub quiet: bool,
    /// Report each step of the setup.
    pub verbose: bool,
    /// Clear the capability bounding set too.
    pub strict: bool,
    /// The command to run and its arguments; never empty once parsed.
    pub cmd: Vec<String>,
}

/// A `Config` as values.
pub struct ConfigView {
    pub name: Seq<char>,
    pub net: Seq<char>,
    pub ip: Seq<char>,
    pub quiet: bool,
    pub verbose: bool,
    pub strict: bool,
    pub cmd: Seq<Seq<char>>,
}

/// The texts of a list of strings.
pub open spec fn texts(v: Seq<String>) -> Seq<Seq<char>> {
    v.map_values(|s: String| s@)
}

impl View for Config {
    type V = ConfigView;

    open spec fn view(&self) -> ConfigView {
        ConfigView {
            name: self.name@,
            net: self.net@,
            ip: self.ip@,
            quiet: self.quiet,
            verbose: self.verbose,
            strict: self.strict,
            cmd: texts(self.cmd@),
        }
    }
}

/// What a command line asks the program to do.
pub enum Invocation {
    /// Print the usage text and stop.
    Help,
    /// Print the version and stop.
    Version,
    /// Run the command as `Config` says.
    Run(Config),
}

/// An `Invocation` as values.
pub enum InvocationView {
    Help,
    Version,
    Run(ConfigView),
}

impl View for Invocation {
    type V = InvocationView;

    open spec fn view(&self) -> InvocationView {
        match self {
            Invocation::Help => InvocationView::Help,
            Invocation::Version => InvocationView::Version,
            Invocation::Run(c) => InvocationView::Run(c@),
        }
    }
}

/// The flags that take a value.
#[derive(Clone, Copy, PartialEq, Eq, Structural)]
pub enum Flag {
    Name,
    Net,
    Ip,
}

/// Why a command line is refused.
pub enum CliError {
    /// A flag that takes a value is the last argument.
    MissingValue(Flag),
    /// An argument starts with `-` but is no flag.
    UnknownFlag(String),
    /// No command follows the flags.
    MissingCommand,
    /// A required flag is not given.
    MissingFlag(Flag),
    /// The address is no IP address.
    InvalidIp(String),
    /// The container or network name is no Docker name.
    InvalidIdentifier,
}

/// A `CliError` as values.
pub enum CliErrorView {
    MissingValue(Flag),
    UnknownFlag(Seq<char>),
    MissingCommand,
    MissingFlag(Flag),
    InvalidIp(Seq<char>),
    InvalidIdentifier,
}

impl View for CliError {
    type V = CliErrorView;

    open spec fn view(&self) -> CliErrorView {
        match self {
            CliError::MissingValue(f) => CliErrorView::MissingValue(*f),
            CliError::UnknownFlag(a) => CliErrorView::UnknownFlag(a@),
            CliError::MissingCommand => CliErrorView::MissingCommand,
            CliError::MissingFlag(f) => CliErrorView::MissingFlag(*f),
            CliError::InvalidIp(ip) => CliErrorView::InvalidIp(ip@),
            CliError::InvalidIdentifier => CliErrorView::InvalidIdentifier,
        }
    }
}

/// The text by which a flag that takes a value is written in long form.
pub open spec fn flag_text(f: Flag) -> Seq<char> {
    match f {
        Flag::Name => "--name"@,
        Flag::Net => "--net"@,
        Flag::Ip => "--ip"@,
    }
}

/// The message shown for a refused command line.
pub open spec fn error_message(e: CliErrorView) -> Seq<char> {
    match e {
        CliErrorView::MissingValue(f) => "Missing value for "@ + flag_text(f),
        CliErrorView::UnknownFlag(a) => "Unknown flag: "@ + a,
        CliErrorView::MissingCommand => "Missing command to execute"@,
        CliErrorView::MissingFlag(f) => "Missing required flag: "@ + flag_text(f),
        CliErrorView::InvalidIp(ip) => "Invalid IP format ('"@ + ip + "')"@,
        CliErrorView::InvalidIdentifier => "Invalid network or container identifier syntax"@,
    }
}

fn flag_name(f: Flag) -> (r: &'static str)
    ensures
        r@ == flag_text(f),
{
    match f {
        Flag::Name => "--name",
        Flag::Net => "--net",
        Flag::Ip => "--ip",
    }
}

impl CliError {
    /// The message shown for this error.
    pub fn message(&self) -> (m: String)
        ensures
            m@ == error_message(self@),
    {
        match self {
            CliError::MissingValue(f) => String::from_str("Missing value for ").concat(flag_name(*f)),
            CliError::UnknownFlag(a) => String::from_str("Unknown flag: ").concat(a.as_str()),
            CliError::MissingCommand => String::from_str("Missing command to execute"),
            CliError::MissingFlag(f) => String::from_str("Missing required flag: ").concat(
                flag_name(*f),
            ),
            CliError::InvalidIp(ip) => String::from_str("Invalid IP format ('").concat(
                ip.as_str(),
            ).concat("')"),
            CliError::InvalidIdentifier => String::from_str(
                "Invalid network or container identifier syntax",
            ),
        }
    }
}

/// The characters a Docker container or network name may hold.
pub open spec fn is_identifier_char(c: char) -> bool {
    ||| 'a' <= c <= 'z'
    ||| 'A' <= c <= 'Z'
    ||| '0' <= c <= '9'
    ||| c == '_'
    ||| c == '-'
    ||| c == '.'
}

/// A name Docker accepts here: not empty, not starting with `-`, made of ASCII letters, digits,
/// `_`, `-` and `.`.
pub open spec fn is_docker_identifier(s: Seq<char>) -> bool {
    &&& s.len() > 0
    &&& s[0] != '-'
    &&& forall|i: int| 0 <= i < s.len() ==> #[trigger] is_identifier_char(s[i])
}

/// Tests `is_docker_identifier`.
pub fn is_valid_docker_identifier(s: &str) -> (r: bool)
    ensures
        r == is_docker_identifier(s@),
{
    let n = s.unicode_len();
    if n == 0 || s.get_char(0) == '-' {
        return false;
    }
    let mut i: usize = 0;
    while i < n
        invariant
            n == s@.len(),
            i <= n,
            forall|j: int| 0 <= j < i ==> #[trigger] is_identifier_char(s@[j]),
        decreases n - i,
    {
        let c = s.get_char(i);
        if !(('a' <= c && c <= 'z') || ('A' <= c && c <= 'Z') || ('0' <= c && c <= '9') || c == '_'
            || c == '-' || c == '.') {
            assert(!is_identifier_char(s@[i as int]));
            return false;
        }
        i = i + 1;
    }
    true
}


/// What the flags seen so far have set, and the command once it is found.
pub struct Scan {
    pub name: Option<Seq<char>>,
    pub net: Option<Seq<char>>,
    pub ip: Option<Seq<char>>,
    pub quiet: bool,
    pub verbose: bool,
    pub strict: bool,
    pub cmd: Seq<Seq<char>>,
}

/// Nothing seen yet.
pub open spec fn scan_start() -> Scan {
    Scan {
        name: None,
        net: None,
        ip: None,
        quiet: false,
        verbose: false,
        strict: false,
        cmd: Seq::empty(),
    }
}

/// Reads the arguments from the left. A flag that takes a value takes the next argument,
/// whatever it is, and a later one overrides an earlier one; `--` ends the flags and the rest is
/// the command; an argument that starts with `-` and is no flag is refused; any other argument
/// starts the command, which is that argument and all that follow.
pub open spec fn scan_args(args: Seq<Seq<char>>, seen: Scan) -> Result<Scan, CliErrorView>
    decreases args.len(),
{
    if args.len() == 0 {
        Ok(seen)
    } else {
        let a = args[0];
        let rest = args.drop_first();
        if a == "--name"@ || a == "-n"@ {
            if rest.len() == 0 {
                Err(CliErrorView::MissingValue(Flag::Name))
            } else {
                scan_args(rest.drop_first(), Scan { name: Some(rest[0]), ..seen })
            }
        } else if a == "--net"@ {
            if rest.len() == 0 {
                Err(CliErrorView::MissingValue(Flag::Net))
            } else {
                scan_args(rest.drop_first(), Scan { net: Some(rest[0]), ..seen })
            }
        } else if a == "--ip"@ {
            if rest.len() == 0 {
                Err(CliErrorView::MissingValue(Flag::Ip))
            } else {
                scan_args(rest.drop_first(), Scan { ip: Some(rest[0]), ..seen })
            }
        } else if a == "--quiet"@ || a == "-q"@ {
            scan_args(rest, Scan { quiet: true, ..seen })
        } else if a == "--verbose"@ || a == "-v"@ {
            scan_args(rest, Scan { verbose: true, ..seen })
        } else if a == "--strict"@ {
            scan_args(rest, Scan { strict: true, ..seen })
        } else if a == "--"@ {
            Ok(Scan { cmd: rest, ..seen })
        } else if a.len() > 0 && a[0] == '-' {
            Err(CliErrorView::UnknownFlag(a))
        } else {
            Ok(Scan { cmd: args, ..seen })
        }
    }
}

/// Whether `a` is a flag that takes the next argument as its value.
pub open spec fn takes_value(a: Seq<char>) -> bool {
    a == "--name"@ || a == "-n"@ || a == "--net"@ || a == "--ip"@
}

/// Where the wrapper's own arguments end, reading from `i`: at `--`, or at the first argument
/// that is neither a flag (it starts with `-`) nor the value of a flag that takes one; at the
/// end when neither comes. What follows belongs to the command.
pub open spec fn wrapper_end(args: Seq<Seq<char>>, i: int) -> int
    decreases args.len() - i,
{
    if i < 0 || i >= args.len() {
        args.len() as int
    } else if takes_value(args[i]) {
        if i + 1 >= args.len() {
            args.len() as int
        } else {
            wrapper_end(args, i + 2)
        }
    } else if args[i] == "--"@ {
        i
    } else if args[i].len() > 0 && args[i][0] == '-' {
        wrapper_end(args, i + 1)
    } else {
        i
    }
}

/// Whether one of the wrapper's own arguments asks for the usage text.
pub open spec fn asks_help(args: Seq<Seq<char>>) -> bool {
    exists|i: int| 0 <= i < wrapper_end(args, 0) && (args[i] == "--help"@ || args[i] == "-h"@)
}

/// Whether one of the wrapper's own arguments asks for the version.
pub open spec fn asks_version(args: Seq<Seq<char>>) -> bool {
    exists|i: int| 0 <= i < wrapper_end(args, 0) && (args[i] == "--version"@ || args[i] == "-V"@)
}

/// What a command line asks for, or why it is refused. Asking for help among the wrapper's own
/// arguments wins over everything, then asking for the version (the command's arguments, after
/// `--` or from the command's first word on, are the command's); then the flags are read, and the command, the
/// name, the network and the address must all be there, checked in that order.
pub open spec fn parse_outcome(args: Seq<Seq<char>>) -> Result<InvocationView, CliErrorView> {
    if asks_help(args) {
        Ok(InvocationView::Help)
    } else if asks_version(args) {
        Ok(InvocationView::Version)
    } else {
        match scan_args(args, scan_start()) {
            Err(e) => Err(e),
            Ok(s) => if s.cmd.len() == 0 {
                Err(CliErrorView::MissingCommand)
            } else if s.name is None {
                Err(CliErrorView::MissingFlag(Flag::Name))
            } else if s.net is None {
                Err(CliErrorView::MissingFlag(Flag::Net))
            } else if s.ip is None {
                Err(CliErrorView::MissingFlag(Flag::Ip))
            } else {
                Ok(
                    InvocationView::Run(
                        ConfigView {
                            name: s.name->0,
                            net: s.net->0,
                            ip: s.ip->0,
                            quiet: s.quiet,
                            verbose: s.verbose,
                            strict: s.strict,
                            cmd: s.cmd,
                        },
                    ),
                )
            },
        }
    }
}

fn wrapper_words_end(args: &Vec<String>) -> (r: usize)
    ensures
        r == wrapper_end(texts(args@), 0),
        r <= args@.len(),
{
    let ghost all = texts(args@);
    let n = args.len();
    let mut i: usize = 0;
    while i < n
        invariant
            n == args@.len(),
            all == texts(args@),
            i <= n,
            wrapper_end(all, 0) == wrapper_end(all, i as int),
        decreases n - i,
    {
        let a = args[i].as_str();
        assert(all[i as int] == a@);
        if same_text(a, "--name") || same_text(a, "-n") || same_text(a, "--net") || same_text(
            a,
            "--ip",
        ) {
            if i + 1 >= n {
                return n;
            }
            i = i + 2;
        } else if same_text(a, "--") {
            return i;
        } else if a.unicode_len() > 0 && a.get_char(0) == '-' {
            i = i + 1;
        } else {
            return i;
        }
    }
    n
}

fn any_argument_is(args: &Vec<String>, end: usize, long: &str, short: &str) -> (r: bool)
    requires
        end <= args@.len(),
    ensures
        r == exists|i: int| 0 <= i < end && (texts(args@)[i] == long@ || texts(args@)[i] == short@),
{
    let mut i: usize = 0;
    while i < end
        invariant
            end <= args@.len(),
            i <= end,
            forall|j: int| 0 <= j < i ==> !(texts(args@)[j] == long@ || texts(args@)[j] == short@),
        decreases end - i,
    {
        if same_text(args[i].as_str(), long) || same_text(args[i].as_str(), short) {
            assert(texts(args@)[i as int] == args@[i as int]@);
            return true;
        }
        i = i + 1;
    }
    false
}

fn clone_from(args: &Vec<String>, from: usize) -> (v: Vec<String>)
    requires
        from <= args@.len(),
    ensures
        texts(v@) == texts(args@).skip(from as int),
{
    let mut v: Vec<String> = Vec::new();
    let mut i = from;
    while i < args.len()
        invariant
            from <= i <= args@.len(),
            texts(v@) =~= texts(args@).subrange(from as int, i as int),
        decreases args.len() - i,
    {
        let ghost before = v@;
        let item = args[i].clone();
        v.push(item);
        assert(texts(v@) =~= texts(before).push(args@[i as int]@));
        assert(texts(args@).subrange(from as int, i + 1) =~= texts(args@).subrange(from as int, i as int).push(args@[i as int]@));
        i = i + 1;
    }
    assert(texts(v@) =~= texts(args@).skip(from as int));
    v
}

struct Scanned {
    name: Option<String>,
    net: Option<String>,
    ip: Option<String>,
    quiet: bool,
    verbose: bool,
    strict: bool,
    cmd: Vec<String>,
}

spec fn text_of(o: Option<String>) -> Option<Seq<char>> {
    match o {
        Some(s) => Some(s@),
        None => None,
    }
}

spec fn scanned_view(name: Option<String>, net: Option<String>, ip: Option<String>, quiet: bool, verbose: bool, strict: bool, cmd: Seq<Seq<char>>) -> Scan {
    Scan { name: text_of(name), net: text_of(net), ip: text_of(ip), quiet, verbose, strict, cmd }
}

fn scan(args: &Vec<String>) -> (r: Result<Scanned, CliError>)
    ensures
        match scan_args(texts(args@), scan_start()) {
            Ok(s) => r matches Ok(x) && scanned_view(x.name, x.net, x.ip, x.quiet, x.verbose, x.strict, texts(x.cmd@)) == s,
            Err(e) => r matches Err(x) && x@ == e,
        },
{
    let ghost all = texts(args@);
    let n = args.len();
    let mut name: Option<String> = None;
    let mut net: Option<String> = None;
    let mut ip: Option<String> = None;
    let mut quiet = false;
    let mut verbose = false;
    let mut strict = false;
    let mut i: usize = 0;
    assert(all.skip(0) =~= all);
    while i < n
        invariant
            n == args@.len(),
            all == texts(args@),
            i <= n,
            scan_args(all, scan_start()) == scan_args(all.skip(i as int), scanned_view(name, net, ip, quiet, verbose, strict, Seq::empty())),
        decreases n - i,
    {
        let a = args[i].as_str();
        let ghost rest = all.skip(i as int);
        assert(rest[0] == a@);
        assert(rest.drop_first() =~= all.skip(i + 1));
        if same_text(a, "--name") || same_text(a, "-n") {
            if i + 1 >= n {
                return Err(CliError::MissingValue(Flag::Name));
            }
            assert(rest.drop_first().drop_first() =~= all.skip(i + 2));
            name = Some(args[i + 1].clone());
            i = i + 2;
        } else if same_text(a, "--net") {
            if i + 1 >= n {
                return Err(CliError::MissingValue(Flag::Net));
            }
            assert(rest.drop_first().drop_first() =~= all.skip(i + 2));
            net = Some(args[i + 1].clone());
            i = i + 2;
        } else if same_text(a, "--ip") {
            if i + 1 >= n {
                return Err(CliError::MissingValue(Flag::Ip));
            }
            assert(rest.drop_first().drop_first() =~= all.skip(i + 2));
            ip = Some(args[i + 1].clone());
            i = i + 2;
        } else if same_text(a, "--quiet") || same_text(a, "-q") {
            quiet = true;
            i = i + 1;
        } else if same_text(a, "--verbose") || same_text(a, "-v") {
            verbose = true;
            i = i + 1;
        } else if same_text(a, "--strict") {
            strict = true;
            i = i + 1;
        } else if same_text(a, "--") {
            let cmd = clone_from(args, i + 1);
            return Ok(Scanned { name, net, ip, quiet, verbose, strict, cmd });
        } else if a.unicode_len() > 0 && a.get_char(0) == '-' {
            return Err(CliError::UnknownFlag(args[i].clone()));
        } else {
            let cmd = clone_from(args, i);
            return Ok(Scanned { name, net, ip, quiet, verbose, strict, cmd });
        }
    }
    assert(all.skip(i as int) =~= Seq::<Seq<char>>::empty());
    let cmd: Vec<String> = Vec::new();
    assert(texts(cmd@) =~= Seq::<Seq<char>>::empty());
    Ok(Scanned { name, net, ip, quiet, verbose, strict, cmd })
}

/// Reads the command line: the arguments after the program's name.
pub fn parse_args(args: &Vec<String>) -> (r: Result<Invocation, CliError>)
    ensures
        match parse_outcome(texts(args@)) {
            Ok(inv) => r matches Ok(x) && x@ == inv,
            Err(e) => r matches Err(x) && x@ == e,
        },
{
    let end = wrapper_words_end(args);
    if any_argument_is(args, end, "--help", "-h") {
        return Ok(Invocation::Help);
    }
    if any_argument_is(args, end, "--version", "-V") {
        return Ok(Invocation::Version);
    }
    let s = match scan(args) {
        Ok(s) => s,
        Err(e) => {
            return Err(e);
        },
    };
    if s.cmd.len() == 0 {
        return Err(CliError::MissingCommand);
    }
    let name = match s.name {
        Some(v) => v,
        None => {
            return Err(CliError::MissingFlag(Flag::Name));
        },
    };
    let net = match s.net {
        Some(v) => v,
        None => {
            return Err(CliError::MissingFlag(Flag::Net));
        },
    };
    let ip = match s.ip {
        Some(v) => v,
        None => {
            return Err(CliError::MissingFlag(Flag::Ip));
        },
    };
    Ok(
        Invocation::Run(
            Config {
                name,
                net,
                ip,
                quiet: s.quiet,
                verbose: s.verbose,
                strict: s.strict,
                cmd: s.cmd,
            },
        ),
    )
}

/// What checking a parsed command line gives: the address is checked first, then the container
/// and network names.
pub open spec fn check_outcome(config: ConfigView, ip_is_address: bool) -> Result<ConfigView, CliErrorView> {
    if !ip_is_address {
        Err(CliErrorView::InvalidIp(config.ip))
    } else if !(is_docker_identifier(config.name) && is_docker_identifier(config.net)) {
        Err(CliErrorView::InvalidIdentifier)
    } else {
        Ok(config)
    }
}

/// Checks the values of a parsed command line. `ip_is_address` says whether `config.ip` reads
/// as an IPv4 or IPv6 address.
pub fn check_config(config: Config, ip_is_address: bool) -> (r: Result<Config, CliError>)
    ensures
        match check_outcome(config@, ip_is_address) {
            Ok(c) => r matches Ok(x) && x@ == c,
            Err(e) => r matches Err(x) && x@ == e,
        },
{
    if !ip_is_address {
        return Err(CliError::InvalidIp(config.ip));
    }
    if !is_valid_docker_identifier(config.name.as_str()) || !is_valid_docker_identifier(
        config.net.as_str(),
    ) {
        return Err(CliError::InvalidIdentifier);
    }
    Ok(config)
}


proof fn lemma_scan_command_is_suffix(args: Seq<Seq<char>>, seen: Scan)
    ensures
        scan_args(args, seen) matches Ok(t) ==> t.cmd == seen.cmd || (t.cmd.len() <= args.len()
            && t.cmd == args.skip(args.len() - t.cmd.len())),
    decreases args.len(),
{
    if args.len() > 0 {
        let rest = args.drop_first();
        assert(rest =~= args.skip(1));
        if rest.len() > 0 {
            let rest2 = rest.drop_first();
            assert(rest2 =~= args.skip(2));
            lemma_scan_command_is_suffix(rest2, Scan { name: Some(rest[0]), ..seen });
            lemma_scan_command_is_suffix(rest2, Scan { net: Some(rest[0]), ..seen });
            lemma_scan_command_is_suffix(rest2, Scan { ip: Some(rest[0]), ..seen });
            assert forall|k: int| 0 <= k <= rest2.len() implies #[trigger] rest2.skip(k) == args.skip(
                k + 2,
            ) by {
                assert(rest2.skip(k) =~= args.skip(k + 2));
            }
        }
        lemma_scan_command_is_suffix(rest, Scan { quiet: true, ..seen });
        lemma_scan_command_is_suffix(rest, Scan { verbose: true, ..seen });
        lemma_scan_command_is_suffix(rest, Scan { strict: true, ..seen });
        assert forall|k: int| 0 <= k <= rest.len() implies #[trigger] rest.skip(k) == args.skip(k + 1) by {
            assert(rest.skip(k) =~= args.skip(k + 1));
        }
        assert(args.skip(0) =~= args);
    }
}

/// The command of a command line that is run is its tail, argument for argument: what the
/// wrapper's flags leave, unchanged.
pub proof fn lemma_command_is_tail(args: Seq<Seq<char>>)
    ensures
        parse_outcome(args) matches Ok(InvocationView::Run(c)) ==> c.cmd.len() <= args.len()
            && c.cmd == args.skip(args.len() - c.cmd.len()),
{
    lemma_scan_command_is_suffix(args, scan_start());
}

/// Asking for help among the wrapper's own arguments always gives the usage text, whatever
/// else the command line holds; `--help` or `-h` alone is such a request.
pub proof fn lemma_help_request_answered(args: Seq<Seq<char>>, i: int)
    requires
        0 <= i < wrapper_end(args, 0),
        args[i] == "--help"@ || args[i] == "-h"@,
    ensures
        parse_outcome(args) == Ok::<InvocationView, CliErrorView>(InvocationView::Help),
        parse_outcome(seq!["--help"@]) == Ok::<InvocationView, CliErrorView>(InvocationView::Help),
        parse_outcome(seq!["-h"@]) == Ok::<InvocationView, CliErrorView>(InvocationView::Help),
{
    reveal_strlit("--help");
    reveal_strlit("-h");
    reveal_strlit("--name");
    reveal_strlit("-n");
    reveal_strlit("--net");
    reveal_strlit("--ip");
    reveal_strlit("--");
    assert(asks_help(args));
    let h = seq!["--help"@];
    let s = seq!["-h"@];
    assert(!takes_value("--help"@)) by {
        assert("--help"@[2] != "--name"@[2]);
        assert("--help"@.len() != "-n"@.len() && "--help"@.len() != "--net"@.len());
        assert("--help"@.len() != "--ip"@.len());
    }
    assert(!takes_value("-h"@)) by {
        assert("-h"@[1] != "-n"@[1]);
        assert("-h"@.len() != "--name"@.len() && "-h"@.len() != "--net"@.len());
        assert("-h"@.len() != "--ip"@.len());
    }
    assert("--help"@ != "--"@ && "-h"@ != "--"@) by {
        assert("--help"@.len() != "--"@.len());
        assert("-h"@[1] != "--"@[1]);
    }
    assert(h[0] == "--help"@ && s[0] == "-h"@);
    assert(wrapper_end(h, 1) == 1);
    assert(wrapper_end(h, 0) == 1);
    assert(wrapper_end(s, 1) == 1);
    assert(wrapper_end(s, 0) == 1);
    assert(asks_help(h));
    assert(asks_help(s));
}

/// What Docker accepts as a name here, character by character: any non-empty text, of any
/// length, that does not start with `-` and holds only ASCII letters, digits, `_`, `-` and `.`.
pub open spec fn plain_docker_name(s: Seq<char>) -> bool {
    &&& s.len() > 0
    &&& s[0] != '-'
    &&& forall|i: int| 0 <= i < s.len() ==> {
        let c = #[trigger] s[i];
        ('a' <= c && c <= 'z') || ('A' <= c && c <= 'Z') || ('0' <= c && c <= '9') || c == '_'
            || c == '-' || c == '.'
    }
}

/// A name is accepted exactly when it is such a text, however long; and a checked command line
/// whose address reads as an address and whose names are such texts is kept as it is.
pub proof fn lemma_docker_names_accepted(s: Seq<char>, c: ConfigView)
    ensures
        is_docker_identifier(s) <==> plain_docker_name(s),
        plain_docker_name(c.name) && plain_docker_name(c.net) ==> check_outcome(c, true)
            == Ok::<ConfigView, CliErrorView>(c),
{
    assert(is_docker_identifier(s) <==> plain_docker_name(s)) by {
        if plain_docker_name(s) {
            assert forall|i: int| 0 <= i < s.len() implies #[trigger] is_identifier_char(s[i]) by {
                let c = s[i];
                assert(('a' <= c && c <= 'z') || ('A' <= c && c <= 'Z') || ('0' <= c && c <= '9')
                    || c == '_' || c == '-' || c == '.');
            }
        }
        if is_docker_identifier(s) {
            assert forall|i: int| 0 <= i < s.len() implies {
                let c = #[trigger] s[i];
                ('a' <= c && c <= 'z') || ('A' <= c && c <= 'Z') || ('0' <= c && c <= '9') || c
                    == '_' || c == '-' || c == '.'
            } by {
                assert(is_identifier_char(s[i]));
            }
        }
    }
    if plain_docker_name(c.name) && plain_docker_name(c.net) {
        assert(is_docker_identifier(c.name)) by {
            assert forall|i: int| 0 <= i < c.name.len() implies #[trigger] is_identifier_char(c.name[i]) by {
                let x = c.name[i];
                assert(('a' <= x && x <= 'z') || ('A' <= x && x <= 'Z') || ('0' <= x && x <= '9')
                    || x == '_' || x == '-' || x == '.');
            }
        }
        assert(is_docker_identifier(c.net)) by {
            assert forall|i: int| 0 <= i < c.net.len() implies #[trigger] is_identifier_char(c.net[i]) by {
                let x = c.net[i];
                assert(('a' <= x && x <= 'z') || ('A' <= x && x <= 'Z') || ('0' <= x && x <= '9')
                    || x == '_' || x == '-' || x == '.');
            }
        }
    }
}

/// Whether `a` asks for help or for the version.
pub open spec fn is_request_word(a: Seq<char>) -> bool {
    a == "--help"@ || a == "-h"@ || a == "--version"@ || a == "-V"@
}

/// A command line that is run names a command, and once checked, its container and network
/// names are Docker names.
pub proof fn lemma_run_has_command(args: Seq<Seq<char>>, ip_is_address: bool)
    ensures
        parse_outcome(args) matches Ok(InvocationView::Run(c)) ==> c.cmd.len() > 0 && (
        check_outcome(c, ip_is_address) matches Ok(d) ==> d == c && ip_is_address
            && is_docker_identifier(d.name) && is_docker_identifier(d.net)),
{
}

/// `--` separates the flags from the command: after `--name`, `--net`, `--ip` with their
/// values and `--`, the rest of the command line is the command, argument for argument, even
/// where an argument looks like a flag or asks for help or the version. (A value that itself
/// asks for help or the version is taken as that request.)
pub proof fn lemma_command_after_separator(name: Seq<char>, net: Seq<char>, ip: Seq<char>, command: Seq<Seq<char>>)
    requires
        command.len() > 0,
        !is_request_word(name),
        !is_request_word(net),
        !is_request_word(ip),
    ensures
        parse_outcome(seq!["--name"@, name, "--net"@, net, "--ip"@, ip, "--"@] + command) == Ok::<
            InvocationView,
            CliErrorView,
        >(
            InvocationView::Run(
                ConfigView {
                    name,
                    net,
                    ip,
                    quiet: false,
                    verbose: false,
                    strict: false,
                    cmd: command,
                },
            ),
        ),
{
    reveal_strlit("--name");
    reveal_strlit("-n");
    reveal_strlit("--net");
    reveal_strlit("--ip");
    reveal_strlit("--");
    reveal_strlit("--quiet");
    reveal_strlit("-q");
    reveal_strlit("--verbose");
    reveal_strlit("-v");
    reveal_strlit("--strict");
    reveal_strlit("--help");
    reveal_strlit("-h");
    reveal_strlit("--version");
    reveal_strlit("-V");
    let args = seq!["--name"@, name, "--net"@, net, "--ip"@, ip, "--"@] + command;
    let s0 = scan_start();
    let s1 = Scan { name: Some(name), ..s0 };
    let s2 = Scan { net: Some(net), ..s1 };
    let s3 = Scan { ip: Some(ip), ..s2 };
    let rest1 = args.drop_first().drop_first();
    let rest2 = rest1.drop_first().drop_first();
    let rest3 = rest2.drop_first().drop_first();
    assert(args[0] == "--name"@);
    assert(args.drop_first()[0] == name);
    assert(rest1 =~= seq!["--net"@, net, "--ip"@, ip, "--"@] + command);
    assert(rest2 =~= seq!["--ip"@, ip, "--"@] + command);
    assert(rest3 =~= seq!["--"@] + command);
    assert(rest3.drop_first() =~= command);
    assert("--net"@ != "--name"@ && "--net"@ != "-n"@) by {
        assert("--net"@.len() != "--name"@.len());
    }
    assert("--ip"@ != "--name"@ && "--ip"@ != "-n"@ && "--ip"@ != "--net"@) by {
        assert("--ip"@.len() != "--name"@.len());
        assert("--ip"@.len() != "--net"@.len());
    }
    assert("--"@ != "--name"@ && "--"@ != "--net"@ && "--"@ != "--ip"@ && "--"@ != "-n"@) by {
        assert("--"@[1] != "-n"@[1]);
    }
    assert("--"@ != "--quiet"@ && "--"@ != "-q"@ && "--"@ != "--verbose"@ && "--"@ != "-v"@
        && "--"@ != "--strict"@) by {
        assert("--"@[1] != "-q"@[1]);
        assert("--"@[1] != "-v"@[1]);
        assert("--"@.len() != "--quiet"@.len());
        assert("--"@.len() != "--verbose"@.len());
        assert("--"@.len() != "--strict"@.len());
    }
    assert(args[0] == "--name"@ && args[1] == name && args[2] == "--net"@ && args[3] == net);
    assert(args[4] == "--ip"@ && args[5] == ip && args[6] == "--"@);
    assert(takes_value(args[0]) && takes_value(args[2]) && takes_value(args[4]));
    assert(wrapper_end(args, 6) == 6);
    assert(wrapper_end(args, 4) == 6);
    assert(wrapper_end(args, 2) == 6);
    assert(wrapper_end(args, 0) == 6);
    assert(!is_request_word("--name"@) && !is_request_word("--net"@) && !is_request_word("--ip"@)) by {
        assert("--name"@[2] != "--help"@[2] && "--name"@.len() != "--version"@.len());
        assert("--net"@.len() != "--help"@.len() && "--net"@.len() != "--version"@.len());
        assert("--ip"@.len() != "--help"@.len() && "--ip"@.len() != "--version"@.len());
        assert("--name"@.len() != "-h"@.len() && "--net"@.len() != "-h"@.len() && "--ip"@.len() != "-h"@.len());
        assert("--name"@.len() != "-V"@.len() && "--net"@.len() != "-V"@.len() && "--ip"@.len() != "-V"@.len());
    }
    assert forall|i: int| 0 <= i < 6 implies !is_request_word(#[trigger] args[i]) by {}
    assert(!asks_help(args));
    assert(!asks_version(args));
    assert(rest1[0] == "--net"@);
    assert(rest2[0] == "--ip"@);
    assert(rest3[0] == "--"@);
    assert(scan_args(rest3, s3) == Ok::<Scan, CliErrorView>(Scan { cmd: command, ..s3 }));
    assert(scan_args(rest2, s2) == scan_args(rest3, s3));
    assert(scan_args(rest1, s1) == scan_args(rest2, s2));
    assert(scan_args(args, s0) == scan_args(rest1, s1));
}

} // verus!
