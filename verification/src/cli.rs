//! The command line: `romoto <command> [options]`.

use crate::decimal::{decimal, decimal_text, law_decimal_denotes, number_u16, parse_u16};
use crate::server::str_of;
use crate::ssh::text_of;
use crate::text::{str_eq, strip_prefix};
use vstd::prelude::*;
use vstd::string::*;
use vstd::utf8::*;

verus! {

/// The port that the session host listens on where none is given.
pub const DEFAULT_PORT: u16 = 2222;

/// What the command line asks for.
pub enum Invocation {
    /// Show how the program is used.
    Help,
    /// Show its version.
    Version,
    /// Nothing can be done: no command is given, and there is no default.
    MissingCommand,
    /// Share a session of `command` on `port`.
    Share { command: String, port: u16 },
}

/// An invocation as a value to reason about.
pub enum InvocationView {
    Help,
    Version,
    MissingCommand,
    Share { command: Seq<char>, port: u16 },
}

impl View for Invocation {
    type V = InvocationView;

    open spec fn view(&self) -> InvocationView {
        match self {
            Invocation::Help => InvocationView::Help,
            Invocation::Version => InvocationView::Version,
            Invocation::MissingCommand => InvocationView::MissingCommand,
            Invocation::Share { command, port } => InvocationView::Share {
                command: command@,
                port: *port,
            },
        }
    }
}

/// What the arguments read so far have settled: the command after `--cmd`, the first argument that
/// is no option, and the port. The default command stands beside them.
pub struct Settings {
    pub named: Option<Seq<char>>,
    pub plain: Option<Seq<char>>,
    pub default: Option<Seq<char>>,
    pub port: u16,
}

impl Settings {
    /// Nothing is settled but the defaults.
    pub open spec fn initial(default: Option<Seq<char>>) -> Settings {
        Settings { named: None, plain: None, default, port: DEFAULT_PORT }
    }

    /// The settings once `word` was given as the port.
    pub open spec fn with_port(self, word: Seq<char>) -> Settings {
        match number_u16(encode_utf8(word)) {
            Some(port) => Settings { port, ..self },
            None => self,
        }
    }

    /// The command to share: the one after `--cmd`, or else the plain one, or else the default.
    pub open spec fn command(self) -> Option<Seq<char>> {
        if self.named is Some {
            self.named
        } else if self.plain is Some {
            self.plain
        } else {
            self.default
        }
    }

    /// What to do when all arguments are read: share the command, if there is one.
    pub open spec fn outcome(self) -> InvocationView {
        match self.command() {
            Some(command) => InvocationView::Share { command, port: self.port },
            None => InvocationView::MissingCommand,
        }
    }
}

/// Whether an argument is one of two spellings of an option.
pub open spec fn either(arg: Seq<char>, short: Seq<char>, long: Seq<char>) -> bool {
    arg == short || arg == long
}

/// What the arguments from position `i` on ask for, given what those before have settled.
///
/// `-h` and `-v` decide at once. `-p` takes the argument after it, if that has no dash, as the port;
/// one that is no port leaves the port as it was. `--cmd` takes the argument after it, if there is
/// one, as the command; only the first `--cmd` counts. The first argument without a dash that is
/// left is the plain command. All other arguments are passed over.
pub open spec fn asked(args: Seq<Seq<char>>, i: int, so_far: Settings) -> InvocationView
    decreases args.len() - i,
{
    if i < 0 || i >= args.len() {
        so_far.outcome()
    } else if either(args[i], "-h"@, "--help"@) {
        InvocationView::Help
    } else if either(args[i], "-v"@, "--version"@) {
        InvocationView::Version
    } else if either(args[i], "-p"@, "--port"@) {
        if i + 1 < args.len() && !"-"@.is_prefix_of(args[i + 1]) {
            asked(args, i + 2, so_far.with_port(args[i + 1]))
        } else {
            asked(args, i + 1, so_far)
        }
    } else if args[i] == "--cmd"@ && i + 1 < args.len() {
        asked(
            args,
            i + 2,
            if so_far.named is None {
                Settings { named: Some(args[i + 1]), ..so_far }
            } else {
                so_far
            },
        )
    } else if so_far.plain is None && !"-"@.is_prefix_of(args[i]) {
        asked(args, i + 1, Settings { plain: Some(args[i]), ..so_far })
    } else {
        asked(args, i + 1, so_far)
    }
}

/// What has been settled, from the variables that hold it.
spec fn settled(
    named: Option<String>,
    plain: Option<String>,
    default: Option<Seq<char>>,
    port: u16,
) -> Settings {
    Settings { named: text_of(named), plain: text_of(plain), default, port }
}

/// Whether an argument is one of two spellings of an option.
fn is_either(arg: &str, short: &str, long: &str) -> (r: bool)
    ensures
        r == either(arg@, short@, long@),
{
    str_eq(arg, short) || str_eq(arg, long)
}

/// Reads the command line. `args` begins with the name of the program, which is passed over.
/// `default` is the command to share where none is given.
pub fn parse_args(args: &Vec<String>, default: Option<&str>) -> (r: Invocation)
    ensures
        r@ == asked(args.deep_view(), 1, Settings::initial(str_of(default))),
{
    let ghost words = args.deep_view();
    let mut named: Option<String> = None;
    let mut plain: Option<String> = None;
    let mut port: u16 = DEFAULT_PORT;
    let mut i: usize = 1;
    while i < args.len()
        invariant
            1 <= i,
            words == args.deep_view(),
            asked(words, 1, Settings::initial(str_of(default))) == asked(
                words,
                i as int,
                settled(named, plain, str_of(default), port),
            ),
        decreases args.len() - i,
    {
        let arg = args[i].as_str();
        assert(arg@ == words[i as int]);
        if is_either(arg, "-h", "--help") {
            return Invocation::Help;
        }
        if is_either(arg, "-v", "--version") {
            return Invocation::Version;
        }
        if is_either(arg, "-p", "--port") {
            i += 1;
            if i < args.len() && strip_prefix(args[i].as_str(), "-").is_none() {
                assert(args[i as int]@ == words[i as int]);
                if let Some(p) = parse_u16(args[i].as_str().as_bytes()) {
                    port = p;
                }
                i += 1;
            }
        } else if str_eq(arg, "--cmd") && i + 1 < args.len() {
            assert(args[i + 1]@ == words[i + 1]);
            if named.is_none() {
                named = Some(args[i + 1].clone());
            }
            i += 2;
        } else {
            if plain.is_none() && strip_prefix(arg, "-").is_none() {
                plain = Some(args[i].clone());
            }
            i += 1;
        }
    }
    match named {
        Some(command) => Invocation::Share { command, port },
        None => match plain {
            Some(command) => Invocation::Share { command, port },
            None => match default {
                Some(command) => Invocation::Share { command: command.to_owned(), port },
                None => Invocation::MissingCommand,
            },
        },
    }
}

/// What the options look like: they differ from one another, and all of them begin with a dash.
proof fn lemma_options()
    ensures
        forall|arg: Seq<char>| #[trigger]
            either(arg, "-h"@, "--help"@) ==> "-"@.is_prefix_of(arg),
        forall|arg: Seq<char>| #[trigger]
            either(arg, "-v"@, "--version"@) ==> "-"@.is_prefix_of(arg),
        forall|arg: Seq<char>| #[trigger]
            either(arg, "-p"@, "--port"@) ==> "-"@.is_prefix_of(arg),
        "-"@.is_prefix_of("--cmd"@),
        !either("-p"@, "-h"@, "--help"@),
        !either("-p"@, "-v"@, "--version"@),
        !either("--port"@, "-h"@, "--help"@),
        !either("--port"@, "-v"@, "--version"@),
        !either("--cmd"@, "-h"@, "--help"@),
        !either("--cmd"@, "-v"@, "--version"@),
        !either("--cmd"@, "-p"@, "--port"@),
{
    reveal_strlit("-");
    reveal_strlit("-h");
    reveal_strlit("--help");
    reveal_strlit("-v");
    reveal_strlit("--version");
    reveal_strlit("-p");
    reveal_strlit("--port");
    reveal_strlit("--cmd");
    assert("-h"@.subrange(0, 1) =~= "-"@);
    assert("--help"@.subrange(0, 1) =~= "-"@);
    assert("-v"@.subrange(0, 1) =~= "-"@);
    assert("--version"@.subrange(0, 1) =~= "-"@);
    assert("-p"@.subrange(0, 1) =~= "-"@);
    assert("--port"@.subrange(0, 1) =~= "-"@);
    assert("--cmd"@.subrange(0, 1) =~= "-"@);
    assert("-p"@[1] == 'p' && "-h"@[1] == 'h' && "-v"@[1] == 'v');
    assert("--cmd"@[2] == 'c' && "--port"@[2] == 'p' && "--help"@[2] == 'h');
}

/// The notation of a port is read as that port, and has no dash.
proof fn lemma_port_text(port: u16)
    ensures
        number_u16(encode_utf8(decimal_text(port as nat))) == Some(port),
        !"-"@.is_prefix_of(decimal_text(port as nat)),
{
    let text = decimal_text(port as nat);
    let digits = decimal(port as nat);
    law_decimal_denotes(port as nat);
    assert forall|i: int| 0 <= i < text.len() implies '\0' <= #[trigger] text[i] <= '\u{7f}' by {
        assert(48 <= digits[i] <= 57);
    }
    is_ascii_chars_encode_utf8(text);
    assert forall|i: int| 0 <= i < text.len() implies encode_utf8(text)[i] == digits[i] by {
        assert(text[i] == digits[i] as char);
        assert(48 <= digits[i] <= 57);
    }
    assert(encode_utf8(text) =~= digits);
    reveal_strlit("-");
    if "-"@.is_prefix_of(text) {
        assert(text[0] == text.subrange(0, 1)[0]);
        assert(48 <= digits[0] <= 57);
    }
}

/// `romoto <command>` shares that command on the default port, whatever the default command, and
/// `-p <n>` or `--port <n>` after it changes the port to `n` and nothing else.
pub proof fn law_command_and_port(
    program: Seq<char>,
    command: Seq<char>,
    flag: Seq<char>,
    port: u16,
    default: Option<Seq<char>>,
)
    requires
        !"-"@.is_prefix_of(command),
        either(flag, "-p"@, "--port"@),
    ensures
        asked(seq![program, command], 1, Settings::initial(default)) == (InvocationView::Share {
            command,
            port: DEFAULT_PORT,
        }),
        asked(
            seq![program, command, flag, decimal_text(port as nat)],
            1,
            Settings::initial(default),
        ) == (InvocationView::Share { command, port }),
{
    reveal_with_fuel(asked, 3);
    lemma_options();
    lemma_port_text(port);
}

/// `romoto --cmd <command>` shares `command`, even one that looks like an option. Without arguments,
/// or with `--cmd` alone, the default command is shared.
pub proof fn law_named_command(program: Seq<char>, command: Seq<char>, default: Seq<char>)
    ensures
        asked(seq![program, "--cmd"@, command], 1, Settings::initial(Some(default))) == (
        InvocationView::Share { command, port: DEFAULT_PORT }),
        asked(seq![program], 1, Settings::initial(Some(default))) == (InvocationView::Share {
            command: default,
            port: DEFAULT_PORT,
        }),
        asked(seq![program, "--cmd"@], 1, Settings::initial(Some(default))) == (
        InvocationView::Share { command: default, port: DEFAULT_PORT }),
{
    reveal_with_fuel(asked, 3);
    lemma_options();
}

/// Whether `k` is the position of the first `--cmd` that is followed by an argument.
pub open spec fn first_cmd(args: Seq<Seq<char>>, k: int) -> bool {
    &&& 1 <= k < args.len() - 1
    &&& args[k] == "--cmd"@
    &&& forall|j: int| 1 <= j < k ==> #[trigger] args[j] != "--cmd"@
}

/// The argument after the first `--cmd` is the command that is shared, wherever the `--cmd` stands
/// and whatever else is given, unless the help or the version is asked for.
pub proof fn law_first_cmd_is_shared(
    args: Seq<Seq<char>>,
    k: int,
    default: Option<Seq<char>>,
)
    requires
        first_cmd(args, k),
    ensures
        ({
            let r = asked(args, 1, Settings::initial(default));
            ||| r is Help
            ||| r is Version
            ||| r matches InvocationView::Share { command, .. } && command == args[k + 1]
        }),
{
    lemma_first_cmd(args, 1, k, Settings::initial(default));
}

proof fn lemma_first_cmd(args: Seq<Seq<char>>, i: int, k: int, so_far: Settings)
    requires
        first_cmd(args, k),
        1 <= i,
        so_far.named == (if i <= k {
            None
        } else {
            Some(args[k + 1])
        }),
    ensures
        ({
            let r = asked(args, i, so_far);
            ||| r is Help
            ||| r is Version
            ||| r matches InvocationView::Share { command, .. } && command == args[k + 1]
        }),
    decreases args.len() - i,
{
    lemma_options();
    if i < args.len() {
        if i == k {
            lemma_first_cmd(args, i + 2, k, Settings { named: Some(args[k + 1]), ..so_far });
        } else {
            if i + 1 < args.len() && i + 1 != k {
                lemma_first_cmd(args, i + 2, k, so_far.with_port(args[i + 1]));
                lemma_first_cmd(args, i + 2, k, so_far);
            }
            lemma_first_cmd(args, i + 1, k, Settings { plain: Some(args[i]), ..so_far });
            lemma_first_cmd(args, i + 1, k, so_far);
        }
    }
}

/// With a default command there is always a command to share, and the default is shared exactly on
/// those command lines that give no other. On all others it makes no difference.
pub proof fn law_default_fills_in(args: Seq<Seq<char>>, default: Seq<char>)
    ensures
        ({
            let without = asked(args, 1, Settings::initial(None));
            let with = asked(args, 1, Settings::initial(Some(default)));
            if without is MissingCommand {
                with matches InvocationView::Share { command, .. } && command == default
            } else {
                with == without
            }
        }),
{
    lemma_default_fills_in(args, 1, Settings::initial(None), default);
}

proof fn lemma_default_fills_in(
    args: Seq<Seq<char>>,
    i: int,
    so_far: Settings,
    default: Seq<char>,
)
    requires
        so_far.default is None,
    ensures
        ({
            let without = asked(args, i, so_far);
            let with = asked(args, i, Settings { default: Some(default), ..so_far });
            if without is MissingCommand {
                with matches InvocationView::Share { command, .. } && command == default
            } else {
                with == without
            }
        }),
    decreases args.len() - i,
{
    if 0 <= i < args.len() {
        if i + 1 < args.len() {
            lemma_default_fills_in(args, i + 2, so_far.with_port(args[i + 1]), default);
            lemma_default_fills_in(
                args,
                i + 2,
                Settings { named: Some(args[i + 1]), ..so_far },
                default,
            );
            lemma_default_fills_in(args, i + 2, so_far, default);
        }
        lemma_default_fills_in(args, i + 1, Settings { plain: Some(args[i]), ..so_far }, default);
        lemma_default_fills_in(args, i + 1, so_far, default);
    }
}

/// A dash is the first character of an argument exactly if the argument begins with `-`.
proof fn lemma_dash(arg: Seq<char>)
    ensures
        "-"@.is_prefix_of(arg) <==> arg.len() > 0 && arg[0] == '-',
{
    reveal_strlit("-");
    if arg.len() > 0 {
        assert(arg.subrange(0, 1)[0] == arg[0]);
        if arg[0] == '-' {
            assert(arg.subrange(0, 1) =~= "-"@);
        }
    }
}

/// Whether position `k` holds a word that is read for itself and is not taken by the one before: it
/// does not follow `--cmd`, and it begins with a dash or does not follow `-p` either.
pub open spec fn stands_alone(args: Seq<Seq<char>>, k: int) -> bool {
    &&& 1 <= k < args.len()
    &&& k > 1 ==> args[k - 1] != "--cmd"@
    &&& k > 1 && (args[k - 1] == "-p"@ || args[k - 1] == "--port"@) ==> args[k].len() > 0
        && args[k][0] == '-'
}

proof fn lemma_reaches_help(args: Seq<Seq<char>>, i: int, k: int, so_far: Settings)
    requires
        1 <= i <= k < args.len(),
        k > 1 ==> args[k - 1] != "--cmd"@,
        either(args[k], "-h"@, "--help"@) || either(args[k], "-v"@, "--version"@),
        forall|j: int|
            1 <= j < k ==> !either(#[trigger] args[j], "-h"@, "--help"@) && !either(
                args[j],
                "-v"@,
                "--version"@,
            ),
    ensures
        either(args[k], "-h"@, "--help"@) ==> asked(args, i, so_far) is Help,
        either(args[k], "-v"@, "--version"@) ==> asked(args, i, so_far) is Version,
    decreases k - i,
{
    lemma_options();
    lemma_options_apart();
    if i < k {
        assert(!either(args[i], "-h"@, "--help"@));
        if i + 1 < k {
            lemma_reaches_help(args, i + 2, k, so_far.with_port(args[i + 1]));
            lemma_reaches_help(
                args,
                i + 2,
                k,
                Settings { named: Some(args[i + 1]), ..so_far },
            );
            lemma_reaches_help(args, i + 2, k, so_far);
        }
        lemma_reaches_help(args, i + 1, k, Settings { plain: Some(args[i]), ..so_far });
        lemma_reaches_help(args, i + 1, k, so_far);
    }
}

/// No word is both an option for help and one for the version.
proof fn lemma_options_apart()
    ensures
        forall|arg: Seq<char>| #[trigger]
            either(arg, "-h"@, "--help"@) ==> !either(arg, "-v"@, "--version"@),
{
    reveal_strlit("-h");
    reveal_strlit("--help");
    reveal_strlit("-v");
    reveal_strlit("--version");
    assert("-h"@[1] == 'h' && "-v"@[1] == 'v');
    assert("-h"@.len() == 2 && "-v"@.len() == 2 && "--help"@.len() == 6 && "--version"@.len() == 9);
}

/// The first `-h`, `--help`, `-v` or `--version` decides, unless it stands after `--cmd`: the help or
/// the version is shown, whatever else is given.
pub proof fn law_help_and_version_decide(
    args: &Vec<String>,
    default: Option<&str>,
    k: int,
    r: Invocation,
)
    requires
        call_ensures(parse_args, (args, default), r),
        1 <= k < args@.len(),
        k > 1 ==> args@[k - 1]@ != "--cmd"@,
        args@[k]@ == "-h"@ || args@[k]@ == "--help"@ || args@[k]@ == "-v"@ || args@[k]@
            == "--version"@,
        forall|j: int|
            1 <= j < k ==> (#[trigger] args@[j])@ != "-h"@ && args@[j]@ != "--help"@ && args@[j]@
                != "-v"@ && args@[j]@ != "--version"@,
    ensures
        args@[k]@ == "-h"@ || args@[k]@ == "--help"@ ==> r is Help,
        args@[k]@ == "-v"@ || args@[k]@ == "--version"@ ==> r is Version,
{
    let words = args.deep_view();
    assert forall|j: int| 0 <= j < args@.len() implies #[trigger] words[j] == args@[j]@ by {}
    assert(words.len() == args@.len());
    assert forall|j: int| 1 <= j < k implies !either(#[trigger] words[j], "-h"@, "--help"@)
        && !either(words[j], "-v"@, "--version"@) by {
        assert(words[j] == args@[j]@);
    }
    lemma_reaches_help(words, 1, k, Settings::initial(str_of(default)));
}

proof fn lemma_help_is_given(args: Seq<Seq<char>>, i: int, so_far: Settings)
    requires
        1 <= i,
    ensures
        asked(args, i, so_far) is Help ==> exists|k: int|
            i <= k < args.len() && either(#[trigger] args[k], "-h"@, "--help"@),
        asked(args, i, so_far) is Version ==> exists|k: int|
            i <= k < args.len() && either(#[trigger] args[k], "-v"@, "--version"@),
    decreases args.len() - i,
{
    if i < args.len() {
        if either(args[i], "-h"@, "--help"@) || either(args[i], "-v"@, "--version"@) {
        } else {
            if i + 1 < args.len() {
                lemma_help_is_given(args, i + 2, so_far.with_port(args[i + 1]));
                lemma_help_is_given(args, i + 2, Settings { named: Some(args[i + 1]), ..so_far });
                lemma_help_is_given(args, i + 2, so_far);
            }
            lemma_help_is_given(args, i + 1, Settings { plain: Some(args[i]), ..so_far });
            lemma_help_is_given(args, i + 1, so_far);
        }
    }
}

/// Help and version are shown only where they are asked for. On every other command line a command is
/// shared, if one is given or there is a default.
pub proof fn law_without_help_a_command_is_shared(
    args: &Vec<String>,
    default: Option<&str>,
    r: Invocation,
)
    requires
        call_ensures(parse_args, (args, default), r),
        forall|j: int|
            1 <= j < args@.len() ==> (#[trigger] args@[j])@ != "-h"@ && args@[j]@ != "--help"@
                && args@[j]@ != "-v"@ && args@[j]@ != "--version"@,
    ensures
        r is Share || (r is MissingCommand && default is None),
{
    let words = args.deep_view();
    assert(words.len() == args@.len());
    assert forall|j: int| 1 <= j < words.len() implies !either(#[trigger] words[j], "-h"@, "--help"@)
        && !either(words[j], "-v"@, "--version"@) by {
        assert(words[j] == args@[j]@);
    }
    lemma_help_is_given(words, 1, Settings::initial(str_of(default)));
    if let Some(command) = str_of(default) {
        law_default_fills_in(words, command);
    }
}

/// The argument after the first `--cmd` is the command that is shared, wherever it stands.
pub proof fn law_first_cmd_is_the_command(
    args: &Vec<String>,
    default: Option<&str>,
    k: int,
    r: Invocation,
)
    requires
        call_ensures(parse_args, (args, default), r),
        1 <= k < args@.len() - 1,
        args@[k]@ == "--cmd"@,
        forall|j: int| 1 <= j < k ==> (#[trigger] args@[j])@ != "--cmd"@,
    ensures
        r is Help || r is Version || (r matches Invocation::Share { command, .. } && command@
            == args@[k + 1]@),
{
    let words = args.deep_view();
    assert(words.len() == args@.len());
    assert(words[k] == args@[k]@);
    assert(words[k + 1] == args@[k + 1]@);
    assert forall|j: int| 1 <= j < k implies #[trigger] words[j] != "--cmd"@ by {
        assert(words[j] == args@[j]@);
    }
    law_first_cmd_is_shared(words, k, str_of(default));
}

proof fn lemma_plain(args: Seq<Seq<char>>, i: int, k: int, so_far: Settings)
    requires
        1 <= i,
        stands_alone(args, k),
        !"-"@.is_prefix_of(args[k]),
        forall|j: int| 1 <= j < args.len() - 1 ==> #[trigger] args[j] != "--cmd"@,
        forall|j: int|
            1 <= j < k && !"-"@.is_prefix_of(#[trigger] args[j]) ==> !stands_alone(args, j),
        so_far.named is None,
        i <= k ==> stands_alone(args, i) && so_far.plain is None,
        i > k ==> so_far.plain == Some(args[k]),
    ensures
        asked(args, i, so_far) is Help || asked(args, i, so_far) is Version || (asked(
            args,
            i,
            so_far,
        ) matches InvocationView::Share { command, .. } && command == args[k]),
    decreases args.len() - i,
{
    lemma_options();
    if i < args.len() {
        lemma_dash(args[i]);
        if i + 1 < args.len() {
            assert(args[i] != "--cmd"@);
            lemma_dash(args[i + 1]);
        }
        lemma_dash(args[k]);
        if either(args[i], "-h"@, "--help"@) || either(args[i], "-v"@, "--version"@) {
        } else if either(args[i], "-p"@, "--port"@) {
            if i + 1 < args.len() && !"-"@.is_prefix_of(args[i + 1]) {
                if i + 2 <= k {
                    assert(!"-"@.is_prefix_of(args[i + 1]));
                    lemma_value_is_no_flag(args[i + 1]);
                }
                lemma_plain(args, i + 2, k, so_far.with_port(args[i + 1]));
            } else {
                lemma_plain(args, i + 1, k, so_far);
            }
        } else if i == k {
            lemma_plain(args, i + 1, k, Settings { plain: Some(args[i]), ..so_far });
        } else {
            if i < k {
                assert("-"@.is_prefix_of(args[i]));
            }
            lemma_plain(args, i + 1, k, so_far);
        }
    }
}

/// A word without a dash is no option.
proof fn lemma_value_is_no_flag(word: Seq<char>)
    requires
        !"-"@.is_prefix_of(word),
    ensures
        word != "-p"@ && word != "--port"@ && word != "--cmd"@,
{
    lemma_options();
    assert(either("-p"@, "-p"@, "--port"@));
    assert(either("--port"@, "-p"@, "--port"@));
}

/// Where `--cmd` is not given, or comes last, the first word without a dash is the command that is
/// shared. A word that `-p` takes as the port does not count.
pub proof fn law_first_plain_word_is_the_command(
    args: &Vec<String>,
    default: Option<&str>,
    k: int,
    r: Invocation,
)
    requires
        call_ensures(parse_args, (args, default), r),
        1 <= k < args@.len(),
        args@[k]@.len() == 0 || args@[k]@[0] != '-',
        k > 1 ==> args@[k - 1]@ != "-p"@ && args@[k - 1]@ != "--port"@,
        forall|j: int| 1 <= j < args@.len() - 1 ==> (#[trigger] args@[j])@ != "--cmd"@,
        forall|j: int|
            1 <= j < k ==> ((#[trigger] args@[j])@.len() > 0 && args@[j]@[0] == '-') || (j > 1 && (
            args@[j - 1]@ == "-p"@ || args@[j - 1]@ == "--port"@)),
    ensures
        r is Help || r is Version || (r matches Invocation::Share { command, .. } && command@
            == args@[k]@),
{
    let words = args.deep_view();
    assert(words.len() == args@.len());
    assert forall|j: int| 0 <= j < words.len() implies #[trigger] words[j] == args@[j]@ by {}
    lemma_dash(words[k]);
    assert(k > 1 ==> words[k - 1] == args@[k - 1]@);
    assert forall|j: int| 1 <= j < words.len() - 1 implies #[trigger] words[j] != "--cmd"@ by {
        assert(words[j] == args@[j]@);
    }
    assert forall|j: int| 1 <= j < k && !"-"@.is_prefix_of(#[trigger] words[j]) implies !stands_alone(
        words,
        j,
    ) by {
        lemma_dash(words[j]);
        assert(words[j] == args@[j]@);
        assert(words[j - 1] == args@[j - 1]@);
    }
    lemma_plain(words, 1, k, Settings::initial(str_of(default)));
}

/// Where no word could be a command, the default is shared.
pub proof fn law_default_is_shared_alone(
    args: &Vec<String>,
    default: &str,
    without: Invocation,
    r: Invocation,
)
    requires
        call_ensures(parse_args, (args, None::<&str>), without),
        call_ensures(parse_args, (args, Some(default)), r),
    ensures
        match without {
            Invocation::MissingCommand => r matches Invocation::Share { command, .. } && command@
                == default@,
            Invocation::Help => r is Help,
            Invocation::Version => r is Version,
            Invocation::Share { command: given, port: at } => r matches Invocation::Share {
                command,
                port,
            } && command@ == given@ && port == at,
        },
{
    law_default_fills_in(args.deep_view(), default@);
}

proof fn lemma_port_kept(args: Seq<Seq<char>>, i: int, so_far: Settings)
    requires
        1 <= i,
        forall|j: int| i <= j < args.len() ==> #[trigger] args[j] != "-p"@ && args[j] != "--port"@,
    ensures
        asked(args, i, so_far) matches InvocationView::Share { port, .. } ==> port == so_far.port,
    decreases args.len() - i,
{
    if i < args.len() {
        if i + 1 < args.len() {
            lemma_port_kept(args, i + 2, Settings { named: Some(args[i + 1]), ..so_far });
            lemma_port_kept(args, i + 2, so_far);
        }
        lemma_port_kept(args, i + 1, Settings { plain: Some(args[i]), ..so_far });
        lemma_port_kept(args, i + 1, so_far);
    }
}

/// Without `-p` and `--port` the port is 2222.
pub proof fn law_port_is_2222_by_default(args: &Vec<String>, default: Option<&str>, r: Invocation)
    requires
        call_ensures(parse_args, (args, default), r),
        forall|j: int|
            1 <= j < args@.len() ==> (#[trigger] args@[j])@ != "-p"@ && args@[j]@ != "--port"@,
    ensures
        r matches Invocation::Share { port, .. } ==> port == 2222,
{
    let words = args.deep_view();
    assert(words.len() == args@.len());
    assert forall|j: int| 1 <= j < words.len() implies #[trigger] words[j] != "-p"@ && words[j]
        != "--port"@ by {
        assert(words[j] == args@[j]@);
    }
    lemma_port_kept(words, 1, Settings::initial(str_of(default)));
}

proof fn lemma_last_port(args: Seq<Seq<char>>, i: int, k: int, so_far: Settings, n: u16)
    requires
        1 <= i <= k < args.len() - 1,
        k > 1 ==> args[k - 1] != "--cmd"@,
        either(args[k], "-p"@, "--port"@),
        !"-"@.is_prefix_of(args[k + 1]),
        number_u16(encode_utf8(args[k + 1])) == Some(n),
        forall|j: int|
            k + 2 <= j < args.len() ==> #[trigger] args[j] != "-p"@ && args[j] != "--port"@,
    ensures
        asked(args, i, so_far) matches InvocationView::Share { port, .. } ==> port == n,
    decreases k - i,
{
    lemma_options();
    if i == k {
        lemma_port_kept(args, k + 2, so_far.with_port(args[k + 1]));
    } else {
        if i + 1 < k {
            lemma_last_port(args, i + 2, k, so_far.with_port(args[i + 1]), n);
            lemma_last_port(args, i + 2, k, Settings { named: Some(args[i + 1]), ..so_far }, n);
            lemma_last_port(args, i + 2, k, so_far, n);
        }
        lemma_last_port(args, i + 1, k, Settings { plain: Some(args[i]), ..so_far }, n);
        lemma_last_port(args, i + 1, k, so_far, n);
    }
}

/// The last `-p` or `--port` with a port after it says on which port a command is shared. `number` is
/// what that word reads as.
pub proof fn law_last_port_counts(
    args: &Vec<String>,
    default: Option<&str>,
    k: int,
    digits: &[u8],
    number: u16,
    r: Invocation,
)
    requires
        call_ensures(parse_args, (args, default), r),
        call_ensures(parse_u16, (digits,), Some(number)),
        1 <= k < args@.len() - 1,
        k > 1 ==> args@[k - 1]@ != "--cmd"@,
        args@[k]@ == "-p"@ || args@[k]@ == "--port"@,
        digits@ == encode_utf8(args@[k + 1]@),
        args@[k + 1]@.len() > 0 && args@[k + 1]@[0] != '-',
        forall|j: int|
            k + 2 <= j < args@.len() ==> (#[trigger] args@[j])@ != "-p"@ && args@[j]@ != "--port"@,
    ensures
        r matches Invocation::Share { port, .. } ==> port == number,
{
    let words = args.deep_view();
    assert(words.len() == args@.len());
    assert(words[k] == args@[k]@);
    assert(words[k + 1] == args@[k + 1]@);
    assert(k > 1 ==> words[k - 1] == args@[k - 1]@);
    lemma_dash(words[k + 1]);
    assert forall|j: int| k + 2 <= j < words.len() implies #[trigger] words[j] != "-p"@ && words[j]
        != "--port"@ by {
        assert(words[j] == args@[j]@);
    }
    lemma_last_port(words, 1, k, Settings::initial(str_of(default)), number);
}

/// `r` with the port `number`, if there is one.
spec fn with_number(r: InvocationView, number: Option<u16>) -> InvocationView {
    match (r, number) {
        (InvocationView::Share { command, .. }, Some(port)) => InvocationView::Share {
            command,
            port,
        },
        _ => r,
    }
}

proof fn lemma_port_appended(
    args: Seq<Seq<char>>,
    i: int,
    so_far: Settings,
    flag: Seq<char>,
    word: Seq<char>,
)
    requires
        1 <= i <= args.len(),
        args.len() > 1 ==> args.last() != "--cmd"@,
        either(flag, "-p"@, "--port"@),
        !"-"@.is_prefix_of(word),
    ensures
        asked(args.push(flag).push(word), i, so_far) == with_number(
            asked(args, i, so_far),
            number_u16(encode_utf8(word)),
        ),
    decreases args.len() - i,
{
    lemma_options();
    let longer = args.push(flag).push(word);
    if i == args.len() {
        assert(longer[i] == flag);
        assert(longer[i + 1] == word);
        reveal_with_fuel(asked, 2);
    } else {
        assert(longer[i] == args[i]);
        if i + 1 < args.len() {
            assert(longer[i + 1] == args[i + 1]);
            lemma_port_appended(args, i + 2, so_far.with_port(args[i + 1]), flag, word);
            lemma_port_appended(
                args,
                i + 2,
                Settings { named: Some(args[i + 1]), ..so_far },
                flag,
                word,
            );
            lemma_port_appended(args, i + 2, so_far, flag, word);
        } else {
            assert(longer[i + 1] == flag);
        }
        lemma_port_appended(
            args,
            i + 1,
            Settings { plain: Some(args[i]), ..so_far },
            flag,
            word,
        );
        lemma_port_appended(args, i + 1, so_far, flag, word);
    }
}

/// To append `-p <word>` or `--port <word>` changes the port to the number that the word reads as. If
/// it is no port, nothing changes. What is shown or shared is the same either way.
pub proof fn law_appended_port(
    args: &Vec<String>,
    longer: &Vec<String>,
    default: Option<&str>,
    digits: &[u8],
    number: Option<u16>,
    r: Invocation,
    r_longer: Invocation,
)
    requires
        call_ensures(parse_args, (args, default), r),
        call_ensures(parse_args, (longer, default), r_longer),
        call_ensures(parse_u16, (digits,), number),
        args@.len() >= 1,
        longer@.len() == args@.len() + 2,
        longer@.take(args@.len() as int) == args@,
        args@.len() > 1 ==> args@.last()@ != "--cmd"@,
        longer@[args@.len() as int]@ == "-p"@ || longer@[args@.len() as int]@ == "--port"@,
        longer@.last()@.len() == 0 || longer@.last()@[0] != '-',
        digits@ == encode_utf8(longer@.last()@),
    ensures
        match r {
            Invocation::Help => r_longer is Help,
            Invocation::Version => r_longer is Version,
            Invocation::MissingCommand => r_longer is MissingCommand,
            Invocation::Share { command, port } => {
                &&& r_longer matches Invocation::Share { command: same, port: now }
                &&& same@ == command@
                &&& now == (match number {
                    Some(n) => n,
                    None => port,
                })
            },
        },
{
    let words = args.deep_view();
    let all = longer.deep_view();
    let flag = longer@[args@.len() as int]@;
    let word = longer@.last()@;
    lemma_dash(word);
    assert(words.len() == args@.len() && all.len() == longer@.len());
    assert forall|j: int| 0 <= j < all.len() implies all[j] == words.push(flag).push(word)[j] by {
        assert(all[j] == longer@[j]@);
        if j < words.len() {
            assert(longer@.take(args@.len() as int)[j] == longer@[j]);
            assert(words[j] == args@[j]@);
        }
    }
    assert(all =~= words.push(flag).push(word));
    assert(words.last() == args@.last()@);
    lemma_port_appended(words, 1, Settings::initial(str_of(default)), flag, word);
}

proof fn lemma_unknown_appended(args: Seq<Seq<char>>, i: int, so_far: Settings, word: Seq<char>)
    requires
        1 <= i <= args.len(),
        args.len() > 1 ==> args.last() != "--cmd"@,
        "-"@.is_prefix_of(word),
        !either(word, "-h"@, "--help"@),
        !either(word, "-v"@, "--version"@),
    ensures
        asked(args.push(word), i, so_far) == asked(args, i, so_far),
    decreases args.len() - i,
{
    lemma_options();
    let longer = args.push(word);
    if i == args.len() {
        assert(longer[i] == word);
        reveal_with_fuel(asked, 2);
    } else {
        assert(longer[i] == args[i]);
        if i + 1 < args.len() {
            assert(longer[i + 1] == args[i + 1]);
            lemma_unknown_appended(args, i + 2, so_far.with_port(args[i + 1]), word);
            lemma_unknown_appended(
                args,
                i + 2,
                Settings { named: Some(args[i + 1]), ..so_far },
                word,
            );
            lemma_unknown_appended(args, i + 2, so_far, word);
        } else {
            assert(longer[i + 1] == word);
        }
        lemma_unknown_appended(args, i + 1, Settings { plain: Some(args[i]), ..so_far }, word);
        lemma_unknown_appended(args, i + 1, so_far, word);
    }
}

/// To append a word with a dash that asks for neither help nor version changes nothing.
pub proof fn law_appended_option_is_passed_over(
    args: &Vec<String>,
    longer: &Vec<String>,
    default: Option<&str>,
    r: Invocation,
    r_longer: Invocation,
)
    requires
        call_ensures(parse_args, (args, default), r),
        call_ensures(parse_args, (longer, default), r_longer),
        args@.len() >= 1,
        longer@.len() == args@.len() + 1,
        longer@.take(args@.len() as int) == args@,
        args@.len() > 1 ==> args@.last()@ != "--cmd"@,
        longer@.last()@.len() > 0 && longer@.last()@[0] == '-',
        longer@.last()@ != "-h"@ && longer@.last()@ != "--help"@,
        longer@.last()@ != "-v"@ && longer@.last()@ != "--version"@,
    ensures
        match r {
            Invocation::Help => r_longer is Help,
            Invocation::Version => r_longer is Version,
            Invocation::MissingCommand => r_longer is MissingCommand,
            Invocation::Share { command, port } => {
                &&& r_longer matches Invocation::Share { command: same, port: now }
                &&& same@ == command@
                &&& now == port
            },
        },
{
    let words = args.deep_view();
    let all = longer.deep_view();
    let word = longer@.last()@;
    lemma_dash(word);
    assert(words.len() == args@.len() && all.len() == longer@.len());
    assert forall|j: int| 0 <= j < all.len() implies all[j] == words.push(word)[j] by {
        assert(all[j] == longer@[j]@);
        if j < words.len() {
            assert(longer@.take(args@.len() as int)[j] == longer@[j]);
            assert(words[j] == args@[j]@);
        }
    }
    assert(all =~= words.push(word));
    assert(words.last() == args@.last()@);
    lemma_unknown_appended(words, 1, Settings::initial(str_of(default)), word);
}

} // verus!
