//! Command-line flag parsing for the clipboard monitor.

use vstd::prelude::*;

verus! {

/// The usage text the monitor prints.
pub const USAGE: &'static str = "USAGE: cp-master [flags]\n\nStarts monitoring Clipboard changes\n\nFlags:\n  -h, --help    - Prints this message.\n  -m, --magnet  - Starts torrent client when detecting magnet URI.\n";

/// Whether an argument asks for the usage text.
pub open spec fn is_help_flag(a: Seq<char>) -> bool {
    a == "-h"@ || a == "--help"@
}

/// Whether an argument asks for magnet handling.
pub open spec fn is_magnet_flag(a: Seq<char>) -> bool {
    a == "-m"@ || a == "--magnet"@
}

/// Whether an argument is one the parser knows.
pub open spec fn is_flag(a: Seq<char>) -> bool {
    is_help_flag(a) || is_magnet_flag(a)
}

/// The message reported for an argument the parser does not know.
pub open spec fn invalid_argument_message(a: Seq<char>) -> Seq<char> {
    "Invalid argument '"@ + a + "'"@
}

/// Failure to parse the arguments; holds the message to report.
#[derive(Debug, PartialEq, Eq)]
pub struct ParseError(pub String);

impl ParseError {
    /// A short, fixed description of the failure.
    pub fn description(&self) -> (r: &'static str)
        ensures
            r@ == "Wrong arguments"@,
    {
        "Wrong arguments"
    }

    /// The full message to report: the usage text, preceded by the error
    /// when there is one.
    pub fn message(&self) -> (r: String)
        ensures
            self.0@.len() == 0 ==> r@ == USAGE@,
            self.0@.len() > 0 ==> r@ == "ERROR: "@ + self.0@ + "\n\n"@ + USAGE@,
    {
        if self.0.as_str().unicode_len() == 0 {
            String::from_str(USAGE)
        } else {
            let mut out = String::from_str("ERROR: ");
            out.append(self.0.as_str());
            out.append("\n\n");
            out.append(USAGE);
            out
        }
    }
}

/// The switches the arguments selected.
#[derive(Debug)]
pub struct Flags {
    pub help: bool,
    pub magnet: bool,
}

impl Default for Flags {
    /// No switch selected.
    fn default() -> (r: Flags)
        ensures
            !r.help,
            !r.magnet,
    {
        Flags { help: false, magnet: false }
    }
}

/// The parsed command line.
#[derive(Debug)]
pub struct Parser {
    pub flags: Flags,
}

impl Parser {
    /// Parses the arguments that followed the program name.
    ///
    /// Succeeds exactly when every argument is a known flag; a switch is set
    /// exactly when some argument selects it. Fails on the first unknown
    /// argument, naming it.
    pub fn new(args: &Vec<String>) -> (r: Result<Parser, ParseError>)
        ensures
            r is Ok <==> (forall|i: int| 0 <= i < args@.len() ==> is_flag(#[trigger] args@[i]@)),
            r matches Ok(p) ==> {
                &&& p.flags.help <==> (exists|i: int|
                    0 <= i < args@.len() && is_help_flag(#[trigger] args@[i]@))
                &&& p.flags.magnet <==> (exists|i: int|
                    0 <= i < args@.len() && is_magnet_flag(#[trigger] args@[i]@))
            },
            r matches Err(e) ==> (exists|i: int|
                {
                    &&& 0 <= i < args@.len()
                    &&& !is_flag(#[trigger] args@[i]@)
                    &&& (forall|k: int| 0 <= k < i ==> is_flag(#[trigger] args@[k]@))
                    &&& e.0@ == invalid_argument_message(args@[i]@)
                }),
    {
        let short_help = String::from_str("-h");
        let long_help = String::from_str("--help");
        let short_magnet = String::from_str("-m");
        let long_magnet = String::from_str("--magnet");
        let mut flags = Flags::default();
        let mut i: usize = 0;
        while i < args.len()
            invariant
                0 <= i <= args@.len(),
                short_help@ == "-h"@,
                long_help@ == "--help"@,
                short_magnet@ == "-m"@,
                long_magnet@ == "--magnet"@,
                forall|k: int| 0 <= k < i ==> is_flag(#[trigger] args@[k]@),
                flags.help <==> (exists|k: int|
                    0 <= k < i && is_help_flag(#[trigger] args@[k]@)),
                flags.magnet <==> (exists|k: int|
                    0 <= k < i && is_magnet_flag(#[trigger] args@[k]@)),
            decreases args@.len() - i,
        {
            proof {
                reveal_strlit("-h");
                reveal_strlit("--help");
                reveal_strlit("-m");
                reveal_strlit("--magnet");
                assert(("-h"@)[1] == 'h' && ("-m"@)[1] == 'm');
                assert(("--help"@)[2] == 'h' && ("--magnet"@)[2] == 'm');
                assert("--help"@.len() == 6 && "--magnet"@.len() == 8 && "-h"@.len() == 2
                    && "-m"@.len() == 2);
                assert("-h"@ != "-m"@ && "-h"@ != "--magnet"@ && "--help"@ != "-m"@ && "--help"@
                    != "--magnet"@);
            }
            let arg = &args[i];
            if arg.eq(&short_help) || arg.eq(&long_help) {
                flags.help = true;
                proof {
                    assert(is_help_flag(args@[i as int]@));
                    assert(!is_magnet_flag(args@[i as int]@));
                }
            } else if arg.eq(&short_magnet) || arg.eq(&long_magnet) {
                flags.magnet = true;
                proof {
                    assert(is_magnet_flag(args@[i as int]@));
                    assert(!is_help_flag(args@[i as int]@));
                }
            } else {
                let mut detail = String::from_str("Invalid argument '");
                detail.append(arg.as_str());
                detail.append("'");
                return Err(ParseError(detail));
            }
            i = i + 1;
        }
        Ok(Parser { flags })
    }

    /// The usage text.
    pub fn usage(&self) -> (r: &'static str)
        ensures
            r@ == USAGE@,
    {
        USAGE
    }
}

} // verus!
