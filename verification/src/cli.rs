//! Configuration: what the command line asked for, and the configuration
//! that the viewer runs with.

use std::path::PathBuf;
use vstd::prelude::*;
use vstd::string::StringExecFns;

verus! {

/// The command line as it was given.
#[derive(Debug)]
pub struct Args {
    /// Files or directories to read.
    pub inputs: Vec<PathBuf>,
    /// Keep reading what is appended.
    pub follow: bool,
    /// A pattern to highlight, matched without regard to letter case.
    pub regex: Option<String>,
    /// Go into the directories of directories.
    pub recursive: bool,
    /// Patterns that raise an alert.
    pub alerts: Vec<String>,
    /// Raise no alerts at all.
    pub no_alerts: bool,
}

/// The configuration of a run.
#[derive(Debug)]
pub struct Config {
    pub inputs: Vec<PathBuf>,
    pub follow: bool,
    pub regex: Option<String>,
    pub recursive: bool,
    pub alerts: Vec<String>,
}

/// The alert patterns used when none are given: `ERROR` and `FATAL`.
pub open spec fn default_alerts() -> Seq<Seq<char>> {
    seq![seq!['E', 'R', 'R', 'O', 'R'], seq!['F', 'A', 'T', 'A', 'L']]
}

/// The texts of a list of strings.
pub open spec fn texts(list: Seq<String>) -> Seq<Seq<char>> {
    list.map_values(|s: String| s@)
}

/// The alert patterns of a run: none when alerts are switched off, the
/// default ones when none were given, else those given.
pub open spec fn chosen_alerts(given: Seq<String>, no_alerts: bool) -> Seq<Seq<char>> {
    if no_alerts {
        Seq::empty()
    } else if given.len() == 0 {
        default_alerts()
    } else {
        texts(given)
    }
}

/// Makes the configuration of a run from the command line.
pub fn parse(args: Args) -> (config: Config)
    ensures
        config.inputs == args.inputs,
        config.follow == args.follow,
        config.regex == args.regex,
        config.recursive == args.recursive,
        texts(config.alerts@) == chosen_alerts(args.alerts@, args.no_alerts),
{
    let alerts: Vec<String> = if args.no_alerts {
        let none: Vec<String> = Vec::new();
        assert(texts(none@) =~= Seq::<Seq<char>>::empty());
        none
    } else if args.alerts.len() == 0 {
        proof {
            reveal_strlit("ERROR");
            reveal_strlit("FATAL");
        }
        let mut both: Vec<String> = Vec::new();
        both.push(String::from_str("ERROR"));
        both.push(String::from_str("FATAL"));
        assert(both@[0]@ =~= seq!['E', 'R', 'R', 'O', 'R']);
        assert(both@[1]@ =~= seq!['F', 'A', 'T', 'A', 'L']);
        assert(texts(both@) =~= default_alerts());
        both
    } else {
        args.alerts
    };
    Config {
        inputs: args.inputs,
        follow: args.follow,
        regex: args.regex,
        recursive: args.recursive,
        alerts,
    }
}

} // verus!
