//! How the game was launched: single-player against the AI, or online through
//! a relay chosen by the command-line flags.

use vstd::prelude::*;

verus! {

/// The public relay's client-facing URL, used by `--online`.
pub const DEFAULT_RELAY_URL: &'static str = "wss://relay.netplay.oliverj.network";

/// How the app was launched.
#[derive(Clone, Debug, PartialEq, Eq)]
pub enum Launch {
    SinglePlayer,
    Network { url: String },
}

/// Walk the flags from position `i`, carrying the `--server` value and whether
/// `--online` was seen. `--server` takes the next argument (none when it is
/// last); unknown arguments are skipped.
pub open spec fn scan_flags(args: Seq<Seq<char>>, i: int, server: Option<Seq<char>>, online: bool) -> (
    Option<Seq<char>>,
    bool,
)
    decreases args.len() - i,
{
    if i < 0 || i >= args.len() {
        (server, online)
    } else if args[i] == "--server"@ {
        if i + 1 < args.len() {
            scan_flags(args, i + 2, Some(args[i + 1]), online)
        } else {
            scan_flags(args, i + 1, None, online)
        }
    } else if args[i] == "--online"@ {
        scan_flags(args, i + 1, server, true)
    } else {
        scan_flags(args, i + 1, server, online)
    }
}

/// The launch the flags ask for: an explicit `--server` wins; otherwise
/// `--online` uses the default relay; with neither, single-player.
pub open spec fn launch_of(args: Seq<Seq<char>>) -> Option<Seq<char>> {
    let (server, online) = scan_flags(args, 0, None, false);
    match server {
        Some(url) => Some(url),
        None => if online {
            Some(DEFAULT_RELAY_URL@)
        } else {
            None
        },
    }
}

/// Whether two strings hold the same characters.
pub fn same_text(a: &str, b: &str) -> (r: bool)
    ensures
        r == (a@ == b@),
{
    let n = a.unicode_len();
    if n != b.unicode_len() {
        return false;
    }
    let mut i: usize = 0;
    while i < n
        invariant
            n == a@.len(),
            n == b@.len(),
            i <= n,
            forall|j: int| 0 <= j < i ==> a@[j] == b@[j],
        decreases n - i,
    {
        if a.get_char(i) != b.get_char(i) {
            return false;
        }
        i = i + 1;
    }
    assert(a@ =~= b@);
    true
}

/// Parse the launch flags (the arguments after the program name).
pub fn parse_launch(args: &Vec<String>) -> (r: Launch)
    ensures
        match launch_of(args@.map_values(|s: String| s@)) {
            Some(url) => r matches Launch::Network { url: u } && u@ == url,
            None => r == Launch::SinglePlayer,
        },
{
    let ghost views = args@.map_values(|s: String| s@);
    let mut server: Option<String> = None;
    let mut online = false;
    let mut i: usize = 0;
    while i < args.len()
        invariant
            views == args@.map_values(|s: String| s@),
            i <= args@.len(),
            scan_flags(views, 0, None, false) == scan_flags(
                views,
                i as int,
                match server {
                    Some(s) => Some(s@),
                    None => None,
                },
                online,
            ),
        decreases args@.len() - i,
    {
        let arg = args[i].as_str();
        if same_text(arg, "--server") {
            if i + 1 < args.len() {
                server = Some(args[i + 1].clone());
                i = i + 2;
            } else {
                server = None;
                i = i + 1;
            }
        } else if same_text(arg, "--online") {
            online = true;
            i = i + 1;
        } else {
            i = i + 1;
        }
    }
    match server {
        Some(url) => Launch::Network { url },
        None => if online {
            Launch::Network { url: DEFAULT_RELAY_URL.to_owned() }
        } else {
            Launch::SinglePlayer
        },
    }
}

} // verus!
