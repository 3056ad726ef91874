//! The browser options that every session starts from. They hide the signs
//! of automation that the browser would show of itself.

use vstd::prelude::*;

verus! {

/// The command-line arguments for the browser, in the order in which they
/// are set.
pub open spec fn spec_default_arguments() -> Seq<Seq<char>> {
    seq![
        "--no-sandbox"@,
        "--disable-dev-shm-usage"@,
        "--disable-blink-features=AutomationControlled"@,
        "window-size=1920,1080"@,
        "user-agent=Mozilla/5.0 (Windows NT 10.0; Win64; x64) AppleWebKit/537.36 (KHTML, like Gecko) Chrome/102.0.0.0 Safari/537.36"@,
        "disable-infobars"@,
    ]
}

/// The switches that the browser is told to leave out.
pub open spec fn spec_excluded_switches() -> Seq<Seq<char>> {
    seq!["enable-automation"@]
}

/// The command-line arguments for the browser, in the order in which they
/// are set.
pub fn default_arguments() -> (arguments: Vec<&'static str>)
    ensures
        arguments.deep_view() == spec_default_arguments(),
{
    let mut arguments: Vec<&'static str> = Vec::new();
    arguments.push("--no-sandbox");
    arguments.push("--disable-dev-shm-usage");
    arguments.push("--disable-blink-features=AutomationControlled");
    arguments.push("window-size=1920,1080");
    arguments.push(
        "user-agent=Mozilla/5.0 (Windows NT 10.0; Win64; x64) AppleWebKit/537.36 (KHTML, like Gecko) Chrome/102.0.0.0 Safari/537.36",
    );
    arguments.push("disable-infobars");
    assert(arguments.deep_view() =~= spec_default_arguments());
    arguments
}

/// The switches that the browser is told to leave out.
pub fn excluded_switches() -> (switches: Vec<&'static str>)
    ensures
        switches.deep_view() == spec_excluded_switches(),
{
    let mut switches: Vec<&'static str> = Vec::new();
    switches.push("enable-automation");
    assert(switches.deep_view() =~= spec_excluded_switches());
    switches
}

} // verus!
