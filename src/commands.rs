use vstd::prelude::*;

use crate::text::{chars_of, substring};

verus! {

/// Position of the `n`-th colon of `s` counted from position `i`, or the
/// length of `s` when there are fewer.
pub open spec fn colon_cut(s: Seq<char>, i: nat, n: nat) -> nat
    decreases s.len() - i,
{
    if i >= s.len() {
        s.len()
    } else if s[i as int] == ':' {
        if n <= 1 {
            i
        } else {
            colon_cut(s, i + 1, (n - 1) as nat)
        }
    } else {
        colon_cut(s, i + 1, n)
    }
}

/// The `path:line:column` part of a search hit such as
/// `src/main.rs:159:1:fn main() {`: everything before its third colon.
pub fn fzf_callback_target(output: &str) -> (r: String)
    ensures
        r@ == output@.subrange(0, colon_cut(output@, 0, 3) as int),
{
    let t = chars_of(output);
    let mut i: usize = 0;
    let mut n: u64 = 3;
    while i < t.len()
        invariant
            t@ == output@,
            i <= t.len(),
            1 <= n <= 3,
            colon_cut(t@, 0, 3) == colon_cut(t@, i as nat, n as nat),
        decreases t.len() - i,
    {
        if t[i] == ':' {
            if n <= 1 {
                return substring(output, 0, i);
            }
            n -= 1;
        }
        i += 1;
    }
    substring(output, 0, t.len())
}

/// A named set of target widths for the three-pane row.
#[derive(PartialEq, Eq, Structural, Clone, Copy, Debug)]
pub enum Preset {
    Default,
    LargeTerminal,
    SmallTerminal,
}

/// Target widths, in percent, of the left, middle and right panes.
pub open spec fn preset_percents(p: Preset) -> Seq<u64> {
    match p {
        Preset::Default => seq![10, 60, 30],
        Preset::LargeTerminal => seq![10, 40, 50],
        Preset::SmallTerminal => seq![10, 95, 10],
    }
}

impl Preset {
    pub fn percents(&self) -> (r: Vec<u64>)
        ensures
            r@ == preset_percents(*self),
    {
        let r = match self {
            Preset::Default => vec![10, 60, 30],
            Preset::LargeTerminal => vec![10, 40, 50],
            Preset::SmallTerminal => vec![10, 95, 10],
        };
        assert(r@ =~= preset_percents(*self));
        r
    }
}

} // verus!

verus! {

/// The text injected into a pane to run `command`: the command and a line
/// break, so that the pane's shell runs it.
pub fn run_command(command: &str) -> (r: String)
    ensures
        r@ == command@.push('\n'),
{
    proof {
        reveal_strlit("\n");
    }
    let r = String::from_str(command).concat("\n");
    assert(r@ =~= command@.push('\n'));
    r
}

/// The blame viewer's command line for `filename` at `line_number`.
pub fn blame_command(filename: &str, line_number: &str) -> (r: String)
    ensures
        r@ == "tig blame "@ + filename@ + " +"@ + line_number@,
{
    String::from_str("tig blame ").concat(filename).concat(" +").concat(line_number)
}

/// The editor command that opens a `path:line:column` target.
pub fn open_command(target: &str) -> (r: String)
    ensures
        r@ == ":open "@ + target@ + "\r"@,
{
    String::from_str(":open ").concat(target).concat("\r")
}

/// The `path:line` argument under which the browser shows a file.
pub fn browse_target(filename: &str, line_number: &str) -> (r: String)
    ensures
        r@ == filename@ + ":"@ + line_number@,
{
    String::from_str(filename).concat(":").concat(line_number)
}

} // verus!
