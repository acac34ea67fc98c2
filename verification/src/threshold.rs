//! The consensus threshold: how many federation members may be offline.

use vstd::prelude::*;
use vstd::string::StringExecFns;

verus! {

/// The federation can reach consensus with `offline_nodes` of its `fed_size`
/// members offline: strictly more than three members for every offline one.
pub open spec fn reaches_consensus(fed_size: int, offline_nodes: int) -> bool {
    fed_size > 3 * offline_nodes
}

/// A deployment that asks for more offline members than consensus tolerates.
#[derive(Clone, Copy, Debug, PartialEq, Eq, Structural)]
pub struct ConfigError {
    /// The number of offline members that was asked for.
    pub offline_nodes: usize,
}

/// The decimal digit `d` as a character.
pub open spec fn digit_char(d: int) -> char {
    if d == 0 {
        '0'
    } else if d == 1 {
        '1'
    } else if d == 2 {
        '2'
    } else if d == 3 {
        '3'
    } else if d == 4 {
        '4'
    } else if d == 5 {
        '5'
    } else if d == 6 {
        '6'
    } else if d == 7 {
        '7'
    } else if d == 8 {
        '8'
    } else {
        '9'
    }
}

/// `n` in decimal, without leading zeros.
pub open spec fn decimal(n: nat) -> Seq<char>
    decreases n,
{
    if n < 10 {
        seq![digit_char(n as int)]
    } else {
        decimal(n / 10).push(digit_char((n % 10) as int))
    }
}

/// What a `ConfigError` for `offline_nodes` says.
pub open spec fn config_message(offline_nodes: nat) -> Seq<char> {
    "too many offline nodes ("@ + decimal(offline_nodes) + ") to reach consensus"@
}

fn digit_str(d: usize) -> (s: &'static str)
    requires
        d < 10,
    ensures
        s@ == seq![digit_char(d as int)],
{
    proof {
        reveal_strlit("0");
        reveal_strlit("1");
        reveal_strlit("2");
        reveal_strlit("3");
        reveal_strlit("4");
        reveal_strlit("5");
        reveal_strlit("6");
        reveal_strlit("7");
        reveal_strlit("8");
        reveal_strlit("9");
    }
    let s = if d == 0 {
        "0"
    } else if d == 1 {
        "1"
    } else if d == 2 {
        "2"
    } else if d == 3 {
        "3"
    } else if d == 4 {
        "4"
    } else if d == 5 {
        "5"
    } else if d == 6 {
        "6"
    } else if d == 7 {
        "7"
    } else if d == 8 {
        "8"
    } else {
        "9"
    };
    assert(s@ =~= seq![digit_char(d as int)]);
    s
}

fn append_decimal(out: &mut String, n: usize)
    ensures
        final(out)@ == old(out)@ + decimal(n as nat),
    decreases n,
{
    if n >= 10 {
        append_decimal(out, n / 10);
    }
    out.append(digit_str(n % 10));
    assert(out@ =~= old(out)@ + decimal(n as nat));
}

impl ConfigError {
    /// The text of the error.
    pub fn message(&self) -> (text: String)
        ensures
            text@ == config_message(self.offline_nodes as nat),
    {
        let mut text = String::from_str("too many offline nodes (");
        append_decimal(&mut text, self.offline_nodes);
        text.append(") to reach consensus");
        text
    }
}

/// The guard that stands before any wiring: `Ok` exactly when `fed_size`
/// members reach consensus with `offline_nodes` of them offline.
pub fn check_threshold(fed_size: usize, offline_nodes: usize) -> (res: Result<(), ConfigError>)
    ensures
        res.is_ok() <==> reaches_consensus(fed_size as int, offline_nodes as int),
        res.is_err() ==> res == Err::<(), ConfigError>(ConfigError { offline_nodes }),
{
    // `3 * offline_nodes` may not fit; `fed_size / 3` always does.
    if offline_nodes <= fed_size / 3 && 3 * offline_nodes < fed_size {
        Ok(())
    } else {
        Err(ConfigError { offline_nodes })
    }
}

} // verus!
