//! What a scan prints: a notice as each probe ends, and the list of open
//! ports at the end.

use vstd::prelude::*;
use vstd::string::*;
use crate::probe::{ConnectError, ProbeOutcome};

verus! {

/// The character of the decimal digit `d`.
pub open spec fn digit_char(d: nat) -> char {
    if d == 0 {
        '0'
    } else if d == 1 {
        '1'
    } else if d == 2 {
        '2'
    } else if d == 3 {
        '3'
    } else if d == 4 {
        '4'
    } else if d == 5 {
        '5'
    } else if d == 6 {
        '6'
    } else if d == 7 {
        '7'
    } else if d == 8 {
        '8'
    } else {
        '9'
    }
}

/// The digits of `n` in base ten, the most significant first and without
/// leading zeros.
pub open spec fn decimal(n: nat) -> Seq<char>
    decreases n,
{
    if n < 10 {
        seq![digit_char(n)]
    } else {
        decimal(n / 10).push(digit_char(n % 10))
    }
}

/// The line that reports `port` as open in the result of a scan.
pub open spec fn open_line(port: u16) -> Seq<char> {
    decimal(port as nat) + " is open"@
}

/// What a failure is called in a notice.
pub open spec fn failure_name(failure: ConnectError) -> Seq<char> {
    match failure {
        ConnectError::Refused => "connection refused"@,
        ConnectError::TimedOut => "timed out"@,
        ConnectError::Unreachable => "unreachable"@,
        ConnectError::InvalidInput => "invalid input"@,
        ConnectError::AddrNotAvailable => "address not available"@,
        ConnectError::PermissionDenied => "permission denied"@,
        ConnectError::Exhausted => "out of resources"@,
        ConnectError::Aborted => "probe aborted"@,
        ConnectError::Other => "transport error"@,
    }
}

/// The text that is written out as a probe ends, if any.
///
/// A verbose run writes a line for every probe: that the port is open, that
/// it is closed, or how the probe failed. A quiet run writes a single dot,
/// without a line break, for each open port and nothing for any other.
pub open spec fn notice_text(outcome: ProbeOutcome, verbose: bool) -> Option<Seq<char>> {
    match outcome {
        ProbeOutcome::Open(port) => if verbose {
            Some("Port "@ + decimal(port as nat) + " is open\n"@)
        } else {
            Some("."@)
        },
        ProbeOutcome::Closed(port) => if verbose {
            Some("Port "@ + decimal(port as nat) + " is closed\n"@)
        } else {
            None
        },
        ProbeOutcome::Error(port, failure) => if verbose {
            Some("Port "@ + decimal(port as nat) + " failed: "@ + failure_name(failure) + "\n"@)
        } else {
            None
        },
    }
}

fn digit_text(d: u16) -> (text: &'static str)
    requires
        d < 10,
    ensures
        text@ == seq![digit_char(d as nat)],
{
    proof {
        reveal_strlit("0");
        reveal_strlit("1");
        reveal_strlit("2");
        reveal_strlit("3");
        reveal_strlit("4");
        reveal_strlit("5");
        reveal_strlit("6");
        reveal_strlit("7");
        reveal_strlit("8");
        reveal_strlit("9");
    }
    let text = match d {
        0 => "0",
        1 => "1",
        2 => "2",
        3 => "3",
        4 => "4",
        5 => "5",
        6 => "6",
        7 => "7",
        8 => "8",
        _ => "9",
    };
    assert(text@ =~= seq![digit_char(d as nat)]);
    text
}

/// Appends the decimal digits of `n` to `text`.
pub fn push_decimal(text: &mut String, n: u16)
    ensures
        final(text)@ == old(text)@ + decimal(n as nat),
    decreases n,
{
    if n >= 10 {
        push_decimal(text, n / 10);
    }
    text.append(digit_text(n % 10));
    proof {
        let d = digit_char((n % 10) as nat);
        if n >= 10 {
            assert(old(text)@ + decimal((n / 10) as nat) + seq![d] =~= old(text)@ + decimal(
                (n / 10) as nat,
            ).push(d));
        }
    }
}

/// The line that reports `port` as open: its number in decimal, then
/// ` is open`. It carries no line break.
pub fn report_line(port: u16) -> (line: String)
    ensures
        line@ == open_line(port),
{
    let mut line = String::new();
    push_decimal(&mut line, port);
    line.append(" is open");
    proof {
        assert(Seq::<char>::empty() + decimal(port as nat) =~= decimal(port as nat));
    }
    line
}

/// The lines of the result of a scan: one for each port of `ports`, in the
/// order of `ports`.
pub fn report_lines(ports: &Vec<u16>) -> (lines: Vec<String>)
    ensures
        lines.len() == ports.len(),
        forall|i: int| 0 <= i < ports.len() ==> (#[trigger] lines@[i])@ == open_line(ports@[i]),
{
    let mut lines: Vec<String> = Vec::new();
    let mut i: usize = 0;
    while i < ports.len()
        invariant
            i <= ports.len(),
            lines.len() == i,
            forall|k: int| 0 <= k < i ==> (#[trigger] lines@[k])@ == open_line(ports@[k]),
        decreases ports.len() - i,
    {
        lines.push(report_line(ports[i]));
        i += 1;
    }
    lines
}

impl ConnectError {
    /// What this failure is called in a notice.
    pub fn name(&self) -> (name: &'static str)
        ensures
            name@ == failure_name(*self),
    {
        match self {
            ConnectError::Refused => "connection refused",
            ConnectError::TimedOut => "timed out",
            ConnectError::Unreachable => "unreachable",
            ConnectError::InvalidInput => "invalid input",
            ConnectError::AddrNotAvailable => "address not available",
            ConnectError::PermissionDenied => "permission denied",
            ConnectError::Exhausted => "out of resources",
            ConnectError::Aborted => "probe aborted",
            ConnectError::Other => "transport error",
        }
    }
}

/// The text to write out as a probe ends with `outcome`, to be written as
/// it is; `None` where nothing is written.
pub fn notice(outcome: &ProbeOutcome, verbose: bool) -> (text: Option<String>)
    ensures
        match text {
            Some(text) => notice_text(*outcome, verbose) == Some(text@),
            None => notice_text(*outcome, verbose) is None,
        },
{
    if !verbose {
        return match outcome {
            ProbeOutcome::Open(_) => Some(String::from_str(".")),
            _ => None,
        };
    }
    let mut text = String::from_str("Port ");
    push_decimal(&mut text, outcome.port());
    match outcome {
        ProbeOutcome::Open(_) => {
            text.append(" is open\n");
        },
        ProbeOutcome::Closed(_) => {
            text.append(" is closed\n");
        },
        ProbeOutcome::Error(_, failure) => {
            text.append(" failed: ");
            text.append(failure.name());
            text.append("\n");
        },
    }
    Some(text)
}

} // verus!
