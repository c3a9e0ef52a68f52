//! Reading a supervised process's output, as the test tooling does: scan
//! the captured stream for an expected line, telling an early exit apart
//! from a stream that simply ran out.

use vstd::prelude::*;

verus! {

/// What the supervisor sends the process under test.
pub enum InMessage {
    Std(String),
    Exit,
}

/// What the process under test produced: a standard-output line, a
/// standard-error line, or its exit with the code the platform reported.
pub enum OutMessage {
    Std(String),
    StdErr(String),
    Exit(Option<i32>),
}

/// What scanning the captured output for a line concludes.
#[derive(Debug, PartialEq, Eq)]
pub enum ScanOutcome {
    /// The expected line appeared, at this position.
    Found { index: usize },
    /// The process exited before the line appeared.
    ExitedEarly,
    /// The stream ran out without the line or an exit.
    Exhausted,
}

/// The scan for an expected standard-output line: the first matching
/// standard-output line wins, an exit seen first ends the scan, error
/// lines are passed over.
pub open spec fn spec_scan_std(msgs: Seq<OutMessage>, value: Seq<char>, base: int) -> ScanOutcome
    decreases msgs.len(),
{
    if msgs.len() == 0 {
        ScanOutcome::Exhausted
    } else {
        match msgs[0] {
            OutMessage::Std(line) => if line@ == value {
                ScanOutcome::Found { index: base as usize }
            } else {
                spec_scan_std(msgs.skip(1), value, base + 1)
            },
            OutMessage::StdErr(_) => spec_scan_std(msgs.skip(1), value, base + 1),
            OutMessage::Exit(_) => ScanOutcome::ExitedEarly,
        }
    }
}

/// The scan for an expected standard-error line, symmetrically.
pub open spec fn spec_scan_err(msgs: Seq<OutMessage>, value: Seq<char>, base: int) -> ScanOutcome
    decreases msgs.len(),
{
    if msgs.len() == 0 {
        ScanOutcome::Exhausted
    } else {
        match msgs[0] {
            OutMessage::StdErr(line) => if line@ == value {
                ScanOutcome::Found { index: base as usize }
            } else {
                spec_scan_err(msgs.skip(1), value, base + 1)
            },
            OutMessage::Std(_) => spec_scan_err(msgs.skip(1), value, base + 1),
            OutMessage::Exit(_) => ScanOutcome::ExitedEarly,
        }
    }
}

/// Scan captured output for an expected standard-output line.
pub fn recv_std(msgs: &Vec<OutMessage>, value: &String) -> (r: ScanOutcome)
    ensures
        r == spec_scan_std(msgs@, value@, 0),
{
    let mut i: usize = 0;
    proof {
        assert(msgs@.skip(0) =~= msgs@);
    }
    while i < msgs.len()
        invariant
            i <= msgs@.len(),
            spec_scan_std(msgs@.skip(i as int), value@, i as int) == spec_scan_std(
                msgs@,
                value@,
                0,
            ),
        decreases msgs@.len() - i,
    {
        proof {
            assert(msgs@.skip(i as int)[0] == msgs@[i as int]);
            assert(msgs@.skip(i as int).skip(1) =~= msgs@.skip(i as int + 1));
        }
        match &msgs[i] {
            OutMessage::Std(line) => {
                if *line == *value {
                    return ScanOutcome::Found { index: i };
                }
            },
            OutMessage::StdErr(_) => {},
            OutMessage::Exit(_) => {
                return ScanOutcome::ExitedEarly;
            },
        }
        i = i + 1;
    }
    ScanOutcome::Exhausted
}

/// Scan captured output for an expected standard-error line.
pub fn recv_out(msgs: &Vec<OutMessage>, value: &String) -> (r: ScanOutcome)
    ensures
        r == spec_scan_err(msgs@, value@, 0),
{
    let mut i: usize = 0;
    proof {
        assert(msgs@.skip(0) =~= msgs@);
    }
    while i < msgs.len()
        invariant
            i <= msgs@.len(),
            spec_scan_err(msgs@.skip(i as int), value@, i as int) == spec_scan_err(
                msgs@,
                value@,
                0,
            ),
        decreases msgs@.len() - i,
    {
        proof {
            assert(msgs@.skip(i as int)[0] == msgs@[i as int]);
            assert(msgs@.skip(i as int).skip(1) =~= msgs@.skip(i as int + 1));
        }
        match &msgs[i] {
            OutMessage::StdErr(line) => {
                if *line == *value {
                    return ScanOutcome::Found { index: i };
                }
            },
            OutMessage::Std(_) => {},
            OutMessage::Exit(_) => {
                return ScanOutcome::ExitedEarly;
            },
        }
        i = i + 1;
    }
    ScanOutcome::Exhausted
}

/// What waiting for the process's exit concludes.
#[derive(Debug, PartialEq, Eq)]
pub enum ExitOutcome {
    /// It exited with the expected code.
    Matched,
    /// It exited with another code.
    Mismatched { got: Option<i32> },
    /// The stream ran out before any exit.
    Exhausted,
}

/// The first exit message decides; everything before it is passed over.
pub open spec fn spec_scan_exit(msgs: Seq<OutMessage>, expected: Option<i32>) -> ExitOutcome
    decreases msgs.len(),
{
    if msgs.len() == 0 {
        ExitOutcome::Exhausted
    } else {
        match msgs[0] {
            OutMessage::Exit(code) => if code == expected {
                ExitOutcome::Matched
            } else {
                ExitOutcome::Mismatched { got: code }
            },
            _ => spec_scan_exit(msgs.skip(1), expected),
        }
    }
}

/// Scan captured output for the process's exit with the expected code.
pub fn recv_exit(msgs: &Vec<OutMessage>, expected: Option<i32>) -> (r: ExitOutcome)
    ensures
        r == spec_scan_exit(msgs@, expected),
{
    let mut i: usize = 0;
    proof {
        assert(msgs@.skip(0) =~= msgs@);
    }
    while i < msgs.len()
        invariant
            i <= msgs@.len(),
            spec_scan_exit(msgs@.skip(i as int), expected) == spec_scan_exit(msgs@, expected),
        decreases msgs@.len() - i,
    {
        proof {
            assert(msgs@.skip(i as int)[0] == msgs@[i as int]);
            assert(msgs@.skip(i as int).skip(1) =~= msgs@.skip(i as int + 1));
        }
        match &msgs[i] {
            OutMessage::Exit(code) => {
                let matches_expected = match (code, &expected) {
                    (Some(a), Some(b)) => *a == *b,
                    (None, None) => true,
                    _ => false,
                };
                if matches_expected {
                    return ExitOutcome::Matched;
                } else {
                    let got = match code {
                        Some(a) => Some(*a),
                        None => None,
                    };
                    return ExitOutcome::Mismatched { got };
                }
            },
            _ => {},
        }
        i = i + 1;
    }
    ExitOutcome::Exhausted
}

} // verus!
