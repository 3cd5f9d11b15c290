use crate::text::{decimal, push_decimal};
use vstd::prelude::*;
use vstd::string::StringExecFns;

verus! {

/// The verdict for one probed port.
#[derive(Clone, Copy, Debug, PartialEq, Eq, Structural)]
pub enum TestResultKind {
    /// The connection outcome equals the expectation.
    Success,
    /// The outcome differs: `Failure(expected, actual)`.
    Failure(bool, bool),
    /// The port is not part of the server's policy.
    Skipped,
}

/// The verdict of one probe: `expected` is whether the port should accept
/// connections, `accepted` whether it did.
pub open spec fn verdict_of(expected: bool, accepted: bool) -> TestResultKind {
    if expected == accepted {
        TestResultKind::Success
    } else {
        TestResultKind::Failure(expected, accepted)
    }
}

impl TestResultKind {
    /// Classifies a connection outcome against the expectation.
    pub fn classify(expected: bool, accepted: bool) -> (r: TestResultKind)
        ensures
            r == verdict_of(expected, accepted),
    {
        if expected == accepted {
            TestResultKind::Success
        } else {
            TestResultKind::Failure(expected, accepted)
        }
    }

    /// Classifies the result of a connection attempt: `Ok` means the port
    /// accepted the connection, `Err` that it refused or timed out.
    pub fn from_result<A, B>(result: Result<A, B>, expected: bool) -> (r: TestResultKind)
        ensures
            r == verdict_of(expected, result is Ok),
    {
        match result {
            Ok(_) => TestResultKind::classify(expected, true),
            Err(_) => TestResultKind::classify(expected, false),
        }
    }

}

/// A port whose probe outcome differed from the policy.
#[derive(Debug)]
pub struct TestFailure {
    pub address: String,
    pub name: String,
    pub port: u16,
    pub expected: bool,
    pub actual: bool,
}

/// A finding of the audit.
#[derive(Debug)]
pub enum FailureKind {
    /// The server name did not resolve to an address.
    NoAddress(String),
    /// A probed port violated its expectation.
    BadPort(TestFailure),
}

impl FailureKind {
    pub fn bad_port(address: String, name: String, port: u16, expected: bool, actual: bool) -> (r:
        FailureKind)
        ensures
            r == FailureKind::BadPort(TestFailure { address, name, port, expected, actual }),
    {
        FailureKind::BadPort(TestFailure::new(address, name, port, expected, actual))
    }
}

pub open spec fn should_connect_text(expected: bool) -> Seq<char> {
    if expected {
        "to connect"@
    } else {
        "to not connect"@
    }
}

pub open spec fn connection_result_text(accepted: bool) -> Seq<char> {
    if accepted {
        "succeeded"@
    } else {
        "failed"@
    }
}

/// How a violation reads to an operator.
pub open spec fn failure_text(f: TestFailure) -> Seq<char> {
    "Connection Failure for `"@ + decimal(f.port as nat) + "` on server `"@ + f.name@ + "` at `"@
        + f.address@ + "`:\n\tExpected "@ + should_connect_text(f.expected) + " but connection "@
        + connection_result_text(f.actual) + "\n"@
}

impl TestFailure {
    pub fn new(address: String, name: String, port: u16, expected: bool, actual: bool) -> (r:
        TestFailure)
        ensures
            r == (TestFailure { address, name, port, expected, actual }),
    {
        TestFailure { address, name, port, expected, actual }
    }

    /// The operator's description of this violation, over two lines.
    pub fn describe(&self) -> (r: String)
        ensures
            r@ == failure_text(*self),
    {
        let mut s = String::from_str("Connection Failure for `");
        push_decimal(&mut s, self.port);
        s.append("` on server `");
        s.append(self.name.as_str());
        s.append("` at `");
        s.append(self.address.as_str());
        s.append("`:\n\tExpected ");
        s.append(should_connect_output(self.expected));
        s.append(" but connection ");
        s.append(connection_result_output(self.actual));
        s.append("\n");
        s
    }
}

pub fn should_connect_output(expected: bool) -> (r: &'static str)
    ensures
        r@ == should_connect_text(expected),
{
    if expected {
        "to connect"
    } else {
        "to not connect"
    }
}

pub fn connection_result_output(accepted: bool) -> (r: &'static str)
    ensures
        r@ == connection_result_text(accepted),
{
    if accepted {
        "succeeded"
    } else {
        "failed"
    }
}

} // verus!
