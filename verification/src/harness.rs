//! Collecting the test harness's per-test events.
//!
//! A collaborator re-runs the compiled test binary with a tag filter and
//! a line-delimited structured output mode. Decoding those lines is the
//! collaborator's work; this module holds the decision logic: which
//! fully qualified test names passed, and which event is a hard error
//! for the invocation.

use vstd::prelude::*;

verus! {

/// The outcome the harness reports for one test.
#[derive(Clone, Copy, Debug, PartialEq, Eq, Structural)]
pub enum EventKind {
    /// The test started running.
    Started,
    /// The test passed.
    Passed,
    /// The test was ignored.
    Ignored,
    /// The test failed.
    Failed,
}

/// One line of the harness's structured output.
#[derive(Debug)]
pub enum TestEvent {
    /// A whole-suite event; it carries nothing read here.
    Suite,
    /// One test's event.
    Test {
        /// The test's fully qualified name.
        name: String,
        /// The reported outcome.
        event: EventKind,
    },
}

/// A hard error of one harness invocation: a test that was expected to
/// run did not pass.
#[derive(Debug)]
pub enum HarnessError {
    /// The named test ran and failed.
    TestFailed {
        /// The test's fully qualified name.
        name: String,
    },
    /// The named test was ignored.
    TestIgnored {
        /// The test's fully qualified name.
        name: String,
    },
}

/// The names of the tests that passed, in the order their events
/// appear, or the first failed or ignored test as a hard error. Suite
/// events and start events carry no decision and are skipped.
pub open spec fn spec_collect_passed(events: Seq<TestEvent>) -> Result<Seq<String>, HarnessError>
    decreases events.len(),
{
    if events.len() == 0 {
        Ok(Seq::empty())
    } else {
        match events[0] {
            TestEvent::Suite => spec_collect_passed(events.skip(1)),
            TestEvent::Test { name, event } => {
                match event {
                    EventKind::Passed => {
                        match spec_collect_passed(events.skip(1)) {
                            Ok(names) => Ok(seq![name] + names),
                            Err(e) => Err(e),
                        }
                    },
                    EventKind::Failed => Err(HarnessError::TestFailed { name }),
                    EventKind::Ignored => Err(HarnessError::TestIgnored { name }),
                    EventKind::Started => spec_collect_passed(events.skip(1)),
                }
            },
        }
    }
}

/// Relates an executable collection result to its specification-level
/// value.
pub open spec fn passed_match(
    r: Result<Vec<String>, HarnessError>,
    s: Result<Seq<String>, HarnessError>,
) -> bool {
    match (r, s) {
        (Ok(v), Ok(t)) => v@ == t,
        (Err(e), Err(f)) => e == f,
        _ => false,
    }
}

/// Collect the names of the tests that passed.
///
/// Fails on the first `Failed` or `Ignored` test event, naming that
/// test; suite events and start events are skipped.
#[verifier::loop_isolation(false)]
pub fn collect_passed(events: Vec<TestEvent>) -> (r: Result<Vec<String>, HarnessError>)
    ensures
        passed_match(r, spec_collect_passed(events@)),
{
    let ghost orig = events@;
    let mut rest = events;
    let mut names: Vec<String> = Vec::new();
    proof {
        match spec_collect_passed(orig) {
            Ok(t) => {
                assert(Seq::<String>::empty() + t =~= t);
            },
            Err(_) => {},
        }
    }
    while rest.len() > 0
        invariant
            ({
                let tail = spec_collect_passed(rest@);
                let whole = spec_collect_passed(orig);
                match tail {
                    Ok(t) => whole == Ok::<Seq<String>, HarnessError>(names@ + t),
                    Err(e) => whole == Err::<Seq<String>, HarnessError>(e),
                }
            }),
        decreases rest@.len(),
    {
        let ghost rest_old = rest@;
        let e = rest.remove(0);
        proof {
            assert(rest@ =~= rest_old.skip(1));
        }
        match e {
            TestEvent::Suite => {},
            TestEvent::Test { name, event } => {
                match event {
                    EventKind::Passed => {
                        let ghost names_old = names@;
                        names.push(name);
                        proof {
                            match spec_collect_passed(rest@) {
                                Ok(t) => {
                                    assert(names_old.push(name) + t =~= names_old + (seq![name]
                                        + t));
                                },
                                Err(_) => {},
                            }
                        }
                    },
                    EventKind::Failed => {
                        return Err(HarnessError::TestFailed { name });
                    },
                    EventKind::Ignored => {
                        return Err(HarnessError::TestIgnored { name });
                    },
                    EventKind::Started => {},
                }
            },
        }
    }
    proof {
        assert(rest@ =~= Seq::<TestEvent>::empty());
        match spec_collect_passed(orig) {
            Ok(t) => {
                assert(names@ + Seq::<String>::empty() =~= names@);
            },
            Err(_) => {},
        }
    }
    Ok(names)
}

impl HarnessError {
    /// The diagnostic text of the error, naming the offending test.
    pub fn message(&self) -> (r: String)
        ensures
            (self matches HarnessError::TestFailed { name } ==> r@ == "test `"@ + name@
                + "` ran unsuccessfully"@),
            (self matches HarnessError::TestIgnored { name } ==> r@ == "test `"@ + name@
                + "` was ignored"@),
    {
        match self {
            HarnessError::TestFailed { name } => {
                let mut r = String::from_str("test `");
                r.append(name.as_str());
                r.append("` ran unsuccessfully");
                r
            },
            HarnessError::TestIgnored { name } => {
                let mut r = String::from_str("test `");
                r.append(name.as_str());
                r.append("` was ignored");
                r
            },
        }
    }
}

} // verus!
