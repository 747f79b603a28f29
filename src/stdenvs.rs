//! The standard build environment's output path on each system, before and
//! after the merge, and the systems on which it changed.
use vstd::prelude::*;
use crate::text::same_text;

verus! {

/// A system whose stdenv is compared.
#[derive(Clone, Copy, Debug, PartialEq, Eq, Structural)]
pub enum System {
    X8664Linux,
    X8664Darwin,
}

/// Which side of the merge an evaluation was made on.
#[derive(Clone, Copy, Debug, PartialEq, Eq, Structural)]
pub enum StdenvFrom {
    Before,
    After,
}

impl System {
    /// The system's name as the evaluator takes it.
    pub fn name(&self) -> (r: String)
        ensures
            r@ == system_name(*self),
    {
        match self {
            System::X8664Linux => "x86_64-linux".to_owned(),
            System::X8664Darwin => "x86_64-darwin".to_owned(),
        }
    }
}

pub open spec fn system_name(s: System) -> Seq<char> {
    match s {
        System::X8664Linux => "x86_64-linux"@,
        System::X8664Darwin => "x86_64-darwin"@,
    }
}

/// The characters of an optional output path.
pub open spec fn opt_view(o: Option<String>) -> Option<Seq<char>> {
    match o {
        Some(s) => Some(s@),
        None => None,
    }
}

/// The stdenv output path of each system before and after the merge;
/// `None` where it was not evaluated or did not evaluate.
pub struct Stdenvs {
    pub linux_stdenv_before: Option<String>,
    pub linux_stdenv_after: Option<String>,
    pub darwin_stdenv_before: Option<String>,
    pub darwin_stdenv_after: Option<String>,
}

/// Whether two optional output paths are the same.
fn same_output(a: &Option<String>, b: &Option<String>) -> (r: bool)
    ensures
        r == (opt_view(*a) == opt_view(*b)),
{
    match (a, b) {
        (Some(x), Some(y)) => same_text(x.as_str(), y.as_str()),
        (None, None) => true,
        _ => false,
    }
}

impl Stdenvs {
    /// The systems whose stdenv differs before and after, Linux first.
    pub open spec fn changed_spec(&self) -> Seq<System> {
        let l: Seq<System> = if opt_view(self.linux_stdenv_before) != opt_view(
            self.linux_stdenv_after,
        ) {
            seq![System::X8664Linux]
        } else {
            seq![]
        };
        let d: Seq<System> = if opt_view(self.darwin_stdenv_before) != opt_view(
            self.darwin_stdenv_after,
        ) {
            seq![System::X8664Darwin]
        } else {
            seq![]
        };
        l + d
    }

    /// Nothing evaluated yet.
    pub fn new() -> (r: Stdenvs)
        ensures
            r.linux_stdenv_before is None,
            r.linux_stdenv_after is None,
            r.darwin_stdenv_before is None,
            r.darwin_stdenv_after is None,
    {
        Stdenvs {
            linux_stdenv_before: None,
            linux_stdenv_after: None,
            darwin_stdenv_before: None,
            darwin_stdenv_after: None,
        }
    }

    /// Records what the evaluation of `system`'s stdenv on side `from`
    /// gave; the other three entries stay as they were.
    pub fn identify(&mut self, system: System, from: StdenvFrom, out: Option<String>)
        ensures
            final(self).linux_stdenv_before == (if system == System::X8664Linux && from
                == StdenvFrom::Before {
                out
            } else {
                old(self).linux_stdenv_before
            }),
            final(self).linux_stdenv_after == (if system == System::X8664Linux && from
                == StdenvFrom::After {
                out
            } else {
                old(self).linux_stdenv_after
            }),
            final(self).darwin_stdenv_before == (if system == System::X8664Darwin && from
                == StdenvFrom::Before {
                out
            } else {
                old(self).darwin_stdenv_before
            }),
            final(self).darwin_stdenv_after == (if system == System::X8664Darwin && from
                == StdenvFrom::After {
                out
            } else {
                old(self).darwin_stdenv_after
            }),
    {
        match (system, from) {
            (System::X8664Linux, StdenvFrom::Before) => {
                self.linux_stdenv_before = out;
            },
            (System::X8664Linux, StdenvFrom::After) => {
                self.linux_stdenv_after = out;
            },
            (System::X8664Darwin, StdenvFrom::Before) => {
                self.darwin_stdenv_before = out;
            },
            (System::X8664Darwin, StdenvFrom::After) => {
                self.darwin_stdenv_after = out;
            },
        }
    }

    /// Records the stdenvs evaluated on the target branch.
    pub fn identify_before(&mut self, linux: Option<String>, darwin: Option<String>)
        ensures
            final(self).linux_stdenv_before == linux,
            final(self).darwin_stdenv_before == darwin,
            final(self).linux_stdenv_after == old(self).linux_stdenv_after,
            final(self).darwin_stdenv_after == old(self).darwin_stdenv_after,
    {
        self.identify(System::X8664Linux, StdenvFrom::Before, linux);
        self.identify(System::X8664Darwin, StdenvFrom::Before, darwin);
    }

    /// Records the stdenvs evaluated after the merge.
    pub fn identify_after(&mut self, linux: Option<String>, darwin: Option<String>)
        ensures
            final(self).linux_stdenv_after == linux,
            final(self).darwin_stdenv_after == darwin,
            final(self).linux_stdenv_before == old(self).linux_stdenv_before,
            final(self).darwin_stdenv_before == old(self).darwin_stdenv_before,
    {
        self.identify(System::X8664Linux, StdenvFrom::After, linux);
        self.identify(System::X8664Darwin, StdenvFrom::After, darwin);
    }

    /// The systems whose stdenv differs before and after the merge.
    pub fn changed(&self) -> (r: Vec<System>)
        ensures
            r@ == self.changed_spec(),
    {
        let mut changed: Vec<System> = Vec::new();
        if !same_output(&self.linux_stdenv_before, &self.linux_stdenv_after) {
            changed.push(System::X8664Linux);
        }
        if !same_output(&self.darwin_stdenv_before, &self.darwin_stdenv_after) {
            changed.push(System::X8664Darwin);
        }
        assert(changed@ =~= self.changed_spec());
        changed
    }

    /// Whether the stdenv is the same on every system: exactly when no
    /// system has changed.
    pub fn are_same(&self) -> (r: bool)
        ensures
            r == (self.changed_spec().len() == 0),
            r == (opt_view(self.linux_stdenv_before) == opt_view(self.linux_stdenv_after)
                && opt_view(self.darwin_stdenv_before) == opt_view(self.darwin_stdenv_after)),
    {
        self.changed().len() == 0
    }
}

} // verus!
