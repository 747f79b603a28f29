//! The evaluation checks run on the merged tree, each reported as a commit
//! status of its own.
use vstd::prelude::*;
use crate::text::views;

verus! {

/// What the evaluator is asked to do.
#[derive(Clone, Copy, Debug, PartialEq, Eq, Structural)]
pub enum Operation {
    QueryPackagesJSON,
    QueryPackagesOutputs,
    Instantiate,
}

/// The command line that an operation starts with.
pub open spec fn op_command(op: Operation) -> Seq<char> {
    match op {
        Operation::QueryPackagesJSON => "nix-env -qa --json"@,
        Operation::QueryPackagesOutputs => "nix-env -qaP --no-name --out-path"@,
        Operation::Instantiate => "nix-instantiate"@,
    }
}

impl Operation {
    /// The command line that the operation starts with.
    pub fn command(&self) -> (r: String)
        ensures
            r@ == op_command(*self),
    {
        match self {
            Operation::QueryPackagesJSON => "nix-env -qa --json".to_owned(),
            Operation::QueryPackagesOutputs => "nix-env -qaP --no-name --out-path".to_owned(),
            Operation::Instantiate => "nix-instantiate".to_owned(),
        }
    }
}

/// One named evaluation of the merged tree.
pub struct EvalChecker {
    pub name: String,
    pub op: Operation,
    pub args: Vec<String>,
}

/// Pieces of text joined by `sep`.
pub open spec fn join_with(ws: Seq<Seq<char>>, sep: Seq<char>) -> Seq<char>
    decreases ws.len(),
{
    if ws.len() == 0 {
        Seq::empty()
    } else if ws.len() == 1 {
        ws[0]
    } else {
        join_with(ws.drop_last(), sep) + sep + ws.last()
    }
}

/// Words joined by single spaces.
pub open spec fn join_words(ws: Seq<Seq<char>>) -> Seq<char> {
    join_with(ws, " "@)
}

impl EvalChecker {
    pub fn new(name: &str, op: Operation, args: Vec<String>) -> (r: EvalChecker)
        ensures
            r.name@ == name@,
            r.op == op,
            r.args == args,
    {
        EvalChecker { name: name.to_owned(), op, args }
    }

    /// The name of the check, which is its status context.
    pub fn name(&self) -> (r: String)
        ensures
            r@ == self.name@,
    {
        self.name.clone()
    }

    /// The command line of the check, its status description: the
    /// operation's command and the arguments, separated by spaces.
    pub fn cli_cmd(&self) -> (r: String)
        ensures
            r@ == join_words(seq![op_command(self.op)] + views(self.args@)),
    {
        let mut r = self.op.command();
        let ghost ws = seq![op_command(self.op)] + views(self.args@);
        let mut i: usize = 0;
        while i < self.args.len()
            invariant
                i <= self.args@.len(),
                ws == seq![op_command(self.op)] + views(self.args@),
                r@ == join_words(ws.subrange(0, i + 1)),
            decreases self.args@.len() - i,
        {
            r.append(" ");
            r.append(self.args[i].as_str());
            proof {
                let w = ws.subrange(0, i + 2);
                assert(w.drop_last() =~= ws.subrange(0, i + 1));
                assert(w.last() == self.args@[i as int]@);
            }
            i = i + 1;
        }
        assert(ws.subrange(0, i + 1) =~= ws);
        r
    }
}

/// The argument that hands the tree to the release expressions.
pub open spec fn nixpkgs_arg() -> Seq<char> {
    "{ outPath=./.; revCount=999999; shortRev=\"ofborg\"; }"@
}

/// The arguments of an instantiation of `attr` from the release file `file`.
pub open spec fn release_args(file: Seq<char>, attr: Seq<char>) -> Seq<Seq<char>> {
    seq!["--arg"@, "nixpkgs"@, nixpkgs_arg(), file, "-A"@, attr]
}

/// The checks that every package-collection pull request goes through, in
/// the order their statuses are reported: name, operation and arguments.
pub open spec fn nixpkgs_check_list() -> Seq<(Seq<char>, Operation, Seq<Seq<char>>)> {
    seq![
        ("package-list"@, Operation::QueryPackagesJSON, seq!["--file"@, "."@]),
        (
            "package-list-no-aliases"@,
            Operation::QueryPackagesJSON,
            seq!["--file"@, "."@, "--arg"@, "config"@, "{ allowAliases = false; }"@],
        ),
        ("nixos-options"@, Operation::Instantiate, release_args("./nixos/release.nix"@, "options"@)),
        ("nixos-manual"@, Operation::Instantiate, release_args("./nixos/release.nix"@, "manual"@)),
        (
            "nixpkgs-manual"@,
            Operation::Instantiate,
            release_args("./pkgs/top-level/release.nix"@, "manual"@),
        ),
        (
            "nixpkgs-tarball"@,
            Operation::Instantiate,
            release_args("./pkgs/top-level/release.nix"@, "tarball"@),
        ),
        (
            "nixpkgs-unstable-jobset"@,
            Operation::Instantiate,
            release_args("./pkgs/top-level/release.nix"@, "unstable"@),
        ),
    ]
}

/// A checker holds `(name, op, args)`.
pub open spec fn checker_is(c: EvalChecker, spec: (Seq<char>, Operation, Seq<Seq<char>>)) -> bool {
    c.name@ == spec.0 && c.op == spec.1 && views(c.args@) == spec.2
}

fn release_check(name: &str, file: &str, attr: &str) -> (r: EvalChecker)
    ensures
        r.name@ == name@,
        r.op == Operation::Instantiate,
        views(r.args@) == release_args(file@, attr@),
{
    let args = vec![
        "--arg".to_owned(),
        "nixpkgs".to_owned(),
        "{ outPath=./.; revCount=999999; shortRev=\"ofborg\"; }".to_owned(),
        file.to_owned(),
        "-A".to_owned(),
        attr.to_owned(),
    ];
    assert(views(args@) =~= release_args(file@, attr@));
    EvalChecker::new(name, Operation::Instantiate, args)
}

/// The package collection's evaluation checks, in reporting order.
pub fn nixpkgs_checks() -> (r: Vec<EvalChecker>)
    ensures
        r@.len() == nixpkgs_check_list().len(),
        forall|i: int| 0 <= i < r@.len() ==> checker_is(#[trigger] r@[i], nixpkgs_check_list()[i]),
{
    let mut r: Vec<EvalChecker> = Vec::new();
    let a1 = vec!["--file".to_owned(), ".".to_owned()];
    assert(views(a1@) =~= seq!["--file"@, "."@]);
    r.push(EvalChecker::new("package-list", Operation::QueryPackagesJSON, a1));
    let a2 = vec![
        "--file".to_owned(),
        ".".to_owned(),
        "--arg".to_owned(),
        "config".to_owned(),
        "{ allowAliases = false; }".to_owned(),
    ];
    assert(views(a2@) =~= seq!["--file"@, "."@, "--arg"@, "config"@, "{ allowAliases = false; }"@]);
    r.push(EvalChecker::new("package-list-no-aliases", Operation::QueryPackagesJSON, a2));
    r.push(release_check("nixos-options", "./nixos/release.nix", "options"));
    r.push(release_check("nixos-manual", "./nixos/release.nix", "manual"));
    r.push(release_check("nixpkgs-manual", "./pkgs/top-level/release.nix", "manual"));
    r.push(release_check("nixpkgs-tarball", "./pkgs/top-level/release.nix", "tarball"));
    r.push(release_check("nixpkgs-unstable-jobset", "./pkgs/top-level/release.nix", "unstable"));
    r
}

/// The query for the output path of the standard build environment:
/// `nix-env -qaP --no-name --out-path -f . -A stdenv`, run once per system
/// in the tree as it is.
pub fn stdenv_query() -> (r: EvalChecker)
    ensures
        r.name@ == "stdenv"@,
        r.op == Operation::QueryPackagesOutputs,
        views(r.args@) == seq!["-f"@, "."@, "-A"@, "stdenv"@],
{
    let args = vec!["-f".to_owned(), ".".to_owned(), "-A".to_owned(), "stdenv".to_owned()];
    assert(views(args@) =~= seq!["-f"@, "."@, "-A"@, "stdenv"@]);
    EvalChecker::new("stdenv", Operation::QueryPackagesOutputs, args)
}

} // verus!
