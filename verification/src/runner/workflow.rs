use vstd::prelude::*;
use vstd::string::StringExecFns;

verus! {

/// The command-line options of the analyzer. The glue layer parses the
/// actual arguments into this shape.
#[derive(Debug, Clone)]
pub struct CliArgs {
    pub output_file: String,
    pub working_dir: Option<String>,
    pub reports_dir: Option<String>,
    pub workspace: bool,
    pub all_features: bool,
    pub all_targets: bool,
}

/// The linter invocation derived from the command-line options.
#[derive(Debug)]
pub struct ClippyWorkflow {
    pub cargo_args: Vec<String>,
}

/// The extra cargo flags a set of options asks for, in fixed order.
pub open spec fn spec_cargo_args(args: CliArgs) -> Seq<Seq<char>> {
    (if args.workspace {
        seq!["--workspace"@]
    } else {
        Seq::empty()
    }) + (if args.all_features {
        seq!["--all-features"@]
    } else {
        Seq::empty()
    }) + (if args.all_targets {
        seq!["--all-targets"@]
    } else {
        Seq::empty()
    })
}

impl ClippyWorkflow {
    /// Derives the linter's extra cargo flags from the options.
    pub fn new(args: CliArgs) -> (r: Self)
        ensures
            r.cargo_args.deep_view() == spec_cargo_args(args),
    {
        let mut cargo_args: Vec<String> = Vec::new();
        if args.workspace {
            cargo_args.push("--workspace".to_owned());
        }
        if args.all_features {
            cargo_args.push("--all-features".to_owned());
        }
        if args.all_targets {
            cargo_args.push("--all-targets".to_owned());
        }
        proof {
            assert(cargo_args.deep_view() =~= spec_cargo_args(args));
        }
        Self { cargo_args }
    }
}

} // verus!
