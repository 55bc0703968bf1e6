//! The command line: `alloy [file.md]`.
use vstd::prelude::*;

use crate::text::{chars_of, views};

verus! {

/// The command-line arguments.
#[derive(Debug)]
pub struct CliArgs {
    /// The file to open on startup.
    pub file: Option<String>,
}

impl Default for CliArgs {
    fn default() -> (r: CliArgs)
        ensures
            r.file is None,
    {
        CliArgs { file: None }
    }
}

/// Why the arguments were not accepted.
#[derive(Debug)]
pub enum CliError {
    /// An argument starts with `-`.
    UnknownOption(String),
    /// There is more than one file.
    TooManyFiles,
}

#[verifier::ext_equal]
pub enum CliErrorView {
    UnknownOption(Seq<char>),
    TooManyFiles,
}

impl View for CliError {
    type V = CliErrorView;

    open spec fn view(&self) -> CliErrorView {
        match self {
            CliError::UnknownOption(s) => CliErrorView::UnknownOption(s@),
            CliError::TooManyFiles => CliErrorView::TooManyFiles,
        }
    }
}

/// The message of an error, with the usage on a line of its own.
pub open spec fn cli_message(e: CliErrorView) -> Seq<char> {
    match e {
        CliErrorView::UnknownOption(arg) => "Error: Unknown option '"@ + arg
            + "'\nUsage: alloy [file.md]"@,
        CliErrorView::TooManyFiles =>
            "Error: Only one file argument is supported\nUsage: alloy [file.md]"@,
    }
}

impl CliError {
    pub fn message(&self) -> (r: String)
        ensures
            r@ == cli_message(self@),
    {
        match self {
            CliError::UnknownOption(arg) => {
                let mut r = "Error: Unknown option '".to_owned();
                r.append(arg.as_str());
                r.append("'\nUsage: alloy [file.md]");
                r
            },
            CliError::TooManyFiles => {
                "Error: Only one file argument is supported\nUsage: alloy [file.md]".to_owned()
            },
        }
    }
}

pub open spec fn is_option(arg: Seq<char>) -> bool {
    arg.len() > 0 && arg[0] == '-'
}

/// What the arguments stand for: at most one file. The first argument that does not fit decides
/// the error.
pub open spec fn parsed_args(args: Seq<Seq<char>>) -> Result<Option<Seq<char>>, CliErrorView>
    decreases args.len(),
{
    if args.len() == 0 {
        Ok(None)
    } else {
        match parsed_args(args.drop_last()) {
            Err(e) => Err(e),
            Ok(file) => if is_option(args.last()) {
                Err(CliErrorView::UnknownOption(args.last()))
            } else if file is Some {
                Err(CliErrorView::TooManyFiles)
            } else {
                Ok(Some(args.last()))
            },
        }
    }
}

/// An argument that was not accepted decides, whatever follows.
proof fn lemma_first_error_decides(args: Seq<Seq<char>>, n: int)
    requires
        0 <= n <= args.len(),
        parsed_args(args.take(n)) is Err,
    ensures
        parsed_args(args) == parsed_args(args.take(n)),
    decreases args.len() - n,
{
    if n < args.len() {
        assert(args.take(n + 1).drop_last() =~= args.take(n));
        lemma_first_error_decides(args, n + 1);
    } else {
        assert(args.take(n) =~= args);
    }
}

impl CliArgs {
    /// Parses the arguments, without the name of the program.
    pub fn parse_from(args: &[String]) -> (r: Result<CliArgs, CliError>)
        ensures
            match parsed_args(views(args@)) {
                Ok(Some(f)) => r matches Ok(cli) && (cli.file matches Some(g) && g@ == f),
                Ok(None) => r matches Ok(cli) && cli.file is None,
                Err(e) => r matches Err(err) && err@ == e,
            },
    {
        let mut file: Option<String> = None;
        let mut i: usize = 0;
        let ghost all = views(args@);
        assert(all.take(0) =~= Seq::<Seq<char>>::empty());
        while i < args.len()
            invariant
                i <= args@.len(),
                all == views(args@),
                match parsed_args(all.take(i as int)) {
                    Ok(Some(f)) => file matches Some(g) && g@ == f,
                    Ok(None) => file is None,
                    Err(_) => false,
                },
            decreases args@.len() - i,
        {
            let v = chars_of(args[i].as_str());
            proof {
                assert(all.take(i + 1).drop_last() =~= all.take(i as int));
                assert(all.take(i + 1).last() == v@);
            }
            if v.len() > 0 && v[0] == '-' {
                proof {
                    lemma_first_error_decides(all, i + 1);
                }
                return Err(CliError::UnknownOption(args[i].clone()));
            }
            if file.is_some() {
                proof {
                    lemma_first_error_decides(all, i + 1);
                }
                return Err(CliError::TooManyFiles);
            }
            file = Some(args[i].clone());
            i = i + 1;
        }
        assert(all.take(args@.len() as int) =~= all);
        Ok(CliArgs { file })
    }
}

/// No argument is an option before place `k`.
pub open spec fn no_option_before(args: Seq<Seq<char>>, k: int) -> bool {
    forall|i: int|
        0 <= i < k ==> !((#[trigger] args[i]).len() > 0 && args[i][0] == '-')
}

proof fn lemma_files(args: Seq<Seq<char>>)
    requires
        no_option_before(args, args.len() as int),
    ensures
        args.len() == 0 ==> parsed_args(args) == Ok::<Option<Seq<char>>, CliErrorView>(None),
        args.len() == 1 ==> parsed_args(args) == Ok::<Option<Seq<char>>, CliErrorView>(
            Some(args[0]),
        ),
        args.len() > 1 ==> parsed_args(args) == Err::<Option<Seq<char>>, CliErrorView>(
            CliErrorView::TooManyFiles,
        ),
    decreases args.len(),
{
    if args.len() > 0 {
        let front = args.drop_last();
        assert forall|i: int| 0 <= i < front.len() implies !((#[trigger] front[i]).len() > 0
            && front[i][0] == '-') by {
            assert(front[i] == args[i]);
        }
        lemma_files(front);
        assert(!is_option(args[args.len() - 1]));
    }
}

/// One file can be named, or none; two are too many.
pub proof fn law_at_most_one_file(args: Seq<Seq<char>>)
    requires
        no_option_before(args, args.len() as int),
    ensures
        args.len() == 0 ==> parsed_args(args) == Ok::<Option<Seq<char>>, CliErrorView>(None),
        args.len() == 1 ==> parsed_args(args) == Ok::<Option<Seq<char>>, CliErrorView>(
            Some(args[0]),
        ),
        args.len() > 1 ==> parsed_args(args) == Err::<Option<Seq<char>>, CliErrorView>(
            CliErrorView::TooManyFiles,
        ),
{
    lemma_files(args);
}

/// An argument that begins with a hyphen is refused by name, whatever follows it, unless there were
/// too many files already.
pub proof fn law_options_are_refused(args: Seq<Seq<char>>, k: int)
    requires
        0 <= k < args.len(),
        no_option_before(args, k),
        args[k].len() > 0,
        args[k][0] == '-',
    ensures
        k <= 1 ==> parsed_args(args) == Err::<Option<Seq<char>>, CliErrorView>(
            CliErrorView::UnknownOption(args[k]),
        ),
        k > 1 ==> parsed_args(args) == Err::<Option<Seq<char>>, CliErrorView>(
            CliErrorView::TooManyFiles,
        ),
{
    let front = args.take(k);
    assert forall|i: int| 0 <= i < front.len() implies !((#[trigger] front[i]).len() > 0
        && front[i][0] == '-') by {
        assert(front[i] == args[i]);
    }
    lemma_files(front);
    let upto = args.take(k + 1);
    assert(upto.drop_last() =~= front);
    assert(upto.last() == args[k]);
    lemma_first_error_decides(args, k + 1);
}

} // verus!
