//! The command line.

use vstd::prelude::*;
use vstd::string::StringExecFns;

verus! {

/// What the command line asks for. `S` is the type of a text.
#[derive(Debug, Clone, PartialEq, Eq)]
pub enum Command<S> {
    /// Print a sample job specification.
    PrintExample,
    /// Run the job whose specification is in the file `spec_path`.
    Run { spec_path: S },
    /// Nothing that could be done: tell how `program` is used.
    Usage { program: S },
}

impl View for Command<String> {
    type V = Command<Seq<char>>;

    open spec fn view(&self) -> Command<Seq<char>> {
        match *self {
            Command::PrintExample => Command::PrintExample,
            Command::Run { spec_path } => Command::Run { spec_path: spec_path@ },
            Command::Usage { program } => Command::Usage { program: program@ },
        }
    }
}

/// The flag that asks for a sample job specification.
pub open spec fn example_flag() -> Seq<char> {
    "--print-example"@
}

/// What the command line `args` asks for, whose first element is the program. The flag counts
/// wherever it stands. Without it the first argument is the job specification.
pub open spec fn command_of(args: Seq<Seq<char>>) -> Command<Seq<char>> {
    if args.contains(example_flag()) {
        Command::PrintExample
    } else if args.len() > 1 {
        Command::Run { spec_path: args[1] }
    } else {
        Command::Usage { program: args[0] }
    }
}

/// What the command line `args` asks for, whose first element is the program.
pub fn parse_args(args: &Vec<String>) -> (command: Command<String>)
    requires
        args@.len() > 0,
    ensures
        command@ == command_of(args@.map_values(|a: String| a@)),
{
    let ghost texts = args@.map_values(|a: String| a@);
    let flag = String::from_str("--print-example");
    let mut i: usize = 0;
    while i < args.len()
        invariant
            i <= args@.len(),
            flag@ == example_flag(),
            texts == args@.map_values(|a: String| a@),
            forall|j: int| 0 <= j < i ==> #[trigger] texts[j] != example_flag(),
        decreases args@.len() - i,
    {
        if args[i] == flag {
            assert(texts[i as int] == example_flag());
            return Command::PrintExample;
        }
        i += 1;
    }
    if args.len() > 1 {
        Command::Run { spec_path: args[1].clone() }
    } else {
        Command::Usage { program: args[0].clone() }
    }
}

/// How `program` is used.
pub fn usage(program: &String) -> (s: String)
    ensures
        s@ == "usage: "@ + program@ + " <job.json> | --print-example"@,
{
    String::from_str("usage: ").concat(program.as_str()).concat(" <job.json> | --print-example")
}

/// The first argument is the job: a program that is started with a path, and with whatever
/// follows it, runs the job at that path, unless the example is asked for.
pub proof fn law_first_argument_is_the_job(
    program: Seq<char>,
    path: Seq<char>,
    rest: Seq<Seq<char>>,
)
    requires
        program != "--print-example"@,
        path != "--print-example"@,
        forall|i: int| 0 <= i < rest.len() ==> #[trigger] rest[i] != "--print-example"@,
    ensures
        command_of(seq![program, path] + rest) == (Command::Run { spec_path: path }),
{
    let args = seq![program, path] + rest;
    assert forall|i: int| 0 <= i < args.len() implies #[trigger] args[i] != "--print-example"@ by {
        if i >= 2 {
            assert(args[i] == rest[i - 2]);
        }
    }
    assert(args[1] == path);
}

/// The example is asked for by the flag, wherever it stands and whatever else does.
pub proof fn law_flag_asks_for_the_example(before: Seq<Seq<char>>, after: Seq<Seq<char>>)
    ensures
        command_of(before + seq!["--print-example"@] + after) is PrintExample,
{
    let args = before + seq!["--print-example"@] + after;
    assert(args[before.len() as int] == "--print-example"@);
}

/// A program that stands alone tells how it is used, and only such a program does: any other
/// command line runs a job or prints the example.
pub proof fn law_usage_is_for_a_program_alone(args: Seq<Seq<char>>)
    requires
        args.len() > 0,
    ensures
        command_of(args) is Usage <==> args.len() == 1 && args[0] != "--print-example"@,
        command_of(args) matches Command::Usage { program } ==> program == args[0],
        command_of(args) is PrintExample <==> exists|i: int|
            0 <= i < args.len() && #[trigger] args[i] == "--print-example"@,
{
    assert(args.len() == 1 ==> (args.contains("--print-example"@) <==> args[0]
        == "--print-example"@));
}

/// The text of a command is the text that it holds.
pub proof fn law_command_view(text: String)
    ensures
        (Command::Run { spec_path: text })@ == (Command::Run { spec_path: text@ }),
        (Command::Usage { program: text })@ == (Command::Usage { program: text@ }),
        (Command::<String>::PrintExample)@ is PrintExample,
{
}

} // verus!
