//! Running a command: how its outcome becomes a result, and its version line.
use crate::error::{Result, ThumedError};
use crate::text::{
    chars_of, is_text, join, join_chars, lemma_chars_deep_view, lines, lines_of,
    push_all, push_str, slice_of, string_of, trim, trimmed,
};
use crate::tools::is_managed_tool;
use std::io;
use vstd::prelude::*;

verus! {

/// What became of an attempt to run a program.
pub enum CommandOutcome {
    /// The program was not found.
    Missing,
    /// Starting it failed for another reason.
    SpawnFailed(io::Error),
    /// It ran; whether it succeeded, and what it printed (decoded lossily).
    Finished { success: bool, stdout: String, stderr: String },
}

/// The command line as the error shows it: program and arguments separated by
/// single spaces, trimmed.
pub open spec fn command_line(program: Seq<char>, args: Seq<Seq<char>>) -> Seq<char> {
    trim(program + " "@ + join(args, " "@))
}

pub open spec fn arg_views(args: Seq<&str>) -> Seq<Seq<char>> {
    args.map_values(|a: &str| a@)
}

/// The result of running `program` with `args` (the application starts the
/// program, preferring the tools that this application installed): what it
/// printed where it
/// succeeded; `MissingTool` where it was not found; the I/O error where it
/// could not be started; `CommandFailed` with its command line and its error
/// output where it failed.
pub fn run_cmd(program: &str, args: &[&str], outcome: CommandOutcome) -> (r: Result<
    String,
>)
    ensures
        match outcome {
            CommandOutcome::Missing => r matches Err(ThumedError::MissingTool(t)) && t@
                == program@,
            CommandOutcome::SpawnFailed(e) => r matches Err(ThumedError::Io(x)) && x == e,
            CommandOutcome::Finished { success, stdout, stderr } => if success {
                r matches Ok(s) && s@ == stdout@
            } else {
                r matches Err(ThumedError::CommandFailed { cmd, stderr: err }) && cmd@
                    == command_line(program@, arg_views(args@)) && err@ == stderr@
            },
        },
{
    match outcome {
        CommandOutcome::Missing => Err(ThumedError::MissingTool(string_of(chars_of(program).as_slice()))),
        CommandOutcome::SpawnFailed(e) => Err(ThumedError::Io(e)),
        CommandOutcome::Finished { success, stdout, stderr } => {
            if success {
                return Ok(stdout);
            }
            let mut parts: Vec<Vec<char>> = Vec::new();
            let mut i: usize = 0;
            while i < args.len()
                invariant
                    i <= args.len(),
                    parts.deep_view() == arg_views(args@).take(i as int),
                decreases args.len() - i,
            {
                let a = chars_of(args[i]);
                let ghost before = parts.deep_view();
                proof {
                    lemma_chars_deep_view(a);
                }
                parts.push(a);
                assert(parts.deep_view() =~= before.push(args@[i as int]@));
                assert(arg_views(args@).take(i + 1) =~= arg_views(args@).take(i as int).push(
                    args@[i as int]@,
                ));
                i = i + 1;
            }
            assert(arg_views(args@).take(args.len() as int) == arg_views(args@));
            let mut line = chars_of(program);
            push_str(&mut line, " ");
            let joined = join_chars(&parts, " ");
            push_all(&mut line, joined.as_slice());
            let cmd = string_of(trimmed(line.as_slice()).as_slice());
            Err(ThumedError::CommandFailed { cmd, stderr })
        },
    }
}

/// The first line of `ls` that holds more than white space, trimmed (empty
/// where there is none).
pub open spec fn first_non_blank(ls: Seq<Seq<char>>) -> Seq<char>
    decreases ls.len(),
{
    if ls.len() == 0 {
        seq![]
    } else if trim(ls[0]).len() > 0 {
        trim(ls[0])
    } else {
        first_non_blank(ls.drop_first())
    }
}

/// The longest version line that is kept.
pub open spec fn version_line_limit() -> nat {
    120
}

/// First non-empty line, trimmed and cut to 120 characters.
pub open spec fn first_line_of(text: Seq<char>) -> Seq<char> {
    let l = first_non_blank(lines(text));
    if l.len() <= version_line_limit() {
        l
    } else {
        l.take(version_line_limit() as int)
    }
}

/// First non-empty line, trimmed and truncated - good enough for version output.
pub fn first_line(text: &str) -> (r: String)
    ensures
        r@ == first_line_of(text@),
{
    let ls = lines_of(chars_of(text).as_slice());
    let mut i: usize = 0;
    let mut found: Vec<char> = Vec::new();
    assert(ls.deep_view().skip(0) =~= ls.deep_view());
    let mut done = false;
    while i < ls.len() && !done
        invariant
            i <= ls.len(),
            done ==> found@ == first_non_blank(ls.deep_view()),
            !done ==> found@ == Seq::<char>::empty(),
            !done ==> first_non_blank(ls.deep_view()) == first_non_blank(
                ls.deep_view().skip(i as int),
            ),
        decreases ls.len() - i + (if done {
            0int
        } else {
            1int
        }),
    {
        proof {
            lemma_chars_deep_view(ls[i as int]);
            assert(ls.deep_view()[i as int] == ls[i as int]@);
            assert(ls.deep_view().skip(i as int)[0] == ls[i as int]@);
            assert(ls.deep_view().skip(i as int).drop_first() =~= ls.deep_view().skip(i + 1));
        }
        let t = trimmed(ls[i].as_slice());
        if t.len() > 0 {
            found = t;
            done = true;
        } else {
            i = i + 1;
        }
    }
    proof {
        if !done {
            assert(ls.deep_view().skip(i as int) =~= Seq::<Seq<char>>::empty());
        }
    }
    assert(found@ == first_non_blank(lines(text@)));
    if found.len() > 120 {
        found = slice_of(found.as_slice(), 0, 120);
        assert(found@ =~= first_line_of(text@));
    }
    string_of(found.as_slice())
}


/// Whether to run the copy of a tool that this application installed: only
/// for kubectl and Helm, and only where that copy is a file; otherwise the
/// program is looked up on the search path.
pub fn uses_installed(cmd: &str, installed_is_file: bool) -> (r: bool)
    ensures
        r == (is_managed_tool(cmd@) && installed_is_file),
{
    let c = chars_of(cmd);
    installed_is_file && (is_text(c.as_slice(), "kubectl") || is_text(c.as_slice(), "helm"))
}

} // verus!
