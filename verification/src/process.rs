//! The command builder. A command is assembled in two states: without a
//! working directory, where it can only be built up further, and with one,
//! where it can also be rendered for display and have the outcome of a run
//! classified. The transition consumes the builder, so code that never
//! supplies a working directory has no way to reach the running state: the
//! type system enforces it, not a runtime check.

use vstd::prelude::*;
use vstd::utf8::{decode_utf8, valid_utf8};

use crate::escape::{escape_spec, escape_token, lemma_words_snoc, words_spec};
use crate::text::{chars_to_string, dec_int, push_dec_i32, push_str_chars};

verus! {

/// How a child process ended, as plain values: its exit code, or `None` when
/// a signal ended it before it could exit.
#[derive(Clone, Copy, Debug, PartialEq, Eq)]
pub struct ExitStatus {
    pub code: Option<i32>,
}

impl ExitStatus {
    /// A successful exit: code zero.
    pub open spec fn is_success(&self) -> bool {
        self.code == Some(0i32)
    }

    /// Whether the exit indicates success.
    pub fn success(&self) -> (r: bool)
        ensures
            r == self.is_success(),
    {
        match self.code {
            Some(c) => c == 0,
            None => false,
        }
    }

    /// How the status is written in messages.
    pub open spec fn render_spec(&self) -> Seq<char> {
        match self.code {
            Some(c) => "exit status: "@ + dec_int(c as int),
            None => "terminated by signal"@,
        }
    }

    /// The status as message text: `exit status: <code>`, or a note that a
    /// signal ended the child.
    pub fn render(&self) -> (r: String)
        ensures
            r@ == self.render_spec(),
    {
        let mut out: Vec<char> = Vec::new();
        match self.code {
            Some(c) => {
                push_str_chars("exit status: ", &mut out);
                push_dec_i32(c, &mut out);
            },
            None => {
                push_str_chars("terminated by signal", &mut out);
            },
        }
        assert(out@ =~= self.render_spec());
        chars_to_string(&out)
    }
}

/// Everything that can go wrong when resolving and running a command.
#[derive(Debug, Clone, PartialEq, Eq)]
pub enum Error {
    /// No executable of the given name was found on the search path.
    NotFound(String),
    /// The operating system refused to create the child, or writing the
    /// piped input to it failed; the payload is the OS error's text.
    SpawnFailed(String),
    /// The child ran but exited with a non-success status; the payload is
    /// the rendered command and the status.
    ProcessFailed(String, ExitStatus),
    /// Captured standard output was not valid UTF-8 text.
    NonUtf8Output,
}

impl Error {
    /// The message each error carries: enough to re-run the command by hand
    /// and to tell a failed run from output that could not be read.
    pub open spec fn message_spec(&self) -> Seq<char> {
        match self {
            Error::NotFound(name) => "`"@ + name@ + "` not found"@,
            Error::SpawnFailed(cause) => cause@,
            Error::ProcessFailed(display, status) => display@ + " didn't exit successfully: "@
                + status.render_spec(),
            Error::NonUtf8Output => "non UTF-8 output"@,
        }
    }

    /// Renders the error as one actionable line of text.
    pub fn message(&self) -> (r: String)
        ensures
            r@ == self.message_spec(),
    {
        let mut out: Vec<char> = Vec::new();
        match self {
            Error::NotFound(name) => {
                push_str_chars("`", &mut out);
                push_str_chars(name.as_str(), &mut out);
                push_str_chars("` not found", &mut out);
            },
            Error::SpawnFailed(cause) => {
                push_str_chars(cause.as_str(), &mut out);
            },
            Error::ProcessFailed(display, status) => {
                push_str_chars(display.as_str(), &mut out);
                push_str_chars(" didn't exit successfully: ", &mut out);
                let rendered = status.render();
                push_str_chars(rendered.as_str(), &mut out);
            },
            Error::NonUtf8Output => {
                push_str_chars("non UTF-8 output", &mut out);
            },
        }
        assert(out@ =~= self.message_spec());
        chars_to_string(&out)
    }
}

/// The abstract state of an assembled command.
#[verifier::ext_equal]
pub ghost struct CommandView {
    pub program: Seq<char>,
    pub args: Seq<Seq<char>>,
    pub cwd: Option<Seq<char>>,
    pub display_cwd: bool,
    pub pipe_input: Option<Seq<u8>>,
}

impl CommandView {
    /// Program and arguments, in command-line order.
    pub open spec fn tokens(self) -> Seq<Seq<char>> {
        seq![self.program] + self.args
    }

    /// What follows the command line in the display form: ` in <cwd>` when
    /// the display flag is set, nothing otherwise.
    pub open spec fn cwd_suffix(self) -> Seq<char> {
        if self.display_cwd {
            match self.cwd {
                Some(c) => " in "@ + c,
                None => Seq::empty(),
            }
        } else {
            Seq::empty()
        }
    }

    /// The display form: the escaped command line between backticks, then
    /// the working-directory suffix.
    pub open spec fn display_spec(self) -> Seq<char> {
        seq!['`'] + words_spec(self.tokens()) + seq!['`'] + self.cwd_suffix()
    }
}

/// A command being assembled, before any working directory has been
/// supplied. This state offers no way to run or display the command: the
/// only path to those operations is `cwd`, which demands the directory.
#[derive(Debug)]
pub struct ProcessBuilder {
    program: String,
    args: Vec<String>,
    display_cwd: bool,
    pipe_input: Option<Vec<u8>>,
}

/// A command whose working directory is established: the state that can be
/// displayed and whose runs can be classified.
#[derive(Debug)]
pub struct ProcessBuilderWithCwd {
    program: String,
    args: Vec<String>,
    cwd: String,
    display_cwd: bool,
    pipe_input: Option<Vec<u8>>,
}

impl View for ProcessBuilder {
    type V = CommandView;

    closed spec fn view(&self) -> CommandView {
        CommandView {
            program: self.program@,
            args: self.args.deep_view(),
            cwd: None,
            display_cwd: self.display_cwd,
            pipe_input: match self.pipe_input {
                Some(ref v) => Some(v@),
                None => None,
            },
        }
    }
}

impl View for ProcessBuilderWithCwd {
    type V = CommandView;

    closed spec fn view(&self) -> CommandView {
        CommandView {
            program: self.program@,
            args: self.args.deep_view(),
            cwd: Some(self.cwd@),
            display_cwd: self.display_cwd,
            pipe_input: match self.pipe_input {
                Some(ref v) => Some(v@),
                None => None,
            },
        }
    }
}

/// A fresh builder for `program`: no arguments, no working directory, no
/// piped input, and the display flag off.
pub fn process(program: String) -> (r: ProcessBuilder)
    ensures
        r@ == (CommandView {
            program: program@,
            args: Seq::empty(),
            cwd: None,
            display_cwd: false,
            pipe_input: None,
        }),
{
    let r = ProcessBuilder { program, args: Vec::new(), display_cwd: false, pipe_input: None };
    proof {
        assert(r@ =~~= (CommandView {
            program: r.program@,
            args: Seq::empty(),
            cwd: None,
            display_cwd: false,
            pipe_input: None,
        }));
    }
    r
}

impl ProcessBuilder {
    /// Appends one argument.
    pub fn arg(self, arg: String) -> (r: Self)
        ensures
            r@ == (CommandView { args: self@.args.push(arg@), ..self@ }),
    {
        let ghost v = self@;
        let ProcessBuilder { program, mut args, display_cwd, pipe_input } = self;
        args.push(arg);
        let r = ProcessBuilder { program, args, display_cwd, pipe_input };
        proof {
            assert(r@ =~~= (CommandView { args: v.args.push(arg@), ..v }));
        }
        r
    }

    /// Appends every argument in the slice, in order.
    pub fn args(self, args: &[String]) -> (r: Self)
        ensures
            r@ == (CommandView { args: self@.args + args.deep_view(), ..self@ }),
    {
        let ghost v = self@;
        let mut s = self;
        let mut i: usize = 0;
        while i < args.len()
            invariant
                i <= args.len(),
                s@ == (CommandView { args: v.args + args.deep_view().take(i as int), ..v }),
            decreases args.len() - i,
        {
            s = s.arg(args[i].clone());
            proof {
                assert((v.args + args.deep_view().take(i as int)).push(args.deep_view()[i as int])
                    =~~= v.args + args.deep_view().take(i as int + 1));
                assert(s@ =~~= (CommandView { args: v.args + args.deep_view().take(i as int + 1), ..v }));
            }
            i += 1;
        }
        proof {
            assert(args.deep_view().take(args.len() as int) =~~= args.deep_view());
            assert(s@ =~~= (CommandView { args: v.args + args.deep_view(), ..v }));
        }
        s
    }

    /// Sets the display flag, so the rendered form names the working
    /// directory once one is supplied.
    pub fn display_cwd(self) -> (r: Self)
        ensures
            r@ == (CommandView { display_cwd: true, ..self@ }),
    {
        let ghost v = self@;
        let ProcessBuilder { program, args, display_cwd: _, pipe_input } = self;
        let r = ProcessBuilder { program, args, display_cwd: true, pipe_input };
        proof {
            assert(r@ =~~= (CommandView { display_cwd: true, ..v }));
        }
        r
    }

    /// Sets or replaces the bytes piped to the child's standard input;
    /// `None` lets the child inherit the caller's input.
    pub fn pipe_input(self, pipe_input: Option<Vec<u8>>) -> (r: Self)
        ensures
            r@ == (CommandView {
                pipe_input: match pipe_input {
                    Some(v) => Some(v@),
                    None => None,
                },
                ..self@
            }),
    {
        let ghost v = self@;
        let ProcessBuilder { program, args, display_cwd, pipe_input: _ } = self;
        let ghost p = match pipe_input {
            Some(ref b) => Some(b@),
            None => None,
        };
        let r = ProcessBuilder { program, args, display_cwd, pipe_input };
        proof {
            assert(r@ =~~= (CommandView { pipe_input: p, ..v }));
        }
        r
    }

    /// Supplies the working directory, consuming this builder: the one way
    /// to obtain the state that can run the command.
    pub fn cwd(self, cwd: String) -> (r: ProcessBuilderWithCwd)
        requires
            cwd@.len() > 0,
        ensures
            r@ == (CommandView { cwd: Some(cwd@), ..self@ }),
    {
        let ghost v = self@;
        let ProcessBuilder { program, args, display_cwd, pipe_input } = self;
        let r = ProcessBuilderWithCwd { program, args, cwd, display_cwd, pipe_input };
        proof {
            assert(r@ =~~= (CommandView { cwd: Some(r.cwd@), ..v }));
        }
        r
    }
}

impl ProcessBuilderWithCwd {
    /// A command in this state always has a concrete, nonempty working
    /// directory; no public operation can remove it.
    #[verifier::type_invariant]
    closed spec fn wf(self) -> bool {
        self.cwd@.len() > 0
    }

    /// Appends one argument.
    pub fn arg(self, arg: String) -> (r: Self)
        ensures
            r@ == (CommandView { args: self@.args.push(arg@), ..self@ }),
    {
        proof {
            use_type_invariant(&self);
        }
        let ghost v = self@;
        let ProcessBuilderWithCwd { program, mut args, cwd, display_cwd, pipe_input } = self;
        args.push(arg);
        let r = ProcessBuilderWithCwd { program, args, cwd, display_cwd, pipe_input };
        proof {
            assert(r@ =~~= (CommandView { args: v.args.push(arg@), ..v }));
        }
        r
    }

    /// Appends every argument in the slice, in order.
    pub fn args(self, args: &[String]) -> (r: Self)
        ensures
            r@ == (CommandView { args: self@.args + args.deep_view(), ..self@ }),
    {
        let ghost v = self@;
        let mut s = self;
        let mut i: usize = 0;
        while i < args.len()
            invariant
                i <= args.len(),
                s@ == (CommandView { args: v.args + args.deep_view().take(i as int), ..v }),
            decreases args.len() - i,
        {
            s = s.arg(args[i].clone());
            proof {
                assert((v.args + args.deep_view().take(i as int)).push(args.deep_view()[i as int])
                    =~~= v.args + args.deep_view().take(i as int + 1));
                assert(s@ =~~= (CommandView { args: v.args + args.deep_view().take(i as int + 1), ..v }));
            }
            i += 1;
        }
        proof {
            assert(args.deep_view().take(args.len() as int) =~~= args.deep_view());
            assert(s@ =~~= (CommandView { args: v.args + args.deep_view(), ..v }));
        }
        s
    }

    /// Sets the display flag, so the rendered form names the working
    /// directory.
    pub fn display_cwd(self) -> (r: Self)
        ensures
            r@ == (CommandView { display_cwd: true, ..self@ }),
    {
        proof {
            use_type_invariant(&self);
        }
        let ghost v = self@;
        let ProcessBuilderWithCwd { program, args, cwd, display_cwd: _, pipe_input } = self;
        let r = ProcessBuilderWithCwd { program, args, cwd, display_cwd: true, pipe_input };
        proof {
            assert(r@ =~~= (CommandView { display_cwd: true, ..v }));
        }
        r
    }

    /// Sets or replaces the bytes piped to the child's standard input;
    /// `None` lets the child inherit the caller's input.
    pub fn pipe_input(self, pipe_input: Option<Vec<u8>>) -> (r: Self)
        ensures
            r@ == (CommandView {
                pipe_input: match pipe_input {
                    Some(v) => Some(v@),
                    None => None,
                },
                ..self@
            }),
    {
        proof {
            use_type_invariant(&self);
        }
        let ghost v = self@;
        let ProcessBuilderWithCwd { program, args, cwd, display_cwd, pipe_input: _ } = self;
        let ghost p = match pipe_input {
            Some(ref b) => Some(b@),
            None => None,
        };
        let r = ProcessBuilderWithCwd { program, args, cwd, display_cwd, pipe_input };
        proof {
            assert(r@ =~~= (CommandView { pipe_input: p, ..v }));
        }
        r
    }

    /// Replaces the working directory.
    pub fn cwd(self, cwd: String) -> (r: Self)
        requires
            cwd@.len() > 0,
        ensures
            r@ == (CommandView { cwd: Some(cwd@), ..self@ }),
    {
        let ghost v = self@;
        let ProcessBuilderWithCwd { program, args, cwd: _, display_cwd, pipe_input } = self;
        let r = ProcessBuilderWithCwd { program, args, cwd, display_cwd, pipe_input };
        proof {
            assert(r@ =~~= (CommandView { cwd: Some(r.cwd@), ..v }));
        }
        r
    }

    /// Appends the escaped command line (program, then each argument,
    /// space-separated) to `out`.
    fn push_command_line(&self, out: &mut Vec<char>)
        ensures
            final(out)@ == old(out)@ + words_spec(self@.tokens()),
    {
        let escaped = escape_token(self.program.as_str());
        push_str_chars(escaped.as_str(), out);
        proof {
            assert(words_spec(seq![self@.program]) == escape_spec(self@.program));
            assert(seq![self@.program] + self@.args.take(0) =~~= seq![self@.program]);
        }
        let n = self.args.len();
        let mut i: usize = 0;
        while i < n
            invariant
                i <= n,
                n == self.args.len(),
                out@ == old(out)@ + words_spec(seq![self@.program] + self@.args.take(i as int)),
            decreases n - i,
        {
            out.push(' ');
            let escaped_arg = escape_token(self.args[i].as_str());
            push_str_chars(escaped_arg.as_str(), out);
            proof {
                let toks = seq![self@.program] + self@.args.take(i as int);
                assert(self.args[i as int]@ == self@.args[i as int]);
                lemma_words_snoc(toks, self@.args[i as int]);
                assert(toks.push(self@.args[i as int]) =~~= seq![self@.program] + self@.args.take(
                    i as int + 1,
                ));
                assert(out@ =~= old(out)@ + words_spec(
                    seq![self@.program] + self@.args.take(i as int + 1),
                ));
            }
            i += 1;
        }
        proof {
            assert(self@.args.take(n as int) =~~= self@.args);
            assert(seq![self@.program] + self@.args =~~= self@.tokens());
        }
    }

    /// The escaped command line alone: what a POSIX shell would read back as
    /// exactly this program and these arguments.
    pub fn command_line(&self) -> (r: String)
        ensures
            r@ == words_spec(self@.tokens()),
    {
        let mut out: Vec<char> = Vec::new();
        self.push_command_line(&mut out);
        chars_to_string(&out)
    }

    /// The display form used in log lines and error messages: the command
    /// line between backticks, then ` in <cwd>` when the display flag is
    /// set.
    pub fn display_string(&self) -> (r: String)
        ensures
            r@ == self@.display_spec(),
    {
        let mut out: Vec<char> = Vec::new();
        out.push('`');
        self.push_command_line(&mut out);
        out.push('`');
        if self.display_cwd {
            push_str_chars(" in ", &mut out);
            push_str_chars(self.cwd.as_str(), &mut out);
        }
        proof {
            assert(out@ =~= self@.display_spec());
        }
        chars_to_string(&out)
    }

    /// Classifies the end of a run whose output was not captured, as
    /// `run-and-check` reports it: a successful exit is silent, any other
    /// outcome is a `ProcessFailed` carrying the display form and the
    /// status.
    pub fn exec_outcome(&self, status: ExitStatus) -> (r: Result<(), Error>)
        ensures
            r is Ok <==> status.is_success(),
            r matches Err(e) ==> e matches Error::ProcessFailed(d, st) && d@ == self@.display_spec()
                && st == status,
    {
        if status.success() {
            Ok(())
        } else {
            Err(Error::ProcessFailed(self.display_string(), status))
        }
    }

    /// Classifies the end of a captured run, as `run-and-capture` reports
    /// it: a non-success exit is a `ProcessFailed` whatever the output held;
    /// a successful exit yields the output decoded as text, or
    /// `NonUtf8Output` when the bytes are not valid UTF-8.
    pub fn read_outcome(&self, status: ExitStatus, stdout: Vec<u8>) -> (r: Result<String, Error>)
        ensures
            !status.is_success() ==> (r matches Err(e) && e matches Error::ProcessFailed(d, st)
                && d@ == self@.display_spec() && st == status),
            status.is_success() && valid_utf8(stdout@) ==> (r matches Ok(s) && s@ == decode_utf8(
                stdout@,
            )),
            status.is_success() && !valid_utf8(stdout@) ==> r == Err::<String, Error>(
                Error::NonUtf8Output,
            ),
    {
        if !status.success() {
            return Err(Error::ProcessFailed(self.display_string(), status));
        }
        match decode_output(stdout) {
            Some(text) => Ok(text),
            None => Err(Error::NonUtf8Output),
        }
    }

    /// The program token, for the code that spawns the child.
    pub fn program(&self) -> (r: &String)
        ensures
            r@ == self@.program,
    {
        &self.program
    }

    /// The argument tokens, in order, for the code that spawns the child.
    pub fn arguments(&self) -> (r: &Vec<String>)
        ensures
            r.deep_view() == self@.args,
    {
        &self.args
    }

    /// The working directory, for the code that spawns the child. A command
    /// in this state always has one, and it is never empty.
    pub fn working_dir(&self) -> (r: &String)
        ensures
            Some(r@) == self@.cwd,
            r@.len() > 0,
    {
        proof {
            use_type_invariant(self);
        }
        &self.cwd
    }

    /// The bytes to pipe to the child's standard input, if any were set.
    pub fn piped_input(&self) -> (r: &Option<Vec<u8>>)
        ensures
            match r {
                Some(v) => self@.pipe_input == Some(v@),
                None => self@.pipe_input is None,
            },
    {
        &self.pipe_input
    }
}

/// Law: the display form is the backticked command line followed by
/// ` in <cwd>` exactly when the display flag is set; without the flag no
/// directory text follows.
pub proof fn lemma_display_flag(v: CommandView, c: Seq<char>)
    requires
        v.cwd == Some(c),
    ensures
        v.display_cwd ==> v.display_spec() == (seq!['`'] + words_spec(v.tokens()) + seq!['`']) + (
        " in "@ + c),
        !v.display_cwd ==> v.display_spec() == seq!['`'] + words_spec(v.tokens()) + seq!['`'],
{
    if v.display_cwd {
        assert(v.display_spec() =~= (seq!['`'] + words_spec(v.tokens()) + seq!['`']) + (" in "@
            + c));
    } else {
        assert(v.display_spec() =~= seq!['`'] + words_spec(v.tokens()) + seq!['`']);
    }
}

/// Law: a POSIX shell reading a command's rendered line sees exactly the
/// program and the arguments that were attached, in order, however the
/// tokens were spelled.
pub proof fn lemma_command_line_round_trip(v: CommandView)
    ensures
        crate::escape::shell_words(words_spec(v.tokens())) == Some(v.tokens()),
{
    assert(v.tokens().len() > 0);
    crate::escape::lemma_round_trip(v.tokens());
}

/// Relies on `String::from_utf8`: it succeeds exactly on valid UTF-8 input,
/// and then returns that input's decoding.
#[verifier::external_body]
fn decode_output(bytes: Vec<u8>) -> (r: Option<String>)
    ensures
        r matches Some(s) ==> valid_utf8(bytes@) && s@ == decode_utf8(bytes@),
        r is None ==> !valid_utf8(bytes@),
{
    String::from_utf8(bytes).ok()
}

} // verus!
