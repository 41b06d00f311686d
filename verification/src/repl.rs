//! The interactive session without its terminal: what each line of input
//! means, what it does to the session's definitions, and what is to be shown
//! for it.

use crate::ast::{
    names_view, signature, signature_spec, AlgorithmDef, AlgorithmDefView, Expr, ExprView,
};
use crate::eval::{
    eval_expr, eval_spec, frame, registry, Context, Env, EvalError, EvalErrorView, Value,
    MAX_DEPTH,
};
use crate::lexer::{lex, lex_spec};
use crate::normalize::{normalize_spec, normalize_unicode_to_ascii};
use crate::number::{kernel_model, kernel_ready, KernelModel, NumRequest};
use crate::parser::{
    alg_def_spec, cursor_after, expr_spec, parse_whole_alg_def, parse_whole_expr, to_the_end,
    Tokens, MAX_NESTING,
};
use crate::registry::{distinct_names, upsert_spec, Registry};
use crate::text::{concat, str_eq};
use crate::token::{caret_message, caret_message_spec, TokSpanView};
use vstd::prelude::*;
use vstd::string::*;
use vstd::utf8::*;

verus! {

/// What is to be shown for a line of input.
#[derive(Debug, PartialEq)]
pub enum Reply {
    /// Nothing.
    Silent,
    /// These lines.
    Lines(Vec<String>),
    /// The value of the expression that was entered.
    Value(Value),
    /// The diagnostic of a parse error.
    ParseFailed(String),
    /// The error of an evaluation.
    EvalFailed(EvalError),
}

/// The mathematical value of a [`Reply`].
pub ghost enum ReplyView {
    Silent,
    Lines(Seq<Seq<char>>),
    Value(Value),
    ParseFailed(Seq<char>),
    EvalFailed(EvalErrorView),
}

impl View for Reply {
    type V = ReplyView;

    open spec fn view(&self) -> ReplyView {
        match self {
            Reply::Silent => ReplyView::Silent,
            Reply::Lines(lines) => ReplyView::Lines(names_view(lines@)),
            Reply::Value(v) => ReplyView::Value(*v),
            Reply::ParseFailed(text) => ReplyView::ParseFailed(text@),
            Reply::EvalFailed(e) => ReplyView::EvalFailed(e@),
        }
    }
}

/// The lines that `:help` shows.
pub open spec fn help_lines() -> Seq<Seq<char>> {
    seq![
        "Commands:"@,
        "  :help        show this help"@,
        "  :list        list defined algorithms"@,
        "  :reset       clear all definitions"@,
        "  exit, :q     quit"@,
    ]
}

/// The lines that `:list` shows: the head of each definition, or a notice
/// that there is none.
pub open spec fn list_lines(defs: Seq<AlgorithmDefView>) -> Seq<Seq<char>> {
    if defs.len() == 0 {
        seq!["<no algorithms defined>"@]
    } else {
        defs.map_values(|d: AlgorithmDefView| signature_spec(d))
    }
}

/// What a command shows and what it leaves of the definitions; `None` for
/// input that is no command.
pub open spec fn command_spec(defs: Seq<AlgorithmDefView>, input: Seq<char>) -> Option<
    (Seq<Seq<char>>, Seq<AlgorithmDefView>),
> {
    if input == ":help"@ {
        Some((help_lines(), defs))
    } else if input == ":list"@ {
        Some((list_lines(defs), defs))
    } else if input == ":reset"@ {
        Some((seq!["Definitions cleared."@], Seq::empty()))
    } else {
        None
    }
}

/// Whether the input asks to end the session.
pub open spec fn exit_spec(input: Seq<char>) -> bool {
    input == "exit"@ || input == ":q"@ || input == ":quit"@
}

/// Whether the input asks to end the session: `exit`, `:q` or `:quit`.
pub fn wants_exit(input: &str) -> (r: bool)
    ensures
        r == exit_spec(input@),
{
    str_eq(input, "exit") || str_eq(input, ":q") || str_eq(input, ":quit")
}

/// What evaluating an expression in a session shows.
pub open spec fn evaluation_reply(
    defs: Seq<AlgorithmDefView>,
    kernel: KernelModel,
    e: ExprView,
) -> ReplyView {
    match eval_spec(
        Context { world: registry(defs), kernel },
        frame(Seq::empty(), Seq::empty()),
        e,
        MAX_DEPTH as nat,
    ) {
        Ok(v) => ReplyView::Value(v),
        Err(x) => ReplyView::EvalFailed(x),
    }
}

/// What a definition read from `toks` shows, and what it leaves of the
/// definitions: it is put among them where it parses and the tokens end with
/// it.
pub open spec fn definition_reply(
    defs: Seq<AlgorithmDefView>,
    src: Seq<char>,
    toks: Seq<TokSpanView>,
    pos: int,
) -> (ReplyView, Seq<AlgorithmDefView>) {
    match to_the_end(toks, alg_def_spec(toks, pos, MAX_NESTING as nat)) {
        Err(e) => (ReplyView::ParseFailed(caret_message_spec(src, e.byte, e.message)), defs),
        Ok((d, _)) => (
            ReplyView::Lines(seq!["Defined: "@ + signature_spec(d)]),
            upsert_spec(defs, d),
        ),
    }
}

/// What an expression read from `toks` shows: its value where it parses
/// and the tokens end with it.
pub open spec fn expression_reply(
    defs: Seq<AlgorithmDefView>,
    kernel: KernelModel,
    src: Seq<char>,
    toks: Seq<TokSpanView>,
    pos: int,
) -> ReplyView {
    match to_the_end(toks, expr_spec(toks, pos, MAX_NESTING as nat)) {
        Err(e) => ReplyView::ParseFailed(caret_message_spec(src, e.byte, e.message)),
        Ok((e, _)) => evaluation_reply(defs, kernel, e),
    }
}

/// What a line that is no command shows, and what it leaves of the
/// definitions. The line is normalized and split into tokens; a line without
/// tokens shows nothing; a line that begins with `@` is a definition, any
/// other an expression.
pub open spec fn input_spec(
    defs: Seq<AlgorithmDefView>,
    kernel: KernelModel,
    input: Seq<char>,
) -> (ReplyView, Seq<AlgorithmDefView>) {
    let src = normalize_spec(input);
    let toks = lex_spec(encode_utf8(src));
    if toks.len() == 0 {
        (ReplyView::Silent, defs)
    } else if input.len() > 0 && input[0] == '@' {
        definition_reply(defs, src, toks, 0)
    } else {
        (expression_reply(defs, kernel, src, toks, 0), defs)
    }
}

/// What a session does with a line of input.
#[derive(Debug, PartialEq)]
pub enum Turn {
    /// The session ends.
    Quit,
    /// The session goes on, after this was shown.
    Show(Reply),
}

/// The mathematical value of a [`Turn`].
pub ghost enum TurnView {
    Quit,
    Show(ReplyView),
}

impl View for Turn {
    type V = TurnView;

    open spec fn view(&self) -> TurnView {
        match self {
            Turn::Quit => TurnView::Quit,
            Turn::Show(r) => TurnView::Show(r@),
        }
    }
}

/// What a session with the definitions `defs` does with a line of input,
/// and what the line leaves of the definitions: a command is carried out;
/// a word that asks to leave ends the session; any other line is read as a
/// definition or an expression.
pub open spec fn turn_spec(
    defs: Seq<AlgorithmDefView>,
    kernel: KernelModel,
    input: Seq<char>,
) -> (TurnView, Seq<AlgorithmDefView>) {
    match command_spec(defs, input) {
        Some((lines, after)) => (TurnView::Show(ReplyView::Lines(lines)), after),
        None => if exit_spec(input) {
            (TurnView::Quit, defs)
        } else {
            (TurnView::Show(input_spec(defs, kernel, input).0), input_spec(defs, kernel, input).1)
        },
    }
}

/// What a session that starts with the definitions `defs` makes of the lines
/// from the `i`-th on: what it shows for each line up to the first that ends
/// the session, whether a line ended it, and the definitions that it is left
/// with.
pub open spec fn run_spec(
    defs: Seq<AlgorithmDefView>,
    kernel: KernelModel,
    inputs: Seq<Seq<char>>,
    i: nat,
) -> (Seq<ReplyView>, bool, Seq<AlgorithmDefView>)
    decreases inputs.len() - i,
{
    if i >= inputs.len() {
        (Seq::empty(), false, defs)
    } else {
        match turn_spec(defs, kernel, inputs[i as int]).0 {
            TurnView::Quit => (Seq::empty(), true, turn_spec(defs, kernel, inputs[i as int]).1),
            TurnView::Show(reply) => {
                let rest = run_spec(
                    turn_spec(defs, kernel, inputs[i as int]).1,
                    kernel,
                    inputs,
                    i + 1,
                );
                (seq![reply] + rest.0, rest.1, rest.2)
            },
        }
    }
}

/// The values of a sequence of replies, in order.
pub open spec fn replies_view(replies: Seq<Reply>) -> Seq<ReplyView> {
    replies.map_values(|r: Reply| r@)
}

/// An interactive session: the definitions made so far.
pub struct Repl {
    registry: Registry,
}

impl Repl {
    /// The definitions of the session, in the order in which their names
    /// were first defined.
    pub closed spec fn defs(&self) -> Seq<AlgorithmDefView> {
        self.registry.defs()
    }

    /// None of the session's names is defined twice. Every session that
    /// this module hands out is well formed.
    pub open spec fn wf(&self) -> bool {
        distinct_names(self.defs())
    }

    /// A session without definitions.
    pub fn new() -> (r: Self)
        ensures
            r.wf(),
            r.defs() == Seq::<AlgorithmDefView>::empty(),
    {
        Repl { registry: Registry::new() }
    }

    /// The registry of the session.
    pub fn registry(&self) -> (r: &Registry)
        ensures
            r.defs() == self.defs(),
    {
        &self.registry
    }

    /// Carries out `input` where it is one of the commands `:help`, `:list`
    /// and `:reset`, and gives the lines to show for it; `None` where it is
    /// no command.
    pub fn handle_command(&mut self, input: &str) -> (r: Option<Vec<String>>)
        requires
            old(self).wf(),
        ensures
            final(self).wf(),
            match r {
                Some(lines) => command_spec(old(self).defs(), input@) == Some(
                    (names_view(lines@), final(self).defs()),
                ),
                None => command_spec(old(self).defs(), input@) is None && final(self).defs()
                    == old(self).defs(),
            },
    {
        if str_eq(input, ":help") {
            let mut lines: Vec<String> = Vec::new();
            lines.push("Commands:".to_owned());
            lines.push("  :help        show this help".to_owned());
            lines.push("  :list        list defined algorithms".to_owned());
            lines.push("  :reset       clear all definitions".to_owned());
            lines.push("  exit, :q     quit".to_owned());
            assert(names_view(lines@) =~= help_lines());
            Some(lines)
        } else if str_eq(input, ":list") {
            let defs = self.registry.definitions();
            let mut lines: Vec<String> = Vec::new();
            if defs.len() == 0 {
                lines.push("<no algorithms defined>".to_owned());
                assert(names_view(lines@) =~= list_lines(self.defs()));
            } else {
                let mut i: usize = 0;
                while i < defs.len()
                    invariant
                        i <= defs@.len(),
                        lines@.len() == i,
                        forall|j: int|
                            0 <= j < i ==> (#[trigger] lines@[j])@ == signature_spec(defs@[j]@),
                    decreases defs@.len() - i,
                {
                    lines.push(signature(&defs[i]));
                    i += 1;
                }
                assert(names_view(lines@) =~= list_lines(self.defs()));
            }
            Some(lines)
        } else if str_eq(input, ":reset") {
            self.registry.clear();
            let mut lines: Vec<String> = Vec::new();
            lines.push("Definitions cleared.".to_owned());
            assert(names_view(lines@) =~= seq!["Definitions cleared."@]);
            Some(lines)
        } else {
            None
        }
    }

    /// Takes the lines `inputs` one after the other, each without the white
    /// space around it, up to the first that ends the session. Gives what is
    /// to be shown for each line taken, and whether a line ended the session.
    pub fn run<K: Fn(NumRequest) -> u64>(&mut self, inputs: &[String], kernel: &K) -> (r: (
        Vec<Reply>,
        bool,
    ))
        requires
            old(self).wf(),
            kernel_ready(kernel),
        ensures
            final(self).wf(),
            (replies_view(r.0@), r.1, final(self).defs()) == run_spec(
                old(self).defs(),
                kernel_model(kernel),
                names_view(inputs@),
                0,
            ),
    {
        let ghost views = names_view(inputs@);
        let ghost k = kernel_model(kernel);
        let ghost start = self.defs();
        let mut replies: Vec<Reply> = Vec::new();
        let mut i: usize = 0;
        assert(replies_view(replies@) =~= Seq::empty());
        while i < inputs.len()
            invariant
                self.wf(),
                kernel_ready(kernel),
                k == kernel_model(kernel),
                start == old(self).defs(),
                views == names_view(inputs@),
                i <= inputs@.len(),
                run_spec(start, k, views, 0) == (
                    replies_view(replies@) + run_spec(self.defs(), k, views, i as nat).0,
                    run_spec(self.defs(), k, views, i as nat).1,
                    run_spec(self.defs(), k, views, i as nat).2,
                ),
            decreases inputs@.len() - i,
        {
            let ghost before = replies@;
            let ghost defs = self.defs();
            match self.step(inputs[i].as_str(), kernel) {
                Turn::Quit => {
                    assert(replies_view(replies@) + Seq::<ReplyView>::empty() =~= replies_view(
                        replies@,
                    ));
                    return (replies, true);
                },
                Turn::Show(reply) => {
                    let ghost v = reply@;
                    replies.push(reply);
                    proof {
                        let rest = run_spec(self.defs(), k, views, (i + 1) as nat);
                        assert(replies_view(replies@) =~= replies_view(before).push(v));
                        assert(replies_view(replies@) + rest.0 =~= replies_view(before) + (seq![v]
                            + rest.0));
                    }
                },
            }
            i += 1;
        }
        assert(replies_view(replies@) + Seq::<ReplyView>::empty() =~= replies_view(replies@));
        (replies, false)
    }

    /// Takes one line of input, without the white space around it.
    pub fn step<K: Fn(NumRequest) -> u64>(&mut self, input: &str, kernel: &K) -> (r: Turn)
        requires
            old(self).wf(),
            kernel_ready(kernel),
        ensures
            final(self).wf(),
            (r@, final(self).defs()) == turn_spec(old(self).defs(), kernel_model(kernel), input@),
    {
        match self.handle_command(input) {
            Some(lines) => Turn::Show(Reply::Lines(lines)),
            None => if wants_exit(input) {
                Turn::Quit
            } else {
                Turn::Show(self.process_input(input, kernel))
            },
        }
    }

    /// Reads a line that is no command: a definition where it begins with
    /// `@`, an expression to evaluate otherwise.
    pub fn process_input<K: Fn(NumRequest) -> u64>(&mut self, input: &str, kernel: &K) -> (r: Reply)
        requires
            old(self).wf(),
            kernel_ready(kernel),
        ensures
            final(self).wf(),
            (r@, final(self).defs()) == input_spec(old(self).defs(), kernel_model(kernel), input@),
    {
        let normalized = normalize_unicode_to_ascii(input);
        let tokens = lex(normalized.as_str());
        if tokens.len() == 0 {
            return Reply::Silent;
        }
        let mut ts = Tokens::new_with_src(tokens, normalized.as_str());
        if input.unicode_len() > 0 && input.get_char(0) == '@' {
            self.handle_algorithm_definition(&mut ts)
        } else {
            self.handle_expression(&mut ts, kernel)
        }
    }

    /// Reads a definition and puts it among the session's definitions.
    pub fn handle_algorithm_definition(&mut self, ts: &mut Tokens) -> (r: Reply)
        requires
            old(self).wf(),
        ensures
            final(self).wf(),
            final(ts).toks() == old(ts).toks(),
            final(ts).src() == old(ts).src(),
            final(ts).pos() == cursor_after(
                to_the_end(
                    old(ts).toks(),
                    alg_def_spec(old(ts).toks(), old(ts).pos(), MAX_NESTING as nat),
                ),
                old(ts).pos(),
            ),
            (r@, final(self).defs()) == definition_reply(
                old(self).defs(),
                old(ts).src(),
                old(ts).toks(),
                old(ts).pos(),
            ),
    {
        match parse_whole_alg_def(ts) {
            Err(e) => Reply::ParseFailed(
                caret_message(ts.source(), e.byte, e.message.as_str()),
            ),
            Ok(def) => {
                let mut lines: Vec<String> = Vec::new();
                lines.push(self.add_or_replace_algorithm(def));
                assert(names_view(lines@) =~= seq![lines@[0]@]);
                Reply::Lines(lines)
            },
        }
    }

    /// Puts a definition among the session's definitions, in the place of
    /// the one of the same name where there is one, and gives the line that
    /// reports it.
    pub fn add_or_replace_algorithm(&mut self, def: AlgorithmDef) -> (line: String)
        requires
            old(self).wf(),
        ensures
            final(self).wf(),
            final(self).defs() == upsert_spec(old(self).defs(), def@),
            line@ == "Defined: "@ + signature_spec(def@),
    {
        let line = concat("Defined: ", signature(&def).as_str());
        self.registry.upsert(def);
        line
    }

    /// Reads an expression and evaluates it.
    pub fn handle_expression<K: Fn(NumRequest) -> u64>(&self, ts: &mut Tokens, kernel: &K) -> (r:
        Reply)
        requires
            kernel_ready(kernel),
        ensures
            final(ts).toks() == old(ts).toks(),
            final(ts).src() == old(ts).src(),
            final(ts).pos() == cursor_after(
                to_the_end(
                    old(ts).toks(),
                    expr_spec(old(ts).toks(), old(ts).pos(), MAX_NESTING as nat),
                ),
                old(ts).pos(),
            ),
            r@ == expression_reply(
                self.defs(),
                kernel_model(kernel),
                old(ts).src(),
                old(ts).toks(),
                old(ts).pos(),
            ),
    {
        match parse_whole_expr(ts) {
            Err(e) => Reply::ParseFailed(
                caret_message(ts.source(), e.byte, e.message.as_str()),
            ),
            Ok(expr) => self.evaluate(&expr, kernel),
        }
    }

    /// Evaluates an expression against the session's definitions, in a frame
    /// that holds the constants alone.
    pub fn evaluate<K: Fn(NumRequest) -> u64>(&self, expr: &Expr, kernel: &K) -> (r: Reply)
        requires
            kernel_ready(kernel),
        ensures
            r@ == evaluation_reply(self.defs(), kernel_model(kernel), expr@),
    {
        let world = self.registry.world();
        let env = Env::base();
        match eval_expr(&world, &env, expr, kernel) {
            Ok(v) => Reply::Value(v),
            Err(e) => Reply::EvalFailed(e),
        }
    }
}

} // verus!
