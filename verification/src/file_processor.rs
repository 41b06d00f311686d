//! Batch processing of a source file without the file: the flags of the
//! command line, the definitions of a source text, the call that the command
//! line asks for, and the texts to show.

use crate::ast::{
    indentation, join, names_view, show_expr, show_spec, signature, signature_spec, AlgorithmDef,
    AlgorithmDefView,
};
use crate::eval::{
    defs_view, eval_expr, eval_spec, frame, message_spec, registry, Context, Env, Value, World,
    MAX_DEPTH,
};
use crate::lexer::{lex, lex_spec};
use crate::normalize::{normalize_spec, normalize_unicode_to_ascii};
use crate::number::{kernel_model, kernel_ready, KernelModel, NumRequest};
use crate::parser::{
    alg_def_spec, expr_spec, here, parse_alg_def, parse_whole_expr, to_the_end, tok_at,
    trailing_message, ParseError, ParseErrorView, Tokens, MAX_NESTING,
};
use crate::text::{concat, decimal, push_decimal, str_eq};
use crate::token::{caret_message, caret_message_spec, TokSpanView, Token, TokenView};
use vstd::prelude::*;
use vstd::string::*;
use vstd::utf8::*;

verus! {

/// What the command line asks for, besides the file.
#[derive(Debug, PartialEq)]
pub struct FileProcessorConfig {
    /// `--ast`: show the syntax trees of the definitions.
    pub print_ast: bool,
    /// `--call <expr>`: evaluate this expression.
    pub call_expr: Option<String>,
}

/// The mathematical value of a [`FileProcessorConfig`].
pub ghost struct ConfigView {
    pub print_ast: bool,
    pub call_expr: Option<Seq<char>>,
}

impl View for FileProcessorConfig {
    type V = ConfigView;

    open spec fn view(&self) -> ConfigView {
        ConfigView {
            print_ast: self.print_ast,
            call_expr: match self.call_expr {
                Some(s) => Some(s@),
                None => None,
            },
        }
    }
}

/// The message for `--call` without an expression behind it.
pub open spec fn call_needs_expression() -> Seq<char> {
    "--call requires an expression, e.g. --call \"SafeDiv(1,0)\""@
}

/// What the flag at position `i` makes of the configuration, and the
/// position of the next flag; a message where it is no flag or lacks its
/// argument.
pub open spec fn flag_spec(cfg: ConfigView, args: Seq<Seq<char>>, i: int) -> Result<
    (ConfigView, int),
    Seq<char>,
> {
    if args[i] == "--ast"@ {
        Ok((ConfigView { print_ast: true, call_expr: cfg.call_expr }, i + 1))
    } else if args[i] == "--call"@ {
        if i + 1 >= args.len() {
            Err(call_needs_expression())
        } else {
            Ok((ConfigView { print_ast: cfg.print_ast, call_expr: Some(args[i + 1]) }, i + 2))
        }
    } else {
        Err("unknown flag: "@ + args[i])
    }
}

/// What the flags from position `i` on make of the configuration, read from
/// left to right, and the message of the first flag that fails, if one does.
/// The flags before that one have taken effect.
pub open spec fn flags_spec(cfg: ConfigView, args: Seq<Seq<char>>, i: int) -> (
    ConfigView,
    Option<Seq<char>>,
)
    decreases args.len() - i,
{
    if i < 0 || i >= args.len() {
        (cfg, None)
    } else {
        match flag_spec(cfg, args, i) {
            Err(m) => (cfg, Some(m)),
            Ok((next, j)) => if j > i {
                flags_spec(next, args, j)
            } else {
                (next, None)
            },
        }
    }
}

impl FileProcessorConfig {
    /// The configuration of a command line without flags.
    pub fn new() -> (r: Self)
        ensures
            r@ == (ConfigView { print_ast: false, call_expr: None }),
    {
        FileProcessorConfig { print_ast: false, call_expr: None }
    }

    /// Reads the flags `args` into the configuration, up to the first that
    /// fails.
    pub fn parse_args(&mut self, args: &[String]) -> (r: Result<(), String>)
        ensures
            flags_spec(old(self)@, names_view(args@), 0) == (
                final(self)@,
                match r {
                    Ok(_) => None::<Seq<char>>,
                    Err(m) => Some(m@),
                },
            ),
    {
        let ghost views = names_view(args@);
        let mut i: usize = 0;
        while i < args.len()
            invariant
                views == names_view(args@),
                i <= args@.len(),
                flags_spec(self@, views, i as int) == flags_spec(old(self)@, views, 0),
            decreases args@.len() - i,
        {
            i = match self.parse_single_arg(args, i) {
                Ok(next) => next,
                Err(m) => {
                    return Err(m);
                },
            };
        }
        Ok(())
    }

    /// Reads the flag at position `i` into the configuration and gives the
    /// position of the next flag.
    pub fn parse_single_arg(&mut self, args: &[String], i: usize) -> (r: Result<usize, String>)
        requires
            i < args@.len(),
        ensures
            match r {
                Ok(next) => flag_spec(old(self)@, names_view(args@), i as int) == Ok::<
                    (ConfigView, int),
                    Seq<char>,
                >((final(self)@, next as int)) && i < next <= args@.len(),
                Err(m) => flag_spec(old(self)@, names_view(args@), i as int) == Err::<
                    (ConfigView, int),
                    Seq<char>,
                >(m@) && final(self)@ == old(self)@,
            },
    {
        if str_eq(args[i].as_str(), "--ast") {
            self.print_ast = true;
            Ok(i + 1)
        } else if str_eq(args[i].as_str(), "--call") {
            self.parse_call_arg(args, i)
        } else {
            Err(concat("unknown flag: ", args[i].as_str()))
        }
    }

    /// Reads the expression behind the flag `--call`, which stands at
    /// position `i`.
    pub fn parse_call_arg(&mut self, args: &[String], i: usize) -> (r: Result<usize, String>)
        requires
            i < args@.len(),
        ensures
            match r {
                Ok(next) => i + 1 < args@.len() && next == i + 2 && final(self)@ == (ConfigView {
                    print_ast: old(self)@.print_ast,
                    call_expr: Some(args@[i + 1]@),
                }),
                Err(m) => i + 1 >= args@.len() && m@ == call_needs_expression() && final(self)@
                    == old(self)@,
            },
    {
        let n: usize = args.len();
        if i + 1 >= n {
            return Err("--call requires an expression, e.g. --call \"SafeDiv(1,0)\"".to_owned());
        }
        self.call_expr = Some(args[i + 1].clone());
        Ok(i + 2)
    }
}

/// The definitions that stand one behind the other from `pos` on, added to
/// `defs`: as long as the next token is `@`, a definition is read. The first
/// that fails to parse fails the whole.
pub open spec fn all_defs_spec(
    toks: Seq<TokSpanView>,
    pos: int,
    defs: Seq<AlgorithmDefView>,
) -> Result<(Seq<AlgorithmDefView>, int), ParseErrorView>
    decreases toks.len() - pos,
{
    if tok_at(toks, pos) == Some(TokenView::At) {
        match alg_def_spec(toks, pos, MAX_NESTING as nat) {
            Err(e) => Err(e),
            Ok((d, p)) => if pos < p <= toks.len() {
                all_defs_spec(toks, p, defs.push(d))
            } else {
                Ok((defs.push(d), p))
            },
        }
    } else {
        Ok((defs, pos))
    }
}

/// Reads the definitions that stand one behind the other at the cursor.
pub fn parse_all_defs(ts: &mut Tokens) -> (r: Result<Vec<AlgorithmDef>, ParseError>)
    requires
        old(ts).pos() <= old(ts).toks().len(),
    ensures
        final(ts).toks() == old(ts).toks(),
        final(ts).src() == old(ts).src(),
        match r {
            Ok(defs) => all_defs_spec(old(ts).toks(), old(ts).pos(), Seq::empty()) == Ok::<
                (Seq<AlgorithmDefView>, int),
                ParseErrorView,
            >((defs_view(defs@), final(ts).pos())),
            Err(e) => all_defs_spec(old(ts).toks(), old(ts).pos(), Seq::empty()) == Err::<
                (Seq<AlgorithmDefView>, int),
                ParseErrorView,
            >(e@) && final(ts).pos() == old(ts).pos(),
        },
{
    let start = ts.position();
    let ghost toks = ts.toks();
    let ghost src = ts.src();
    let ghost first = ts.pos();
    let mut defs: Vec<AlgorithmDef> = Vec::new();
    assert(defs_view(defs@) =~= Seq::empty());
    loop
        invariant
            toks == old(ts).toks(),
            src == old(ts).src(),
            first == old(ts).pos(),
            start == first,
            ts.toks() == toks,
            ts.src() == src,
            first <= ts.pos() <= toks.len(),
            all_defs_spec(toks, ts.pos(), defs_view(defs@)) == all_defs_spec(
                toks,
                first,
                Seq::empty(),
            ),
        decreases toks.len() - ts.pos(),
    {
        let more = match ts.peek() {
            Some(Token::At) => true,
            _ => false,
        };
        if !more {
            return Ok(defs);
        }
        match parse_alg_def(ts) {
            Err(e) => {
                ts.rewind(start);
                return Err(e);
            },
            Ok(d) => {
                let ghost before = defs@;
                let ghost v = d@;
                defs.push(d);
                assert(defs_view(defs@) =~= defs_view(before).push(v));
            },
        }
    }
}

/// The message for a source without definitions.
pub open spec fn no_algorithms_message(path: Seq<char>) -> Seq<char> {
    "No algorithms found in "@ + path
}

/// The definitions of a source text: the text is normalized and split into
/// tokens, and the definitions at its start are read. A parse error gives its
/// diagnostic, a text without definitions a message that names `path`, and
/// tokens behind the last definition the diagnostic of a failure at the first
/// of them.
pub open spec fn load_spec(src_raw: Seq<char>, path: Seq<char>) -> Result<
    Seq<AlgorithmDefView>,
    Seq<char>,
> {
    let src = normalize_spec(src_raw);
    let toks = lex_spec(encode_utf8(src));
    match all_defs_spec(toks, 0, Seq::empty()) {
        Err(e) => Err(caret_message_spec(src, e.byte, e.message)),
        Ok((defs, end)) => if defs.len() == 0 {
            Err(no_algorithms_message(path))
        } else if end < toks.len() {
            Err(caret_message_spec(src, here(toks, end), trailing_message(tok_at(toks, end))))
        } else {
            Ok(defs)
        },
    }
}

/// Reads the definitions of the source text `src_raw`, which was read from
/// the file `path`.
pub fn load_definitions(src_raw: &str, path: &str) -> (r: Result<Vec<AlgorithmDef>, String>)
    ensures
        match r {
            Ok(defs) => load_spec(src_raw@, path@) == Ok::<Seq<AlgorithmDefView>, Seq<char>>(
                defs_view(defs@),
            ),
            Err(m) => load_spec(src_raw@, path@) == Err::<Seq<AlgorithmDefView>, Seq<char>>(m@),
        },
{
    let src = normalize_unicode_to_ascii(src_raw);
    let tokens = lex(src.as_str());
    let mut ts = Tokens::new_with_src(tokens, src.as_str());
    match parse_all_defs(&mut ts) {
        Err(e) => Err(caret_message(src.as_str(), e.byte, e.message.as_str())),
        Ok(defs) => if defs.len() == 0 {
            Err(concat("No algorithms found in ", path))
        } else {
            match ts.expect_end() {
                Err(e) => Err(caret_message(src.as_str(), e.byte, e.message.as_str())),
                Ok(_) => Ok(defs),
            }
        },
    }
}

/// What the call `call_src` gives against the definitions `defs`: the value
/// of the expression that the text consists of, the diagnostic of its parse
/// error, or the message of its evaluation error behind `runtime error: `.
pub open spec fn call_outcome(defs: Seq<AlgorithmDefView>, kernel: KernelModel, call_src: Seq<char>) -> Result<
    Value,
    Seq<char>,
> {
    let src = normalize_spec(call_src);
    let toks = lex_spec(encode_utf8(src));
    match to_the_end(toks, expr_spec(toks, 0, MAX_NESTING as nat)) {
        Err(e) => Err(caret_message_spec(src, e.byte, e.message)),
        Ok((call, _)) => match eval_spec(
            Context { world: registry(defs), kernel },
            frame(Seq::empty(), Seq::empty()),
            call,
            MAX_DEPTH as nat,
        ) {
            Ok(v) => Ok(v),
            Err(x) => Err("runtime error: "@ + message_spec(x)),
        },
    }
}

/// Evaluates the expression `call_src` against the definitions `defs`.
pub fn execute_call<K: Fn(NumRequest) -> u64>(call_src: &str, defs: &[AlgorithmDef], kernel: &K) -> (r:
    Result<Value, String>)
    requires
        kernel_ready(kernel),
    ensures
        match r {
            Ok(v) => call_outcome(defs_view(defs@), kernel_model(kernel), call_src@) == Ok::<
                Value,
                Seq<char>,
            >(v),
            Err(m) => call_outcome(defs_view(defs@), kernel_model(kernel), call_src@) == Err::<
                Value,
                Seq<char>,
            >(m@),
        },
{
    let norm = normalize_unicode_to_ascii(call_src);
    let toks = lex(norm.as_str());
    let mut ts = Tokens::new_with_src(toks, norm.as_str());
    let call = match parse_whole_expr(&mut ts) {
        Err(e) => {
            return Err(caret_message(norm.as_str(), e.byte, e.message.as_str()));
        },
        Ok(call) => call,
    };
    let world = World::new(defs);
    let env = Env::base();
    match eval_expr(&world, &env, &call, kernel) {
        Ok(v) => Ok(v),
        Err(e) => Err(concat("runtime error: ", e.message().as_str())),
    }
}

/// The lines of the summary of a file's definitions: their number, the head
/// of each, and a call to try where there is a definition.
pub open spec fn summary_spec(defs: Seq<AlgorithmDefView>, path: Seq<char>) -> Seq<Seq<char>> {
    let heads = defs.map_values(|d: AlgorithmDefView| "  "@ + signature_spec(d));
    let first = seq!["Loaded "@ + decimal(defs.len()) + " algorithm(s):"@];
    if defs.len() == 0 {
        first
    } else {
        (first + heads).push(
            "Try:  cargo run -- "@ + path + " --call \""@ + defs[0].name + "(1,0)\""@,
        )
    }
}

/// The lines of the summary of the definitions `defs` of the file `path`.
pub fn summary(defs: &[AlgorithmDef], path: &str) -> (lines: Vec<String>)
    ensures
        names_view(lines@) == summary_spec(defs_view(defs@), path@),
{
    let ghost views = defs_view(defs@);
    let mut lines: Vec<String> = Vec::new();
    let mut first = "Loaded ".to_owned();
    push_decimal(&mut first, defs.len() as u128);
    first.append(" algorithm(s):");
    lines.push(first);
    let mut i: usize = 0;
    while i < defs.len()
        invariant
            views == defs_view(defs@),
            i <= defs@.len(),
            lines@.len() == i + 1,
            lines@[0]@ == "Loaded "@ + decimal(defs@.len()) + " algorithm(s):"@,
            forall|j: int|
                0 <= j < i ==> (#[trigger] lines@[j + 1])@ == "  "@ + signature_spec(views[j]),
        decreases defs@.len() - i,
    {
        lines.push(concat("  ", signature(&defs[i]).as_str()));
        i += 1;
    }
    if defs.len() > 0 {
        let mut last = concat("Try:  cargo run -- ", path);
        last.append(" --call \"");
        last.append(defs[0].name.as_str());
        last.append("(1,0)\"");
        lines.push(last);
    }
    proof {
        let got = names_view(lines@);
        let want = summary_spec(views, path@);
        let heads = views.map_values(|d: AlgorithmDefView| "  "@ + signature_spec(d));
        assert(got.len() == want.len());
        assert forall|k: int| 0 <= k < got.len() implies got[k] == want[k] by {
            if k == 0 {
            } else if k <= defs@.len() {
                assert(lines@[(k - 1) + 1]@ == "  "@ + signature_spec(views[k - 1]));
                assert(heads[k - 1] == "  "@ + signature_spec(views[k - 1]));
            } else {
            }
        }
        assert(got =~= want);
    }
    lines
}

/// The outlines of the definitions from the `i`-th on: for each, its head
/// with the parameters separated by commas, a line `body:` and the outline
/// of its body.
pub open spec fn ast_spec(defs: Seq<AlgorithmDefView>, i: nat) -> Seq<char>
    decreases defs.len() - i,
{
    if i >= defs.len() {
        Seq::empty()
    } else {
        "AlgorithmDef "@ + defs[i as int].name + "("@ + join(defs[i as int].params, ","@) + ")\n"@
            + "body:\n"@ + show_spec(defs[i as int].body, indentation(1)) + ast_spec(defs, i + 1)
    }
}

/// The parameters of a definition with commas between them.
fn joined_params(def: &AlgorithmDef) -> (r: String)
    ensures
        r@ == join(def@.params, ","@),
{
    let ghost views = names_view(def.params@);
    let mut r = String::new();
    let mut i: usize = 0;
    assert(views.take(0) =~= Seq::<Seq<char>>::empty());
    while i < def.params.len()
        invariant
            i <= def.params@.len(),
            views == names_view(def.params@),
            r@ == join(views.take(i as int), ","@),
        decreases def.params@.len() - i,
    {
        if i > 0 {
            r.append(",");
        }
        r.append(def.params[i].as_str());
        proof {
            let longer = views.take(i + 1);
            assert(longer.drop_last() =~= views.take(i as int));
            assert(longer.last() == views[i as int]);
            assert(r@ =~= join(longer, ","@));
        }
        i += 1;
    }
    assert(views.take(views.len() as int) =~= views);
    r
}

/// The outlines of the definitions `defs`.
pub fn ast_text(defs: &[AlgorithmDef]) -> (r: String)
    ensures
        r@ == ast_spec(defs_view(defs@), 0),
{
    let ghost views = defs_view(defs@);
    let mut r = String::new();
    let mut i: usize = 0;
    assert(r@ =~= Seq::<char>::empty());
    while i < defs.len()
        invariant
            views == defs_view(defs@),
            i <= defs@.len(),
            r@ + ast_spec(views, i as nat) == ast_spec(views, 0),
        decreases defs@.len() - i,
    {
        let ghost before = r@;
        r.append("AlgorithmDef ");
        r.append(defs[i].name.as_str());
        r.append("(");
        r.append(joined_params(&defs[i]).as_str());
        r.append(")\n");
        r.append("body:\n");
        r.append(show_expr(&defs[i].body, 1).as_str());
        proof {
            let d = views[i as int];
            let rest = ast_spec(views, (i + 1) as nat);
            assert(r@ + rest =~= before + ("AlgorithmDef "@ + d.name + "("@ + join(d.params, ","@)
                + ")\n"@ + "body:\n"@ + show_spec(d.body, indentation(1)) + rest));
        }
        i += 1;
    }
    assert(r@ + Seq::<char>::empty() =~= r@);
    r
}

/// What processing a file gives: the text to show first, the value to show
/// behind it where a call was asked for, and the failure that ends the run
/// where there is one.
#[derive(Debug, PartialEq)]
pub struct Report {
    pub text: String,
    pub value: Option<Value>,
    pub failure: Option<String>,
}

/// The mathematical value of a [`Report`].
pub ghost struct ReportView {
    pub text: Seq<char>,
    pub value: Option<Value>,
    pub failure: Option<Seq<char>>,
}

impl View for Report {
    type V = ReportView;

    open spec fn view(&self) -> ReportView {
        ReportView {
            text: self.text@,
            value: self.value,
            failure: match self.failure {
                Some(m) => Some(m@),
                None => None,
            },
        }
    }
}

/// The lines from the `i`-th on, a line feed behind each.
pub open spec fn lines_text(lines: Seq<Seq<char>>, i: nat) -> Seq<char>
    decreases lines.len() - i,
{
    if i >= lines.len() {
        Seq::empty()
    } else {
        lines[i as int] + "\n"@ + lines_text(lines, i + 1)
    }
}

/// A report of a failure alone.
pub open spec fn failed(m: Seq<char>) -> ReportView {
    ReportView { text: Seq::empty(), value: None, failure: Some(m) }
}

/// What processing the source `src_raw` of the file `path` with the flags
/// `args` gives. The definitions are read first, then the flags; a failure
/// of either is the whole report. With `--ast` the text is the outline of
/// the definitions; with neither `--ast` nor `--call` it is the summary. With
/// `--call` the expression is evaluated behind that, and its value or its
/// failure is reported.
pub open spec fn process_spec(
    src_raw: Seq<char>,
    path: Seq<char>,
    args: Seq<Seq<char>>,
    kernel: KernelModel,
) -> ReportView {
    match load_spec(src_raw, path) {
        Err(m) => failed(m),
        Ok(defs) => match flags_spec(ConfigView { print_ast: false, call_expr: None }, args, 0) {
            (_, Some(m)) => failed(m),
            (cfg, None) => {
                let text = if cfg.print_ast {
                    ast_spec(defs, 0)
                } else if cfg.call_expr is None {
                    lines_text(summary_spec(defs, path), 0)
                } else {
                    Seq::empty()
                };
                match cfg.call_expr {
                    None => ReportView { text, value: None, failure: None },
                    Some(call) => match call_outcome(defs, kernel, call) {
                        Ok(v) => ReportView { text, value: Some(v), failure: None },
                        Err(m) => ReportView { text, value: None, failure: Some(m) },
                    },
                }
            },
        },
    }
}

/// The lines of `lines`, a line feed behind each.
fn lines_to_text(lines: &Vec<String>) -> (r: String)
    ensures
        r@ == lines_text(names_view(lines@), 0),
{
    let ghost views = names_view(lines@);
    let mut r = String::new();
    let mut i: usize = 0;
    assert(r@ =~= Seq::<char>::empty());
    while i < lines.len()
        invariant
            views == names_view(lines@),
            i <= lines@.len(),
            r@ + lines_text(views, i as nat) == lines_text(views, 0),
        decreases lines@.len() - i,
    {
        let ghost before = r@;
        r.append(lines[i].as_str());
        r.append("\n");
        proof {
            let rest = lines_text(views, (i + 1) as nat);
            assert(r@ + rest =~= before + (views[i as int] + "\n"@ + rest));
        }
        i += 1;
    }
    assert(r@ + Seq::<char>::empty() =~= r@);
    r
}

/// Processes the source `src_raw` of the file `path` with the flags `args`.
pub fn process_file<K: Fn(NumRequest) -> u64>(
    src_raw: &str,
    path: &str,
    args: &[String],
    kernel: &K,
) -> (r: Report)
    requires
        kernel_ready(kernel),
    ensures
        r@ == process_spec(src_raw@, path@, names_view(args@), kernel_model(kernel)),
{
    let defs = match load_definitions(src_raw, path) {
        Err(m) => {
            return Report { text: String::new(), value: None, failure: Some(m) };
        },
        Ok(defs) => defs,
    };
    let mut config = FileProcessorConfig::new();
    match config.parse_args(args) {
        Err(m) => {
            return Report { text: String::new(), value: None, failure: Some(m) };
        },
        Ok(_) => {},
    }
    let text = if config.print_ast {
        ast_text(defs.as_slice())
    } else if config.call_expr.is_none() {
        lines_to_text(&summary(defs.as_slice(), path))
    } else {
        String::new()
    };
    match &config.call_expr {
        None => Report { text, value: None, failure: None },
        Some(call) => match execute_call(call.as_str(), defs.as_slice(), kernel) {
            Ok(v) => Report { text, value: Some(v), failure: None },
            Err(m) => Report { text, value: None, failure: Some(m) },
        },
    }
}

} // verus!

