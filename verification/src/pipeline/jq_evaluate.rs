//! Filters and transforms in the jq language.

use crate::source;
use crate::source::parsed_json::{JaqDoc, ParsedJson};
use crate::source::{LogEvent, LogSourceError};
use crate::text;
use jaq_core::data::JustLut;
use jaq_core::load::{Arena, File, Loader};
use jaq_core::{Compiler, Ctx, Vars};
use jaq_json::Val;
use std::sync::Arc;
use vstd::prelude::*;

verus! {

/// Why a jq program cannot be used.
#[derive(Debug)]
pub enum JqError {
    Parse(String),
    Eval(String),
}

impl JqError {
    /// What the error says.
    pub open spec fn text(&self) -> Seq<char> {
        match self {
            JqError::Parse(reason) => "parse error: "@ + reason@,
            JqError::Eval(reason) => "evaluation error: "@ + reason@,
        }
    }

    /// What the error says.
    pub fn message(&self) -> (text: String)
        ensures
            text@ == self.text(),
    {
        match self {
            JqError::Parse(reason) => "parse error: ".to_owned().concat(reason.as_str()),
            JqError::Eval(reason) => "evaluation error: ".to_owned().concat(reason.as_str()),
        }
    }
}

/// What becomes of a line when a jq program has run on it.
#[derive(Debug, Clone, Copy, PartialEq, Eq, Structural)]
pub enum QueryMode {
    Replace,
    Append,
    Filter,
}

/// A compiled program of `jaq_core`. The type of its one field has a bound that cannot be declared,
/// so the whole struct is opaque; nothing is stated of what is inside.
#[verifier::external_body]
struct CompiledProgram {
    inner: Arc<jaq_core::Filter<JustLut<Val>>>,
}

/// A compiled program together with its text.
///
/// The fields are private and only [`validate_filter`] and `clone` make one, so `compiled` is always
/// the program that `source` spells.
pub struct CompiledFilter {
    source: String,
    compiled: CompiledProgram,
}

impl View for CompiledFilter {
    type V = Seq<char>;

    closed spec fn view(&self) -> Seq<char> {
        self.source@
    }
}

/// Whether `jaq_core` loads and compiles the program `expr` with its own definitions and those of
/// `jaq_std` and `jaq_json`.
pub uninterp spec fn jq_compiles(expr: Seq<char>) -> bool;

/// What `jaq_core` reports of a program that it does not load or compile.
pub uninterp spec fn jq_report(expr: Seq<char>) -> Seq<char>;

/// `jaq_core::load::Loader::load` and `jaq_core::Compiler::compile` turn a program into a filter,
/// or report what is wrong with it.
#[verifier::external_body]
fn compile_filter(expr: &str) -> (compiled: Result<CompiledFilter, String>)
    ensures
        compiled is Ok == jq_compiles(expr@),
        compiled matches Ok(filter) ==> filter@ == expr@,
        compiled matches Err(report) ==> report@ == jq_report(expr@),
{
    let defs = jaq_core::defs().chain(jaq_std::defs()).chain(jaq_json::defs());
    let funs = jaq_core::funs::<JustLut<Val>>().chain(jaq_std::funs::<JustLut<Val>>());
    let funs = funs.chain(jaq_json::funs());
    let arena = Arena::default();
    let program = File { code: expr, path: () };
    let modules = Loader::new(defs).load(&arena, program).map_err(|e| format!("{e:?}"))?;
    let compiled = Compiler::default().with_funs(funs).compile(modules);
    let filter = compiled.map_err(|e| format!("{e:?}"))?;
    let compiled = CompiledProgram { inner: Arc::new(filter) };
    Ok(CompiledFilter { source: expr.to_owned(), compiled })
}

impl Clone for CompiledProgram {
    /// `Arc::clone` shares the compiled program; nothing else is stated of it.
    #[verifier::external_body]
    fn clone(&self) -> Self {
        CompiledProgram { inner: Arc::clone(&self.inner) }
    }
}

impl Clone for CompiledFilter {
    fn clone(&self) -> (copy: Self)
        ensures
            copy@ == self@,
    {
        CompiledFilter { source: self.source.clone(), compiled: self.compiled.clone() }
    }
}

/// Compiles a jq program.
pub fn validate_filter(expr: &str) -> (compiled: Result<CompiledFilter, JqError>)
    ensures
        compiled is Ok == jq_compiles(expr@),
        compiled matches Ok(filter) ==> filter@ == expr@,
        compiled matches Err(e) ==> (e matches JqError::Parse(report) && report@ == jq_report(expr@)),
{
    match compile_filter(expr) {
        Ok(filter) => Ok(filter),
        Err(report) => Err(JqError::Parse(report)),
    }
}

/// What kind of value a jq program gave.
#[derive(Debug, Clone, Copy, PartialEq, Eq, Structural)]
pub enum JqKind {
    Null,
    Bool(bool),
    Other,
}

/// A value that a jq program gave, with the text that shows it.
#[derive(Debug)]
pub struct JqOutput {
    pub kind: JqKind,
    pub text: String,
}

/// Whether a value counts as true: everything but null and false does.
pub open spec fn truthy(kind: JqKind) -> bool {
    kind != JqKind::Null && kind != JqKind::Bool(false)
}

/// Whether a value counts as true.
pub fn val_is_truthy(output: &JqOutput) -> (yes: bool)
    ensures
        yes == truthy(output.kind),
{
    match output.kind {
        JqKind::Null => false,
        JqKind::Bool(b) => b,
        JqKind::Other => true,
    }
}

/// Whether running `program` may give `outputs` for the value that stands at `place` in what `text`
/// reads as, by way of `serde_json::Value` if `converted`. A program may ask for the time or the
/// environment, so that several lists of outputs may be given for the same value.
pub uninterp spec fn jq_may_give(
    program: Seq<char>,
    text: Seq<char>,
    converted: bool,
    place: Seq<Seq<char>>,
    outputs: Seq<Option<JqOutput>>,
) -> bool;

/// `jaq_core` runs a compiled filter on a value; `jaq_json::Val` displays each output, and an
/// output that is an error gives nothing. Which of the outputs that the program may give come out
/// is not stated. A program that never ends gives none.
#[verifier::external_body]
fn run_compiled(filter: &CompiledFilter, input: &JaqDoc) -> (outputs: Vec<Option<JqOutput>>)
    ensures
        jq_may_give(filter@, input.source(), input.by_conversion(), input.place(), outputs@),
{
    let program = &filter.compiled.inner;
    let ctx = Ctx::<JustLut<Val>>::new(&program.lut, Vars::new([]));
    let outputs = program.id.run((ctx, input.value().clone()));
    outputs.map(|r| r.ok().map(|v| JqOutput {
        text: format!("{v}"),
        kind: match v {
            Val::Null => JqKind::Null,
            Val::Bool(b) => JqKind::Bool(b),
            _ => JqKind::Other,
        },
    })).collect()
}

/// The outputs that are no errors, in their order.
pub open spec fn succeeded(raw: Seq<Option<JqOutput>>) -> Seq<JqOutput>
    decreases raw.len(),
{
    if raw.len() == 0 {
        Seq::empty()
    } else {
        match raw.last() {
            Some(output) => succeeded(raw.drop_last()).push(output),
            None => succeeded(raw.drop_last()),
        }
    }
}

/// Passes over the outputs that are errors.
pub fn keep_succeeded(raw: Vec<Option<JqOutput>>) -> (outputs: Vec<JqOutput>)
    ensures
        outputs@ == succeeded(raw@),
{
    let ghost all = raw@;
    let mut rest = raw;
    let mut reversed: Vec<JqOutput> = Vec::new();
    assert(reversed@.reverse() =~= Seq::empty());
    assert(succeeded(rest@) + reversed@.reverse() =~= succeeded(all));
    while rest.len() > 0
        invariant
            succeeded(rest@) + reversed@.reverse() == succeeded(all),
        decreases rest.len(),
    {
        let ghost before = rest@;
        let ghost tail = reversed@.reverse();
        match rest.pop().unwrap() {
            Some(output) => {
                assert(rest@ =~= before.drop_last());
                reversed.push(output);
                assert(reversed@.reverse() =~= seq![output] + tail);
                assert(succeeded(rest@).push(output) + tail =~= succeeded(rest@) + (seq![output]
                    + tail));
            },
            None => {
                assert(rest@ =~= before.drop_last());
            },
        }
    }
    let mut outputs: Vec<JqOutput> = Vec::new();
    assert(succeeded(rest@) + reversed@.reverse() =~= reversed@.reverse());
    assert(outputs@ + reversed@.reverse() =~= succeeded(all));
    while reversed.len() > 0
        invariant
            outputs@ + reversed@.reverse() == succeeded(all),
        decreases reversed.len(),
    {
        let ghost before = reversed@;
        let ghost head = outputs@;
        let output = reversed.pop().unwrap();
        outputs.push(output);
        assert(before.reverse() =~= seq![output] + reversed@.reverse());
        assert(outputs@ + reversed@.reverse() =~= head + before.reverse());
    }
    assert(outputs@ + reversed@.reverse() =~= outputs@);
    outputs
}

/// Runs a compiled filter; outputs that are errors are passed over.
fn run_filter(filter: &CompiledFilter, value: &JaqDoc) -> (outputs: Vec<JqOutput>)
    ensures
        exists|raw: Seq<Option<JqOutput>>|
            #![trigger succeeded(raw)]
            outputs@ == succeeded(raw) && jq_may_give(
                filter@,
                value.source(),
                value.by_conversion(),
                value.place(),
                raw,
            ),
{
    let raw = run_compiled(filter, value);
    keep_succeeded(raw)
}

/// The texts that show the outputs, one per line.
pub open spec fn rendered(outputs: Seq<JqOutput>) -> Seq<char> {
    text::joined(outputs.map_values(|o: JqOutput| o.text@), "\n"@)
}

fn render(outputs: &Vec<JqOutput>) -> (shown: String)
    ensures
        shown@ == rendered(outputs@),
{
    let mut list: Vec<String> = Vec::new();
    let ghost all = outputs@.map_values(|o: JqOutput| o.text@);
    let mut i: usize = 0;
    assert(text::texts(list@) =~= all.take(0));
    while i < outputs.len()
        invariant
            i <= outputs.len(),
            all == outputs@.map_values(|o: JqOutput| o.text@),
            text::texts(list@) == all.take(i as int),
        decreases outputs.len() - i,
    {
        let ghost earlier = text::texts(list@);
        list.push(outputs[i].text.clone());
        proof {
            assert(text::texts(list@) =~= earlier.push(outputs@[i as int].text@));
            assert(all[i as int] == outputs@[i as int].text@);
            assert(all.take(i + 1) =~= all.take(i as int).push(all[i as int]));
        }
        i += 1;
    }
    assert(all.take(outputs.len() as int) =~= all);
    text::join(&list, "\n")
}

/// Whether some output counts as true.
pub open spec fn any_truthy(outputs: Seq<JqOutput>) -> bool {
    exists|i: int| 0 <= i < outputs.len() && truthy((#[trigger] outputs[i]).kind)
}

/// What a line becomes when its program gave `outputs`. A filter keeps the line as it is where some
/// output counts as true; the other modes always keep it, with a new message.
pub open spec fn jq_result(
    ev: LogEvent,
    outputs: Seq<JqOutput>,
    mode: QueryMode,
    kept: Option<LogEvent>,
) -> bool {
    match mode {
        QueryMode::Filter => kept == if any_truthy(outputs) {
            Some(ev)
        } else {
            None
        },
        QueryMode::Replace => kept matches Some(out) && out.message@ == rendered(outputs) && out == (
        LogEvent { message: out.message, ..ev }),
        QueryMode::Append => kept matches Some(out) && out.message@ == ev.message@ + " | "@
            + rendered(outputs) && out == (LogEvent { message: out.message, ..ev }),
    }
}

fn some_truthy(outputs: &Vec<JqOutput>) -> (found: bool)
    ensures
        found == any_truthy(outputs@),
{
    let mut i: usize = 0;
    while i < outputs.len()
        invariant
            i <= outputs.len(),
            forall|j: int| 0 <= j < i ==> !truthy((#[trigger] outputs@[j]).kind),
        decreases outputs.len() - i,
    {
        if val_is_truthy(&outputs[i]) {
            assert(truthy(outputs@[i as int].kind));
            return true;
        }
        i += 1;
    }
    false
}

/// Turns a line into what its program's outputs make of it.
pub fn apply_jq_outputs(ev: LogEvent, outputs: &Vec<JqOutput>, mode: QueryMode) -> (kept: Option<
    LogEvent,
>)
    ensures
        jq_result(ev, outputs@, mode, kept),
{
    let mut ev = ev;
    match mode {
        QueryMode::Filter => if some_truthy(outputs) {
            Some(ev)
        } else {
            None
        },
        QueryMode::Replace => {
            ev.message = source::shared_text(render(outputs).as_str());
            Some(ev)
        },
        QueryMode::Append => {
            let before: &str = &ev.message;
            let whole = before.to_owned().concat(" | ").concat(render(outputs).as_str());
            ev.message = source::shared_text(whole.as_str());
            Some(ev)
        },
    }
}

/// Whether a line becomes `kept` by some list of outputs that `program` may give for a value.
pub open spec fn jq_turns(
    program: Seq<char>,
    text: Seq<char>,
    converted: bool,
    place: Seq<Seq<char>>,
    ev: LogEvent,
    mode: QueryMode,
    kept: Option<LogEvent>,
) -> bool {
    exists|raw: Seq<Option<JqOutput>>|
        #![trigger succeeded(raw)]
        jq_may_give(program, text, converted, place, raw) && jq_result(
            ev,
            succeeded(raw),
            mode,
            kept,
        )
}

/// What the jq stage makes of a line. Its payload is used up. A line without one passes, except
/// through a filter; a payload that does not convert leaves the line as it is.
pub open spec fn jq_step(
    program: Seq<char>,
    ev: LogEvent,
    mode: QueryMode,
    kept: Option<LogEvent>,
) -> bool {
    let bare = LogEvent { structured: None, ..ev };
    match ev.structured {
        None => kept == if mode == QueryMode::Filter {
            None
        } else {
            Some(ev)
        },
        Some(ParsedJson::Serde(doc)) => if source::parsed_json::jaq_converts(doc@) {
            jq_turns(program, doc@, true, Seq::empty(), bare, mode, kept)
        } else {
            kept == Some(bare)
        },
        Some(ParsedJson::Jaq(doc)) => jq_turns(
            program,
            doc.source(),
            doc.by_conversion(),
            doc.place(),
            bare,
            mode,
            kept,
        ),
    }
}

/// Runs a compiled program on a line and turns the line into what the outputs make of it. Which of
/// the outputs that the program may give come out is not stated; [`apply_jq_outputs`] says what each
/// of them leads to.
pub fn jq_evaluate(
    item: Result<LogEvent, LogSourceError>,
    filter: &CompiledFilter,
    mode: QueryMode,
) -> (kept: Option<Result<LogEvent, LogSourceError>>)
    ensures
        match item {
            Ok(ev) => match kept {
                Some(Ok(out)) => jq_step(filter@, ev, mode, Some(out)),
                Some(Err(_)) => false,
                None => jq_step(filter@, ev, mode, None),
            },
            Err(e) => kept == Some(Err::<LogEvent, LogSourceError>(e)),
        },
{
    let mut ev = match item {
        Ok(ev) => ev,
        Err(e) => {
            return Some(Err(e));
        },
    };
    let payload = match ev.structured.take() {
        Some(payload) => payload,
        None => {
            return match mode {
                QueryMode::Filter => None,
                _ => Some(Ok(ev)),
            };
        },
    };
    let value = match payload.to_jaq_val() {
        Some(value) => value,
        None => {
            return Some(Ok(ev));
        },
    };
    let outputs = run_filter(filter, &value);
    match apply_jq_outputs(ev, &outputs, mode) {
        Some(out) => Some(Ok(out)),
        None => None,
    }
}

/// A line that passes a jq stage keeps its source, its time and its level, and has no payload left.
pub proof fn law_jq_keeps_identity(program: Seq<char>, ev: LogEvent, mode: QueryMode, out: LogEvent)
    requires
        jq_step(program, ev, mode, Some(out)),
    ensures
        out.source == ev.source,
        out.timestamp == ev.timestamp,
        out.level == ev.level,
        out.palette_index == ev.palette_index,
        out.container_palette_index == ev.container_palette_index,
        out.structured is None,
        mode == QueryMode::Filter ==> out.message == ev.message,
{
}

/// A filter that keeps a line keeps it for one output that counts as true.
pub proof fn law_filter_keeps_on_truthy(ev: LogEvent, outputs: Seq<JqOutput>, kept: Option<LogEvent>)
    requires
        jq_result(ev, outputs, QueryMode::Filter, kept),
    ensures
        kept is Some <==> any_truthy(outputs),
        kept matches Some(out) ==> out == ev,
{
}

/// Only null and false do not count as true.
pub proof fn law_truth_of_values(kind: JqKind)
    ensures
        truthy(kind) <==> !(kind is Null) && kind != JqKind::Bool(false),
        truthy(JqKind::Bool(true)),
        truthy(JqKind::Other),
{
}

/// Errors among the outputs are passed over wherever they stand; every other output is kept, in its
/// order.
pub proof fn law_errors_are_passed_over(
    before: Seq<Option<JqOutput>>,
    one: Option<JqOutput>,
    after: Seq<Option<JqOutput>>,
)
    ensures
        succeeded(before.push(one) + after) == match one {
            Some(output) => succeeded(before).push(output) + succeeded(after),
            None => succeeded(before) + succeeded(after),
        },
    decreases after.len(),
{
    let all = before.push(one) + after;
    if after.len() == 0 {
        assert(all.drop_last() =~= before);
        assert(all.last() == one);
        assert(succeeded(after) =~= Seq::<JqOutput>::empty());
        match one {
            Some(output) => {
                assert(succeeded(before).push(output) + succeeded(after) =~= succeeded(before).push(
                    output,
                ));
            },
            None => {
                assert(succeeded(before) + succeeded(after) =~= succeeded(before));
            },
        }
    } else {
        let rest = after.drop_last();
        law_errors_are_passed_over(before, one, rest);
        assert(all.drop_last() =~= before.push(one) + rest);
        assert(all.last() == after.last());
        let head = match one {
            Some(output) => succeeded(before).push(output),
            None => succeeded(before),
        };
        match after.last() {
            Some(output) => {
                assert((head + succeeded(rest)).push(output) =~= head + succeeded(rest).push(output));
            },
            None => {},
        }
    }
}

/// A filter keeps a line, unchanged, exactly if an output at some position is neither null nor false.
pub proof fn law_any_true_output_keeps(ev: LogEvent, outputs: Seq<JqOutput>, kept: Option<LogEvent>)
    requires
        jq_result(ev, outputs, QueryMode::Filter, kept),
    ensures
        kept is Some <==> exists|i: int|
            0 <= i < outputs.len() && (#[trigger] outputs[i]).kind != JqKind::Null && outputs[i].kind
                != JqKind::Bool(false),
        kept matches Some(out) ==> out == ev,
{
    if any_truthy(outputs) {
        let i = choose|i: int| 0 <= i < outputs.len() && truthy((#[trigger] outputs[i]).kind);
        assert(outputs[i].kind != JqKind::Null);
    }
    if exists|i: int|
        0 <= i < outputs.len() && (#[trigger] outputs[i]).kind != JqKind::Null && outputs[i].kind
            != JqKind::Bool(false) {
        let i = choose|i: int|
            0 <= i < outputs.len() && (#[trigger] outputs[i]).kind != JqKind::Null && outputs[i].kind
                != JqKind::Bool(false);
        assert(truthy(outputs[i].kind));
    }
}

/// Replacing makes the texts of all outputs, one to a line and in their order, the message;
/// appending puts them behind the message it was and a bar. Both keep the line whatever the outputs
/// are.
pub proof fn law_outputs_become_the_message(ev: LogEvent, outputs: Seq<JqOutput>, kept: Option<LogEvent>)
    ensures
        jq_result(ev, outputs, QueryMode::Replace, kept) ==> (kept matches Some(out) && exists|
            lines: Seq<Seq<char>>,
        |
            {
                &&& lines.len() == outputs.len()
                &&& forall|i: int| 0 <= i < lines.len() ==> #[trigger] lines[i] == outputs[i].text@
                &&& out.message@ == #[trigger] text::joined(lines, seq!['\n'])
            }),
        jq_result(ev, outputs, QueryMode::Append, kept) ==> (kept matches Some(out) && exists|
            lines: Seq<Seq<char>>,
        |
            {
                &&& lines.len() == outputs.len()
                &&& forall|i: int| 0 <= i < lines.len() ==> #[trigger] lines[i] == outputs[i].text@
                &&& out.message@ == ev.message@ + seq![' ', '|', ' '] + #[trigger] text::joined(
                    lines,
                    seq!['\n'],
                )
            }),
{
    reveal_strlit("\n");
    reveal_strlit(" | ");
    assert("\n"@ =~= seq!['\n']);
    assert(" | "@ =~= seq![' ', '|', ' ']);
    let lines = outputs.map_values(|o: JqOutput| o.text@);
    assert(text::joined(lines, seq!['\n']) == rendered(outputs));
}

/// A filter drops a line without a payload; the other modes leave it as it is.
pub proof fn law_line_without_payload(
    program: Seq<char>,
    ev: LogEvent,
    mode: QueryMode,
    kept: Option<LogEvent>,
)
    requires
        ev.structured is None,
        jq_step(program, ev, mode, kept),
    ensures
        mode == QueryMode::Filter ==> kept is None,
        mode != QueryMode::Filter ==> kept == Some(ev),
{
}

/// The program is run on the payload of a line, whichever reader it came from, and its outputs decide:
/// a filter keeps the line exactly if one of those that are no errors counts as true.
pub proof fn law_program_runs_on_the_payload(program: Seq<char>, ev: LogEvent, kept: Option<LogEvent>)
    requires
        jq_step(program, ev, QueryMode::Filter, kept),
        match ev.structured {
            Some(ParsedJson::Serde(doc)) => source::parsed_json::jaq_converts(doc@),
            Some(ParsedJson::Jaq(_)) => true,
            None => false,
        },
    ensures
        exists|raw: Seq<Option<JqOutput>>|
            #![trigger succeeded(raw)]
            {
                &&& match ev.structured {
                    Some(ParsedJson::Serde(doc)) => jq_may_give(program, doc@, true, Seq::empty(), raw),
                    Some(ParsedJson::Jaq(doc)) => jq_may_give(
                        program,
                        doc.source(),
                        doc.by_conversion(),
                        doc.place(),
                        raw,
                    ),
                    None => false,
                }
                &&& kept is Some <==> exists|i: int|
                    0 <= i < succeeded(raw).len() && (#[trigger] succeeded(raw)[i]).kind
                        != JqKind::Null && succeeded(raw)[i].kind != JqKind::Bool(false)
            },
{
    let bare = LogEvent { structured: None, ..ev };
    match ev.structured {
        Some(ParsedJson::Serde(doc)) => {
            let raw = choose|raw: Seq<Option<JqOutput>>|
                #![trigger succeeded(raw)]
                jq_may_give(program, doc@, true, Seq::empty(), raw) && jq_result(
                    bare,
                    succeeded(raw),
                    QueryMode::Filter,
                    kept,
                );
            law_any_true_output_keeps(bare, succeeded(raw), kept);
        },
        Some(ParsedJson::Jaq(doc)) => {
            let raw = choose|raw: Seq<Option<JqOutput>>|
                #![trigger succeeded(raw)]
                jq_may_give(program, doc.source(), doc.by_conversion(), doc.place(), raw) && jq_result(
                    bare,
                    succeeded(raw),
                    QueryMode::Filter,
                    kept,
                );
            law_any_true_output_keeps(bare, succeeded(raw), kept);
        },
        None => {},
    }
}

/// A payload that the program cannot take leaves the line, whatever the mode is.
pub proof fn law_payload_that_does_not_convert(
    program: Seq<char>,
    ev: LogEvent,
    mode: QueryMode,
    kept: Option<LogEvent>,
)
    requires
        ev.structured matches Some(ParsedJson::Serde(doc)) && !source::parsed_json::jaq_converts(doc@),
        jq_step(program, ev, mode, kept),
    ensures
        kept matches Some(out) && out.message == ev.message && out.structured is None,
{
}

/// What an error says tells a program that does not parse from one that fails, and ends with the
/// reason.
pub proof fn law_what_program_errors_say(reason: String)
    ensures
        JqError::Parse(reason).text() == "parse error: "@ + reason@,
        JqError::Eval(reason).text() == "evaluation error: "@ + reason@,
{
}

/// In every mode it is what the program gives for the payload that makes of the line what comes out.
pub proof fn law_outputs_decide_in_every_mode(
    program: Seq<char>,
    ev: LogEvent,
    mode: QueryMode,
    kept: Option<LogEvent>,
)
    requires
        jq_step(program, ev, mode, kept),
    ensures
        ev.structured matches Some(ParsedJson::Serde(doc)) ==> (source::parsed_json::jaq_converts(doc@)
            ==> exists|raw: Seq<Option<JqOutput>>|
            #![trigger succeeded(raw)]
            jq_may_give(program, doc@, true, Seq::empty(), raw) && jq_result(
                (LogEvent { structured: None, ..ev }),
                succeeded(raw),
                mode,
                kept,
            )),
        ev.structured matches Some(ParsedJson::Jaq(doc)) ==> exists|raw: Seq<Option<JqOutput>>|
            #![trigger succeeded(raw)]
            jq_may_give(program, doc.source(), doc.by_conversion(), doc.place(), raw) && jq_result(
                (LogEvent { structured: None, ..ev }),
                succeeded(raw),
                mode,
                kept,
            ),
{
}

} // verus!
