//! The execution session: it validates and seeds caller-supplied inputs,
//! runs one program under an optional time limit, and packages everything
//! that was captured into a single result.

use crate::backend::{
    emit_media, emit_text, gif_mime, models, png_mime, wav_mime, ItemModel, MultimediaBackend,
    OutputItem, TextChannel,
};
use crate::interp::{
    compile_and_run, compile_and_run_experimental, has_safe_backend, limit_repr,
    new_safe_interpreter, push_bytes, push_text, push_value, safe_stderr, safe_stdout, show_value,
    shown_bytes_of, stack_entry_of, take_safe_backend, take_stack_values, take_stderr,
    take_stdout, time_limit_of, uiua_stack, with_time_limit, StackEntry,
};
use vstd::prelude::*;
use vstd::string::StringExecFns;

verus! {

/// One caller-supplied input value. `Unsupported` stands for a host value
/// of a kind the session does not accept.
pub enum InputValue {
    Text(String),
    /// A numeric host value, already converted to an interpreter value.
    Number(uiua::Value),
    Bytes(Vec<u8>),
    Unsupported,
}

pub open spec fn input_model(iv: InputValue) -> StackEntry {
    match iv {
        InputValue::Text(s) => StackEntry::Text(s@),
        InputValue::Number(v) => stack_entry_of(v),
        InputValue::Bytes(b) => StackEntry::Bytes(b@),
        InputValue::Unsupported => StackEntry::Opaque,
    }
}

pub open spec fn input_models(l: Seq<InputValue>) -> Seq<StackEntry> {
    l.map_values(|iv: InputValue| input_model(iv))
}

pub open spec fn is_supported(iv: InputValue) -> bool {
    !(iv is Unsupported)
}

pub open spec fn all_supported(l: Seq<InputValue>) -> bool {
    forall|i: int| 0 <= i < l.len() ==> is_supported(l[i])
}

/// Caller-supplied configuration, read once at session setup. An absent
/// time limit means no limit; a limit of zero is applied as given, so the
/// run aborts at once. An empty input list seeds nothing.
pub struct ExecConfig {
    pub timeout_ms: Option<u64>,
    pub experimental: bool,
    pub inputs: Vec<InputValue>,
}

/// Why a session refused to run or could not finish.
#[derive(Debug)]
pub enum SessionFailure {
    /// An input value of an unsupported kind, found at setup before any
    /// code runs; holds the index of the offending input.
    UnsupportedInput(usize),
    /// The interpreter no longer held the session's capture backend when
    /// results were to be drained: a corrupted session, fatal for it.
    BackendLost,
}

impl SessionFailure {
    /// A human-readable description of the failure.
    pub fn message(&self) -> (r: String)
        ensures
            *self is UnsupportedInput ==> r@ == "Input must be a string, number, or buffer"@,
            *self is BackendLost ==> r@ == "the session's capture backend was lost"@,
    {
        match self {
            SessionFailure::UnsupportedInput(_) => String::from_str(
                "Input must be a string, number, or buffer",
            ),
            SessionFailure::BackendLost => String::from_str(
                "the session's capture backend was lost",
            ),
        }
    }
}

/// The stack after seeding: the inputs pushed in reverse list order on top
/// of whatever was there, so the first listed input sits nearest the top.
pub open spec fn seeded_stack(base: Seq<StackEntry>, inputs: Seq<StackEntry>) -> Seq<StackEntry> {
    base + inputs.reverse()
}

/// Seeding law: on a seeded stack the value consumed first (the top) is the
/// first listed input, and in general the k-th value consumed, counting
/// from the top, is the k-th listed input.
pub proof fn lemma_first_listed_consumed_first(
    base: Seq<StackEntry>,
    inputs: Seq<StackEntry>,
    k: int,
)
    requires
        0 <= k < inputs.len(),
    ensures
        seeded_stack(base, inputs)[seeded_stack(base, inputs).len() - 1 - k] == inputs[k],
{
    assert(seeded_stack(base, inputs).len() == base.len() + inputs.len());
    assert(inputs.reverse()[inputs.len() - 1 - k] == inputs[k]);
}

/// Find the first input of an unsupported kind, if any.
pub fn find_unsupported(inputs: &Vec<InputValue>) -> (r: Option<usize>)
    ensures
        match r {
            Some(i) => i < inputs@.len() && !is_supported(inputs@[i as int]) && (forall|j: int|
                0 <= j < i ==> is_supported(inputs@[j])),
            None => all_supported(inputs@),
        },
{
    let mut i: usize = 0;
    while i < inputs.len()
        invariant
            i <= inputs@.len(),
            forall|j: int| 0 <= j < i ==> is_supported(inputs@[j]),
        decreases inputs@.len() - i,
    {
        if matches!(&inputs[i], InputValue::Unsupported) {
            return Some(i);
        }
        i = i + 1;
    }
    None
}

/// Seed the interpreter: push every input, walking the list in reverse, so
/// that after seeding the first listed input is the value nearest the top
/// of the stack.
pub fn seed_inputs(u: &mut uiua::Uiua, inputs: Vec<InputValue>)
    requires
        all_supported(inputs@),
    ensures
        uiua_stack(*final(u)) == seeded_stack(uiua_stack(*old(u)), input_models(inputs@)),
        has_safe_backend(*final(u)) == has_safe_backend(*old(u)),
        time_limit_of(*final(u)) == time_limit_of(*old(u)),
{
    let ghost base = uiua_stack(*old(u));
    let ghost all = input_models(inputs@);
    let mut rest = inputs;
    while rest.len() > 0
        invariant
            all.len() >= rest@.len(),
            input_models(rest@) == all.take(rest@.len() as int),
            all_supported(rest@),
            uiua_stack(*u) == base + all.skip(rest@.len() as int).reverse(),
            has_safe_backend(*u) == has_safe_backend(*old(u)),
            time_limit_of(*u) == time_limit_of(*old(u)),
        decreases rest@.len(),
    {
        let ghost pre = rest@;
        let iv = rest.pop().unwrap();
        proof {
            assert(input_models(pre)[pre.len() - 1] == input_model(iv));
            assert(input_model(iv) == all[pre.len() - 1]);
            assert(input_models(rest@) =~= all.take(rest@.len() as int));
        }
        match iv {
            InputValue::Text(s) => push_text(u, s.as_str()),
            InputValue::Number(v) => push_value(u, v),
            InputValue::Bytes(b) => push_bytes(u, &b),
            InputValue::Unsupported => {},
        }
        proof {
            assert(uiua_stack(*u) =~= base + all.skip(rest@.len() as int).reverse());
        }
    }
    proof {
        assert(all.skip(0).reverse() =~= all.reverse());
        assert(uiua_stack(*u) =~= seeded_stack(base, all));
    }
}

/// Session setup, in order: reject any unsupported input before anything
/// else happens, apply the optional time limit, then seed the inputs. Hands
/// back the configured interpreter and the experimental-feature flag.
pub fn prepare(u: uiua::Uiua, config: ExecConfig) -> (r: Result<
    (uiua::Uiua, bool),
    SessionFailure,
>)
    ensures
        match r {
            Ok(p) => all_supported(config.inputs@) && p.1 == config.experimental && uiua_stack(
                p.0,
            ) == seeded_stack(uiua_stack(u), input_models(config.inputs@)) && has_safe_backend(
                p.0,
            ) == has_safe_backend(u) && time_limit_of(p.0) == (match config.timeout_ms {
                Some(ms) => Some(limit_repr(ms)),
                None => time_limit_of(u),
            }),
            Err(SessionFailure::UnsupportedInput(i)) => i < config.inputs@.len() && !is_supported(
                config.inputs@[i as int],
            ) && (forall|j: int| 0 <= j < i ==> is_supported(config.inputs@[j])),
            Err(SessionFailure::BackendLost) => false,
        },
{
    if let Some(i) = find_unsupported(&config.inputs) {
        return Err(SessionFailure::UnsupportedInput(i));
    }
    let ExecConfig { timeout_ms, experimental, inputs } = config;
    let mut interp = u;
    if let Some(ms) = timeout_ms {
        interp = with_time_limit(interp, ms);
    }
    seed_inputs(&mut interp, inputs);
    Ok((interp, experimental))
}

/// Compile and run one source unit on the given interpreter, honouring the
/// experimental-feature gate; the error's display text when the run fails.
/// The run's outcome depends on the guest program and the configured limit,
/// so nothing is stated of it; whether the backend can be taken back out
/// afterwards is carried through.
pub fn run_code(u: &mut uiua::Uiua, code: &str, experimental: bool) -> (r: Option<String>)
    ensures
        has_safe_backend(*final(u)) == has_safe_backend(*old(u)),
{
    let res = if experimental {
        compile_and_run_experimental(u, code)
    } else {
        compile_and_run(u, code)
    };
    match res {
        Ok(()) => None,
        Err(e) => Some(e),
    }
}

/// The plain-mode result: raw accumulated stdout and stderr bytes, plus the
/// error message when compilation or execution failed.
pub struct PlainResult {
    pub error: Option<String>,
    pub stdout: Vec<u8>,
    pub stderr: Vec<u8>,
}

/// The bytes that showing a whole list of values appends to captured
/// stdout, first value first.
pub open spec fn shown_concat(vs: Seq<uiua::Value>) -> Seq<u8>
    decreases vs.len(),
{
    if vs.len() == 0 {
        Seq::empty()
    } else {
        shown_bytes_of(vs[0]) + shown_concat(vs.drop_first())
    }
}

/// Render leftover terminal values into the captured stdout, oldest-pushed
/// first: each value's display line is appended in the order given, and
/// stderr is untouched.
pub fn render_stack(sys: &mut uiua::SafeSys, values: Vec<uiua::Value>)
    ensures
        safe_stdout(*final(sys)) == safe_stdout(*old(sys)) + shown_concat(values@),
        safe_stderr(*final(sys)) == safe_stderr(*old(sys)),
{
    let mut rest = values;
    while rest.len() > 0
        invariant
            safe_stdout(*sys) + shown_concat(rest@) == safe_stdout(*old(sys)) + shown_concat(
                values@,
            ),
            safe_stderr(*sys) == safe_stderr(*old(sys)),
        decreases rest@.len(),
    {
        let ghost pre = rest@;
        let v = rest.remove(0);
        let ghost sv = shown_bytes_of(v);
        let _ = show_value(sys, v);
        proof {
            assert(shown_concat(pre) == sv + shown_concat(rest@));
            assert((safe_stdout(*sys) + shown_concat(rest@)) =~= (safe_stdout(*old(sys))
                + shown_concat(values@)));
        }
    }
    proof {
        assert(safe_stdout(*sys) =~= safe_stdout(*sys) + shown_concat(rest@));
    }
}

/// Package one plain-mode result: the error message is carried through
/// unchanged, and the two byte buffers are drained — the payload holds
/// exactly what the backend had captured, and the backend is left empty.
pub fn package_plain(error: Option<String>, sys: &mut uiua::SafeSys) -> (r: PlainResult)
    ensures
        r.error == error,
        r.stdout@ == safe_stdout(*old(sys)),
        r.stderr@ == safe_stderr(*old(sys)),
        safe_stdout(*final(sys)) == Seq::<u8>::empty(),
        safe_stderr(*final(sys)) == Seq::<u8>::empty(),
{
    let stdout = take_stdout(sys);
    let stderr = take_stderr(sys);
    PlainResult { error, stdout, stderr }
}

/// One complete plain-mode session: validate and seed, run the code, render
/// any remaining stack values (oldest-pushed first) into captured stdout,
/// and hand back the raw byte buffers together with any run error. A failed
/// run keeps everything captured before the failure. Success is owed
/// exactly on the configurations whose inputs are all supported; the
/// payload's bytes depend on the guest program's behaviour and are fixed by
/// the capture and packaging contracts rather than here.
pub fn eval(code: &str, config: ExecConfig) -> (r: Result<PlainResult, SessionFailure>)
    ensures
        r is Ok <==> all_supported(config.inputs@),
        match r {
            Ok(_) => all_supported(config.inputs@),
            Err(SessionFailure::UnsupportedInput(i)) => i < config.inputs@.len() && !is_supported(
                config.inputs@[i as int],
            ) && (forall|j: int| 0 <= j < i ==> is_supported(config.inputs@[j])),
            Err(SessionFailure::BackendLost) => false,
        },
{
    let prepared = match prepare(new_safe_interpreter(), config) {
        Ok(p) => p,
        Err(f) => {
            return Err(f);
        },
    };
    let (mut interp, experimental) = prepared;
    let error = run_code(&mut interp, code, experimental);
    let mut sys = match take_safe_backend(&mut interp) {
        Some(s) => s,
        None => {
            // the sandboxed backend is retained across setup and run, so
            // this arm cannot be reached
            proof {
                assert(false);
            }
            return Err(SessionFailure::BackendLost);
        },
    };
    if error.is_none() {
        let values = take_stack_values(&mut interp);
        render_stack(&mut sys, values);
    }
    Ok(package_plain(error, &mut sys))
}

/// Configuration law: an input list holding an unsupported value is
/// rejected at session setup, before any code runs, and a capture backend
/// that saw no emission drains to the empty sequence.
pub proof fn lemma_config_error_before_run(l: Seq<InputValue>)
    requires
        !all_supported(l),
    ensures
        exists|i: int| 0 <= i < l.len() && !is_supported(l[i]),
        crate::backend::drain_model(Seq::<ItemModel>::empty()).0 == Seq::<ItemModel>::empty(),
{
}

/// One output of the interpreter's value-to-media judgment, already
/// classified, ready to be routed to the matching backend capability.
pub enum ClassifiedValue {
    /// The rendered text of a normal value, newline included.
    Normal(String),
    Png(Vec<u8>, Option<String>),
    Gif(Vec<u8>, Option<String>),
    Wav(Vec<u8>, Option<String>),
}

/// The mathematical model of one classified output.
pub enum ClassifiedModel {
    Normal(Seq<char>),
    Png(Seq<u8>, Option<Seq<char>>),
    Gif(Seq<u8>, Option<Seq<char>>),
    Wav(Seq<u8>, Option<Seq<char>>),
}

pub open spec fn opt_text_model(l: Option<String>) -> Option<Seq<char>> {
    match l {
        Some(s) => Some(s@),
        None => None,
    }
}

impl View for ClassifiedValue {
    type V = ClassifiedModel;

    open spec fn view(&self) -> ClassifiedModel {
        match self {
            ClassifiedValue::Normal(t) => ClassifiedModel::Normal(t@),
            ClassifiedValue::Png(d, l) => ClassifiedModel::Png(d@, opt_text_model(*l)),
            ClassifiedValue::Gif(d, l) => ClassifiedModel::Gif(d@, opt_text_model(*l)),
            ClassifiedValue::Wav(d, l) => ClassifiedModel::Wav(d@, opt_text_model(*l)),
        }
    }
}

/// What routing one classified output does to the captured sequence: a
/// normal value coalesces into stdout text; media become entries of their
/// own with the fixed mime of their kind.
pub open spec fn route_model(items: Seq<ItemModel>, c: ClassifiedModel) -> Seq<ItemModel> {
    match c {
        ClassifiedModel::Normal(t) => emit_text(items, TextChannel::Stdout, t),
        ClassifiedModel::Png(d, l) => emit_media(
            items,
            (ItemModel::Image { data: d, mime: png_mime(), label: l }),
        ),
        ClassifiedModel::Gif(d, l) => emit_media(
            items,
            (ItemModel::Image { data: d, mime: gif_mime(), label: l }),
        ),
        ClassifiedModel::Wav(d, l) => emit_media(
            items,
            (ItemModel::Audio { data: d, mime: wav_mime(), label: l }),
        ),
    }
}

/// Routing a whole list of classified outputs, first one first.
pub open spec fn route_all(items: Seq<ItemModel>, cs: Seq<ClassifiedModel>) -> Seq<ItemModel>
    decreases cs.len(),
{
    if cs.len() == 0 {
        items
    } else {
        route_all(route_model(items, cs[0]), cs.drop_first())
    }
}

/// Route one classified output to the matching backend capability: a total
/// dispatch that performs no classification of its own.
pub fn route_output(b: &mut MultimediaBackend, c: ClassifiedValue)
    ensures
        final(b)@ == route_model(old(b)@, c@),
{
    match c {
        ClassifiedValue::Normal(t) => {
            let _ = b.print_str_stdout(t.as_str());
        },
        ClassifiedValue::Png(d, l) => {
            let lr: Option<&str> = match &l {
                Some(s) => Some(s.as_str()),
                None => None,
            };
            let _ = b.show_png(d, lr);
        },
        ClassifiedValue::Gif(d, l) => {
            let lr: Option<&str> = match &l {
                Some(s) => Some(s.as_str()),
                None => None,
            };
            let _ = b.show_gif(d, lr);
        },
        ClassifiedValue::Wav(d, l) => {
            let lr: Option<&str> = match &l {
                Some(s) => Some(s.as_str()),
                None => None,
            };
            let _ = b.play_audio(d, lr);
        },
    }
}

/// The multimedia-mode result: the drained ordered entries, plus the error
/// message when compilation or execution failed.
pub struct MultimediaResult {
    pub error: Option<String>,
    pub outputs: Vec<OutputItem>,
}

pub open spec fn classified_models(cs: Seq<ClassifiedValue>) -> Seq<ClassifiedModel> {
    cs.map_values(|c: ClassifiedValue| c@)
}

/// Finalize one multimedia session: after a successful run route every
/// classified terminal-stack output, oldest-pushed first, into the backend;
/// after a failed run leave the backend exactly as the run left it. Either
/// way drain exactly once and package the ordered entries with the error.
pub fn finish_session(
    b: &mut MultimediaBackend,
    run_error: Option<String>,
    classified: Vec<ClassifiedValue>,
) -> (r: MultimediaResult)
    ensures
        final(b)@ == Seq::<ItemModel>::empty(),
        r.error == run_error,
        run_error is Some ==> models(r.outputs@) == old(b)@,
        run_error is None ==> models(r.outputs@) == route_all(
            old(b)@,
            classified_models(classified@),
        ),
{
    if run_error.is_none() {
        let ghost total = route_all(old(b)@, classified_models(classified@));
        let mut cs = classified;
        while cs.len() > 0
            invariant
                route_all(b@, classified_models(cs@)) == total,
            decreases cs@.len(),
        {
            let ghost pre = cs@;
            let c = cs.remove(0);
            proof {
                assert(classified_models(pre)[0] == c@);
                assert(classified_models(cs@) =~= classified_models(pre).drop_first());
            }
            route_output(b, c);
        }
        proof {
            assert(route_all(b@, classified_models(cs@)) == b@);
        }
    }
    let outputs = b.take_outputs();
    MultimediaResult { error: run_error, outputs }
}

} // verus!
