//! The trusted boundary to the embedded interpreter runtime and to raster
//! encoding. Every item here is believed rather than verified; each doc
//! comment names the outside function relied on.

use uiua::SysBackend;
use vstd::prelude::*;

verus! {

#[verifier::external_type_specification]
#[verifier::external_body]
pub struct ExUiua(uiua::Uiua);

#[verifier::external_type_specification]
#[verifier::external_body]
pub struct ExSafeSys(uiua::SafeSys);

#[verifier::external_type_specification]
#[verifier::external_body]
pub struct ExValue(uiua::Value);

#[verifier::external_type_specification]
#[verifier::external_body]
pub struct ExDynamicImage(image::DynamicImage);

/// What one slot of the interpreter's value stack holds, as plain values:
/// the text and byte entries the session pushes itself, and `Opaque` for a
/// value only the interpreter can read — a numeric input passed through
/// whole, or anything the guest program produced.
pub enum StackEntry {
    Text(Seq<char>),
    Bytes(Seq<u8>),
    Opaque,
}

/// The contents of an interpreter's value stack, bottom of the stack first.
pub uninterp spec fn uiua_stack(u: uiua::Uiua) -> Seq<StackEntry>;

/// What one interpreter value holds, in the stack model. The session only
/// moves such values; it never looks inside them.
pub uninterp spec fn stack_entry_of(v: uiua::Value) -> StackEntry;

/// Whether the runtime's backend is the sandboxed capture-only one, with no
/// other live handle to it, so that it can be taken back out after a run.
pub uninterp spec fn has_safe_backend(u: uiua::Uiua) -> bool;

/// The execution limit recorded on the runtime; None when no limit is set.
/// The runtime keeps the limit in its own representation, read here as an
/// abstract value.
pub uninterp spec fn time_limit_of(u: uiua::Uiua) -> Option<int>;

/// The runtime's representation of a limit of the given milliseconds, a
/// function of the milliseconds alone. The runtime stores seconds in
/// floating point, so distinct millisecond values may share one
/// representation; nothing here claims otherwise.
pub uninterp spec fn limit_repr(ms: u64) -> int;

/// The stdout bytes captured so far by a sandboxed backend.
pub uninterp spec fn safe_stdout(s: uiua::SafeSys) -> Seq<u8>;

/// The stderr bytes captured so far by a sandboxed backend.
pub uninterp spec fn safe_stderr(s: uiua::SafeSys) -> Seq<u8>;

/// The bytes that showing one value appends to captured stdout: the UTF-8
/// encoding of the value's display form followed by a newline, a function
/// of the value alone.
pub uninterp spec fn shown_bytes_of(v: uiua::Value) -> Seq<u8>;

/// Whether PNG-encoding the given raster succeeds, a function of the image
/// alone.
pub uninterp spec fn png_encode_ok(img: image::DynamicImage) -> bool;

/// The PNG encoding of the given raster, a function of its pixels,
/// dimensions and color type alone.
pub uninterp spec fn png_encoding_of(img: image::DynamicImage) -> Seq<u8>;

/// The display text of the PNG encoder's error on the given raster, for
/// the rasters on which encoding fails.
pub uninterp spec fn png_failure_of(img: image::DynamicImage) -> Seq<char>;

/// Relies on uiua::Uiua::with_safe_sys: a fresh runtime over the sandboxed
/// capture-only backend (held by no one else), with an empty value stack
/// and no execution limit.
#[verifier::external_body]
pub(crate) fn new_safe_interpreter() -> (u: uiua::Uiua)
    ensures
        uiua_stack(u) == Seq::<StackEntry>::empty(),
        has_safe_backend(u),
        time_limit_of(u) is None,
{
    uiua::Uiua::with_safe_sys()
}

/// Relies on uiua::Uiua::with_execution_limit: it only records the time
/// limit on the runtime, in the runtime's own representation of the given
/// milliseconds; the value stack and the backend are untouched.
#[verifier::external_body]
pub(crate) fn with_time_limit(u: uiua::Uiua, ms: u64) -> (r: uiua::Uiua)
    ensures
        uiua_stack(r) == uiua_stack(u),
        has_safe_backend(r) == has_safe_backend(u),
        time_limit_of(r) == Some(limit_repr(ms)),
{
    u.with_execution_limit(core::time::Duration::from_millis(ms))
}

/// Relies on uiua::Uiua::push: exactly one value is pushed on top of the
/// stack; a Rust String becomes a character-array value. The backend and
/// the execution limit are untouched.
#[verifier::external_body]
pub(crate) fn push_text(u: &mut uiua::Uiua, s: &str)
    ensures
        uiua_stack(*final(u)) == uiua_stack(*old(u)).push(StackEntry::Text(s@)),
        has_safe_backend(*final(u)) == has_safe_backend(*old(u)),
        time_limit_of(*final(u)) == time_limit_of(*old(u)),
{
    u.push(s.to_string());
}

/// Relies on uiua::Uiua::push: exactly the given value is pushed on top of
/// the stack. The backend and the execution limit are untouched.
#[verifier::external_body]
pub(crate) fn push_value(u: &mut uiua::Uiua, v: uiua::Value)
    ensures
        uiua_stack(*final(u)) == uiua_stack(*old(u)).push(stack_entry_of(v)),
        has_safe_backend(*final(u)) == has_safe_backend(*old(u)),
        time_limit_of(*final(u)) == time_limit_of(*old(u)),
{
    u.push(v);
}

/// Relies on uiua::Uiua::push: a Rust byte vector becomes a byte-array
/// value pushed on top of the stack. The backend and the execution limit
/// are untouched.
#[verifier::external_body]
pub(crate) fn push_bytes(u: &mut uiua::Uiua, b: &Vec<u8>)
    ensures
        uiua_stack(*final(u)) == uiua_stack(*old(u)).push(StackEntry::Bytes(b@)),
        has_safe_backend(*final(u)) == has_safe_backend(*old(u)),
        time_limit_of(*final(u)) == time_limit_of(*old(u)),
{
    u.push(b.clone());
}

/// Relies on uiua::Uiua::compile_run with Compiler::load_str: the source is
/// compiled as a single unit and run; on failure the error's display text
/// comes back. The stack afterwards holds whatever the program left. The
/// compiler's handle to the backend is dropped before the call returns, and
/// the sandboxed backend allows no thread spawning, so whether the backend
/// can be taken back out is unchanged.
#[verifier::external_body]
pub(crate) fn compile_and_run(u: &mut uiua::Uiua, code: &str) -> (r: Result<(), String>)
    ensures
        has_safe_backend(*final(u)) == has_safe_backend(*old(u)),
{
    match u.compile_run(|comp| comp.load_str(code)) {
        Ok(_) => Ok(()),
        Err(e) => Err(e.to_string()),
    }
}

/// Relies on uiua::Uiua::compile_run with Compiler::experimental and
/// Compiler::load_str: as compile_and_run, with the experimental-feature
/// gate enabled before the source loads.
#[verifier::external_body]
pub(crate) fn compile_and_run_experimental(u: &mut uiua::Uiua, code: &str) -> (r: Result<
    (),
    String,
>)
    ensures
        has_safe_backend(*final(u)) == has_safe_backend(*old(u)),
{
    match u.compile_run(|comp| comp.experimental(true).load_str(code)) {
        Ok(_) => Ok(()),
        Err(e) => Err(e.to_string()),
    }
}

/// Relies on uiua::Uiua::take_backend::<SafeSys>: when the backend is the
/// sandboxed one and no other handle to it survives, it is handed out;
/// otherwise None.
#[verifier::external_body]
pub(crate) fn take_safe_backend(u: &mut uiua::Uiua) -> (r: Option<uiua::SafeSys>)
    ensures
        has_safe_backend(*old(u)) ==> r is Some,
{
    u.take_backend()
}

/// Relies on uiua::Uiua::take_stack: the whole stack is removed and
/// returned as it was, oldest-pushed value first, leaving the stack empty.
#[verifier::external_body]
pub(crate) fn take_stack_values(u: &mut uiua::Uiua) -> (r: Vec<uiua::Value>)
    ensures
        r@.map_values(|v: uiua::Value| stack_entry_of(v)) == uiua_stack(*old(u)),
        uiua_stack(*final(u)) == Seq::<StackEntry>::empty(),
{
    u.take_stack()
}

/// Relies on uiua::SysBackend::show for SafeSys: the value's display form
/// and a newline are appended to the captured stdout bytes, stderr is
/// untouched, and SafeSys never refuses a write.
#[verifier::external_body]
pub(crate) fn show_value(sys: &mut uiua::SafeSys, v: uiua::Value) -> (r: Result<(), String>)
    ensures
        r is Ok,
        safe_stdout(*final(sys)) == safe_stdout(*old(sys)) + shown_bytes_of(v),
        safe_stderr(*final(sys)) == safe_stderr(*old(sys)),
{
    sys.show(v)
}

/// Relies on uiua::SafeSys::take_stdout: the captured stdout bytes are
/// handed out, the stdout buffer is left empty, and stderr is untouched.
#[verifier::external_body]
pub(crate) fn take_stdout(sys: &mut uiua::SafeSys) -> (r: Vec<u8>)
    ensures
        r@ == safe_stdout(*old(sys)),
        safe_stdout(*final(sys)) == Seq::<u8>::empty(),
        safe_stderr(*final(sys)) == safe_stderr(*old(sys)),
{
    sys.take_stdout()
}

/// Relies on uiua::SafeSys::take_stderr: the captured stderr bytes are
/// handed out, the stderr buffer is left empty, and stdout is untouched.
#[verifier::external_body]
pub(crate) fn take_stderr(sys: &mut uiua::SafeSys) -> (r: Vec<u8>)
    ensures
        r@ == safe_stderr(*old(sys)),
        safe_stderr(*final(sys)) == Seq::<u8>::empty(),
        safe_stdout(*final(sys)) == safe_stdout(*old(sys)),
{
    sys.take_stderr()
}

/// Relies on image::DynamicImage::write_to with the PNG format: encoding is
/// deterministic in the image alone; on success the PNG bytes come back,
/// on failure the encoder's own display text, unwrapped.
#[verifier::external_body]
pub(crate) fn encode_png(img: &image::DynamicImage) -> (r: Result<Vec<u8>, String>)
    ensures
        r is Ok <==> png_encode_ok(*img),
        match r {
            Ok(b) => b@ == png_encoding_of(*img),
            Err(e) => e@ == png_failure_of(*img),
        },
{
    let mut bytes = std::io::Cursor::new(Vec::new());
    match img.write_to(&mut bytes, image::ImageFormat::Png) {
        Ok(()) => Ok(bytes.into_inner()),
        Err(e) => Err(e.to_string()),
    }
}

} // verus!
