//! Multimedia-mode behaviour: the interpreter writes into the verified sink
//! through the capability interface, and the session routes classified
//! terminal values and finalizes the result.

use std::sync::{Arc, Mutex};
use uiua::SysBackend;
use uiua_embed::backend::{MultimediaBackend, OutputItem};
use uiua_embed::session::{
    finish_session, prepare, route_output, run_code, ClassifiedValue, ExecConfig, InputValue,
};

/// The host-side shell around the verified sink: one lock, one sink, the
/// capability methods forwarding under the lock.
struct CaptureSys {
    sink: Arc<Mutex<MultimediaBackend>>,
}

impl Default for CaptureSys {
    fn default() -> Self {
        CaptureSys { sink: Arc::new(Mutex::new(MultimediaBackend::new())) }
    }
}

impl SysBackend for CaptureSys {
    fn any(&self) -> &dyn std::any::Any {
        self
    }
    fn any_mut(&mut self) -> &mut dyn std::any::Any {
        self
    }
    fn print_str_stdout(&self, s: &str) -> Result<(), String> {
        self.sink.lock().unwrap().print_str_stdout(s)
    }
    fn print_str_stderr(&self, s: &str) -> Result<(), String> {
        self.sink.lock().unwrap().print_str_stderr(s)
    }
    fn print_str_trace(&self, s: &str) {
        self.sink.lock().unwrap().print_str_trace(s)
    }
    fn show_image(&self, image: image::DynamicImage, label: Option<&str>) -> Result<(), String> {
        self.sink.lock().unwrap().show_image(image, label)
    }
    fn show_gif(&self, gif_bytes: Vec<u8>, label: Option<&str>) -> Result<(), String> {
        self.sink.lock().unwrap().show_gif(gif_bytes, label)
    }
    fn play_audio(&self, wave_bytes: Vec<u8>, label: Option<&str>) -> Result<(), String> {
        self.sink.lock().unwrap().play_audio(wave_bytes, label)
    }
}

fn config() -> ExecConfig {
    ExecConfig { timeout_ms: None, experimental: false, inputs: Vec::new() }
}

/// Run one multimedia session end to end, mirroring the host flow: prepare,
/// run, classify the terminal stack, route, and finalize.
fn run_multimedia(code: &str, cfg: ExecConfig) -> (Option<String>, Vec<OutputItem>) {
    let u0 = uiua::Uiua::with_backend(CaptureSys::default());
    let (mut u, experimental) = prepare(u0, cfg).expect("config must be valid");
    let error = run_code(&mut u, code, experimental);
    let sys: CaptureSys = u.take_backend().expect("the backend must survive the run");
    let mut classified = Vec::new();
    if error.is_none() {
        for value in u.take_stack() {
            classified.push(match uiua::encode::SmartOutput::from_value(value, &sys) {
                uiua::encode::SmartOutput::Normal(v) => {
                    ClassifiedValue::Normal(format!("{}\n", v.show()))
                }
                uiua::encode::SmartOutput::Png(b, l) => ClassifiedValue::Png(b, l),
                uiua::encode::SmartOutput::Gif(b, l) => ClassifiedValue::Gif(b, l),
                uiua::encode::SmartOutput::Wav(b, l) => ClassifiedValue::Wav(b, l),
            });
        }
    }
    let mut sink = Arc::try_unwrap(sys.sink).ok().unwrap().into_inner().unwrap();
    let r = finish_session(&mut sink, error, classified);
    (r.error, r.outputs)
}

#[test]
fn text_around_image_stays_split() {
    let (error, out) = run_multimedia(
        "&pf \"first\"\n&ims reshape 40_40 0.5\n&pf \"second\"",
        config(),
    );
    assert!(error.is_none());
    assert_eq!(out.len(), 3);
    assert!(matches!(&out[0], OutputItem::StdOut(s) if s == "first"));
    match &out[1] {
        OutputItem::Image { data, mime, .. } => {
            assert_eq!(mime, "image/png");
            let decoded = image::load_from_memory(data).unwrap();
            assert_eq!(decoded.width(), 40);
            assert_eq!(decoded.height(), 40);
        }
        _ => panic!("expected an image entry between the text runs"),
    }
    assert!(matches!(&out[2], OutputItem::StdOut(s) if s == "second"));
}

#[test]
fn interpreter_writes_coalesce_in_sink() {
    let (error, out) = run_multimedia("&pf \"ab\"\n&pf \"c\"", config());
    assert!(error.is_none());
    assert_eq!(out.len(), 1);
    assert!(matches!(&out[0], OutputItem::StdOut(s) if s == "abc"));
}

#[test]
fn terminal_value_routed_as_text() {
    let (error, out) = run_multimedia("+ 1 2", config());
    assert!(error.is_none());
    assert_eq!(out.len(), 1);
    assert!(matches!(&out[0], OutputItem::StdOut(s) if s == "3\n"));
}

#[test]
fn failed_run_keeps_partial_capture() {
    let (error, out) = run_multimedia("&pf \"kept\"\n+ 1", config());
    assert!(error.is_some());
    assert_eq!(out.len(), 1);
    assert!(matches!(&out[0], OutputItem::StdOut(s) if s == "kept"));
}

#[test]
fn backend_stays_empty_on_config_error() {
    let mut cfg = config();
    cfg.inputs = vec![InputValue::Unsupported];
    let shared = Arc::new(Mutex::new(MultimediaBackend::new()));
    let sys = CaptureSys { sink: shared.clone() };
    let u0 = uiua::Uiua::with_backend(sys);
    assert!(prepare(u0, cfg).is_err());
    assert!(shared.lock().unwrap().take_outputs().is_empty());
}

#[test]
fn routing_dispatches_by_classification() {
    let mut sink = MultimediaBackend::new();
    route_output(&mut sink, ClassifiedValue::Normal(String::from("one\n")));
    route_output(&mut sink, ClassifiedValue::Normal(String::from("two\n")));
    route_output(&mut sink, ClassifiedValue::Wav(vec![4, 5], None));
    route_output(&mut sink, ClassifiedValue::Gif(vec![6], Some(String::from("g"))));
    let out = sink.take_outputs();
    assert_eq!(out.len(), 3);
    assert!(matches!(&out[0], OutputItem::StdOut(s) if s == "one\ntwo\n"));
    assert!(matches!(&out[1], OutputItem::Audio { mime, .. } if mime == "audio/wav"));
    assert!(matches!(&out[2], OutputItem::Image { mime, label, .. }
        if mime == "image/gif" && label.as_deref() == Some("g")));
}
