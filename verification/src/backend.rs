//! The capture backend: an ordered sink for everything a guest program
//! emits. Consecutive textual emissions on the same channel coalesce into a
//! single entry; an image or audio emission is always its own entry.

use vstd::prelude::*;
use vstd::string::StringExecFns;

verus! {

/// The mathematical model of one captured entry.
pub enum ItemModel {
    StdOut(Seq<char>),
    StdErr(Seq<char>),
    Trace(Seq<char>),
    Image { data: Seq<u8>, mime: Seq<char>, label: Option<Seq<char>> },
    Audio { data: Seq<u8>, mime: Seq<char>, label: Option<Seq<char>> },
}

/// One captured output entry handed back to the host.
pub enum OutputItem {
    StdOut(String),
    StdErr(String),
    Trace(String),
    Image { data: Vec<u8>, mime: String, label: Option<String> },
    Audio { data: Vec<u8>, mime: String, label: Option<String> },
}

pub open spec fn label_model(l: Option<&str>) -> Option<Seq<char>> {
    match l {
        Some(s) => Some(s@),
        None => None,
    }
}

pub open spec fn owned_label_model(l: Option<String>) -> Option<Seq<char>> {
    match l {
        Some(s) => Some(s@),
        None => None,
    }
}

impl View for OutputItem {
    type V = ItemModel;

    open spec fn view(&self) -> ItemModel {
        match self {
            OutputItem::StdOut(s) => ItemModel::StdOut(s@),
            OutputItem::StdErr(s) => ItemModel::StdErr(s@),
            OutputItem::Trace(s) => ItemModel::Trace(s@),
            OutputItem::Image { data, mime, label } => ItemModel::Image {
                data: data@,
                mime: mime@,
                label: owned_label_model(*label),
            },
            OutputItem::Audio { data, mime, label } => ItemModel::Audio {
                data: data@,
                mime: mime@,
                label: owned_label_model(*label),
            },
        }
    }
}

/// The model of a whole captured sequence.
pub open spec fn models(v: Seq<OutputItem>) -> Seq<ItemModel> {
    v.map_values(|it: OutputItem| it@)
}

/// The three coalescing text channels.
pub enum TextChannel {
    Stdout,
    Stderr,
    Trace,
}

pub open spec fn text_item(ch: TextChannel, s: Seq<char>) -> ItemModel {
    match ch {
        TextChannel::Stdout => ItemModel::StdOut(s),
        TextChannel::Stderr => ItemModel::StdErr(s),
        TextChannel::Trace => ItemModel::Trace(s),
    }
}

/// Whether an entry is a textual entry of the given channel.
pub open spec fn is_text_on(it: ItemModel, ch: TextChannel) -> bool {
    match ch {
        TextChannel::Stdout => it is StdOut,
        TextChannel::Stderr => it is StdErr,
        TextChannel::Trace => it is Trace,
    }
}

/// The text held by a textual entry (empty for media entries).
pub open spec fn text_of(it: ItemModel) -> Seq<char> {
    match it {
        ItemModel::StdOut(s) => s,
        ItemModel::StdErr(s) => s,
        ItemModel::Trace(s) => s,
        ItemModel::Image { .. } => Seq::empty(),
        ItemModel::Audio { .. } => Seq::empty(),
    }
}

pub open spec fn is_media(it: ItemModel) -> bool {
    it is Image || it is Audio
}

/// The coalescing rule: a textual emission merges into a trailing entry of
/// the same channel and otherwise starts a new entry.
pub open spec fn emit_text(items: Seq<ItemModel>, ch: TextChannel, s: Seq<char>) -> Seq<ItemModel> {
    if items.len() > 0 && is_text_on(items.last(), ch) {
        items.update(items.len() - 1, text_item(ch, text_of(items.last()) + s))
    } else {
        items.push(text_item(ch, s))
    }
}

/// A media emission is always appended as an entry of its own.
pub open spec fn emit_media(items: Seq<ItemModel>, m: ItemModel) -> Seq<ItemModel> {
    items.push(m)
}

pub open spec fn png_mime() -> Seq<char> {
    "image/png"@
}

pub open spec fn gif_mime() -> Seq<char> {
    "image/gif"@
}

pub open spec fn wav_mime() -> Seq<char> {
    "audio/wav"@
}

/// A sequence of textual emissions folded into the captured sequence, first
/// emission first.
pub open spec fn emit_texts(items: Seq<ItemModel>, ch: TextChannel, ts: Seq<Seq<char>>) -> Seq<
    ItemModel,
>
    decreases ts.len(),
{
    if ts.len() == 0 {
        items
    } else {
        emit_texts(emit_text(items, ch, ts[0]), ch, ts.drop_first())
    }
}

/// The concatenation of a sequence of texts, in order.
pub open spec fn concat_texts(ts: Seq<Seq<char>>) -> Seq<char>
    decreases ts.len(),
{
    if ts.len() == 0 {
        Seq::empty()
    } else {
        ts[0] + concat_texts(ts.drop_first())
    }
}

proof fn lemma_emit_texts_onto_matching(
    items: Seq<ItemModel>,
    ch: TextChannel,
    p: Seq<char>,
    ts: Seq<Seq<char>>,
)
    requires
        items.len() > 0,
        items.last() == text_item(ch, p),
    ensures
        emit_texts(items, ch, ts) == items.update(
            items.len() - 1,
            text_item(ch, p + concat_texts(ts)),
        ),
    decreases ts.len(),
{
    match ch {
        TextChannel::Stdout => assert(is_text_on(items.last(), ch) && text_of(items.last()) == p),
        TextChannel::Stderr => assert(is_text_on(items.last(), ch) && text_of(items.last()) == p),
        TextChannel::Trace => assert(is_text_on(items.last(), ch) && text_of(items.last()) == p),
    }
    if ts.len() == 0 {
        assert(p + concat_texts(ts) =~= p);
        assert(items.update(items.len() - 1, text_item(ch, p)) =~= items);
    } else {
        let items1 = emit_text(items, ch, ts[0]);
        assert(items1 == items.update(items.len() - 1, text_item(ch, p + ts[0])));
        assert(items1.last() == text_item(ch, p + ts[0]));
        lemma_emit_texts_onto_matching(items1, ch, p + ts[0], ts.drop_first());
        assert((p + ts[0]) + concat_texts(ts.drop_first()) =~= p + concat_texts(ts));
        assert(items1.update(
            items1.len() - 1,
            text_item(ch, (p + ts[0]) + concat_texts(ts.drop_first())),
        ) =~= items.update(items.len() - 1, text_item(ch, p + concat_texts(ts))));
    }
}

/// Coalescing law: a run of same-channel textual emissions with no
/// intervening emission of another kind yields exactly one new entry, whose
/// text is the concatenation of the emitted texts in emission order.
pub proof fn lemma_text_run_coalesces(items: Seq<ItemModel>, ch: TextChannel, ts: Seq<Seq<char>>)
    requires
        ts.len() > 0,
        items.len() == 0 || !is_text_on(items.last(), ch),
    ensures
        emit_texts(items, ch, ts) == items.push(text_item(ch, concat_texts(ts))),
{
    let items1 = emit_text(items, ch, ts[0]);
    assert(items1 == items.push(text_item(ch, ts[0])));
    assert(items1.last() == text_item(ch, ts[0]));
    lemma_emit_texts_onto_matching(items1, ch, ts[0], ts.drop_first());
    assert(items1.update(
        items1.len() - 1,
        text_item(ch, ts[0] + concat_texts(ts.drop_first())),
    ) =~= items.push(text_item(ch, concat_texts(ts))));
}

/// Media law: an image or audio emission is always an entry of its own. It
/// leaves every earlier entry unchanged, and neither a later textual
/// emission nor a later media emission merges into it.
pub proof fn lemma_media_never_merges(
    items: Seq<ItemModel>,
    m: ItemModel,
    ch: TextChannel,
    s: Seq<char>,
    m2: ItemModel,
)
    requires
        is_media(m),
    ensures
        emit_media(items, m) == items.push(m),
        forall|i: int| 0 <= i < items.len() ==> emit_media(items, m)[i] == items[i],
        emit_text(emit_media(items, m), ch, s) == items.push(m).push(text_item(ch, s)),
        emit_media(emit_media(items, m), m2) == items.push(m).push(m2),
{
    match ch {
        TextChannel::Stdout => assert(!is_text_on(items.push(m).last(), ch)),
        TextChannel::Stderr => assert(!is_text_on(items.push(m).last(), ch)),
        TextChannel::Trace => assert(!is_text_on(items.push(m).last(), ch)),
    }
}

/// The drain operation in the model: it hands back the whole captured
/// sequence and leaves the sink empty.
pub open spec fn drain_model(items: Seq<ItemModel>) -> (Seq<ItemModel>, Seq<ItemModel>) {
    (items, Seq::<ItemModel>::empty())
}

/// Drain law: a second drain with no intervening emission returns the empty
/// sequence.
pub proof fn lemma_drain_twice(items: Seq<ItemModel>)
    ensures
        drain_model(drain_model(items).1).0 == Seq::<ItemModel>::empty(),
{
}

/// The ordered, mutually-exclusive multimedia output sink. One instance
/// serves exactly one execution: created empty, appended to while the guest
/// program runs, and drained once when the session packages its result.
/// The host wraps it in a lock when the interpreter may emit from more than
/// one thread; every operation here is a single atomic append or take on the
/// captured sequence.
pub struct MultimediaBackend {
    outputs: Vec<OutputItem>,
}

impl View for MultimediaBackend {
    type V = Seq<ItemModel>;

    closed spec fn view(&self) -> Seq<ItemModel> {
        models(self.outputs@)
    }
}

impl MultimediaBackend {
    /// A fresh, empty sink.
    pub fn new() -> (r: Self)
        ensures
            r@ == Seq::<ItemModel>::empty(),
    {
        let r = MultimediaBackend { outputs: Vec::new() };
        proof {
            assert(r@ =~= Seq::<ItemModel>::empty());
        }
        r
    }

    /// Append text to the standard-output channel under the coalescing rule.
    /// Always succeeds.
    pub fn print_str_stdout(&mut self, s: &str) -> (r: Result<(), String>)
        ensures
            r is Ok,
            final(self)@ == emit_text(old(self)@, TextChannel::Stdout, s@),
    {
        let n = self.outputs.len();
        if n > 0 && matches!(&self.outputs[n - 1], OutputItem::StdOut(_)) {
            let last = self.outputs.pop().unwrap();
            match last {
                OutputItem::StdOut(mut prev) => {
                    prev.append(s);
                    self.outputs.push(OutputItem::StdOut(prev));
                }
                _ => {}
            }
            proof {
                assert(final(self)@ =~= emit_text(old(self)@, TextChannel::Stdout, s@));
            }
        } else {
            self.outputs.push(OutputItem::StdOut(String::from_str(s)));
            proof {
                assert(final(self)@ =~= emit_text(old(self)@, TextChannel::Stdout, s@));
            }
        }
        Ok(())
    }

    /// Append text to the standard-error channel under the coalescing rule.
    /// Always succeeds.
    pub fn print_str_stderr(&mut self, s: &str) -> (r: Result<(), String>)
        ensures
            r is Ok,
            final(self)@ == emit_text(old(self)@, TextChannel::Stderr, s@),
    {
        let n = self.outputs.len();
        if n > 0 && matches!(&self.outputs[n - 1], OutputItem::StdErr(_)) {
            let last = self.outputs.pop().unwrap();
            match last {
                OutputItem::StdErr(mut prev) => {
                    prev.append(s);
                    self.outputs.push(OutputItem::StdErr(prev));
                }
                _ => {}
            }
            proof {
                assert(final(self)@ =~= emit_text(old(self)@, TextChannel::Stderr, s@));
            }
        } else {
            self.outputs.push(OutputItem::StdErr(String::from_str(s)));
            proof {
                assert(final(self)@ =~= emit_text(old(self)@, TextChannel::Stderr, s@));
            }
        }
        Ok(())
    }

    /// Append diagnostic text to the trace channel under the coalescing rule.
    pub fn print_str_trace(&mut self, s: &str)
        ensures
            final(self)@ == emit_text(old(self)@, TextChannel::Trace, s@),
    {
        let n = self.outputs.len();
        if n > 0 && matches!(&self.outputs[n - 1], OutputItem::Trace(_)) {
            let last = self.outputs.pop().unwrap();
            match last {
                OutputItem::Trace(mut prev) => {
                    prev.append(s);
                    self.outputs.push(OutputItem::Trace(prev));
                }
                _ => {}
            }
            proof {
                assert(final(self)@ =~= emit_text(old(self)@, TextChannel::Trace, s@));
            }
        } else {
            self.outputs.push(OutputItem::Trace(String::from_str(s)));
            proof {
                assert(final(self)@ =~= emit_text(old(self)@, TextChannel::Trace, s@));
            }
        }
    }

    /// Append one still-raster entry. Always succeeds and never merges with
    /// neighbouring entries.
    pub fn show_png(&mut self, png_bytes: Vec<u8>, label: Option<&str>) -> (r: Result<(), String>)
        ensures
            r is Ok,
            final(self)@ == emit_media(
                old(self)@,
                (ItemModel::Image { data: png_bytes@, mime: png_mime(), label: label_model(label) }),
            ),
    {
        let ghost d: Seq<u8> = png_bytes@;
        let owned: Option<String> = match label {
            Some(l) => Some(String::from_str(l)),
            None => None,
        };
        self.outputs.push(OutputItem::Image {
            data: png_bytes,
            mime: String::from_str("image/png"),
            label: owned,
        });
        proof {
            assert(final(self)@ =~= emit_media(
                old(self)@,
                (ItemModel::Image { data: d, mime: png_mime(), label: label_model(label) }),
            ));
        }
        Ok(())
    }

    /// Append one animated-raster entry. Always succeeds and never merges
    /// with neighbouring entries.
    pub fn show_gif(&mut self, gif_bytes: Vec<u8>, label: Option<&str>) -> (r: Result<(), String>)
        ensures
            r is Ok,
            final(self)@ == emit_media(
                old(self)@,
                (ItemModel::Image { data: gif_bytes@, mime: gif_mime(), label: label_model(label) }),
            ),
    {
        let ghost d: Seq<u8> = gif_bytes@;
        let owned: Option<String> = match label {
            Some(l) => Some(String::from_str(l)),
            None => None,
        };
        self.outputs.push(OutputItem::Image {
            data: gif_bytes,
            mime: String::from_str("image/gif"),
            label: owned,
        });
        proof {
            assert(final(self)@ =~= emit_media(
                old(self)@,
                (ItemModel::Image { data: d, mime: gif_mime(), label: label_model(label) }),
            ));
        }
        Ok(())
    }

    /// Append one audio-clip entry. Always succeeds and never merges with
    /// neighbouring entries.
    pub fn play_audio(&mut self, wave_bytes: Vec<u8>, label: Option<&str>) -> (r: Result<(), String>)
        ensures
            r is Ok,
            final(self)@ == emit_media(
                old(self)@,
                (ItemModel::Audio { data: wave_bytes@, mime: wav_mime(), label: label_model(label) }),
            ),
    {
        let ghost d: Seq<u8> = wave_bytes@;
        let owned: Option<String> = match label {
            Some(l) => Some(String::from_str(l)),
            None => None,
        };
        self.outputs.push(OutputItem::Audio {
            data: wave_bytes,
            mime: String::from_str("audio/wav"),
            label: owned,
        });
        proof {
            assert(final(self)@ =~= emit_media(
                old(self)@,
                (ItemModel::Audio { data: d, mime: wav_mime(), label: label_model(label) }),
            ));
        }
        Ok(())
    }

    /// Append one still raster given as a decoded image, encoding it to PNG
    /// first. On success the appended entry holds exactly the PNG encoding;
    /// when the encoder fails nothing is appended and the encoder's message
    /// comes back behind a fixed prefix.
    pub fn show_image(&mut self, image: image::DynamicImage, label: Option<&str>) -> (r: Result<
        (),
        String,
    >)
        ensures
            r is Ok <==> crate::interp::png_encode_ok(image),
            match r {
                Ok(_) => final(self)@ == emit_media(
                    old(self)@,
                    (ItemModel::Image {
                        data: crate::interp::png_encoding_of(image),
                        mime: png_mime(),
                        label: label_model(label),
                    }),
                ),
                Err(e) => final(self)@ == old(self)@ && e@ == "Failed to show image: "@
                    + crate::interp::png_failure_of(image),
            },
    {
        match crate::interp::encode_png(&image) {
            Ok(bytes) => self.show_png(bytes, label),
            Err(e) => {
                let mut msg = String::from_str("Failed to show image: ");
                msg.append(e.as_str());
                Err(msg)
            },
        }
    }

    /// Drain: atomically take every captured entry, in order, leaving the
    /// sink empty. The session calls this exactly once per execution.
    pub fn take_outputs(&mut self) -> (r: Vec<OutputItem>)
        ensures
            models(r@) == drain_model(old(self)@).0,
            final(self)@ == drain_model(old(self)@).1,
    {
        let mut taken: Vec<OutputItem> = Vec::new();
        core::mem::swap(&mut taken, &mut self.outputs);
        proof {
            assert(final(self)@ =~= Seq::<ItemModel>::empty());
        }
        taken
    }
}

impl Default for MultimediaBackend {
    /// A fresh, empty sink.
    fn default() -> (r: Self)
        ensures
            r@ == Seq::<ItemModel>::empty(),
    {
        MultimediaBackend::new()
    }
}

} // verus!
