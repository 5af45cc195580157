//! Text extraction: the OCR engine is run on an image and the lines it
//! recognises are filtered for noise.

use vstd::prelude::*;
use crate::raster::Raster;
use crate::text::line_texts;

verus! {

/// `ocrs::OcrEngine`: the OCR engine with its detection and recognition
/// models loaded. Opaque here; it is only handed through to the engine's
/// own calls.
#[verifier::external_type_specification]
#[verifier::external_body]
pub struct ExOcrEngine(ocrs::OcrEngine);

/// `ocrs::ImageSource`: the engine's view of an image's bytes.
#[verifier::external_type_specification]
#[verifier::external_body]
pub struct ExImageSource<'a>(ocrs::ImageSource<'a>);

/// `ocrs::OcrInput`: an image made ready for the engine.
#[verifier::external_type_specification]
#[verifier::external_body]
pub struct ExOcrInput(ocrs::OcrInput);

/// `rten_imageproc::RotatedRect`: the oriented rectangle around a word.
#[verifier::external_type_specification]
#[verifier::external_body]
pub struct ExRotatedRect(rten_imageproc::RotatedRect);

/// `ocrs::TextLine`: a recognised line with its characters.
#[verifier::external_type_specification]
#[verifier::external_body]
pub struct ExTextLine(ocrs::TextLine);

/// `ocrs::ImageSourceError`: why the engine does not take an image.
#[verifier::external_type_specification]
#[verifier::external_body]
pub struct ExImageSourceError(ocrs::ImageSourceError);

/// `anyhow::Error`: a failure of the engine, with its message.
#[verifier::external_type_specification]
#[verifier::external_body]
pub struct ExAnyhowError(anyhow::Error);

/// Why no text could be extracted from an image.
#[derive(Debug)]
pub enum OcrError {
    /// The image has more pixels than the engine can address.
    ImageTooLarge,
    /// The engine does not take the image.
    Source(ocrs::ImageSourceError),
    /// The image could not be made ready.
    Input(anyhow::Error),
    /// Word detection failed.
    Detection(anyhow::Error),
    /// Text recognition failed.
    Recognition(anyhow::Error),
}

/// Whether `len` bytes are the data of an image of `pixels` pixels that the
/// engine takes: there are pixels, and each has one, three or four bytes.
pub open spec fn is_image_data(len: nat, pixels: int) -> bool {
    &&& pixels > 0
    &&& len % (pixels as nat) == 0
    &&& (len / (pixels as nat) == 1 || len / (pixels as nat) == 3 || len / (pixels as nat) == 4)
}

/// The data of an image of four bytes to the pixel is taken exactly where
/// the image has pixels.
pub proof fn lemma_rgba_is_image_data(len: nat, pixels: int)
    requires
        pixels >= 0,
        len == pixels * 4,
    ensures
        is_image_data(len, pixels) <==> pixels > 0,
{
    if pixels > 0 {
        assert(len % (pixels as nat) == 0 && len / (pixels as nat) == 4) by (nonlinear_arith)
            requires
                pixels > 0,
                len == pixels * 4,
        ;
    }
}

/// What a list of recognised lines holds: the text of each line in which
/// text was found.
pub open spec fn found_texts(found: Seq<Option<String>>) -> Seq<Option<Seq<char>>> {
    Seq::new(
        found.len(),
        |i: int|
            match found[i] {
                Some(line) => Some(line@),
                None => None,
            },
    )
}

/// The lines worth keeping, in order: those in which text was found, and
/// more than one character of it.
pub open spec fn kept_lines(found: Seq<Option<Seq<char>>>) -> Seq<Seq<char>>
    decreases found.len(),
{
    if found.len() == 0 {
        Seq::empty()
    } else {
        let front = kept_lines(found.drop_last());
        match found.last() {
            Some(text) => if text.len() > 1 {
                front.push(text)
            } else {
                front
            },
            None => front,
        }
    }
}

/// `ImageSource::from_bytes`: a view of an image's bytes, or an error. The
/// bytes are taken exactly where the image has pixels and the bytes are
/// one, three or four for each pixel. The pixel count must fit `u32`, in
/// which the function multiplies width by height.
pub assume_specification<'a>[ ocrs::ImageSource::<'a>::from_bytes ](
    bytes: &'a [u8],
    dimensions: (u32, u32),
) -> (source: Result<ocrs::ImageSource<'a>, ocrs::ImageSourceError>)
    requires
        dimensions.0 * dimensions.1 <= u32::MAX,
    ensures
        source is Ok <==> is_image_data(bytes@.len(), dimensions.0 * dimensions.1),
;

/// `OcrEngine::prepare_input`: the image made ready, or an error. Nothing is
/// claimed of the result.
pub assume_specification[ ocrs::OcrEngine::prepare_input ](
    engine: &ocrs::OcrEngine,
    image: ocrs::ImageSource,
) -> (input: anyhow::Result<ocrs::OcrInput>)
;

/// `OcrEngine::detect_words`: the rectangles of the words found, in no
/// particular order, or an error. Nothing is claimed of the result.
pub assume_specification[ ocrs::OcrEngine::detect_words ](
    engine: &ocrs::OcrEngine,
    input: &ocrs::OcrInput,
) -> (words: anyhow::Result<Vec<rten_imageproc::RotatedRect>>)
;

/// `OcrEngine::find_text_lines`: the words grouped into lines, in reading
/// order. Every line holds a word: a line is begun with a word and words
/// are only added to it.
pub assume_specification[ ocrs::OcrEngine::find_text_lines ](
    engine: &ocrs::OcrEngine,
    _input: &ocrs::OcrInput,
    words: &[rten_imageproc::RotatedRect],
) -> (lines: Vec<Vec<rten_imageproc::RotatedRect>>)
    ensures
        forall|i: int| 0 <= i < lines@.len() ==> (#[trigger] lines@[i])@.len() > 0,
;

/// `OcrEngine::recognize_text`: the recognised lines, an entry being empty
/// where no text was found in a line, or an error. Nothing is claimed of
/// the result. Every line must hold a word: the function takes the
/// rectangle around a line's words and stops where there is none.
pub assume_specification[ ocrs::OcrEngine::recognize_text ](
    engine: &ocrs::OcrEngine,
    input: &ocrs::OcrInput,
    lines: &[Vec<rten_imageproc::RotatedRect>],
) -> (found: anyhow::Result<Vec<Option<ocrs::TextLine>>>)
    requires
        forall|i: int| 0 <= i < lines@.len() ==> (#[trigger] lines@[i])@.len() > 0,
;

/// The text of each recognised line.
fn texts_of(found: &Vec<Option<ocrs::TextLine>>) -> (texts: Vec<Option<String>>)
    ensures
        are_texts_of(texts@, found@),
{
    let mut texts: Vec<Option<String>> = Vec::new();
    let mut i: usize = 0;
    while i < found.len()
        invariant
            i <= found@.len(),
            are_texts_of(texts@, found@.take(i as int)),
        decreases found@.len() - i,
    {
        let text = match &found[i] {
            Some(line) => Some(line.to_string()),
            None => None,
        };
        texts.push(text);
        i += 1;
    }
    proof {
        assert(found@.take(i as int) =~= found@);
    }
    texts
}

/// Whether `texts` holds, entry by entry, what the recognised lines read
/// as: nothing where no line was recognised, and otherwise the text that
/// the line's `to_string` gives.
pub open spec fn are_texts_of(
    texts: Seq<Option<String>>,
    found: Seq<Option<ocrs::TextLine>>,
) -> bool {
    &&& texts.len() == found.len()
    &&& forall|i: int|
        0 <= i < found.len() ==> match #[trigger] found[i] {
            Some(line) => texts[i] matches Some(text)
                && vstd::string::to_string_from_display_ensures::<ocrs::TextLine>(&line, text),
            None => texts[i] is None,
        }
}

/// Drops the lines in which no text was found and those of a single
/// character, which are noise.
pub fn keep_lines(found: Vec<Option<String>>) -> (lines: Vec<String>)
    ensures
        line_texts(lines@) == kept_lines(found_texts(found@)),
{
    let ghost all = found_texts(found@);
    let mut lines: Vec<String> = Vec::new();
    let mut i: usize = 0;
    proof {
        assert(all.take(0) =~= Seq::<Option<Seq<char>>>::empty());
        assert(line_texts(lines@) =~= Seq::<Seq<char>>::empty());
    }
    while i < found.len()
        invariant
            i <= found@.len(),
            all == found_texts(found@),
            line_texts(lines@) == kept_lines(all.take(i as int)),
        decreases found@.len() - i,
    {
        proof {
            let ghost upto = all.take(i + 1);
            assert(upto.drop_last() =~= all.take(i as int));
            assert(upto.last() == all[i as int]);
        }
        let ghost before = line_texts(lines@);
        match &found[i] {
            Some(text) => {
                if text.as_str().unicode_len() > 1 {
                    lines.push(text.clone());
                    proof {
                        assert(line_texts(lines@) =~= before.push(text@));
                    }
                }
            },
            None => {},
        }
        i += 1;
    }
    proof {
        assert(all.take(i as int) =~= all);
    }
    lines
}

/// The lines of text on `img`, top to bottom, without noise: the image is
/// made ready, words are detected and grouped into lines, each line is
/// read, and the lines worth keeping are handed out.
///
/// Every line handed out is longer than one character. Which lines the
/// engine finds is its own matter.
pub fn get_text(engine: &ocrs::OcrEngine, img: &Raster) -> (lines: Result<Vec<String>, OcrError>)
    ensures
        lines matches Err(OcrError::ImageTooLarge) <==> img@.width * img@.height > u32::MAX,
        lines matches Err(OcrError::Source(_)) <==> img@.width * img@.height == 0,
        lines matches Ok(texts) ==> forall|i: int|
            0 <= i < texts@.len() ==> (#[trigger] texts@[i])@.len() > 1,
{
    let width = img.width();
    let height = img.height();
    proof {
        assert(0 <= width * height) by (nonlinear_arith)
            requires
                0 <= width,
                0 <= height,
        ;
        assert(width * height <= 0xffff_ffff * 0xffff_ffff) by (nonlinear_arith)
            requires
                0 <= width <= 0xffff_ffff,
                0 <= height <= 0xffff_ffff,
        ;
    }
    if width as u64 * height as u64 > u32::MAX as u64 {
        return Err(OcrError::ImageTooLarge);
    }
    let data = img.data();
    proof {
        assert(data@.len() == (width * height) * 4) by (nonlinear_arith)
            requires
                data@.len() == width * height * 4,
        ;
        lemma_rgba_is_image_data(data@.len(), width * height);
    }
    let img_source = match ocrs::ImageSource::from_bytes(data.as_slice(), (width, height)) {
        Ok(source) => source,
        Err(e) => { return Err(OcrError::Source(e)); },
    };
    let ocr_input = match engine.prepare_input(img_source) {
        Ok(input) => input,
        Err(e) => { return Err(OcrError::Input(e)); },
    };
    let word_rects = match engine.detect_words(&ocr_input) {
        Ok(words) => words,
        Err(e) => { return Err(OcrError::Detection(e)); },
    };
    let line_rects = engine.find_text_lines(&ocr_input, word_rects.as_slice());
    let found = match engine.recognize_text(&ocr_input, line_rects.as_slice()) {
        Ok(lines) => texts_of(&lines),
        Err(e) => { return Err(OcrError::Recognition(e)); },
    };
    let ghost all = found_texts(found@);
    let texts = keep_lines(found);
    proof {
        lemma_kept_lines_are_long(all);
        assert forall|i: int| 0 <= i < texts@.len() implies (#[trigger] texts@[i])@.len() > 1 by {
            assert(line_texts(texts@)[i] == texts@[i]@);
        }
    }
    Ok(texts)
}

/// Every kept line is longer than one character.
pub proof fn lemma_kept_lines_are_long(found: Seq<Option<Seq<char>>>)
    ensures
        forall|i: int|
            0 <= i < kept_lines(found).len() ==> (#[trigger] kept_lines(found)[i]).len() > 1,
    decreases found.len(),
{
    if found.len() > 0 {
        let front = kept_lines(found.drop_last());
        lemma_kept_lines_are_long(found.drop_last());
        assert forall|i: int| 0 <= i < kept_lines(found).len() implies (#[trigger] kept_lines(
            found,
        )[i]).len() > 1 by {
            if i < front.len() {
                assert(kept_lines(found)[i] == front[i]);
            }
        }
    }
}

} // verus!
