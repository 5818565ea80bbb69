//! What is decided around the analysis of a picture: which photo is taken, what kind of
//! image it is, how it is handed to the vision model, and what is made of the model's reply.
use vstd::prelude::*;
use vstd::string::StringExecFns;
use crate::text::{append_chars, append_str, string_of, trimmed, trimmed_chars};

verus! {

/// The bytes begin like a JPEG image.
pub open spec fn is_jpeg(bytes: Seq<u8>) -> bool {
    bytes.len() >= 3 && bytes[0] == 0xFF && bytes[1] == 0xD8
}

/// The bytes begin with the signature of a PNG image.
pub open spec fn is_png(bytes: Seq<u8>) -> bool {
    bytes.len() >= 8 && bytes[0] == 0x89 && bytes[1] == 0x50 && bytes[2] == 0x4E && bytes[3] == 0x47
        && bytes[4] == 0x0D && bytes[5] == 0x0A && bytes[6] == 0x1A && bytes[7] == 0x0A
}

/// The bytes begin with `GIF87a` or `GIF89a`.
pub open spec fn is_gif(bytes: Seq<u8>) -> bool {
    bytes.len() >= 6 && bytes[0] == 0x47 && bytes[1] == 0x49 && bytes[2] == 0x46 && bytes[3] == 0x38
        && (bytes[4] == 0x37 || bytes[4] == 0x39) && bytes[5] == 0x61
}

/// The media type of an image with these bytes; JPEG where no signature is known.
pub open spec fn mime_of(bytes: Seq<u8>) -> Seq<char> {
    if is_jpeg(bytes) {
        "image/jpeg"@
    } else if is_png(bytes) {
        "image/png"@
    } else if is_gif(bytes) {
        "image/gif"@
    } else {
        "image/jpeg"@
    }
}

/// The media type of an image, by its signature.
pub fn detect_image_mime(bytes: &[u8]) -> (mime: &'static str)
    ensures
        mime@ == mime_of(bytes@),
{
    if bytes.len() >= 3 && bytes[0] == 0xFF && bytes[1] == 0xD8 {
        "image/jpeg"
    } else if bytes.len() >= 8 && bytes[0] == 0x89 && bytes[1] == 0x50 && bytes[2] == 0x4E
        && bytes[3] == 0x47 && bytes[4] == 0x0D && bytes[5] == 0x0A && bytes[6] == 0x1A && bytes[7]
        == 0x0A {
        "image/png"
    } else if bytes.len() >= 6 && bytes[0] == 0x47 && bytes[1] == 0x49 && bytes[2] == 0x46
        && bytes[3] == 0x38 && (bytes[4] == 0x37 || bytes[4] == 0x39) && bytes[5] == 0x61 {
        "image/gif"
    } else {
        "image/jpeg"
    }
}

/// `at` is the place of the photo that is taken among photos of these sizes: none is
/// larger, and none after it is as large.
pub open spec fn is_largest(sizes: Seq<u32>, at: int) -> bool {
    &&& 0 <= at < sizes.len()
    &&& forall|i: int| 0 <= i < sizes.len() ==> sizes[i] <= sizes[at]
    &&& forall|i: int| at < i < sizes.len() ==> sizes[i] < sizes[at]
}

/// The place of the largest photo; of the last one among the largest where several are.
pub fn largest_photo(sizes: &[u32]) -> (place: Option<usize>)
    ensures
        match place {
            Some(at) => is_largest(sizes@, at as int),
            None => sizes@.len() == 0,
        },
{
    if sizes.len() == 0 {
        return None;
    }
    let mut at: usize = 0;
    let mut i: usize = 1;
    while i < sizes.len()
        invariant
            1 <= i <= sizes.len(),
            at < i,
            forall|k: int| 0 <= k < i ==> sizes@[k] <= sizes@[at as int],
            forall|k: int| at < k < i ==> sizes@[k] < sizes@[at as int],
        decreases sizes.len() - i,
    {
        if sizes[i] >= sizes[at] {
            at = i;
        }
        i += 1;
    }
    Some(at)
}

/// Whether a message with photos of these sizes has a photo.
pub fn message_has_photo(sizes: &[u32]) -> (has: bool)
    ensures
        has == (sizes@.len() > 0),
{
    largest_photo(sizes).is_some()
}

/// The Base64 encoding of `bytes`, with the standard alphabet and padding, as the `base64`
/// crate gives it.
pub uninterp spec fn base64_of(bytes: Seq<u8>) -> Seq<char>;

/// Calls `encode` of `base64::engine::general_purpose::STANDARD`.
/// Believed, not proved: the result is the encoding of the bytes. Inputs whose encoding
/// would be too long for the machine are left out, on which the crate panics.
#[verifier::external_body]
fn encode_base64(bytes: &[u8]) -> (encoded: String)
    requires
        bytes@.len() / 3 * 4 + 4 <= usize::MAX,
    ensures
        encoded@ == base64_of(bytes@),
{
    base64::Engine::encode(&base64::engine::general_purpose::STANDARD, bytes)
}

/// The data URL for content of the given kind and with the given Base64 text.
pub open spec fn data_url_of(mime: Seq<char>, encoded: Seq<char>) -> Seq<char> {
    "data:"@ + mime + ";base64,"@ + encoded
}

/// The data URL for content of the given kind and with the given Base64 text.
pub fn data_url(mime: &str, encoded: &str) -> (url: String)
    ensures
        url@ == data_url_of(mime@, encoded@),
{
    let mut out: Vec<char> = Vec::new();
    append_str(&mut out, "data:");
    append_str(&mut out, mime);
    append_str(&mut out, ";base64,");
    append_str(&mut out, encoded);
    proof {
        assert(out@ =~= data_url_of(mime@, encoded@));
    }
    string_of(&out)
}

/// The data URL of an image: its kind by its signature, its bytes in Base64.
pub fn image_data_url(bytes: &[u8]) -> (url: String)
    requires
        bytes@.len() / 3 * 4 + 4 <= usize::MAX,
    ensures
        url@ == data_url_of(mime_of(bytes@), base64_of(bytes@)),
{
    let mime = detect_image_mime(bytes);
    let encoded = encode_base64(bytes);
    data_url(mime, encoded.as_str())
}

/// One part of a model's message.
pub enum MessagePart {
    Text(String),
    /// Anything that is not text.
    Other,
}

/// What a model's message holds.
pub enum MessageContent {
    Text(String),
    Parts(Vec<MessagePart>),
    /// Anything else.
    Other,
}

/// The texts of the first `n` parts that are not blank, each without the white space at
/// its ends, one per line.
pub open spec fn parts_text(parts: Seq<MessagePart>, n: int) -> Seq<char>
    decreases n,
{
    if n <= 0 || n > parts.len() {
        Seq::empty()
    } else {
        let before = parts_text(parts, n - 1);
        match parts[n - 1] {
            MessagePart::Text(text) => if trimmed(text@).len() > 0 {
                if before.len() > 0 {
                    before + seq!['\n'] + trimmed(text@)
                } else {
                    trimmed(text@)
                }
            } else {
                before
            },
            MessagePart::Other => before,
        }
    }
}

/// The text that a message holds: a text that is not blank, as it stands; or the texts of
/// its parts; nothing where that is empty.
pub open spec fn content_text(content: MessageContent) -> Option<Seq<char>> {
    match content {
        MessageContent::Text(text) => if trimmed(text@).len() > 0 {
            Some(text@)
        } else {
            None
        },
        MessageContent::Parts(parts) => if parts_text(parts@, parts@.len() as int).len() > 0 {
            Some(parts_text(parts@, parts@.len() as int))
        } else {
            None
        },
        MessageContent::Other => None,
    }
}

/// The text that a message holds, if it holds any.
pub fn extract_text_from_message_content(content: &MessageContent) -> (text: Option<String>)
    ensures
        match text {
            Some(t) => content_text(*content) == Some(t@),
            None => content_text(*content) is None,
        },
{
    match content {
        MessageContent::Text(text) => {
            if trimmed_chars(text.as_str()).len() > 0 {
                Some(text.clone())
            } else {
                None
            }
        },
        MessageContent::Parts(parts) => {
            let mut out: Vec<char> = Vec::new();
            let mut n: usize = 0;
            while n < parts.len()
                invariant
                    n <= parts.len(),
                    out@ == parts_text(parts@, n as int),
                decreases parts.len() - n,
            {
                match &parts[n] {
                    MessagePart::Text(text) => {
                        let inner = trimmed_chars(text.as_str());
                        if inner.len() > 0 {
                            if out.len() > 0 {
                                out.push('\n');
                            }
                            append_chars(&mut out, &inner);
                            proof {
                                assert(out@ =~= parts_text(parts@, n as int + 1));
                            }
                        }
                    },
                    MessagePart::Other => {},
                }
                n += 1;
            }
            if out.len() > 0 {
                Some(string_of(&out))
            } else {
                None
            }
        },
        MessageContent::Other => None,
    }
}

/// What came of asking the vision model about a picture.
pub enum VisionOutcome {
    /// The model answered with this text.
    Answer(String),
    /// The model answered without text.
    NoText,
    /// The model offered no choice.
    NoChoices,
    /// The call failed.
    Failed,
}

/// The section on the picture that goes into the prompt.
pub open spec fn image_section_of(outcome: VisionOutcome) -> Seq<char> {
    match outcome {
        VisionOutcome::Answer(text) => "Image analysis (vision model):\n"@ + trimmed(text@)
            + "\n\n"@,
        VisionOutcome::NoText => "Image analysis: [no text extracted]\n\n"@,
        VisionOutcome::NoChoices => "Image analysis: [no choices returned]\n\n"@,
        VisionOutcome::Failed => "Image analysis: [vision model error]\n\n"@,
    }
}

/// The section on the picture that goes into the prompt: the model's text without the
/// white space at its ends, or a note on why there is none.
pub fn image_section(outcome: &VisionOutcome) -> (section: String)
    ensures
        section@ == image_section_of(*outcome),
{
    match outcome {
        VisionOutcome::Answer(text) => {
            let inner = trimmed_chars(text.as_str());
            let mut out: Vec<char> = Vec::new();
            append_str(&mut out, "Image analysis (vision model):\n");
            append_chars(&mut out, &inner);
            append_str(&mut out, "\n\n");
            proof {
                assert(out@ =~= image_section_of(*outcome));
            }
            string_of(&out)
        },
        VisionOutcome::NoText => String::from_str("Image analysis: [no text extracted]\n\n"),
        VisionOutcome::NoChoices => String::from_str("Image analysis: [no choices returned]\n\n"),
        VisionOutcome::Failed => String::from_str("Image analysis: [vision model error]\n\n"),
    }
}

/// A JSON document, as far as a search for text reads it.
pub enum JsonNode {
    Text(String),
    /// The items of an array, or the values of an object in the order in which the object
    /// gives them.
    List(Vec<JsonNode>),
    /// A number, a truth value or null.
    Other,
}

/// The first text in the document that is not blank, going through arrays and objects in
/// order and to the bottom of each item before the next.
pub open spec fn first_string(node: JsonNode) -> Option<Seq<char>>
    decreases node,
{
    match node {
        JsonNode::Text(text) => if trimmed(text@).len() > 0 {
            Some(text@)
        } else {
            None
        },
        JsonNode::List(items) => first_string_among(items, 0),
        JsonNode::Other => None,
    }
}

/// The first such text in the items from `from` on.
pub open spec fn first_string_among(items: Vec<JsonNode>, from: int) -> Option<Seq<char>>
    decreases items, items@.len() - from,
{
    if from < 0 || from >= items@.len() {
        None
    } else {
        match first_string(items@[from]) {
            Some(text) => Some(text),
            None => first_string_among(items, from + 1),
        }
    }
}

/// The first text in the document that is not blank.
pub fn find_first_string_in_value(value: &JsonNode) -> (found: Option<String>)
    ensures
        match found {
            Some(text) => first_string(*value) == Some(text@),
            None => first_string(*value) is None,
        },
    decreases value,
{
    broadcast use vstd::std_specs::vec::axiom_vec_index_decreases;

    match value {
        JsonNode::Text(text) => {
            if trimmed_chars(text.as_str()).len() > 0 {
                Some(text.clone())
            } else {
                None
            }
        },
        JsonNode::List(items) => {
            let mut i: usize = 0;
            while i < items.len()
                invariant
                    i <= items.len(),
                    *value == JsonNode::List(*items),
                    first_string(*value) == first_string_among(*items, i as int),
                decreases items.len() - i,
            {
                match find_first_string_in_value(&items[i]) {
                    Some(text) => {
                        return Some(text);
                    },
                    None => {},
                }
                i += 1;
            }
            None
        },
        JsonNode::Other => None,
    }
}

} // verus!
