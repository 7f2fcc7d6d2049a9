use crate::error::{Error, ErrorView, FULL_STOP};
use crate::wire::{Reply, ReplyView};
use vstd::pervasive::unreached;
use vstd::prelude::*;
use vstd::string::{StringExecFns, StringSliceAdditionalSpecFns};
use vstd::utf8::*;

verus! {

/// `core::str::Utf8Error`, which `core::str::from_utf8` returns for bytes
/// that are no text. Nothing is read from it.
#[verifier::external_type_specification]
#[verifier::external_body]
pub struct ExUtf8Error(core::str::Utf8Error);

/// `core::str::from_utf8` accepts exactly the well-formed UTF-8 byte
/// sequences, and the string slice it returns is made of the bytes it was given.
pub assume_specification[ core::str::from_utf8 ](v: &[u8]) -> (r: Result<
    &str,
    core::str::Utf8Error,
>)
    ensures
        r is Ok <==> valid_utf8(v@),
        r matches Ok(text) ==> text.spec_bytes() == v@,
;

/// The text of the error for a version record that is not UTF-8.
pub const NOT_TEXT: &'static str = "The version record is not valid UTF-8.";

/// A newline or a space: the characters that a version record may hold
/// beside the version.
pub open spec fn is_blank(c: char) -> bool {
    c == '\n' || c == ' '
}

/// The test that keeps what is no newline and no space.
pub open spec fn is_kept() -> spec_fn(char) -> bool {
    |c: char| !is_blank(c)
}

/// `text` without its newlines and spaces, wherever they stand.
pub open spec fn strip(text: Seq<char>) -> Seq<char> {
    text.filter(is_kept())
}

/// The byte of a newline or of a space.
pub open spec fn is_blank_byte(b: u8) -> bool {
    b == 0x0a || b == 0x20
}

/// The test that keeps what is no byte of a newline or of a space.
pub open spec fn is_kept_byte() -> spec_fn(u8) -> bool {
    |b: u8| !is_blank_byte(b)
}

/// `bytes` without the bytes of newlines and spaces.
pub open spec fn strip_bytes(bytes: Seq<u8>) -> Seq<u8> {
    bytes.filter(is_kept_byte())
}

/// The version that a record with this content stands for.
pub open spec fn recorded_version(content: Seq<u8>) -> Result<Seq<char>, ErrorView> {
    if content.len() == 0 {
        Err(ErrorView::EmptyState)
    } else if !valid_utf8(content) {
        Err(ErrorView::NotFound { detail: NOT_TEXT@ })
    } else {
        Ok(strip(decode_utf8(content)))
    }
}

/// The version that the reply to reading the record stands for.
pub open spec fn current_version(reply: ReplyView) -> Result<Seq<char>, ErrorView> {
    match reply {
        ReplyView::Bytes(content) => recorded_version(content),
        _ => Err(ErrorView::NotFound { detail: reply.detail() }),
    }
}

/// A `Result` of a version with its texts as sequences of characters.
pub open spec fn version_result_view(r: Result<String, Error>) -> Result<Seq<char>, ErrorView> {
    match r {
        Ok(version) => Ok(version@),
        Err(e) => Err(e@),
    }
}

/// A sequence whose items all pass a test is its own selection by that test.
proof fn lemma_filter_keeps_all<A>(s: Seq<A>, pred: spec_fn(A) -> bool)
    requires
        forall|i: int| 0 <= i < s.len() ==> pred(#[trigger] s[i]),
    ensures
        s.filter(pred) == s,
    decreases s.len(),
{
    reveal(Seq::filter);
    if s.len() > 0 {
        lemma_filter_keeps_all(s.drop_last(), pred);
        assert(s.drop_last().push(s.last()) =~= s);
    }
}

/// The selection from a single item holds the item or nothing.
proof fn lemma_filter_one<A>(a: A, pred: spec_fn(A) -> bool)
    ensures
        pred(a) ==> seq![a].filter(pred) == seq![a],
        !pred(a) ==> seq![a].filter(pred) == Seq::<A>::empty(),
{
    reveal_with_fuel(Seq::filter, 2);
    let s = seq![a];
    assert(s.drop_last() =~= Seq::<A>::empty());
    assert(s.drop_last().filter(pred) =~= Seq::<A>::empty());
    assert(Seq::<A>::empty().push(a) =~= s);
}

/// No byte in the encoding of a character other than newline and space is
/// the byte of a newline or of a space.
proof fn lemma_encoding_has_no_blank(c: char)
    requires
        !is_blank(c),
    ensures
        strip_bytes(encode_scalar(c as u32)) == encode_scalar(c as u32),
{
    let s = c as u32;
    let bytes = encode_scalar(s);
    char_is_scalar(c);
    assert(has_width_1_encoding(s) ==> (s & 0x7F) as u8 == s) by (bit_vector);
    assert(0xC0u8 | ((s >> 6) & 0x1F) as u8 >= 0x80) by (bit_vector);
    assert(0xE0u8 | ((s >> 12) & 0x0F) as u8 >= 0x80) by (bit_vector);
    assert(0xF0u8 | ((s >> 18) & 0x7) as u8 >= 0x80) by (bit_vector);
    assert(0x80u8 | (s & 0x3F) as u8 >= 0x80) by (bit_vector);
    assert(0x80u8 | ((s >> 6) & 0x3F) as u8 >= 0x80) by (bit_vector);
    assert(0x80u8 | ((s >> 12) & 0x3F) as u8 >= 0x80) by (bit_vector);
    assert forall|i: int| 0 <= i < bytes.len() implies is_kept_byte()(#[trigger] bytes[i]) by {}
    lemma_filter_keeps_all(bytes, is_kept_byte());
}

/// Taking the newlines and spaces out of a text's encoding gives the
/// encoding of the text without them.
proof fn lemma_strip_encoding(text: Seq<char>)
    ensures
        strip_bytes(encode_utf8(text)) == encode_utf8(strip(text)),
    decreases text.len(),
{
    if text.len() > 0 {
        let c = text[0];
        let rest = text.drop_first();
        lemma_strip_encoding(rest);
        Seq::filter_distributes_over_add(
            encode_scalar(c as u32),
            encode_utf8(rest),
            is_kept_byte(),
        );
        assert(text =~= seq![c] + rest);
        Seq::filter_distributes_over_add(seq![c], rest, is_kept());
        lemma_filter_one(c, is_kept());
        if is_blank(c) {
            let s = c as u32;
            let b = (s & 0x7F) as u8;
            assert(s == 0x0a || s == 0x20);
            assert(b == 0x0a || b == 0x20) by (bit_vector)
                requires
                    s == 0x0a || s == 0x20,
                    b == (s & 0x7F) as u8,
            ;
            assert(encode_scalar(s) =~= seq![b]);
            lemma_filter_one(b, is_kept_byte());
            assert(strip_bytes(seq![b]) =~= Seq::<u8>::empty());
            assert(strip(seq![c]) =~= Seq::<char>::empty());
            assert(strip(text) =~= strip(rest));
            assert(strip_bytes(encode_utf8(text)) =~= strip_bytes(encode_utf8(rest)));
        } else {
            lemma_encoding_has_no_blank(c);
            assert(strip(seq![c]) =~= seq![c]);
            let kept = strip(text);
            assert(kept =~= seq![c] + strip(rest));
            assert(kept.drop_first() =~= strip(rest));
        }
    }
}

/// Well-formed UTF-8 stays well-formed when the bytes of newlines and spaces
/// are taken out, and then decodes to the text without its newlines and spaces.
pub proof fn lemma_strip_bytes_is_strip(bytes: Seq<u8>)
    requires
        valid_utf8(bytes),
    ensures
        valid_utf8(strip_bytes(bytes)),
        decode_utf8(strip_bytes(bytes)) == strip(decode_utf8(bytes)),
{
    let text = decode_utf8(bytes);
    decode_utf8_encode_utf8(bytes);
    lemma_strip_encoding(text);
    encode_utf8_valid_utf8(strip(text));
    encode_utf8_decode_utf8(strip(text));
}

/// Copies `bytes` without the bytes of newlines and spaces.
fn without_blanks(bytes: &Vec<u8>) -> (kept: Vec<u8>)
    ensures
        kept@ == strip_bytes(bytes@),
{
    let mut kept: Vec<u8> = Vec::new();
    let mut i: usize = 0;
    proof {
        reveal(Seq::filter);
        assert(bytes@.take(0) =~= Seq::<u8>::empty());
    }
    while i < bytes.len()
        invariant
            i <= bytes.len(),
            kept@ == strip_bytes(bytes@.take(i as int)),
        decreases bytes.len() - i,
    {
        let b = bytes[i];
        proof {
            reveal(Seq::filter);
            let next = bytes@.take(i + 1);
            assert(next.drop_last() =~= bytes@.take(i as int));
            assert(next.last() == b);
        }
        if b != 0x0a && b != 0x20 {
            kept.push(b);
        }
        i += 1;
    }
    proof {
        assert(bytes@.take(i as int) =~= bytes@);
    }
    kept
}

/// The version that a record with this content stands for.
///
/// A record that holds nothing, or is not UTF-8, stands for none. Every
/// newline and space is taken out of the rest, wherever it stands.
pub fn read_record(content: &Vec<u8>) -> (r: Result<String, Error>)
    ensures
        version_result_view(r) == recorded_version(content@),
{
    if content.len() == 0 {
        return Err(Error::EmptyState);
    }
    match core::str::from_utf8(content.as_slice()) {
        Err(_) => Err(Error::NotFound { detail: String::from_str(NOT_TEXT) }),
        Ok(_) => {
            let kept = without_blanks(content);
            proof {
                lemma_strip_bytes_is_strip(content@);
            }
            match core::str::from_utf8(kept.as_slice()) {
                Ok(text) => {
                    proof {
                        encode_utf8_decode_utf8(text@);
                    }
                    Ok(String::from_str(text))
                },
                Err(_) => unreached(),
            }
        },
    }
}

/// The version that the reply to reading the record stands for: the record's
/// version where the reply brings its content, none where it does not.
pub fn get_current_version(reply: Reply) -> (r: Result<String, Error>)
    ensures
        version_result_view(r) == current_version(reply@),
{
    match reply {
        Reply::Bytes(content) => read_record(&content),
        other => Err(Error::NotFound { detail: other.detail() }),
    }
}

/// What a check found.
#[derive(Debug, Clone, PartialEq, Eq)]
pub enum CheckResult {
    /// The recorded version is the latest one.
    UpToDate,
    /// The recorded version `local` differs from the latest one, `remote`.
    OutOfDate { local: String, remote: String },
}

/// A [`CheckResult`] with its texts as sequences of characters.
pub enum CheckResultView {
    UpToDate,
    OutOfDate { local: Seq<char>, remote: Seq<char> },
}

impl View for CheckResult {
    type V = CheckResultView;

    open spec fn view(&self) -> CheckResultView {
        match self {
            CheckResult::UpToDate => CheckResultView::UpToDate,
            CheckResult::OutOfDate { local, remote } => CheckResultView::OutOfDate {
                local: local@,
                remote: remote@,
            },
        }
    }
}

/// The recorded version is up to date exactly when it equals the latest one,
/// character for character.
pub open spec fn compared(local: Seq<char>, remote: Seq<char>) -> CheckResultView {
    if local == remote {
        CheckResultView::UpToDate
    } else {
        CheckResultView::OutOfDate { local, remote }
    }
}

/// Compares the recorded version with the latest one.
pub fn compare(local: String, remote: String) -> (r: CheckResult)
    ensures
        r@ == compared(local@, remote@),
{
    if local == remote {
        CheckResult::UpToDate
    } else {
        CheckResult::OutOfDate { local, remote }
    }
}

/// The line for a recorded version that is the latest one.
pub const UP_TO_DATE_TEXT: &'static str =
    "You have already installed the latest Visual Studio Code release!";

/// The line for a recorded version that is not the latest one, up to the recorded version.
pub const OUT_OF_DATE_TEXT: &'static str =
    "Different/newer Visual Studio Code version found. Current version: ";

/// What stands between the recorded version and the latest one.
pub const LATEST_TEXT: &'static str = ", latest available version: ";

impl CheckResultView {
    /// The line shown to the user for this finding.
    pub open spec fn message(self) -> Seq<char> {
        match self {
            CheckResultView::UpToDate => UP_TO_DATE_TEXT@,
            CheckResultView::OutOfDate { local, remote } => OUT_OF_DATE_TEXT@ + local
                + LATEST_TEXT@ + remote + FULL_STOP@,
        }
    }
}

impl CheckResult {
    /// The line shown to the user for this finding.
    pub fn message(&self) -> (text: String)
        ensures
            text@ == self@.message(),
    {
        match self {
            CheckResult::UpToDate => String::from_str(UP_TO_DATE_TEXT),
            CheckResult::OutOfDate { local, remote } => {
                let mut text = String::from_str(OUT_OF_DATE_TEXT);
                text.append(local.as_str());
                text.append(LATEST_TEXT);
                text.append(remote.as_str());
                text.append(FULL_STOP);
                text
            },
        }
    }
}

} // verus!
