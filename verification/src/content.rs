//! The frame dispatcher and the generic field parsers.
//!
//! A frame identifier selects, through a fixed ordered rule table, one of
//! three treatments for the frame body: a generic parser decoded here in
//! full (text, link and language frames), a compound kind whose payload is
//! classified and handed through verbatim for a collaborator parser outside
//! this engine (pictures, user text, user URLs, unique file identifiers,
//! popularity ratings), or the opaque binary fallback. Exact-identifier
//! rules are consulted before the prefix rules, so an identifier matching
//! both resolves via its exact rule.

use vstd::prelude::*;
use vstd::string::StrSliceExecFns;

use crate::cursor::Cursor;
use crate::encoding::{spec_verify_encoding, verify_encoding, Id3v2Error, Id3v2Version, TextEncoding};
use crate::text::{
    decode_text, decoded_text, latin1_chars, term_width, text_consumed_len, text_content_len,
};

verus! {

/// A language-tagged record carried by comment and lyrics frames.
#[derive(Debug)]
pub struct LanguageFrame {
    /// The encoding both text fields were decoded under.
    pub encoding: TextEncoding,
    /// The fixed 3-byte language code, passed through verbatim and never
    /// validated against any code list.
    pub language: Vec<u8>,
    /// The terminated description field.
    pub description: String,
    /// The to-end content field.
    pub content: String,
}

/// The strongly typed value decoded from one frame body. Exactly one variant
/// is produced per successful decode, and the variant is determined by the
/// frame identifier alone, never by content inspection. The compound kinds
/// carry their payload bytes untouched for a collaborator parser.
#[derive(Debug)]
pub enum FrameValue {
    /// A generic text frame: the resolved encoding and the decoded string.
    Text { encoding: TextEncoding, value: String },
    /// A user-defined text frame, left to the extended-text collaborator.
    UserText { version: Id3v2Version, data: Vec<u8> },
    /// A link frame: a Latin-1 URL.
    URL(String),
    /// A user-defined URL frame, left to the extended-URL collaborator.
    UserURL { version: Id3v2Version, data: Vec<u8> },
    /// A comment frame.
    Comment(LanguageFrame),
    /// An unsynchronized-lyrics frame.
    UnSyncText(LanguageFrame),
    /// An attached picture, left to the picture collaborator; its internal
    /// layout depends on the version.
    Picture { version: Id3v2Version, data: Vec<u8> },
    /// A popularity rating, left to its collaborator.
    Popularimeter { data: Vec<u8> },
    /// A unique file identifier, left to its collaborator.
    UniqueFileIdentifier { data: Vec<u8> },
    /// The opaque fallback: the untouched remaining bytes of any frame this
    /// engine does not model.
    Binary(Vec<u8>),
}

/// Which rule of the dispatch table an identifier selects.
#[derive(Clone, Copy, Debug, PartialEq, Eq, Structural)]
pub enum FrameKind {
    Picture,
    UserText,
    UserUrl,
    Language,
    UniqueFileId,
    Text,
    Link,
    Popularimeter,
    Binary,
}

/// The ordered dispatch rule table: exact identifier matches first, then the
/// text-frame sentinel prefix, then the fixed allow-list of vendor
/// identifiers that are text frames without the sentinel letter, then the
/// link-frame sentinel prefix, and the binary fallback for everything else.
pub open spec fn spec_classify(id: Seq<char>) -> FrameKind {
    if id == "APIC"@ {
        FrameKind::Picture
    } else if id == "TXXX"@ {
        FrameKind::UserText
    } else if id == "WXXX"@ {
        FrameKind::UserUrl
    } else if id == "COMM"@ || id == "USLT"@ {
        FrameKind::Language
    } else if id == "UFID"@ {
        FrameKind::UniqueFileId
    } else if id.len() > 0 && id[0] == 'T' {
        FrameKind::Text
    } else if id == "WFED"@ || id == "GRP1"@ || id == "MVNM"@ || id == "MVIN"@ {
        FrameKind::Text
    } else if id.len() > 0 && id[0] == 'W' {
        FrameKind::Link
    } else if id == "POPM"@ {
        FrameKind::Popularimeter
    } else {
        FrameKind::Binary
    }
}

/// Character-for-character string equality.
fn str_eq_str(a: &str, b: &str) -> (r: bool)
    ensures
        r == (a@ == b@),
{
    let la = a.unicode_len();
    let lb = b.unicode_len();
    if la != lb {
        proof {
            if a@ == b@ {
                assert(a@.len() == b@.len());
            }
        }
        return false;
    }
    let mut i: usize = 0;
    while i < la
        invariant
            la == a@.len(),
            la == b@.len(),
            i <= la,
            forall|j: int| 0 <= j < i ==> a@[j] == b@[j],
        decreases la - i,
    {
        if a.get_char(i) != b.get_char(i) {
            proof {
                if a@ == b@ {
                    assert(a@[i as int] == b@[i as int]);
                }
            }
            return false;
        }
        i = i + 1;
    }
    proof {
        assert(a@ =~= b@);
    }
    true
}

/// True when the identifier opens with the given sentinel letter.
fn first_char_is(id: &str, c: char) -> (r: bool)
    ensures
        r == (id@.len() > 0 && id@[0] == c),
{
    if id.unicode_len() == 0 {
        false
    } else {
        id.get_char(0) == c
    }
}

/// Walks the ordered dispatch rule table for one identifier.
pub fn classify_frame(id: &str) -> (k: FrameKind)
    ensures
        k == spec_classify(id@),
{
    if str_eq_str(id, "APIC") {
        FrameKind::Picture
    } else if str_eq_str(id, "TXXX") {
        FrameKind::UserText
    } else if str_eq_str(id, "WXXX") {
        FrameKind::UserUrl
    } else if str_eq_str(id, "COMM") || str_eq_str(id, "USLT") {
        FrameKind::Language
    } else if str_eq_str(id, "UFID") {
        FrameKind::UniqueFileId
    } else if first_char_is(id, 'T') {
        FrameKind::Text
    } else if str_eq_str(id, "WFED") || str_eq_str(id, "GRP1") || str_eq_str(id, "MVNM")
        || str_eq_str(id, "MVIN") {
        FrameKind::Text
    } else if first_char_is(id, 'W') {
        FrameKind::Link
    } else if str_eq_str(id, "POPM") {
        FrameKind::Popularimeter
    } else {
        FrameKind::Binary
    }
}

/// An identifier matched by an exact rule resolves via that rule even where
/// a prefix rule would also match it: the user-defined text and URL
/// identifiers never fall through to the sentinel-prefix rules, and the
/// vendor text identifiers beginning with the link sentinel letter are still
/// text frames.
pub proof fn lemma_exact_rules_beat_prefix_rules(id: Seq<char>)
    ensures
        id == "APIC"@ ==> spec_classify(id) == FrameKind::Picture,
        id == "TXXX"@ ==> spec_classify(id) == FrameKind::UserText,
        id == "WXXX"@ ==> spec_classify(id) == FrameKind::UserUrl,
        id == "COMM"@ ==> spec_classify(id) == FrameKind::Language,
        id == "USLT"@ ==> spec_classify(id) == FrameKind::Language,
        id == "UFID"@ ==> spec_classify(id) == FrameKind::UniqueFileId,
        id == "WFED"@ ==> spec_classify(id) == FrameKind::Text,
        id == "GRP1"@ ==> spec_classify(id) == FrameKind::Text,
        id == "MVNM"@ ==> spec_classify(id) == FrameKind::Text,
        id == "MVIN"@ ==> spec_classify(id) == FrameKind::Text,
        id == "POPM"@ ==> spec_classify(id) == FrameKind::Popularimeter,
{
    reveal_strlit("APIC");
    reveal_strlit("TXXX");
    reveal_strlit("WXXX");
    reveal_strlit("COMM");
    reveal_strlit("USLT");
    reveal_strlit("UFID");
    reveal_strlit("WFED");
    reveal_strlit("GRP1");
    reveal_strlit("MVNM");
    reveal_strlit("MVIN");
    reveal_strlit("POPM");
    assert("APIC"@.len() == 4);
    assert("APIC"@[0] == 'A');
    assert("APIC"@[1] == 'P');
    assert("APIC"@[2] == 'I');
    assert("APIC"@[3] == 'C');
    assert("TXXX"@.len() == 4);
    assert("TXXX"@[0] == 'T');
    assert("TXXX"@[1] == 'X');
    assert("TXXX"@[2] == 'X');
    assert("TXXX"@[3] == 'X');
    assert("WXXX"@.len() == 4);
    assert("WXXX"@[0] == 'W');
    assert("WXXX"@[1] == 'X');
    assert("WXXX"@[2] == 'X');
    assert("WXXX"@[3] == 'X');
    assert("COMM"@.len() == 4);
    assert("COMM"@[0] == 'C');
    assert("COMM"@[1] == 'O');
    assert("COMM"@[2] == 'M');
    assert("COMM"@[3] == 'M');
    assert("USLT"@.len() == 4);
    assert("USLT"@[0] == 'U');
    assert("USLT"@[1] == 'S');
    assert("USLT"@[2] == 'L');
    assert("USLT"@[3] == 'T');
    assert("UFID"@.len() == 4);
    assert("UFID"@[0] == 'U');
    assert("UFID"@[1] == 'F');
    assert("UFID"@[2] == 'I');
    assert("UFID"@[3] == 'D');
    assert("WFED"@.len() == 4);
    assert("WFED"@[0] == 'W');
    assert("WFED"@[1] == 'F');
    assert("WFED"@[2] == 'E');
    assert("WFED"@[3] == 'D');
    assert("GRP1"@.len() == 4);
    assert("GRP1"@[0] == 'G');
    assert("GRP1"@[1] == 'R');
    assert("GRP1"@[2] == 'P');
    assert("GRP1"@[3] == '1');
    assert("MVNM"@.len() == 4);
    assert("MVNM"@[0] == 'M');
    assert("MVNM"@[1] == 'V');
    assert("MVNM"@[2] == 'N');
    assert("MVNM"@[3] == 'M');
    assert("MVIN"@.len() == 4);
    assert("MVIN"@[0] == 'M');
    assert("MVIN"@[1] == 'V');
    assert("MVIN"@[2] == 'I');
    assert("MVIN"@[3] == 'N');
    assert("POPM"@.len() == 4);
    assert("POPM"@[0] == 'P');
    assert("POPM"@[1] == 'O');
    assert("POPM"@[2] == 'P');
    assert("POPM"@[3] == 'M');
}

/// Full behaviour of the generic text-frame parser on remaining bytes `s`,
/// leaving `s2`: fewer than two bytes, or a body too short for one code unit
/// of its declared encoding, yield no value; an illegal marker fails with
/// the verifier's error; otherwise one terminated field is decoded.
pub open spec fn text_frame_post(
    s: Seq<u8>,
    version: Id3v2Version,
    r: Result<Option<FrameValue>, Id3v2Error>,
    s2: Seq<u8>,
) -> bool {
    if s.len() < 2 {
        r matches Ok(None) && s2 == s
    } else {
        match spec_verify_encoding(s[0], version) {
            Err(e) => r == Err::<Option<FrameValue>, Id3v2Error>(e) && s2 == s.skip(1),
            Ok(enc) => {
                let rest = s.skip(1);
                if rest.len() < term_width(enc) {
                    r matches Ok(None) && s2 == rest
                } else {
                    let cl = text_content_len(rest, enc, true);
                    let kl = text_consumed_len(rest, enc, true);
                    s2 == rest.skip(kl) && match decoded_text(rest.take(cl), enc) {
                        Some(cs) => r matches Ok(Some(FrameValue::Text { encoding, value }))
                            && encoding == enc && value@ == cs,
                        None => r == Err::<Option<FrameValue>, Id3v2Error>(
                            Id3v2Error::MalformedText,
                        ),
                    }
                }
            },
        }
    }
}

/// Parses a generic text frame: one encoding marker, then one terminated
/// text field.
pub fn parse_text(content: &mut Cursor, version: Id3v2Version) -> (r: Result<
    Option<FrameValue>,
    Id3v2Error,
>)
    requires
        old(content).wf(),
    ensures
        final(content).wf(),
        text_frame_post(old(content).remaining(), version, r, final(content).remaining()),
{
    if content.remaining_len() < 2 {
        return Ok(None);
    }
    let marker = content.read_u8();
    let enc = match verify_encoding(marker, version) {
        Ok(e) => e,
        Err(e) => {
            return Err(e);
        },
    };
    match decode_text(content, enc, true) {
        Ok(Some(value)) => Ok(Some(FrameValue::Text { encoding: enc, value })),
        Ok(None) => Ok(None),
        Err(e) => Err(e),
    }
}

/// Full behaviour of the link-frame parser on remaining bytes `s`, leaving
/// `s2`: an empty buffer yields no value; otherwise one terminated Latin-1
/// field is decoded, never version-gated and never failing.
pub open spec fn link_frame_post(
    s: Seq<u8>,
    r: Result<Option<FrameValue>, Id3v2Error>,
    s2: Seq<u8>,
) -> bool {
    if s.len() == 0 {
        r matches Ok(None) && s2 == s
    } else {
        let cl = text_content_len(s, TextEncoding::Latin1, true);
        let kl = text_consumed_len(s, TextEncoding::Latin1, true);
        r matches Ok(Some(FrameValue::URL(l))) && l@ == latin1_chars(s.take(cl)) && s2
            == s.skip(kl)
    }
}

/// Parses a link frame: a single Latin-1 string, terminated or running to
/// the end of the buffer.
pub fn parse_link(content: &mut Cursor) -> (r: Result<Option<FrameValue>, Id3v2Error>)
    requires
        old(content).wf(),
    ensures
        final(content).wf(),
        link_frame_post(old(content).remaining(), r, final(content).remaining()),
{
    if content.is_empty() {
        return Ok(None);
    }
    match decode_text(content, TextEncoding::Latin1, true) {
        Ok(Some(l)) => Ok(Some(FrameValue::URL(l))),
        Ok(None) => Ok(Some(FrameValue::URL(String::new()))),
        Err(e) => Err(e),
    }
}

/// The decoded fields a successful language-frame parse must carry.
pub open spec fn language_frame_matches(
    lf: LanguageFrame,
    enc: TextEncoding,
    lang: Seq<u8>,
    desc: Seq<char>,
    cont: Seq<char>,
) -> bool {
    lf.encoding == enc && lf.language@ == lang && lf.description@ == desc && lf.content@ == cont
}

/// A successful language-frame parse wraps its record as a comment for the
/// comment identifier and as unsynchronized text for the lyrics identifier.
pub open spec fn language_result_ok(
    id: Seq<char>,
    enc: TextEncoding,
    lang: Seq<u8>,
    desc: Seq<char>,
    cont: Seq<char>,
    r: Result<Option<FrameValue>, Id3v2Error>,
) -> bool {
    if id == "COMM"@ {
        r matches Ok(Some(FrameValue::Comment(lf))) && language_frame_matches(
            lf,
            enc,
            lang,
            desc,
            cont,
        )
    } else {
        r matches Ok(Some(FrameValue::UnSyncText(lf))) && language_frame_matches(
            lf,
            enc,
            lang,
            desc,
            cont,
        )
    }
}

/// Full behaviour of the language-frame parser on remaining bytes `s`,
/// leaving `s2`: fewer than five bytes yield no value; otherwise the marker
/// is verified, three raw language bytes are read, a terminated description
/// and a to-end content field are decoded under the same encoding, each
/// defaulting to empty where its field is too short for one code unit.
pub open spec fn language_frame_post(
    s: Seq<u8>,
    id: Seq<char>,
    version: Id3v2Version,
    r: Result<Option<FrameValue>, Id3v2Error>,
    s2: Seq<u8>,
) -> bool {
    if s.len() < 5 {
        r matches Ok(None) && s2 == s
    } else {
        match spec_verify_encoding(s[0], version) {
            Err(e) => r == Err::<Option<FrameValue>, Id3v2Error>(e) && s2 == s.skip(1),
            Ok(enc) => {
                let w = term_width(enc);
                let lang = s.subrange(1, 4);
                let rest1 = s.skip(4);
                if rest1.len() < w {
                    language_result_ok(id, enc, lang, Seq::empty(), Seq::empty(), r) && s2 == rest1
                } else {
                    let cl1 = text_content_len(rest1, enc, true);
                    let kl1 = text_consumed_len(rest1, enc, true);
                    match decoded_text(rest1.take(cl1), enc) {
                        None => r == Err::<Option<FrameValue>, Id3v2Error>(
                            Id3v2Error::MalformedText,
                        ) && s2 == rest1.skip(kl1),
                        Some(desc) => {
                            let rest2 = rest1.skip(kl1);
                            if rest2.len() < w {
                                language_result_ok(id, enc, lang, desc, Seq::empty(), r) && s2
                                    == rest2
                            } else {
                                let cl2 = text_content_len(rest2, enc, false);
                                match decoded_text(rest2.take(cl2), enc) {
                                    None => r == Err::<Option<FrameValue>, Id3v2Error>(
                                        Id3v2Error::MalformedText,
                                    ) && s2.len() == 0,
                                    Some(cont) => language_result_ok(id, enc, lang, desc, cont, r)
                                        && s2.len() == 0,
                                }
                            }
                        },
                    }
                }
            },
        }
    }
}

/// Parses a comment or unsynchronized-lyrics frame: encoding marker, 3-byte
/// language code, terminated description, to-end content. Only the
/// dispatcher's two fixed identifiers ever select this parser.
pub fn parse_text_language(content: &mut Cursor, id: &str, version: Id3v2Version) -> (r: Result<
    Option<FrameValue>,
    Id3v2Error,
>)
    requires
        old(content).wf(),
        id@ == "COMM"@ || id@ == "USLT"@,
    ensures
        final(content).wf(),
        language_frame_post(
            old(content).remaining(),
            id@,
            version,
            r,
            final(content).remaining(),
        ),
{
    let ghost s = old(content).remaining();
    if content.remaining_len() < 5 {
        return Ok(None);
    }
    let marker = content.read_u8();
    let enc = match verify_encoding(marker, version) {
        Ok(e) => e,
        Err(e) => {
            return Err(e);
        },
    };
    let language = content.read_bytes(3);
    proof {
        assert(language@ =~= s.subrange(1, 4));
        assert(content.remaining() =~= s.skip(4));
    }
    let ghost rest1 = content.remaining();
    let description = match decode_text(content, enc, true) {
        Ok(Some(d)) => d,
        Ok(None) => String::new(),
        Err(e) => {
            return Err(e);
        },
    };
    let ghost rest2 = content.remaining();
    proof {
        if rest1.len() >= term_width(enc) {
            assert(rest2 == rest1.skip(text_consumed_len(rest1, enc, true)));
        }
    }
    let frame_content = match decode_text(content, enc, false) {
        Ok(Some(c)) => c,
        Ok(None) => String::new(),
        Err(e) => {
            return Err(e);
        },
    };
    let information = LanguageFrame {
        encoding: enc,
        language,
        description,
        content: frame_content,
    };
    let value = if str_eq_str(id, "COMM") {
        FrameValue::Comment(information)
    } else {
        FrameValue::UnSyncText(information)
    };
    Ok(Some(value))
}

/// Full behaviour of the dispatcher on remaining bytes `s`, leaving `s2`:
/// the rule table picks the treatment, the generic parsers behave as their
/// own contracts say, and every delegated or unknown kind hands the whole
/// untouched payload through, consuming it.
pub open spec fn content_post(
    s: Seq<u8>,
    id: Seq<char>,
    version: Id3v2Version,
    r: Result<Option<FrameValue>, Id3v2Error>,
    s2: Seq<u8>,
) -> bool {
    match spec_classify(id) {
        FrameKind::Picture => r matches Ok(Some(FrameValue::Picture { version: v, data })) && v
            == version && data@ == s && s2.len() == 0,
        FrameKind::UserText => r matches Ok(Some(FrameValue::UserText { version: v, data })) && v
            == version && data@ == s && s2.len() == 0,
        FrameKind::UserUrl => r matches Ok(Some(FrameValue::UserURL { version: v, data })) && v
            == version && data@ == s && s2.len() == 0,
        FrameKind::Language => language_frame_post(s, id, version, r, s2),
        FrameKind::UniqueFileId => r matches Ok(Some(FrameValue::UniqueFileIdentifier { data }))
            && data@ == s && s2.len() == 0,
        FrameKind::Text => text_frame_post(s, version, r, s2),
        FrameKind::Link => link_frame_post(s, r, s2),
        FrameKind::Popularimeter => r matches Ok(Some(FrameValue::Popularimeter { data })) && data@
            == s && s2.len() == 0,
        FrameKind::Binary => r matches Ok(Some(FrameValue::Binary(data))) && data@ == s
            && s2.len() == 0,
    }
}

/// For every byte run shorter than a parser's stated minimum — two bytes
/// for the text parser, one for the link parser, five for the language
/// parser — that parser yields no value, never an error, and consumes
/// nothing.
pub proof fn lemma_short_input_yields_no_value(
    s: Seq<u8>,
    id: Seq<char>,
    version: Id3v2Version,
    r: Result<Option<FrameValue>, Id3v2Error>,
    s2: Seq<u8>,
)
    ensures
        s.len() < 2 && text_frame_post(s, version, r, s2) ==> (r matches Ok(None) && s2 == s),
        s.len() < 1 && link_frame_post(s, r, s2) ==> (r matches Ok(None) && s2 == s),
        s.len() < 5 && language_frame_post(s, id, version, r, s2) ==> (r matches Ok(None) && s2
            == s),
{
}

/// Decodes one frame body: consults the identifier against the ordered rule
/// table and runs the selected treatment over the shared cursor.
pub fn parse_content(content: &mut Cursor, id: &str, version: Id3v2Version) -> (r: Result<
    Option<FrameValue>,
    Id3v2Error,
>)
    requires
        old(content).wf(),
    ensures
        final(content).wf(),
        content_post(old(content).remaining(), id@, version, r, final(content).remaining()),
{
    match classify_frame(id) {
        FrameKind::Picture => {
            let data = content.read_rest();
            Ok(Some(FrameValue::Picture { version, data }))
        },
        FrameKind::UserText => {
            let data = content.read_rest();
            Ok(Some(FrameValue::UserText { version, data }))
        },
        FrameKind::UserUrl => {
            let data = content.read_rest();
            Ok(Some(FrameValue::UserURL { version, data }))
        },
        FrameKind::Language => parse_text_language(content, id, version),
        FrameKind::UniqueFileId => {
            let data = content.read_rest();
            Ok(Some(FrameValue::UniqueFileIdentifier { data }))
        },
        FrameKind::Text => parse_text(content, version),
        FrameKind::Link => parse_link(content),
        FrameKind::Popularimeter => {
            let data = content.read_rest();
            Ok(Some(FrameValue::Popularimeter { data }))
        },
        FrameKind::Binary => {
            let data = content.read_rest();
            Ok(Some(FrameValue::Binary(data)))
        },
    }
}

} // verus!
