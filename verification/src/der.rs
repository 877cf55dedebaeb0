//! The TLV layer: element headers and elementary values, read by the
//! BER/DER codec, and the helpers that the decoders build on.
use crate::error::X509Error;
use crate::text::str_from_utf8;
use vstd::prelude::*;
use vstd::slice::slice_subrange;
use vstd::utf8::{decode_utf8, valid_utf8};

verus! {

pub const CLASS_UNIVERSAL: u8 = 0;

pub const CLASS_CONTEXT: u8 = 2;

pub const TAG_END_OF_CONTENT: u32 = 0;

pub const TAG_BOOLEAN: u32 = 1;

pub const TAG_INTEGER: u32 = 2;

pub const TAG_BIT_STRING: u32 = 3;

pub const TAG_OCTET_STRING: u32 = 4;

pub const TAG_NULL: u32 = 5;

pub const TAG_OID: u32 = 6;

pub const TAG_ENUMERATED: u32 = 10;

pub const TAG_UTF8_STRING: u32 = 12;

pub const TAG_RELATIVE_OID: u32 = 13;

pub const TAG_SEQUENCE: u32 = 16;

pub const TAG_SET: u32 = 17;

pub const TAG_NUMERIC_STRING: u32 = 18;

pub const TAG_PRINTABLE_STRING: u32 = 19;

pub const TAG_IA5_STRING: u32 = 22;

pub const TAG_UTC_TIME: u32 = 23;

pub const TAG_GENERALIZED_TIME: u32 = 24;

pub const TAG_VISIBLE_STRING: u32 = 26;

/// The header of one element: its class (0 universal, 1 application,
/// 2 context-specific, 3 private), whether it is constructed, its tag number,
/// and the length of its content (`None` for the indefinite form).
#[derive(Clone, Copy, Debug, PartialEq, Eq)]
pub struct Header {
    pub class: u8,
    pub constructed: bool,
    pub tag: u32,
    pub length: Option<usize>,
}

/// What the codec's BER header reader returns on `bytes`: the bytes after
/// the header, and the header.
pub uninterp spec fn ber_header(bytes: Seq<u8>) -> Result<(Seq<u8>, Header), X509Error>;

/// `rest` is what is left of `i` after a header, which takes two bytes or more.
pub open spec fn follows_header(i: Seq<u8>, rest: Seq<u8>) -> bool {
    &&& rest.len() + 2 <= i.len()
    &&& rest == i.skip(i.len() - rest.len())
}

/// `rest` is the end of `i`.
pub open spec fn is_rest(i: Seq<u8>, rest: Seq<u8>) -> bool {
    &&& rest.len() <= i.len()
    &&& rest == i.skip(i.len() - rest.len())
}

/// A decoder's result as contracts speak of it: the bytes left and the
/// decoded value, each by its view.
pub open spec fn parsed<'a, T: View>(r: Result<(&'a [u8], T), X509Error>) -> Result<
    (Seq<u8>, T::V),
    X509Error,
> {
    match r {
        Ok((rest, v)) => Ok((rest@, v@)),
        Err(e) => Err(e),
    }
}

/// On success the bytes left are the end of `i`.
pub open spec fn leaves_rest<'a, T>(i: Seq<u8>, r: Result<(&'a [u8], T), X509Error>) -> bool {
    match r {
        Ok((rest, _)) => is_rest(i, rest@),
        Err(_) => true,
    }
}

/// On success the bytes left are the end of `i`, and shorter than `i`.
pub open spec fn consumes<'a, T>(i: Seq<u8>, r: Result<(&'a [u8], T), X509Error>) -> bool {
    match r {
        Ok((rest, _)) => is_rest(i, rest@) && rest@.len() < i.len(),
        Err(_) => true,
    }
}

/// The end of an end is an end.
pub proof fn lemma_rest_of_rest(i: Seq<u8>, a: Seq<u8>, b: Seq<u8>)
    requires
        is_rest(i, a),
        is_rest(a, b),
    ensures
        is_rest(i, b),
{
    assert(b =~= i.skip(i.len() - b.len()));
}

/// The header `h` that was read from `i`, leaving `rest`, is read again from
/// every input that starts with the same header bytes, whatever follows
/// them.
pub open spec fn header_is_local(i: Seq<u8>, rest: Seq<u8>, h: Header) -> bool {
    forall|b: Seq<u8>| #![trigger ber_header(b)]
        b.len() >= i.len() - rest.len() && b.take(i.len() - rest.len()) == i.take(
            i.len() - rest.len(),
        ) ==> ber_header(b) == Ok::<(Seq<u8>, Header), X509Error>(
            (b.skip(i.len() - rest.len()), h),
        )
}

/// Reads one element header with `der_parser::ber::ber_read_element_header`.
///
/// Trusted: the result is a function of the input (`ber_header`); the bytes
/// handed back are the input without the header, which has at least an
/// identifier byte and a length byte; the class is one of the four; the
/// reader looks at the bytes of the header only, so that what follows them
/// does not change what is read (`header_is_local`).
#[verifier::external_body]
pub(crate) fn read_ber_header<'a>(i: &'a [u8]) -> (r: Result<(&'a [u8], Header), X509Error>)
    ensures
        match r {
            Ok((rest, h)) => ber_header(i@) == Ok::<(Seq<u8>, Header), X509Error>((rest@, h))
                && follows_header(i@, rest@) && h.class <= 3 && header_is_local(i@, rest@, h),
            Err(e) => ber_header(i@) == Err::<(Seq<u8>, Header), X509Error>(e),
        },
{
    match der_parser::ber::ber_read_element_header(i) {
        Ok((rest, h)) => Ok((rest, Header {
            class: h.class as u8,
            constructed: h.is_constructed(),
            tag: h.tag.0,
            length: match h.len {
                der_parser::ber::BerSize::Definite(l) => Some(l),
                der_parser::ber::BerSize::Indefinite => None,
            },
        })),
        Err(nom::Err::Incomplete(_)) => Err(X509Error::Truncated),
        Err(_) => Err(X509Error::Malformed),
    }
}

/// What the codec's DER header reader returns on `bytes`.
pub uninterp spec fn der_header(bytes: Seq<u8>) -> Result<(Seq<u8>, Header), X509Error>;

/// Reads one element header with `der_parser::der::der_read_element_header`.
///
/// Trusted: the result is a function of the input (`der_header`); the bytes
/// handed back are the input without the header, of two bytes or more; the
/// length is definite, as DER asks.
#[verifier::external_body]
pub(crate) fn read_der_header<'a>(i: &'a [u8]) -> (r: Result<(&'a [u8], Header), X509Error>)
    ensures
        match r {
            Ok((rest, h)) => der_header(i@) == Ok::<(Seq<u8>, Header), X509Error>((rest@, h))
                && follows_header(i@, rest@) && h.class <= 3 && h.length is Some,
            Err(e) => der_header(i@) == Err::<(Seq<u8>, Header), X509Error>(e),
        },
{
    match der_parser::der::der_read_element_header(i) {
        Ok((rest, h)) => Ok((rest, Header {
            class: h.class as u8,
            constructed: h.is_constructed(),
            tag: h.tag.0,
            length: match h.len {
                der_parser::ber::BerSize::Definite(l) => Some(l),
                der_parser::ber::BerSize::Indefinite => None,
            },
        })),
        Err(nom::Err::Incomplete(_)) => Err(X509Error::Truncated),
        Err(_) => Err(X509Error::Malformed),
    }
}

/// `i` is one whole element, header `h` and content, followed by `rest`.
pub open spec fn element_layout(i: Seq<u8>, h: Header, rest: Seq<u8>) -> bool {
    &&& h.length is Some
    &&& rest.len() + h.length->0 + 2 <= i.len()
    &&& rest == i.skip(i.len() - rest.len())
}

/// The content of an element laid out as `element_layout` says: the bytes
/// between its header and `rest`.
pub open spec fn content_of(i: Seq<u8>, h: Header, rest: Seq<u8>) -> Seq<u8> {
    i.subrange(i.len() - rest.len() - h.length->0, i.len() - rest.len())
}

/// What the codec returns on `bytes` when asked for one DER element with the
/// tag number `tag`: the bytes after the element and the element's header.
/// The codec compares the tag number and reads the content as the universal
/// type of that number; it does not look at the class.
pub uninterp spec fn der_tagged(bytes: Seq<u8>, tag: u32) -> Result<(Seq<u8>, Header), X509Error>;

/// Reads and checks one DER element of a given tag with
/// `der_parser::der::parse_der_with_tag`.
///
/// Trusted: the result is a function of the input and the tag (`der_tagged`);
/// on success the header has that tag number and a definite length, and the
/// element, header and content, is followed by the bytes handed back.
/// Nothing is claimed of the class, which the codec does not compare.
#[verifier::external_body]
pub(crate) fn read_der_tagged<'a>(i: &'a [u8], tag: u32) -> (r: Result<
    (&'a [u8], Header),
    X509Error,
>)
    ensures
        match r {
            Ok((rest, h)) => der_tagged(i@, tag) == Ok::<(Seq<u8>, Header), X509Error>((rest@, h))
                && element_layout(i@, h, rest@) && h.tag == tag && h.class <= 3,
            Err(e) => der_tagged(i@, tag) == Err::<(Seq<u8>, Header), X509Error>(e),
        },
{
    match der_parser::der::parse_der_with_tag(i, der_parser::ber::BerTag(tag)) {
        Ok((rest, obj)) => Ok((rest, Header {
            class: obj.header.class as u8,
            constructed: obj.header.is_constructed(),
            tag: obj.header.tag.0,
            length: match obj.header.len {
                der_parser::ber::BerSize::Definite(l) => Some(l),
                der_parser::ber::BerSize::Indefinite => None,
            },
        })),
        Err(nom::Err::Incomplete(_)) => Err(X509Error::Truncated),
        Err(_) => Err(X509Error::Malformed),
    }
}

/// What the codec returns on `bytes` when asked for one DER element of any
/// type: the bytes after the element and the element's header.
pub uninterp spec fn der_any(bytes: Seq<u8>) -> Result<(Seq<u8>, Header), X509Error>;

/// Reads and checks one DER element of any type with
/// `der_parser::der::parse_der`.
///
/// Trusted: the result is a function of the input (`der_any`); on success the
/// header has a definite length, and the element, header and content, is
/// followed by the bytes handed back.
#[verifier::external_body]
pub(crate) fn read_der_any<'a>(i: &'a [u8]) -> (r: Result<(&'a [u8], Header), X509Error>)
    ensures
        match r {
            Ok((rest, h)) => der_any(i@) == Ok::<(Seq<u8>, Header), X509Error>((rest@, h))
                && element_layout(i@, h, rest@) && h.class <= 3,
            Err(e) => der_any(i@) == Err::<(Seq<u8>, Header), X509Error>(e),
        },
{
    match der_parser::der::parse_der(i) {
        Ok((rest, obj)) => Ok((rest, Header {
            class: obj.header.class as u8,
            constructed: obj.header.is_constructed(),
            tag: obj.header.tag.0,
            length: match obj.header.len {
                der_parser::ber::BerSize::Definite(l) => Some(l),
                der_parser::ber::BerSize::Indefinite => None,
            },
        })),
        Err(nom::Err::Incomplete(_)) => Err(X509Error::Truncated),
        Err(_) => Err(X509Error::Malformed),
    }
}

/// What the codec returns on `bytes` when asked for an INTEGER that fits in 32
/// bits without a sign: the bytes after it and its value.
pub uninterp spec fn ber_u32(bytes: Seq<u8>) -> Result<(Seq<u8>, u32), X509Error>;

/// The longest content of an INTEGER that is handed to the codec to be read
/// as a `u32`.
pub const MAX_U32_CONTENT: usize = 8;

/// Reads an INTEGER as a `u32` with `der_parser::ber::parse_ber_u32`.
///
/// Trusted: the result is a function of the input (`ber_u32`); the bytes
/// handed back are the input without one element, of two bytes or more.
/// The call is made on an INTEGER with a short content only: the codec
/// strips leading zero bytes one call deep for each.
#[verifier::external_body]
pub(crate) fn read_ber_u32<'a>(i: &'a [u8]) -> (r: Result<(&'a [u8], u32), X509Error>)
    requires
        spec_container(i@, CLASS_UNIVERSAL, TAG_INTEGER) matches Ok((_, c)) && c.len()
            <= MAX_U32_CONTENT,
    ensures
        match r {
            Ok((rest, v)) => ber_u32(i@) == Ok::<(Seq<u8>, u32), X509Error>((rest@, v))
                && follows_header(i@, rest@),
            Err(e) => ber_u32(i@) == Err::<(Seq<u8>, u32), X509Error>(e),
        },
{
    match der_parser::ber::parse_ber_u32(i) {
        Ok((rest, v)) => Ok((rest, v)),
        Err(nom::Err::Incomplete(_)) => Err(X509Error::Truncated),
        Err(_) => Err(X509Error::Malformed),
    }
}

/// The rest and the content of one container element of the class `class`
/// with the tag `tag`, read from the front of `i`: the BER header must carry
/// that class, that tag and a definite length, and the content must be there
/// in full.
pub open spec fn spec_container(i: Seq<u8>, class: u8, tag: u32) -> Result<
    (Seq<u8>, Seq<u8>),
    X509Error,
> {
    match ber_header(i) {
        Err(e) => Err(e),
        Ok((body, h)) => if h.class != class || h.tag != tag {
            Err(X509Error::InvalidTag)
        } else {
            match h.length {
                None => Err(X509Error::InvalidLength),
                Some(l) => if l > body.len() {
                    Err(X509Error::Truncated)
                } else {
                    Ok((body.skip(l as int), body.take(l as int)))
                },
            }
        },
    }
}

/// `content` followed by `rest` are the last bytes of `i`, after a header.
pub open spec fn container_layout(i: Seq<u8>, content: Seq<u8>, rest: Seq<u8>) -> bool {
    &&& content.len() + rest.len() + 2 <= i.len()
    &&& rest == i.skip(i.len() - rest.len())
    &&& content == i.subrange(i.len() - rest.len() - content.len(), i.len() - rest.len())
}

/// The bytes of `i` that a decoder has read when `rest` is left.
pub open spec fn span(i: Seq<u8>, rest: Seq<u8>) -> Seq<u8> {
    i.take(i.len() - rest.len())
}

/// The bytes of `i` before `rest`, which must be an end of `i`.
pub fn consumed<'a>(i: &'a [u8], rest: &[u8]) -> (r: &'a [u8])
    requires
        rest@.len() <= i@.len(),
    ensures
        r@ == span(i@, rest@),
{
    slice_subrange(i, 0, i.len() - rest.len())
}

/// The bytes of `i` that a decoder has read when `rest` is left, without the
/// last of them.
pub open spec fn cut(i: Seq<u8>, rest: Seq<u8>) -> Seq<u8> {
    span(i, rest).drop_last()
}

/// True of the result that reports an input cut short.
pub open spec fn is_truncated<V>(r: Result<(Seq<u8>, V), X509Error>) -> bool {
    r == Err::<(Seq<u8>, V), X509Error>(X509Error::Truncated)
}

/// Opens a container element of the class `class` with the tag `tag` (a
/// universal SEQUENCE or SET, or a context tag): returns the bytes after it
/// and its content. An element of another class or with another tag is
/// refused. An element with content that is cut short by its last byte is
/// reported as truncated.
pub fn container<'a>(i: &'a [u8], class: u8, tag: u32) -> (r: Result<
    (&'a [u8], &'a [u8]),
    X509Error,
>)
    ensures
        parsed(r) == spec_container(i@, class, tag),
        r matches Ok((rest, content)) ==> container_layout(i@, content@, rest@),
        r matches Ok((rest, content)) ==> content@.len() > 0 ==> is_truncated(
            spec_container(cut(i@, rest@), class, tag),
        ),
{
    let (body, h) = match read_ber_header(i) {
        Ok(x) => x,
        Err(e) => { return Err(e); },
    };
    if h.class != class || h.tag != tag {
        return Err(X509Error::InvalidTag);
    }
    match h.length {
        None => Err(X509Error::InvalidLength),
        Some(l) => {
            if l > body.len() {
                Err(X509Error::Truncated)
            } else {
                let content = slice_subrange(body, 0, l);
                let rest = slice_subrange(body, l, body.len());
                proof {
                    assert(content@ =~= body@.take(l as int));
                    assert(rest@ =~= body@.skip(l as int));
                    assert(rest@ =~= i@.skip(i@.len() - rest@.len()));
                    assert(content@ =~= i@.subrange(
                        i@.len() - rest@.len() - content@.len(),
                        i@.len() - rest@.len(),
                    ));
                    if l > 0 {
                        let b = cut(i@, rest@);
                        let hl = i@.len() - body@.len();
                        assert(b.take(hl) =~= i@.take(hl));
                        assert(b.skip(hl).len() < l);
                    }
                }
                Ok((rest, content))
            }
        },
    }
}

/// True when `i` starts with a header of the given class and tag.
pub open spec fn spec_starts_with(i: Seq<u8>, class: u8, tag: u32) -> bool {
    match ber_header(i) {
        Ok((_, h)) => h.class == class && h.tag == tag,
        Err(_) => false,
    }
}

/// Tells whether `i` starts with a header of the given class and tag.
pub fn starts_with(i: &[u8], class: u8, tag: u32) -> (r: bool)
    ensures
        r == spec_starts_with(i@, class, tag),
{
    match read_ber_header(i) {
        Ok((_, h)) => h.class == class && h.tag == tag,
        Err(_) => false,
    }
}

/// One INTEGER at the front of `i`, read as a `u32`: a universal element
/// with the tag of an INTEGER and a content of at most `MAX_U32_CONTENT`
/// bytes, with the value that the codec reads from it.
pub open spec fn spec_u32(i: Seq<u8>) -> Result<(Seq<u8>, u32), X509Error> {
    match spec_container(i, CLASS_UNIVERSAL, TAG_INTEGER) {
        Err(e) => Err(e),
        Ok((_, c)) => if c.len() > MAX_U32_CONTENT {
            Err(X509Error::InvalidLength)
        } else {
            ber_u32(i)
        },
    }
}

/// Reads one INTEGER as a `u32`.
pub fn parse_u32<'a>(i: &'a [u8]) -> (r: Result<(&'a [u8], u32), X509Error>)
    ensures
        parsed(r) == spec_u32(i@),
        consumes(i@, r),
{
    match container(i, CLASS_UNIVERSAL, TAG_INTEGER) {
        Err(e) => Err(e),
        Ok((_, c)) => if c.len() > MAX_U32_CONTENT {
            Err(X509Error::InvalidLength)
        } else {
            read_ber_u32(i)
        },
    }
}

/// The rest and the content of one DER element with the universal tag `tag`:
/// an element that the codec accepts for that tag number, and whose class is
/// universal.
pub open spec fn spec_tagged(i: Seq<u8>, tag: u32) -> Result<(Seq<u8>, Seq<u8>), X509Error> {
    match der_tagged(i, tag) {
        Ok((rest, h)) => if h.class != CLASS_UNIVERSAL {
            Err(X509Error::InvalidTag)
        } else {
            Ok((rest, content_of(i, h, rest)))
        },
        Err(e) => Err(e),
    }
}

/// Reads one DER element with the universal tag `tag`, checked by the
/// codec for that type: returns the bytes after it and its content. An
/// element of another class with the same tag number is refused.
pub fn tagged<'a>(i: &'a [u8], tag: u32) -> (r: Result<(&'a [u8], &'a [u8]), X509Error>)
    ensures
        parsed(r) == spec_tagged(i@, tag),
        r matches Ok((rest, content)) ==> container_layout(i@, content@, rest@),
{
    match read_der_tagged(i, tag) {
        Err(e) => Err(e),
        Ok((rest, h)) => {
            if h.class != CLASS_UNIVERSAL {
                return Err(X509Error::InvalidTag);
            }
            let l = match h.length {
                Some(l) => l,
                None => 0,
            };
            let end = i.len() - rest.len();
            let content = slice_subrange(i, end - l, end);
            Ok((rest, content))
        },
    }
}

/// A BIT STRING: the number of unused bits in its last byte, and its bytes.
#[derive(Clone, Copy, Debug)]
pub struct BitStringObject<'a> {
    pub unused_bits: u8,
    pub data: &'a [u8],
}

/// What a `BitStringObject` holds.
pub struct BitStringView {
    pub unused_bits: u8,
    pub data: Seq<u8>,
}

impl<'a> View for BitStringObject<'a> {
    type V = BitStringView;

    open spec fn view(&self) -> BitStringView {
        BitStringView { unused_bits: self.unused_bits, data: self.data@ }
    }
}

/// A bit string from the content of its element: the first byte counts the
/// unused bits, the others are the data. An empty content is refused.
pub open spec fn spec_bit_string_content(c: Seq<u8>) -> Result<BitStringView, X509Error> {
    if c.len() == 0 {
        Err(X509Error::InvalidLength)
    } else {
        Ok(BitStringView { unused_bits: c[0], data: c.skip(1) })
    }
}

/// Splits the content of a BIT STRING element into the count of unused bits
/// and the data.
pub fn bit_string_content<'a>(c: &'a [u8]) -> (r: Result<BitStringObject<'a>, X509Error>)
    ensures
        match r {
            Ok(b) => spec_bit_string_content(c@) == Ok::<BitStringView, X509Error>(b@),
            Err(e) => spec_bit_string_content(c@) == Err::<BitStringView, X509Error>(e),
        },
{
    if c.len() == 0 {
        Err(X509Error::InvalidLength)
    } else {
        let data = slice_subrange(c, 1, c.len());
        assert(data@ =~= c@.skip(1));
        Ok(BitStringObject { unused_bits: c[0], data })
    }
}

/// One DER BIT STRING at the front of `i`.
pub open spec fn spec_bit_string(i: Seq<u8>) -> Result<(Seq<u8>, BitStringView), X509Error> {
    match spec_tagged(i, TAG_BIT_STRING) {
        Err(e) => Err(e),
        Ok((rest, c)) => match spec_bit_string_content(c) {
            Err(e) => Err(e),
            Ok(b) => Ok((rest, b)),
        },
    }
}

/// Reads one DER BIT STRING.
pub fn parse_bit_string<'a>(i: &'a [u8]) -> (r: Result<(&'a [u8], BitStringObject<'a>), X509Error>)
    ensures
        parsed(r) == spec_bit_string(i@),
        consumes(i@, r),
{
    match tagged(i, TAG_BIT_STRING) {
        Err(e) => Err(e),
        Ok((rest, c)) => match bit_string_content(c) {
            Err(e) => Err(e),
            Ok(b) => Ok((rest, b)),
        },
    }
}

/// One DER BOOLEAN at the front of `i`: false when its content byte is zero.
pub open spec fn spec_bool(i: Seq<u8>) -> Result<(Seq<u8>, bool), X509Error> {
    match spec_tagged(i, TAG_BOOLEAN) {
        Err(e) => Err(e),
        Ok((rest, c)) => if c.len() == 1 {
            Ok((rest, c[0] != 0))
        } else {
            Err(X509Error::InvalidLength)
        },
    }
}

/// Reads one DER BOOLEAN.
pub fn parse_bool<'a>(i: &'a [u8]) -> (r: Result<(&'a [u8], bool), X509Error>)
    ensures
        parsed(r) == spec_bool(i@),
        consumes(i@, r),
{
    match tagged(i, TAG_BOOLEAN) {
        Err(e) => Err(e),
        Ok((rest, c)) => if c.len() == 1 {
            Ok((rest, c[0] != 0))
        } else {
            Err(X509Error::InvalidLength)
        },
    }
}

/// An element of any type: its header and the bytes of its content.
#[derive(Clone, Copy, Debug)]
pub struct DerObject<'a> {
    pub header: Header,
    pub data: &'a [u8],
}

/// What a `DerObject` holds.
pub struct DerObjectView {
    pub header: Header,
    pub data: Seq<u8>,
}

impl<'a> View for DerObject<'a> {
    type V = DerObjectView;

    open spec fn view(&self) -> DerObjectView {
        DerObjectView { header: self.header, data: self.data@ }
    }
}

/// True of the header of a universal element of one of the string types
/// that are read as text: UTF8String, NumericString, PrintableString,
/// IA5String, UTCTime, GeneralizedTime, VisibleString.
pub open spec fn is_text(h: Header) -> bool {
    h.class == CLASS_UNIVERSAL && (h.tag == TAG_UTF8_STRING || h.tag == TAG_NUMERIC_STRING
        || h.tag == TAG_PRINTABLE_STRING || h.tag == TAG_IA5_STRING || h.tag == TAG_UTC_TIME
        || h.tag == TAG_GENERALIZED_TIME || h.tag == TAG_VISIBLE_STRING)
}

/// True of the header of a universal element whose content is not a string of
/// bytes: end-of-content, BOOLEAN, NULL, OBJECT IDENTIFIER, ENUMERATED,
/// RELATIVE-OID, SEQUENCE, SET.
pub open spec fn has_no_bytes(h: Header) -> bool {
    h.class == CLASS_UNIVERSAL && (h.tag == TAG_END_OF_CONTENT || h.tag == TAG_BOOLEAN || h.tag
        == TAG_NULL || h.tag == TAG_OID || h.tag == TAG_ENUMERATED || h.tag == TAG_RELATIVE_OID
        || h.tag == TAG_SEQUENCE || h.tag == TAG_SET)
}

/// The text of an element: of a text type only, and only where the content
/// is UTF-8.
pub open spec fn spec_as_str(v: DerObjectView) -> Result<Seq<char>, X509Error> {
    if !is_text(v.header) {
        Err(X509Error::InvalidTag)
    } else if !valid_utf8(v.data) {
        Err(X509Error::Malformed)
    } else {
        Ok(decode_utf8(v.data))
    }
}

/// The bytes of an element: its content; for a BIT STRING, its content after
/// the count of unused bits; none for the types without bytes.
pub open spec fn spec_as_slice(v: DerObjectView) -> Result<Seq<u8>, X509Error> {
    if has_no_bytes(v.header) {
        Err(X509Error::InvalidTag)
    } else if v.header.class == CLASS_UNIVERSAL && v.header.tag == TAG_BIT_STRING {
        if v.data.len() == 0 {
            Err(X509Error::InvalidLength)
        } else {
            Ok(v.data.skip(1))
        }
    } else {
        Ok(v.data)
    }
}

impl<'a> DerObject<'a> {
    /// A primitive universal element with the given tag and content.
    pub fn universal(tag: u32, data: &'a [u8]) -> (r: Self)
        ensures
            r@ == (DerObjectView {
                header: Header {
                    class: CLASS_UNIVERSAL,
                    constructed: false,
                    tag,
                    length: Some(data@.len() as usize),
                },
                data: data@,
            }),
    {
        DerObject {
            header: Header {
                class: CLASS_UNIVERSAL,
                constructed: false,
                tag,
                length: Some(data.len()),
            },
            data,
        }
    }

    /// The content as text, for the text types.
    pub fn as_str(&self) -> (r: Result<&'a str, X509Error>)
        ensures
            match r {
                Ok(s) => spec_as_str(self@) == Ok::<Seq<char>, X509Error>(s@),
                Err(e) => spec_as_str(self@) == Err::<Seq<char>, X509Error>(e),
            },
    {
        let h = self.header;
        let text = h.class == CLASS_UNIVERSAL && (h.tag == TAG_UTF8_STRING || h.tag
            == TAG_NUMERIC_STRING || h.tag == TAG_PRINTABLE_STRING || h.tag == TAG_IA5_STRING
            || h.tag == TAG_UTC_TIME || h.tag == TAG_GENERALIZED_TIME || h.tag
            == TAG_VISIBLE_STRING);
        if !text {
            return Err(X509Error::InvalidTag);
        }
        match str_from_utf8(self.data) {
            Some(s) => Ok(s),
            None => Err(X509Error::Malformed),
        }
    }

    /// The content as bytes, for the types that have bytes.
    pub fn as_slice(&self) -> (r: Result<&'a [u8], X509Error>)
        ensures
            match r {
                Ok(b) => spec_as_slice(self@) == Ok::<Seq<u8>, X509Error>(b@),
                Err(e) => spec_as_slice(self@) == Err::<Seq<u8>, X509Error>(e),
            },
    {
        let h = self.header;
        let no_bytes = h.class == CLASS_UNIVERSAL && (h.tag == TAG_END_OF_CONTENT || h.tag
            == TAG_BOOLEAN || h.tag == TAG_NULL || h.tag == TAG_OID || h.tag == TAG_ENUMERATED
            || h.tag == TAG_RELATIVE_OID || h.tag == TAG_SEQUENCE || h.tag == TAG_SET);
        if no_bytes {
            Err(X509Error::InvalidTag)
        } else if h.class == CLASS_UNIVERSAL && h.tag == TAG_BIT_STRING {
            if self.data.len() == 0 {
                Err(X509Error::InvalidLength)
            } else {
                let b = slice_subrange(self.data, 1, self.data.len());
                assert(b@ =~= self.data@.skip(1));
                Ok(b)
            }
        } else {
            Ok(self.data)
        }
    }
}

/// One DER element of any type at the front of `i`.
pub open spec fn spec_any(i: Seq<u8>) -> Result<(Seq<u8>, DerObjectView), X509Error> {
    match der_any(i) {
        Err(e) => Err(e),
        Ok((rest, h)) => Ok((rest, DerObjectView { header: h, data: content_of(i, h, rest) })),
    }
}

/// Reads one DER element of any type, checked by the codec.
pub fn parse_any<'a>(i: &'a [u8]) -> (r: Result<(&'a [u8], DerObject<'a>), X509Error>)
    ensures
        parsed(r) == spec_any(i@),
        consumes(i@, r),
        r matches Ok((rest, v)) ==> container_layout(i@, v.data@, rest@),
{
    match read_der_any(i) {
        Err(e) => Err(e),
        Ok((rest, h)) => {
            let l = match h.length {
                Some(l) => l,
                None => 0,
            };
            let end = i.len() - rest.len();
            let data = slice_subrange(i, end - l, end);
            Ok((rest, DerObject { header: h, data }))
        },
    }
}

} // verus!
