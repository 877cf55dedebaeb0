//! Certification requests (PKCS #10): the attributes, the body that is
//! signed, and the envelope that holds it with its signature.
use crate::algorithm::{
    parse_signature_value, spec_algorithm_identifier, spec_signature_value,
    spec_subject_public_key_info, AlgorithmIdentifier, AlgorithmIdentifierView,
    SubjectPublicKeyInfo, SubjectPublicKeyInfoView,
};
use crate::der::{
    consumed, consumes, container, cut, is_truncated, parsed, span, spec_container, BitStringObject,
    BitStringView, CLASS_CONTEXT, CLASS_UNIVERSAL, TAG_SEQUENCE, TAG_SET,
};
use crate::error::X509Error;
use crate::name::{spec_name, X509Name, X509NameView};
use crate::objects::{oid_pkcs9_extension_request, spec_oid_pkcs9_extension_request};
use crate::oid::{parse_oid, spec_oid, Oid};
use crate::repeated::{lemma_views_push, many, spec_many, views};
use crate::signature::{spec_verify, verify};
use crate::version::{spec_version_required, X509Version};
use crate::x509_extension::{
    extensions_sequence_to_map, parse_extension_sequence, spec_extension_sequence, spec_to_map,
    ExtensionMap, ParsedExtension, ParsedExtensionView, X509ExtensionView,
};
use vstd::prelude::*;

verus! {

/// The extensions that a request asks for.
#[derive(Debug)]
pub struct ExtensionRequest<'a> {
    pub extensions: ExtensionMap<'a>,
}

/// The decoded content of an attribute of a request, for the attribute
/// that is decoded; `UnsupportedAttribute` for the others.
#[derive(Debug)]
pub enum ParsedCriAttribute<'a> {
    ExtensionRequest(ExtensionRequest<'a>),
    UnsupportedAttribute,
}

/// What a `ParsedCriAttribute` holds.
pub enum ParsedCriAttributeView {
    ExtensionRequest(Seq<X509ExtensionView>),
    UnsupportedAttribute,
}

impl<'a> View for ParsedCriAttribute<'a> {
    type V = ParsedCriAttributeView;

    open spec fn view(&self) -> ParsedCriAttributeView {
        match self {
            ParsedCriAttribute::ExtensionRequest(r) => ParsedCriAttributeView::ExtensionRequest(
                r.extensions@,
            ),
            ParsedCriAttribute::UnsupportedAttribute =>
                ParsedCriAttributeView::UnsupportedAttribute,
        }
    }
}

/// The decoded content of the attribute `oid` whose SET holds `c`: for
/// extensionRequest, `c` must be one SEQUENCE of extensions in which no
/// object identifier occurs twice; any other attribute is not decoded.
pub open spec fn spec_parse_attribute(oid: Seq<u8>, c: Seq<u8>) -> Result<
    ParsedCriAttributeView,
    X509Error,
> {
    if oid == spec_oid_pkcs9_extension_request() {
        match spec_extension_sequence(c) {
            Err(e) => Err(e),
            Ok((rest, list)) => if rest.len() != 0 {
                Err(X509Error::InvalidAttributes)
            } else {
                match spec_to_map(list) {
                    Err(e) => Err(e),
                    Ok(m) => Ok(ParsedCriAttributeView::ExtensionRequest(m)),
                }
            },
        }
    } else {
        Ok(ParsedCriAttributeView::UnsupportedAttribute)
    }
}

/// Decodes the content of an attribute with the decoder that its object
/// identifier selects.
pub fn parse_attribute<'a>(c: &'a [u8], oid: &Oid) -> (r: Result<ParsedCriAttribute<'a>, X509Error>)
    ensures
        match r {
            Ok(a) => spec_parse_attribute(oid@, c@) == Ok::<ParsedCriAttributeView, X509Error>(a@),
            Err(e) => spec_parse_attribute(oid@, c@) == Err::<ParsedCriAttributeView, X509Error>(
                e,
            ),
        },
{
    if oid.equals(&oid_pkcs9_extension_request()) {
        let (rest, list) = match parse_extension_sequence(c) {
            Ok(x) => x,
            Err(e) => { return Err(e); },
        };
        if rest.len() != 0 {
            return Err(X509Error::InvalidAttributes);
        }
        match extensions_sequence_to_map(list) {
            Err(e) => Err(e),
            Ok(extensions) => Ok(
                ParsedCriAttribute::ExtensionRequest(ExtensionRequest { extensions }),
            ),
        }
    } else {
        Ok(ParsedCriAttribute::UnsupportedAttribute)
    }
}

/// One attribute of a request: its object identifier, the bytes of its SET
/// of values, and the values decoded.
#[derive(Debug)]
pub struct X509CriAttribute<'a> {
    pub oid: Oid<'a>,
    pub value: &'a [u8],
    pub parsed_attribute: ParsedCriAttribute<'a>,
}

/// What an `X509CriAttribute` holds.
pub struct X509CriAttributeView {
    pub oid: Seq<u8>,
    pub value: Seq<u8>,
    pub parsed_attribute: ParsedCriAttributeView,
}

impl<'a> View for X509CriAttribute<'a> {
    type V = X509CriAttributeView;

    open spec fn view(&self) -> X509CriAttributeView {
        X509CriAttributeView {
            oid: self.oid@,
            value: self.value@,
            parsed_attribute: self.parsed_attribute@,
        }
    }
}

/// One attribute at the front of `i`: a SEQUENCE of an object identifier
/// and a SET, and nothing more. Its value is the SET as encoded, header and
/// content. Every failure inside the SEQUENCE is `InvalidAttributes`.
pub open spec fn spec_cri_attribute(i: Seq<u8>) -> Result<
    (Seq<u8>, X509CriAttributeView),
    X509Error,
> {
    match spec_container(i, CLASS_UNIVERSAL, TAG_SEQUENCE) {
        Err(e) => Err(e),
        Ok((rest, c)) => match spec_oid(c) {
            Err(_) => Err(X509Error::InvalidAttributes),
            Ok((c1, oid)) => match spec_container(c1, CLASS_UNIVERSAL, TAG_SET) {
                Err(_) => Err(X509Error::InvalidAttributes),
                Ok((c2, set)) => if c2.len() != 0 {
                    Err(X509Error::InvalidAttributes)
                } else {
                    match spec_parse_attribute(oid, set) {
                        Err(_) => Err(X509Error::InvalidAttributes),
                        Ok(parsed_attribute) => Ok(
                            (rest, X509CriAttributeView { oid, value: c1, parsed_attribute }),
                        ),
                    }
                },
            },
        },
    }
}

/// The reader of one attribute, for `spec_many`.
pub open spec fn cri_attribute_reader() -> spec_fn(Seq<u8>) -> Result<
    (Seq<u8>, X509CriAttributeView),
    X509Error,
> {
    |i: Seq<u8>| spec_cri_attribute(i)
}

impl<'a> X509CriAttribute<'a> {
    /// Reads one attribute of a request.
    pub fn from_der(i: &'a [u8]) -> (r: Result<(&'a [u8], X509CriAttribute<'a>), X509Error>)
        ensures
            parsed(r) == spec_cri_attribute(i@),
            consumes(i@, r),
            r matches Ok((rest, _)) ==> is_truncated(spec_cri_attribute(cut(i@, rest@))),
    {
        let (rest, c) = match container(i, CLASS_UNIVERSAL, TAG_SEQUENCE) {
            Ok(x) => x,
            Err(e) => { return Err(e); },
        };
        let (c1, oid) = match parse_oid(c) {
            Ok(x) => x,
            Err(_) => { return Err(X509Error::InvalidAttributes); },
        };
        let (c2, set) = match container(c1, CLASS_UNIVERSAL, TAG_SET) {
            Ok(x) => x,
            Err(_) => { return Err(X509Error::InvalidAttributes); },
        };
        if c2.len() != 0 {
            return Err(X509Error::InvalidAttributes);
        }
        match parse_attribute(set, &oid) {
            Err(_) => Err(X509Error::InvalidAttributes),
            Ok(parsed_attribute) => Ok(
                (rest, X509CriAttribute { oid, value: c1, parsed_attribute }),
            ),
        }
    }
}

/// True when no object identifier occurs twice in the list.
pub open spec fn spec_unique_attributes(list: Seq<X509CriAttributeView>) -> bool {
    forall|a: int, b: int| 0 <= a < b < list.len() ==> list[a].oid != list[b].oid
}

/// The attribute of the list with the object identifier `oid`: the first
/// one, where there are several.
pub open spec fn spec_find_attribute(list: Seq<X509CriAttributeView>, oid: Seq<u8>) -> Option<
    X509CriAttributeView,
>
    decreases list.len(),
{
    if list.len() == 0 {
        None
    } else if list[0].oid == oid {
        Some(list[0])
    } else {
        spec_find_attribute(list.skip(1), oid)
    }
}

/// The first attribute with `oid` is at `k` when none before `k` has `oid`.
pub proof fn lemma_find_attribute_at(list: Seq<X509CriAttributeView>, oid: Seq<u8>, k: int)
    requires
        0 <= k < list.len(),
        list[k].oid == oid,
        forall|j: int| 0 <= j < k ==> list[j].oid != oid,
    ensures
        spec_find_attribute(list, oid) == Some(list[k]),
    decreases k,
{
    if k > 0 {
        lemma_find_attribute_at(list.skip(1), oid, k - 1);
    }
}

/// No attribute is found where none has `oid`.
pub proof fn lemma_find_attribute_none(list: Seq<X509CriAttributeView>, oid: Seq<u8>)
    requires
        forall|j: int| 0 <= j < list.len() ==> list[j].oid != oid,
    ensures
        spec_find_attribute(list, oid) is None,
    decreases list.len(),
{
    if list.len() > 0 {
        lemma_find_attribute_none(list.skip(1), oid);
    }
}

/// A list of attributes, in the order of the encoding, to be looked up by
/// object identifier.
#[derive(Debug)]
pub struct AttributeMap<'a> {
    pub entries: Vec<X509CriAttribute<'a>>,
}

impl<'a> View for AttributeMap<'a> {
    type V = Seq<X509CriAttributeView>;

    open spec fn view(&self) -> Seq<X509CriAttributeView> {
        views(self.entries@)
    }
}

impl<'a> AttributeMap<'a> {
    /// True of a list in which no object identifier occurs twice. The
    /// decoders return such lists only.
    pub open spec fn wf(&self) -> bool {
        spec_unique_attributes(self@)
    }

    /// The number of attributes.
    pub fn len(&self) -> (r: usize)
        ensures
            r == self@.len(),
    {
        self.entries.len()
    }

    /// True of the empty list.
    pub fn is_empty(&self) -> (r: bool)
        ensures
            r == (self@.len() == 0),
    {
        self.entries.len() == 0
    }

    /// The attribute with the object identifier `oid`, if the list has it.
    pub fn get<'b>(&'b self, oid: &Oid) -> (r: Option<&'b X509CriAttribute<'a>>)
        ensures
            match r {
                Some(e) => spec_find_attribute(self@, oid@) == Some(e@),
                None => spec_find_attribute(self@, oid@) is None,
            },
    {
        let mut k: usize = 0;
        while k < self.entries.len()
            invariant
                k <= self.entries@.len(),
                forall|j: int| 0 <= j < k ==> self@[j].oid != oid@,
            decreases self.entries@.len() - k,
        {
            if self.entries[k].oid.equals(oid) {
                proof {
                    lemma_find_attribute_at(self@, oid@, k as int);
                }
                return Some(&self.entries[k]);
            }
            k += 1;
        }
        proof {
            lemma_find_attribute_none(self@, oid@);
        }
        None
    }
}

/// Makes a list for lookup of the attributes read, and refuses a list with
/// the same object identifier twice.
pub fn attributes_sequence_to_map<'a>(v: Vec<X509CriAttribute<'a>>) -> (r: Result<
    AttributeMap<'a>,
    X509Error,
>)
    ensures
        match r {
            Ok(m) => m@ == views(v@) && m.wf(),
            Err(e) => e == X509Error::DuplicateAttributes && !spec_unique_attributes(views(v@)),
        },
{
    let ghost list = views(v@);
    let mut b: usize = 0;
    while b < v.len()
        invariant
            b <= v@.len(),
            list == views(v@),
            forall|x: int, y: int| 0 <= x < y < b ==> list[x].oid != list[y].oid,
        decreases v@.len() - b,
    {
        let mut a: usize = 0;
        while a < b
            invariant
                a <= b < v@.len(),
                list == views(v@),
                forall|x: int| 0 <= x < a ==> list[x].oid != list[b as int].oid,
            decreases b - a,
        {
            if v[a].oid.equals(&v[b].oid) {
                assert(list[a as int].oid == list[b as int].oid);
                return Err(X509Error::DuplicateAttributes);
            }
            a += 1;
        }
        b += 1;
    }
    Ok(AttributeMap { entries: v })
}

/// The attributes of a request at the front of `i`: an element of the
/// context class with the tag `[0]` whose content is attributes from end to
/// end, and in which no object identifier occurs twice. Every failure to
/// open that element is `InvalidAttributes`.
pub open spec fn spec_cri_attributes(i: Seq<u8>) -> Result<
    (Seq<u8>, Seq<X509CriAttributeView>),
    X509Error,
> {
    match spec_container(i, CLASS_CONTEXT, 0) {
        Err(_) => Err(X509Error::InvalidAttributes),
        Ok((rest, c)) => match spec_many(cri_attribute_reader(), c) {
            Err(e) => Err(e),
            Ok(list) => if spec_unique_attributes(list) {
                Ok((rest, list))
            } else {
                Err(X509Error::DuplicateAttributes)
            },
        },
    }
}

/// Reads the attributes of a request.
pub fn parse_cri_attributes<'a>(i: &'a [u8]) -> (r: Result<(&'a [u8], AttributeMap<'a>), X509Error>)
    ensures
        parsed(r) == spec_cri_attributes(i@),
        consumes(i@, r),
        r matches Ok((_, m)) ==> m.wf(),
{
    let (rest, c) = match container(i, CLASS_CONTEXT, 0) {
        Ok(x) => x,
        Err(_) => { return Err(X509Error::InvalidAttributes); },
    };
    let list = match many(c, X509CriAttribute::from_der, Ghost(cri_attribute_reader())) {
        Ok(x) => x,
        Err(e) => { return Err(e); },
    };
    match attributes_sequence_to_map(list) {
        Err(e) => Err(e),
        Ok(m) => Ok((rest, m)),
    }
}

/// The body of a request, which the requester signs.
///
/// ```text
/// CertificationRequestInfo ::= SEQUENCE {
///      version       INTEGER { v1(0) } (v1,...),
///      subject       Name,
///      subjectPKInfo SubjectPublicKeyInfo,
///      attributes    [0] Attributes }
/// ```
#[derive(Debug)]
pub struct X509CertificationRequestInfo<'a> {
    pub version: X509Version,
    pub subject: X509Name<'a>,
    pub subject_pki: SubjectPublicKeyInfo<'a>,
    pub attributes: AttributeMap<'a>,
    pub raw: &'a [u8],
}

/// What an `X509CertificationRequestInfo` holds.
pub struct X509CertificationRequestInfoView {
    pub version: X509Version,
    pub subject: X509NameView,
    pub subject_pki: SubjectPublicKeyInfoView,
    pub attributes: Seq<X509CriAttributeView>,
    pub raw: Seq<u8>,
}

impl<'a> View for X509CertificationRequestInfo<'a> {
    type V = X509CertificationRequestInfoView;

    open spec fn view(&self) -> X509CertificationRequestInfoView {
        X509CertificationRequestInfoView {
            version: self.version,
            subject: self.subject@,
            subject_pki: self.subject_pki@,
            attributes: self.attributes@,
            raw: self.raw@,
        }
    }
}

/// The body of a request at the front of `i`: a SEQUENCE of a version, a
/// name, a public key and attributes, and nothing more. Its raw bytes are
/// the whole element.
pub open spec fn spec_certification_request_info(i: Seq<u8>) -> Result<
    (Seq<u8>, X509CertificationRequestInfoView),
    X509Error,
> {
    match spec_container(i, CLASS_UNIVERSAL, TAG_SEQUENCE) {
        Err(e) => Err(e),
        Ok((rest, c)) => match spec_version_required(c) {
            Err(e) => Err(e),
            Ok((c1, version)) => match spec_name(c1) {
                Err(e) => Err(e),
                Ok((c2, subject)) => match spec_subject_public_key_info(c2) {
                    Err(e) => Err(e),
                    Ok((c3, subject_pki)) => match spec_cri_attributes(c3) {
                        Err(e) => Err(e),
                        Ok((c4, attributes)) => if c4.len() != 0 {
                            Err(X509Error::InvalidAttributes)
                        } else {
                            Ok(
                                (
                                    rest,
                                    X509CertificationRequestInfoView {
                                        version,
                                        subject,
                                        subject_pki,
                                        attributes,
                                        raw: span(i, rest),
                                    },
                                ),
                            )
                        },
                    },
                },
            },
        },
    }
}

impl<'a> X509CertificationRequestInfo<'a> {
    /// Reads the body of a request.
    pub fn from_der(i: &'a [u8]) -> (r: Result<
        (&'a [u8], X509CertificationRequestInfo<'a>),
        X509Error,
    >)
        ensures
            parsed(r) == spec_certification_request_info(i@),
            consumes(i@, r),
            r matches Ok((rest, _)) ==> is_truncated(
                spec_certification_request_info(cut(i@, rest@)),
            ),
            r matches Ok((rest, info)) ==> info.raw@ == span(i@, rest@) && info.attributes.wf(),
    {
        let (rest, c) = match container(i, CLASS_UNIVERSAL, TAG_SEQUENCE) {
            Ok(x) => x,
            Err(e) => { return Err(e); },
        };
        let (c1, version) = match X509Version::from_der_required(c) {
            Ok(x) => x,
            Err(e) => { return Err(e); },
        };
        let (c2, subject) = match X509Name::from_der(c1) {
            Ok(x) => x,
            Err(e) => { return Err(e); },
        };
        let (c3, subject_pki) = match SubjectPublicKeyInfo::from_der(c2) {
            Ok(x) => x,
            Err(e) => { return Err(e); },
        };
        let (c4, attributes) = match parse_cri_attributes(c3) {
            Ok(x) => x,
            Err(e) => { return Err(e); },
        };
        if c4.len() != 0 {
            return Err(X509Error::InvalidAttributes);
        }
        let raw = consumed(i, rest);
        Ok((rest, X509CertificationRequestInfo { version, subject, subject_pki, attributes, raw }))
    }
}

/// A request: its body, the algorithm of its signature, and the signature.
///
/// ```text
/// CertificationRequest ::= SEQUENCE {
///      certificationRequestInfo CertificationRequestInfo,
///      signatureAlgorithm       AlgorithmIdentifier,
///      signature                BIT STRING }
/// ```
#[derive(Debug)]
pub struct X509CertificationRequest<'a> {
    pub certification_request_info: X509CertificationRequestInfo<'a>,
    pub signature_algorithm: AlgorithmIdentifier<'a>,
    pub signature_value: BitStringObject<'a>,
}

/// What an `X509CertificationRequest` holds.
pub struct X509CertificationRequestView {
    pub certification_request_info: X509CertificationRequestInfoView,
    pub signature_algorithm: AlgorithmIdentifierView,
    pub signature_value: BitStringView,
}

impl<'a> View for X509CertificationRequest<'a> {
    type V = X509CertificationRequestView;

    open spec fn view(&self) -> X509CertificationRequestView {
        X509CertificationRequestView {
            certification_request_info: self.certification_request_info@,
            signature_algorithm: self.signature_algorithm@,
            signature_value: self.signature_value@,
        }
    }
}

/// One request at the front of `i`: a SEQUENCE of the body, an algorithm
/// identifier and a BIT STRING, and nothing more.
pub open spec fn spec_certification_request(i: Seq<u8>) -> Result<
    (Seq<u8>, X509CertificationRequestView),
    X509Error,
> {
    match spec_container(i, CLASS_UNIVERSAL, TAG_SEQUENCE) {
        Err(e) => Err(e),
        Ok((rest, c)) => match spec_certification_request_info(c) {
            Err(e) => Err(e),
            Ok((c1, certification_request_info)) => match spec_algorithm_identifier(c1) {
                Err(e) => Err(e),
                Ok((c2, signature_algorithm)) => match spec_signature_value(c2) {
                    Err(e) => Err(e),
                    Ok((c3, signature_value)) => if c3.len() != 0 {
                        Err(X509Error::InvalidCertificate)
                    } else {
                        Ok(
                            (
                                rest,
                                X509CertificationRequestView {
                                    certification_request_info,
                                    signature_algorithm,
                                    signature_value,
                                },
                            ),
                        )
                    },
                },
            },
        },
    }
}

/// The extensions that the first extensionRequest attribute of a list asks
/// for, if the list has such an attribute.
pub open spec fn spec_first_request(list: Seq<X509CriAttributeView>) -> Option<
    Seq<X509ExtensionView>,
>
    decreases list.len(),
{
    if list.len() == 0 {
        None
    } else {
        match list[0].parsed_attribute {
            ParsedCriAttributeView::ExtensionRequest(m) => Some(m),
            _ => spec_first_request(list.skip(1)),
        }
    }
}

/// The first extensionRequest is at `k` when no attribute before `k` is one.
pub proof fn lemma_first_request_at(list: Seq<X509CriAttributeView>, k: int)
    requires
        0 <= k < list.len(),
        list[k].parsed_attribute is ExtensionRequest,
        forall|j: int| 0 <= j < k ==> !(list[j].parsed_attribute is ExtensionRequest),
    ensures
        spec_first_request(list) == Some(list[k].parsed_attribute->ExtensionRequest_0),
    decreases k,
{
    if k > 0 {
        lemma_first_request_at(list.skip(1), k - 1);
    }
}

/// There is no request where no attribute is an extensionRequest.
pub proof fn lemma_first_request_none(list: Seq<X509CriAttributeView>)
    requires
        forall|j: int| 0 <= j < list.len() ==> !(list[j].parsed_attribute is ExtensionRequest),
    ensures
        spec_first_request(list) is None,
    decreases list.len(),
{
    if list.len() > 0 {
        lemma_first_request_none(list.skip(1));
    }
}

/// The decoded contents of a list of extensions, in order.
pub open spec fn spec_parsed_extensions(list: Seq<X509ExtensionView>) -> Seq<ParsedExtensionView> {
    list.map_values(|e: X509ExtensionView| e.parsed_extension)
}

/// The decoded contents of the extensions of a list, in order.
pub fn parsed_extensions<'a, 'b>(m: &'b ExtensionMap<'a>) -> (r: Vec<&'b ParsedExtension<'a>>)
    ensures
        views(r@) == spec_parsed_extensions(m@),
{
    let mut out: Vec<&'b ParsedExtension<'a>> = Vec::new();
    let mut k: usize = 0;
    let n = m.entries.len();
    while k < n
        invariant
            k <= n,
            n == m.entries@.len(),
            views(out@) =~= spec_parsed_extensions(m@).take(k as int),
        decreases n - k,
    {
        proof {
            lemma_views_push(out@, &m.entries[k as int].parsed_extension);
            assert(spec_parsed_extensions(m@).take(k + 1) =~= spec_parsed_extensions(m@).take(
                k as int,
            ).push(m.entries@[k as int]@.parsed_extension));
        }
        out.push(&m.entries[k].parsed_extension);
        k += 1;
    }
    assert(spec_parsed_extensions(m@).take(n as int) =~= spec_parsed_extensions(m@));
    out
}

impl<'a> X509CertificationRequest<'a> {
    /// Reads one request, and returns it with the bytes that follow it.
    pub fn from_der(i: &'a [u8]) -> (r: Result<(&'a [u8], X509CertificationRequest<'a>), X509Error>)
        ensures
            parsed(r) == spec_certification_request(i@),
            consumes(i@, r),
            r matches Ok((rest, _)) ==> is_truncated(spec_certification_request(cut(i@, rest@))),
            r matches Ok((_, req)) ==> req.certification_request_info.attributes.wf(),
    {
        let (rest, c) = match container(i, CLASS_UNIVERSAL, TAG_SEQUENCE) {
            Ok(x) => x,
            Err(e) => { return Err(e); },
        };
        let (c1, certification_request_info) = match X509CertificationRequestInfo::from_der(c) {
            Ok(x) => x,
            Err(e) => { return Err(e); },
        };
        let (c2, signature_algorithm) = match AlgorithmIdentifier::from_der(c1) {
            Ok(x) => x,
            Err(e) => { return Err(e); },
        };
        let (c3, signature_value) = match parse_signature_value(c2) {
            Ok(x) => x,
            Err(e) => { return Err(e); },
        };
        if c3.len() != 0 {
            return Err(X509Error::InvalidCertificate);
        }
        Ok(
            (
                rest,
                X509CertificationRequest {
                    certification_request_info,
                    signature_algorithm,
                    signature_value,
                },
            ),
        )
    }

    /// The decoded contents of the extensions that the request asks for, in
    /// order; none where the request has no extensionRequest attribute.
    pub fn requested_extensions<'b>(&'b self) -> (r: Option<Vec<&'b ParsedExtension<'a>>>)
        ensures
            match r {
                Some(v) => spec_first_request(self@.certification_request_info.attributes)
                    matches Some(m) && views(v@) == spec_parsed_extensions(m),
                None => spec_first_request(self@.certification_request_info.attributes) is None,
            },
    {
        let ghost list = self@.certification_request_info.attributes;
        let attrs = &self.certification_request_info.attributes.entries;
        let mut k: usize = 0;
        while k < attrs.len()
            invariant
                k <= attrs@.len(),
                list == views(attrs@),
                list == self@.certification_request_info.attributes,
                forall|j: int| 0 <= j < k ==> !(list[j].parsed_attribute is ExtensionRequest),
            decreases attrs@.len() - k,
        {
            match &attrs[k].parsed_attribute {
                ParsedCriAttribute::ExtensionRequest(req) => {
                    proof {
                        assert(list[k as int] == attrs@[k as int]@);
                        assert(list[k as int].parsed_attribute
                            == ParsedCriAttributeView::ExtensionRequest(req.extensions@));
                        lemma_first_request_at(list, k as int);
                    }
                    return Some(parsed_extensions(&req.extensions));
                },
                ParsedCriAttribute::UnsupportedAttribute => {
                    assert(list[k as int] == attrs@[k as int]@);
                },
            }
            k += 1;
        }
        proof {
            lemma_first_request_none(list);
        }
        None
    }

    /// Verifies the signature of the request under `public_key`, or, where
    /// none is given, under the key that the request holds.
    pub fn verify_signature(&self, public_key: Option<&SubjectPublicKeyInfo>) -> (r: Result<
        (),
        X509Error,
    >)
        ensures
            r == spec_verify(
                self@.signature_algorithm.algorithm,
                match public_key {
                    Some(k) => k@.subject_public_key.data,
                    None => self@.certification_request_info.subject_pki.subject_public_key.data,
                },
                self@.certification_request_info.raw,
                self@.signature_value.data,
            ),
    {
        let key = match public_key {
            Some(k) => k.subject_public_key.data,
            None => self.certification_request_info.subject_pki.subject_public_key.data,
        };
        verify(
            &self.signature_algorithm.algorithm,
            key,
            self.certification_request_info.raw,
            self.signature_value.data,
        )
    }
}

} // verus!
