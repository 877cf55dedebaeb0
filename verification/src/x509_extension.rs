//! The general form of an extension, the choice of a decoder for its
//! content, and lists of extensions without duplicates.
use crate::der::{
    consumes, container, cut, is_rest, is_truncated, parse_bool, parsed, spec_bool, spec_container,
    spec_tagged, tagged, CLASS_CONTEXT, CLASS_UNIVERSAL, TAG_OCTET_STRING, TAG_SEQUENCE,
};
use crate::error::X509Error;
use crate::extensions::{
    parse_basic_constraints, parse_crl_number, parse_extended_key_usage, parse_inhibit_any_policy,
    parse_invalidity_date, parse_key_usage, parse_policy_constraints, parse_policy_mappings,
    parse_reason_code, parse_subject_key_identifier, spec_basic_constraints, spec_crl_number,
    spec_extended_key_usage, spec_inhibit_any_policy, spec_invalidity_date, spec_key_usage,
    spec_policy_constraints, spec_policy_mappings, spec_reason_code, spec_subject_key_identifier,
    BasicConstraints, ExtendedKeyUsage, InhibitAnyPolicy, KeyIdentifier, KeyUsage,
    PolicyConstraints, PolicyMappings, PolicyMappingView, ReasonCode,
};
use crate::general_name::{
    parse_name_constraints, parse_subject_alternative_name, spec_name_constraints,
    spec_subject_alternative_name, GeneralNameView, NameConstraints, NameConstraintsView,
    SubjectAlternativeName,
};
use crate::integer::biguint_value;
use crate::objects::{
    oid_x509_ext_basic_constraints, oid_x509_ext_crl_number, oid_x509_ext_extended_key_usage,
    oid_x509_ext_inhibitant_any_policy, oid_x509_ext_invalidity_date, oid_x509_ext_key_usage,
    oid_x509_ext_name_constraints, oid_x509_ext_policy_constraints, oid_x509_ext_policy_mappings,
    oid_x509_ext_reason_code, oid_x509_ext_subject_alt_name, oid_x509_ext_subject_key_identifier,
    spec_oid_x509_ext_basic_constraints, spec_oid_x509_ext_crl_number,
    spec_oid_x509_ext_extended_key_usage, spec_oid_x509_ext_inhibitant_any_policy,
    spec_oid_x509_ext_invalidity_date, spec_oid_x509_ext_key_usage,
    spec_oid_x509_ext_name_constraints, spec_oid_x509_ext_policy_constraints,
    spec_oid_x509_ext_policy_mappings, spec_oid_x509_ext_reason_code,
    spec_oid_x509_ext_subject_alt_name, spec_oid_x509_ext_subject_key_identifier,
};
use crate::oid::{parse_oid, spec_oid, Oid};
use crate::repeated::{lemma_many_all, many, spec_many, views};
use crate::time::ASN1Time;
use num_bigint::BigUint;
use vstd::prelude::*;

verus! {

/// The decoded content of an extension, for the extensions that are
/// decoded; `UnsupportedExtension` for the others, and for content that its
/// decoder refused.
#[derive(Debug)]
pub enum ParsedExtension<'a> {
    UnsupportedExtension,
    SubjectKeyIdentifier(KeyIdentifier<'a>),
    KeyUsage(KeyUsage),
    PolicyMappings(PolicyMappings<'a>),
    SubjectAlternativeName(SubjectAlternativeName<'a>),
    BasicConstraints(BasicConstraints),
    NameConstraints(NameConstraints<'a>),
    PolicyConstraints(PolicyConstraints),
    ExtendedKeyUsage(ExtendedKeyUsage<'a>),
    InhibitAnyPolicy(InhibitAnyPolicy),
    CRLNumber(BigUint),
    ReasonCode(ReasonCode),
    InvalidityDate(ASN1Time),
}

/// What a `ParsedExtension` holds.
pub enum ParsedExtensionView {
    UnsupportedExtension,
    SubjectKeyIdentifier(Seq<u8>),
    KeyUsage(KeyUsage),
    PolicyMappings(Seq<PolicyMappingView>),
    SubjectAlternativeName(Seq<GeneralNameView>),
    BasicConstraints(BasicConstraints),
    NameConstraints(NameConstraintsView),
    PolicyConstraints(PolicyConstraints),
    ExtendedKeyUsage(Seq<Seq<u8>>),
    InhibitAnyPolicy(InhibitAnyPolicy),
    CRLNumber(nat),
    ReasonCode(ReasonCode),
    InvalidityDate(ASN1Time),
}

impl<'a> View for ParsedExtension<'a> {
    type V = ParsedExtensionView;

    open spec fn view(&self) -> ParsedExtensionView {
        match self {
            ParsedExtension::UnsupportedExtension => ParsedExtensionView::UnsupportedExtension,
            ParsedExtension::SubjectKeyIdentifier(k) => ParsedExtensionView::SubjectKeyIdentifier(
                k@,
            ),
            ParsedExtension::KeyUsage(k) => ParsedExtensionView::KeyUsage(*k),
            ParsedExtension::PolicyMappings(m) => ParsedExtensionView::PolicyMappings(m@),
            ParsedExtension::SubjectAlternativeName(n) =>
                ParsedExtensionView::SubjectAlternativeName(n@),
            ParsedExtension::BasicConstraints(b) => ParsedExtensionView::BasicConstraints(*b),
            ParsedExtension::NameConstraints(n) => ParsedExtensionView::NameConstraints(n@),
            ParsedExtension::PolicyConstraints(p) => ParsedExtensionView::PolicyConstraints(*p),
            ParsedExtension::ExtendedKeyUsage(k) => ParsedExtensionView::ExtendedKeyUsage(k@),
            ParsedExtension::InhibitAnyPolicy(p) => ParsedExtensionView::InhibitAnyPolicy(*p),
            ParsedExtension::CRLNumber(n) => ParsedExtensionView::CRLNumber(biguint_value(*n)),
            ParsedExtension::ReasonCode(c) => ParsedExtensionView::ReasonCode(*c),
            ParsedExtension::InvalidityDate(t) => ParsedExtensionView::InvalidityDate(*t),
        }
    }
}

/// The decoded content of the extension `oid` with the content `value`: the
/// decoder is chosen by `oid`; an unknown `oid`, and a `value` that the
/// decoder refuses, give `UnsupportedExtension`.
pub open spec fn spec_parse_extension(oid: Seq<u8>, value: Seq<u8>) -> ParsedExtensionView {
    if oid == spec_oid_x509_ext_subject_key_identifier() {
        match spec_subject_key_identifier(value) {
            Ok(k) => ParsedExtensionView::SubjectKeyIdentifier(k),
            Err(_) => ParsedExtensionView::UnsupportedExtension,
        }
    } else if oid == spec_oid_x509_ext_key_usage() {
        match spec_key_usage(value) {
            Ok(k) => ParsedExtensionView::KeyUsage(k),
            Err(_) => ParsedExtensionView::UnsupportedExtension,
        }
    } else if oid == spec_oid_x509_ext_policy_mappings() {
        match spec_policy_mappings(value) {
            Ok(k) => ParsedExtensionView::PolicyMappings(k),
            Err(_) => ParsedExtensionView::UnsupportedExtension,
        }
    } else if oid == spec_oid_x509_ext_subject_alt_name() {
        match spec_subject_alternative_name(value) {
            Ok(k) => ParsedExtensionView::SubjectAlternativeName(k),
            Err(_) => ParsedExtensionView::UnsupportedExtension,
        }
    } else if oid == spec_oid_x509_ext_basic_constraints() {
        match spec_basic_constraints(value) {
            Ok(k) => ParsedExtensionView::BasicConstraints(k),
            Err(_) => ParsedExtensionView::UnsupportedExtension,
        }
    } else if oid == spec_oid_x509_ext_name_constraints() {
        match spec_name_constraints(value) {
            Ok(k) => ParsedExtensionView::NameConstraints(k),
            Err(_) => ParsedExtensionView::UnsupportedExtension,
        }
    } else if oid == spec_oid_x509_ext_policy_constraints() {
        match spec_policy_constraints(value) {
            Ok(k) => ParsedExtensionView::PolicyConstraints(k),
            Err(_) => ParsedExtensionView::UnsupportedExtension,
        }
    } else if oid == spec_oid_x509_ext_extended_key_usage() {
        match spec_extended_key_usage(value) {
            Ok(k) => ParsedExtensionView::ExtendedKeyUsage(k),
            Err(_) => ParsedExtensionView::UnsupportedExtension,
        }
    } else if oid == spec_oid_x509_ext_inhibitant_any_policy() {
        match spec_inhibit_any_policy(value) {
            Ok(k) => ParsedExtensionView::InhibitAnyPolicy(k),
            Err(_) => ParsedExtensionView::UnsupportedExtension,
        }
    } else if oid == spec_oid_x509_ext_crl_number() {
        match spec_crl_number(value) {
            Ok(k) => ParsedExtensionView::CRLNumber(k),
            Err(_) => ParsedExtensionView::UnsupportedExtension,
        }
    } else if oid == spec_oid_x509_ext_reason_code() {
        match spec_reason_code(value) {
            Ok(k) => ParsedExtensionView::ReasonCode(k),
            Err(_) => ParsedExtensionView::UnsupportedExtension,
        }
    } else if oid == spec_oid_x509_ext_invalidity_date() {
        match spec_invalidity_date(value) {
            Ok(k) => ParsedExtensionView::InvalidityDate(k),
            Err(_) => ParsedExtensionView::UnsupportedExtension,
        }
    } else {
        ParsedExtensionView::UnsupportedExtension
    }
}

/// True of the object identifiers for which there is a decoder.
pub open spec fn spec_is_known_extension(oid: Seq<u8>) -> bool {
    ||| oid == spec_oid_x509_ext_subject_key_identifier()
    ||| oid == spec_oid_x509_ext_key_usage()
    ||| oid == spec_oid_x509_ext_policy_mappings()
    ||| oid == spec_oid_x509_ext_subject_alt_name()
    ||| oid == spec_oid_x509_ext_basic_constraints()
    ||| oid == spec_oid_x509_ext_name_constraints()
    ||| oid == spec_oid_x509_ext_policy_constraints()
    ||| oid == spec_oid_x509_ext_extended_key_usage()
    ||| oid == spec_oid_x509_ext_inhibitant_any_policy()
    ||| oid == spec_oid_x509_ext_crl_number()
    ||| oid == spec_oid_x509_ext_reason_code()
    ||| oid == spec_oid_x509_ext_invalidity_date()
}

/// Decodes the content of an extension with the decoder that its object
/// identifier selects.
pub fn parse_extension<'a>(value: &'a [u8], oid: &Oid) -> (r: ParsedExtension<'a>)
    ensures
        r@ == spec_parse_extension(oid@, value@),
{
    if oid.equals(&oid_x509_ext_subject_key_identifier()) {
        match parse_subject_key_identifier(value) {
            Ok(k) => ParsedExtension::SubjectKeyIdentifier(k),
            Err(_) => ParsedExtension::UnsupportedExtension,
        }
    } else if oid.equals(&oid_x509_ext_key_usage()) {
        match parse_key_usage(value) {
            Ok(k) => ParsedExtension::KeyUsage(k),
            Err(_) => ParsedExtension::UnsupportedExtension,
        }
    } else if oid.equals(&oid_x509_ext_policy_mappings()) {
        match parse_policy_mappings(value) {
            Ok(k) => ParsedExtension::PolicyMappings(k),
            Err(_) => ParsedExtension::UnsupportedExtension,
        }
    } else if oid.equals(&oid_x509_ext_subject_alt_name()) {
        match parse_subject_alternative_name(value) {
            Ok(k) => ParsedExtension::SubjectAlternativeName(k),
            Err(_) => ParsedExtension::UnsupportedExtension,
        }
    } else if oid.equals(&oid_x509_ext_basic_constraints()) {
        match parse_basic_constraints(value) {
            Ok(k) => ParsedExtension::BasicConstraints(k),
            Err(_) => ParsedExtension::UnsupportedExtension,
        }
    } else if oid.equals(&oid_x509_ext_name_constraints()) {
        match parse_name_constraints(value) {
            Ok(k) => ParsedExtension::NameConstraints(k),
            Err(_) => ParsedExtension::UnsupportedExtension,
        }
    } else if oid.equals(&oid_x509_ext_policy_constraints()) {
        match parse_policy_constraints(value) {
            Ok(k) => ParsedExtension::PolicyConstraints(k),
            Err(_) => ParsedExtension::UnsupportedExtension,
        }
    } else if oid.equals(&oid_x509_ext_extended_key_usage()) {
        match parse_extended_key_usage(value) {
            Ok(k) => ParsedExtension::ExtendedKeyUsage(k),
            Err(_) => ParsedExtension::UnsupportedExtension,
        }
    } else if oid.equals(&oid_x509_ext_inhibitant_any_policy()) {
        match parse_inhibit_any_policy(value) {
            Ok(k) => ParsedExtension::InhibitAnyPolicy(k),
            Err(_) => ParsedExtension::UnsupportedExtension,
        }
    } else if oid.equals(&oid_x509_ext_crl_number()) {
        match parse_crl_number(value) {
            Ok(k) => ParsedExtension::CRLNumber(k),
            Err(_) => ParsedExtension::UnsupportedExtension,
        }
    } else if oid.equals(&oid_x509_ext_reason_code()) {
        match parse_reason_code(value) {
            Ok(k) => ParsedExtension::ReasonCode(k),
            Err(_) => ParsedExtension::UnsupportedExtension,
        }
    } else if oid.equals(&oid_x509_ext_invalidity_date()) {
        match parse_invalidity_date(value) {
            Ok(k) => ParsedExtension::InvalidityDate(k),
            Err(_) => ParsedExtension::UnsupportedExtension,
        }
    } else {
        ParsedExtension::UnsupportedExtension
    }
}

/// An unknown extension is not decoded, whatever its content.
pub proof fn lemma_unknown_extension_is_unsupported(oid: Seq<u8>, value: Seq<u8>)
    requires
        !spec_is_known_extension(oid),
    ensures
        spec_parse_extension(oid, value) is UnsupportedExtension,
{
}

/// One extension: its object identifier, whether it is critical, the bytes
/// of its content, and the content decoded.
#[derive(Debug)]
pub struct X509Extension<'a> {
    pub oid: Oid<'a>,
    pub critical: bool,
    pub value: &'a [u8],
    pub parsed_extension: ParsedExtension<'a>,
}

/// What an `X509Extension` holds.
pub struct X509ExtensionView {
    pub oid: Seq<u8>,
    pub critical: bool,
    pub value: Seq<u8>,
    pub parsed_extension: ParsedExtensionView,
}

impl<'a> View for X509Extension<'a> {
    type V = X509ExtensionView;

    open spec fn view(&self) -> X509ExtensionView {
        X509ExtensionView {
            oid: self.oid@,
            critical: self.critical,
            value: self.value@,
            parsed_extension: self.parsed_extension@,
        }
    }
}

/// One extension at the front of `i`: a SEQUENCE of an object identifier, an
/// optional BOOLEAN, false when absent, and an OCTET STRING, and nothing
/// more. The content of the OCTET STRING is kept as it is and decoded by
/// `spec_parse_extension`. A critical extension whose content is not
/// decoded is refused.
pub open spec fn spec_extension(i: Seq<u8>) -> Result<(Seq<u8>, X509ExtensionView), X509Error> {
    match spec_container(i, CLASS_UNIVERSAL, TAG_SEQUENCE) {
        Err(e) => Err(e),
        Ok((rest, c)) => match spec_oid(c) {
            Err(_) => Err(X509Error::InvalidExtensions),
            Ok((c1, oid)) => {
                let (c2, critical) = match spec_bool(c1) {
                    Ok((c2, b)) => (c2, b),
                    Err(_) => (c1, false),
                };
                match spec_tagged(c2, TAG_OCTET_STRING) {
                    Err(_) => Err(X509Error::InvalidExtensions),
                    Ok((c3, value)) => if c3.len() != 0 {
                        Err(X509Error::InvalidExtensions)
                    } else {
                        let parsed_extension = spec_parse_extension(oid, value);
                        if critical && parsed_extension is UnsupportedExtension {
                            Err(X509Error::UnsupportedCriticalExtension)
                        } else {
                            Ok((rest, X509ExtensionView { oid, critical, value, parsed_extension }))
                        }
                    },
                }
            },
        },
    }
}

/// The reader of one extension, for `spec_many`.
pub open spec fn extension_reader() -> spec_fn(Seq<u8>) -> Result<
    (Seq<u8>, X509ExtensionView),
    X509Error,
> {
    |i: Seq<u8>| spec_extension(i)
}

impl<'a> X509Extension<'a> {
    /// Reads one extension, and decodes its content where its object
    /// identifier is known.
    pub fn from_der(i: &'a [u8]) -> (r: Result<(&'a [u8], Self), X509Error>)
        ensures
            parsed(r) == spec_extension(i@),
            consumes(i@, r),
            r matches Ok((_, e)) ==> critical_is_decoded(e@) && e@.parsed_extension
                == spec_parse_extension(e@.oid, e@.value),
            r matches Ok((rest, _)) ==> is_truncated(spec_extension(cut(i@, rest@))),
    {
        let (rest, c) = match container(i, CLASS_UNIVERSAL, TAG_SEQUENCE) {
            Ok(x) => x,
            Err(e) => { return Err(e); },
        };
        let (c1, oid) = match parse_oid(c) {
            Ok(x) => x,
            Err(_) => { return Err(X509Error::InvalidExtensions); },
        };
        let (c2, critical) = match parse_bool(c1) {
            Ok((c2, b)) => (c2, b),
            Err(_) => (c1, false),
        };
        let (c3, value) = match tagged(c2, TAG_OCTET_STRING) {
            Ok(x) => x,
            Err(_) => { return Err(X509Error::InvalidExtensions); },
        };
        if c3.len() != 0 {
            return Err(X509Error::InvalidExtensions);
        }
        let parsed_extension = parse_extension(value, &oid);
        if critical && matches!(parsed_extension, ParsedExtension::UnsupportedExtension) {
            return Err(X509Error::UnsupportedCriticalExtension);
        }
        Ok((rest, X509Extension { oid, critical, value, parsed_extension }))
    }

    /// An extension made of its parts.
    pub fn new(
        oid: Oid<'a>,
        critical: bool,
        value: &'a [u8],
        parsed_extension: ParsedExtension<'a>,
    ) -> (r: X509Extension<'a>)
        ensures
            r@ == (X509ExtensionView {
                oid: oid@,
                critical,
                value: value@,
                parsed_extension: parsed_extension@,
            }),
    {
        X509Extension { oid, critical, value, parsed_extension }
    }

    /// The decoded content, or `UnsupportedExtension`.
    pub fn parsed_extension(&self) -> (r: &ParsedExtension<'a>)
        ensures
            r@ == self@.parsed_extension,
    {
        &self.parsed_extension
    }
}

/// True of an extension that is decoded or is not critical.
pub open spec fn critical_is_decoded(e: X509ExtensionView) -> bool {
    !(e.critical && e.parsed_extension is UnsupportedExtension)
}

/// The test of `critical_is_decoded`, as a function.
pub open spec fn critical_is_decoded_test() -> spec_fn(X509ExtensionView) -> bool {
    |e: X509ExtensionView| critical_is_decoded(e)
}

/// True when no critical extension of the list is left undecoded.
pub open spec fn criticals_are_decoded(list: Seq<X509ExtensionView>) -> bool {
    forall|k: int| 0 <= k < list.len() ==> critical_is_decoded(#[trigger] list[k])
}

/// An extension that is read is decoded or is not critical.
pub proof fn lemma_extension_read_is_decoded(i: Seq<u8>)
    ensures
        spec_extension(i) matches Ok((_, e)) ==> critical_is_decoded(e) && e.parsed_extension
            == spec_parse_extension(e.oid, e.value),
{
}

/// In a list of extensions that is read, no critical extension is left
/// undecoded: a list with a critical extension that is unknown, or whose
/// content its decoder refuses, is refused as a whole.
pub proof fn lemma_extensions_read_are_decoded(i: Seq<u8>)
    ensures
        spec_many(extension_reader(), i) matches Ok(list) ==> criticals_are_decoded(list),
{
    assert forall|j: Seq<u8>|
        (#[trigger] extension_reader()(j)) matches Ok((_, v)) ==> critical_is_decoded_test()(v) by {
        lemma_extension_read_is_decoded(j);
    }
    lemma_many_all(extension_reader(), i, critical_is_decoded_test());
}

/// True when no object identifier occurs twice in the list.
pub open spec fn spec_unique(list: Seq<X509ExtensionView>) -> bool {
    forall|a: int, b: int| 0 <= a < b < list.len() ==> list[a].oid != list[b].oid
}

/// The extension of the list with the object identifier `oid`: the first
/// one, where there are several.
pub open spec fn spec_find(list: Seq<X509ExtensionView>, oid: Seq<u8>) -> Option<X509ExtensionView>
    decreases list.len(),
{
    if list.len() == 0 {
        None
    } else if list[0].oid == oid {
        Some(list[0])
    } else {
        spec_find(list.skip(1), oid)
    }
}

/// Whether the extension of the list with the object identifier `oid` is
/// critical, and its decoded content; none where the list has no such
/// extension.
pub open spec fn spec_lookup(list: Seq<X509ExtensionView>, oid: Seq<u8>) -> Option<
    (bool, ParsedExtensionView),
> {
    match spec_find(list, oid) {
        Some(e) => Some((e.critical, e.parsed_extension)),
        None => None,
    }
}

/// The first extension with `oid` is at `k` when none before `k` has `oid`.
pub proof fn lemma_find_at(list: Seq<X509ExtensionView>, oid: Seq<u8>, k: int)
    requires
        0 <= k < list.len(),
        list[k].oid == oid,
        forall|j: int| 0 <= j < k ==> list[j].oid != oid,
    ensures
        spec_find(list, oid) == Some(list[k]),
    decreases k,
{
    if k > 0 {
        lemma_find_at(list.skip(1), oid, k - 1);
    }
}

/// No extension is found where none has `oid`.
pub proof fn lemma_find_none(list: Seq<X509ExtensionView>, oid: Seq<u8>)
    requires
        forall|j: int| 0 <= j < list.len() ==> list[j].oid != oid,
    ensures
        spec_find(list, oid) is None,
    decreases list.len(),
{
    if list.len() > 0 {
        lemma_find_none(list.skip(1), oid);
    }
}

/// A list of extensions, in the order of the encoding, to be looked up by
/// object identifier.
#[derive(Debug)]
pub struct ExtensionMap<'a> {
    pub entries: Vec<X509Extension<'a>>,
}

impl<'a> View for ExtensionMap<'a> {
    type V = Seq<X509ExtensionView>;

    open spec fn view(&self) -> Seq<X509ExtensionView> {
        views(self.entries@)
    }
}

impl<'a> ExtensionMap<'a> {
    /// True of a list in which no object identifier occurs twice. The
    /// decoders return such lists only.
    pub open spec fn wf(&self) -> bool {
        spec_unique(self@)
    }

    /// The empty list.
    pub fn new() -> (r: ExtensionMap<'a>)
        ensures
            r@ == Seq::<X509ExtensionView>::empty(),
            r.wf(),
    {
        let r = ExtensionMap { entries: Vec::new() };
        assert(r@ =~= Seq::<X509ExtensionView>::empty());
        r
    }

    /// The number of extensions.
    pub fn len(&self) -> (r: usize)
        ensures
            r == self@.len(),
    {
        self.entries.len()
    }

    /// True of the empty list.
    pub fn is_empty(&self) -> (r: bool)
        ensures
            r == (self@.len() == 0),
    {
        self.entries.len() == 0
    }

    /// The extension with the object identifier `oid`, if the list has it.
    pub fn get<'b>(&'b self, oid: &Oid) -> (r: Option<&'b X509Extension<'a>>)
        ensures
            match r {
                Some(e) => spec_find(self@, oid@) == Some(e@),
                None => spec_find(self@, oid@) is None,
            },
    {
        let mut k: usize = 0;
        while k < self.entries.len()
            invariant
                k <= self.entries@.len(),
                forall|j: int| 0 <= j < k ==> self@[j].oid != oid@,
            decreases self.entries@.len() - k,
        {
            if self.entries[k].oid.equals(oid) {
                proof {
                    lemma_find_at(self@, oid@, k as int);
                }
                return Some(&self.entries[k]);
            }
            k += 1;
        }
        proof {
            lemma_find_none(self@, oid@);
        }
        None
    }
}

/// Makes a list for lookup of the extensions read, and refuses a list with
/// the same object identifier twice.
pub fn extensions_sequence_to_map<'a>(v: Vec<X509Extension<'a>>) -> (r: Result<
    ExtensionMap<'a>,
    X509Error,
>)
    ensures
        match r {
            Ok(m) => m@ == views(v@) && m.wf(),
            Err(e) => e == X509Error::DuplicateExtensions && !spec_unique(views(v@)),
        },
{
    let ghost list = views(v@);
    let mut b: usize = 0;
    while b < v.len()
        invariant
            b <= v@.len(),
            list == views(v@),
            forall|x: int, y: int| 0 <= x < y < b ==> list[x].oid != list[y].oid,
        decreases v@.len() - b,
    {
        let mut a: usize = 0;
        while a < b
            invariant
                a <= b < v@.len(),
                list == views(v@),
                forall|x: int| 0 <= x < a ==> list[x].oid != list[b as int].oid,
            decreases b - a,
        {
            if v[a].oid.equals(&v[b].oid) {
                assert(list[a as int].oid == list[b as int].oid);
                return Err(X509Error::DuplicateExtensions);
            }
            a += 1;
        }
        b += 1;
    }
    Ok(ExtensionMap { entries: v })
}

/// The list that the extensions read make: the same, unless an object
/// identifier occurs twice.
pub open spec fn spec_to_map(list: Seq<X509ExtensionView>) -> Result<
    Seq<X509ExtensionView>,
    X509Error,
> {
    if spec_unique(list) {
        Ok(list)
    } else {
        Err(X509Error::DuplicateExtensions)
    }
}

/// A SEQUENCE of extensions at the front of `i`: its content is extensions
/// from end to end.
pub open spec fn spec_extension_sequence(i: Seq<u8>) -> Result<
    (Seq<u8>, Seq<X509ExtensionView>),
    X509Error,
> {
    match spec_container(i, CLASS_UNIVERSAL, TAG_SEQUENCE) {
        Err(e) => Err(e),
        Ok((rest, c)) => match spec_many(extension_reader(), c) {
            Err(e) => Err(e),
            Ok(list) => Ok((rest, list)),
        },
    }
}

/// Reads a SEQUENCE of extensions.
pub fn parse_extension_sequence<'a>(i: &'a [u8]) -> (r: Result<
    (&'a [u8], Vec<X509Extension<'a>>),
    X509Error,
>)
    ensures
        match r {
            Ok((rest, v)) => spec_extension_sequence(i@) == Ok::<
                (Seq<u8>, Seq<X509ExtensionView>),
                X509Error,
            >((rest@, views(v@))) && is_rest(i@, rest@) && rest@.len() < i@.len()
                && criticals_are_decoded(views(v@)),
            Err(e) => spec_extension_sequence(i@) == Err::<
                (Seq<u8>, Seq<X509ExtensionView>),
                X509Error,
            >(e),
        },
{
    let (rest, c) = match container(i, CLASS_UNIVERSAL, TAG_SEQUENCE) {
        Ok(x) => x,
        Err(e) => { return Err(e); },
    };
    proof {
        lemma_extensions_read_are_decoded(c@);
    }
    match many(c, X509Extension::from_der, Ghost(extension_reader())) {
        Err(e) => Err(e),
        Ok(list) => Ok((rest, list)),
    }
}

/// The optional extensions behind the explicit context tag `tag`, at the
/// front of `i`: none where `i` is empty; else an element of the context
/// class with that tag, whose content is one SEQUENCE of extensions in which
/// no object identifier occurs twice. An element of another class or with
/// another tag gives `InvalidExtensions`.
pub open spec fn spec_extensions(i: Seq<u8>, tag: u32) -> Result<
    (Seq<u8>, Seq<X509ExtensionView>),
    X509Error,
> {
    if i.len() == 0 {
        Ok((i, Seq::empty()))
    } else {
        match spec_container(i, CLASS_CONTEXT, tag) {
            Err(_) => Err(X509Error::InvalidExtensions),
            Ok((rest, c)) => match spec_extension_sequence(c) {
                Err(e) => Err(e),
                Ok((c1, list)) => if c1.len() != 0 {
                    Err(X509Error::InvalidExtensions)
                } else {
                    match spec_to_map(list) {
                        Err(e) => Err(e),
                        Ok(m) => Ok((rest, m)),
                    }
                },
            },
        }
    }
}

/// Reads the optional extensions behind an explicit context tag.
pub fn parse_extensions<'a>(i: &'a [u8], explicit_tag: u32) -> (r: Result<
    (&'a [u8], ExtensionMap<'a>),
    X509Error,
>)
    ensures
        parsed(r) == spec_extensions(i@, explicit_tag),
        r matches Ok((rest, m)) ==> is_rest(i@, rest@) && m.wf() && criticals_are_decoded(m@),
{
    if i.len() == 0 {
        assert(i@ =~= i@.skip(0));
        return Ok((i, ExtensionMap::new()));
    }
    let (rest, c) = match container(i, CLASS_CONTEXT, explicit_tag) {
        Ok(x) => x,
        Err(_) => { return Err(X509Error::InvalidExtensions); },
    };
    let (c1, list) = match parse_extension_sequence(c) {
        Ok(x) => x,
        Err(e) => { return Err(e); },
    };
    if c1.len() != 0 {
        return Err(X509Error::InvalidExtensions);
    }
    match extensions_sequence_to_map(list) {
        Err(e) => Err(e),
        Ok(m) => Ok((rest, m)),
    }
}

} // verus!
