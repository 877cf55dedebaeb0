//! X.501 names: a sequence of relative distinguished names, each a set of
//! attributes.
use crate::der::{
    consumed, consumes, container, cut, der_header, is_truncated, parse_any, parsed,
    read_der_header, span, spec_any, spec_as_slice, spec_as_str, spec_container, CLASS_UNIVERSAL,
    DerObject, DerObjectView, Header, TAG_IA5_STRING, TAG_NUMERIC_STRING, TAG_PRINTABLE_STRING,
    TAG_SEQUENCE, TAG_SET, TAG_UTF8_STRING,
};
use crate::error::X509Error;
use crate::objects::{
    oid_name, oid_pkcs9_email_address, oid_x509_common_name, oid_x509_country_name,
    oid_x509_locality_name, oid_x509_organization_name, oid_x509_organizational_unit,
    oid_x509_state_or_province_name, spec_oid_name, spec_oid_pkcs9_email_address,
    spec_oid_x509_common_name, spec_oid_x509_country_name, spec_oid_x509_locality_name,
    spec_oid_x509_organization_name, spec_oid_x509_organizational_unit,
    spec_oid_x509_state_or_province_name,
};
use crate::oid::{parse_oid, spec_oid, Oid};
use crate::repeated::{lemma_views_push, many, spec_many, views};
use crate::text::{hex_upper, spec_hex_upper, str_from_utf8};
use vstd::prelude::*;
use vstd::slice::slice_subrange;
use vstd::string::*;
use vstd::utf8::{decode_utf8, valid_utf8};

verus! {

/// One attribute of a name: its type and its value.
#[derive(Clone, Copy, Debug)]
pub struct AttributeTypeAndValue<'a> {
    pub attr_type: Oid<'a>,
    pub attr_value: DerObject<'a>,
}

/// What an `AttributeTypeAndValue` holds.
pub struct AttributeTypeAndValueView {
    pub attr_type: Seq<u8>,
    pub attr_value: DerObjectView,
}

impl<'a> View for AttributeTypeAndValue<'a> {
    type V = AttributeTypeAndValueView;

    open spec fn view(&self) -> AttributeTypeAndValueView {
        AttributeTypeAndValueView { attr_type: self.attr_type@, attr_value: self.attr_value@ }
    }
}

/// A PrintableString read without a check of its characters: a DER header
/// with that tag, and a content that is there in full and is UTF-8.
pub open spec fn spec_unchecked_printable(i: Seq<u8>) -> Result<
    (Seq<u8>, DerObjectView),
    X509Error,
> {
    match der_header(i) {
        Err(e) => Err(e),
        Ok((body, h)) => match h.length {
            None => Err(X509Error::InvalidLength),
            Some(l) => if h.tag != TAG_PRINTABLE_STRING {
                Err(X509Error::InvalidTag)
            } else if l > body.len() {
                Err(X509Error::Truncated)
            } else if !valid_utf8(body.take(l as int)) {
                Err(X509Error::Malformed)
            } else {
                Ok((body.skip(l as int), DerObjectView { header: h, data: body.take(l as int) }))
            },
        },
    }
}

/// The value of an attribute: any DER element; or, where the codec refuses
/// the element, a PrintableString with characters outside its alphabet.
pub open spec fn spec_attribute_value(i: Seq<u8>) -> Result<(Seq<u8>, DerObjectView), X509Error> {
    match spec_any(i) {
        Ok(x) => Ok(x),
        Err(_) => spec_unchecked_printable(i),
    }
}

/// Reads a PrintableString without a check of its characters.
pub fn parse_unchecked_printable<'a>(i: &'a [u8]) -> (r: Result<
    (&'a [u8], DerObject<'a>),
    X509Error,
>)
    ensures
        parsed(r) == spec_unchecked_printable(i@),
        consumes(i@, r),
{
    let (body, h) = match read_der_header(i) {
        Ok(x) => x,
        Err(e) => { return Err(e); },
    };
    match h.length {
        None => Err(X509Error::InvalidLength),
        Some(l) => {
            if h.tag != TAG_PRINTABLE_STRING {
                Err(X509Error::InvalidTag)
            } else if l > body.len() {
                Err(X509Error::Truncated)
            } else {
                let data = slice_subrange(body, 0, l);
                let rest = slice_subrange(body, l, body.len());
                proof {
                    assert(data@ =~= body@.take(l as int));
                    assert(rest@ =~= body@.skip(l as int));
                    assert(rest@ =~= i@.skip(i@.len() - rest@.len()));
                }
                match str_from_utf8(data) {
                    None => Err(X509Error::Malformed),
                    Some(_) => Ok((rest, DerObject { header: h, data })),
                }
            }
        },
    }
}

/// Reads the value of an attribute.
pub fn parse_attribute_value<'a>(i: &'a [u8]) -> (r: Result<(&'a [u8], DerObject<'a>), X509Error>)
    ensures
        parsed(r) == spec_attribute_value(i@),
        consumes(i@, r),
{
    match parse_any(i) {
        Ok(x) => Ok(x),
        Err(_) => parse_unchecked_printable(i),
    }
}

/// One attribute at the front of `i`: a SEQUENCE of an object identifier and
/// a value, and nothing more.
pub open spec fn spec_attribute(i: Seq<u8>) -> Result<
    (Seq<u8>, AttributeTypeAndValueView),
    X509Error,
> {
    match spec_container(i, CLASS_UNIVERSAL, TAG_SEQUENCE) {
        Err(e) => Err(e),
        Ok((rest, c)) => match spec_oid(c) {
            Err(_) => Err(X509Error::InvalidX509Name),
            Ok((c1, attr_type)) => match spec_attribute_value(c1) {
                Err(_) => Err(X509Error::InvalidX509Name),
                Ok((c2, attr_value)) => if c2.len() != 0 {
                    Err(X509Error::InvalidX509Name)
                } else {
                    Ok((rest, AttributeTypeAndValueView { attr_type, attr_value }))
                },
            },
        },
    }
}

/// The reader of one attribute, for `spec_many`.
pub open spec fn attribute_reader() -> spec_fn(Seq<u8>) -> Result<
    (Seq<u8>, AttributeTypeAndValueView),
    X509Error,
> {
    |i: Seq<u8>| spec_attribute(i)
}

impl<'a> AttributeTypeAndValue<'a> {
    /// Reads one attribute type and value.
    pub fn from_der(i: &'a [u8]) -> (r: Result<(&'a [u8], Self), X509Error>)
        ensures
            parsed(r) == spec_attribute(i@),
            consumes(i@, r),
            r matches Ok((rest, _)) ==> is_truncated(spec_attribute(cut(i@, rest@))),
    {
        let (rest, c) = match container(i, CLASS_UNIVERSAL, TAG_SEQUENCE) {
            Ok(x) => x,
            Err(e) => { return Err(e); },
        };
        let (c1, attr_type) = match parse_oid(c) {
            Ok(x) => x,
            Err(_) => { return Err(X509Error::InvalidX509Name); },
        };
        let (c2, attr_value) = match parse_attribute_value(c1) {
            Ok(x) => x,
            Err(_) => { return Err(X509Error::InvalidX509Name); },
        };
        if c2.len() != 0 {
            return Err(X509Error::InvalidX509Name);
        }
        Ok((rest, AttributeTypeAndValue { attr_type, attr_value }))
    }

    /// The value as text, for the string types that are read as text.
    pub fn as_str(&self) -> (r: Result<&'a str, X509Error>)
        ensures
            match r {
                Ok(s) => spec_as_str(self@.attr_value) == Ok::<Seq<char>, X509Error>(s@),
                Err(e) => spec_as_str(self@.attr_value) == Err::<Seq<char>, X509Error>(e),
            },
    {
        self.attr_value.as_str()
    }

    /// The value as bytes, for the types that have bytes.
    pub fn as_slice(&self) -> (r: Result<&'a [u8], X509Error>)
        ensures
            match r {
                Ok(b) => spec_as_slice(self@.attr_value) == Ok::<Seq<u8>, X509Error>(b@),
                Err(e) => spec_as_slice(self@.attr_value) == Err::<Seq<u8>, X509Error>(e),
            },
    {
        self.attr_value.as_slice()
    }
}

/// A relative distinguished name: one attribute or more.
#[derive(Debug)]
pub struct RelativeDistinguishedName<'a> {
    pub set: Vec<AttributeTypeAndValue<'a>>,
}

impl<'a> View for RelativeDistinguishedName<'a> {
    type V = Seq<AttributeTypeAndValueView>;

    open spec fn view(&self) -> Seq<AttributeTypeAndValueView> {
        views(self.set@)
    }
}

/// One relative distinguished name at the front of `i`: a SET whose content
/// is attributes from end to end, at least one.
pub open spec fn spec_rdn(i: Seq<u8>) -> Result<
    (Seq<u8>, Seq<AttributeTypeAndValueView>),
    X509Error,
> {
    match spec_container(i, CLASS_UNIVERSAL, TAG_SET) {
        Err(e) => Err(e),
        Ok((rest, c)) => match spec_many(attribute_reader(), c) {
            Err(e) => Err(e),
            Ok(set) => if set.len() == 0 {
                Err(X509Error::InvalidX509Name)
            } else {
                Ok((rest, set))
            },
        },
    }
}

/// The reader of one relative distinguished name, for `spec_many`.
pub open spec fn rdn_reader() -> spec_fn(Seq<u8>) -> Result<
    (Seq<u8>, Seq<AttributeTypeAndValueView>),
    X509Error,
> {
    |i: Seq<u8>| spec_rdn(i)
}

impl<'a> RelativeDistinguishedName<'a> {
    /// Reads one relative distinguished name.
    pub fn from_der(i: &'a [u8]) -> (r: Result<(&'a [u8], Self), X509Error>)
        ensures
            parsed(r) == spec_rdn(i@),
            consumes(i@, r),
            r matches Ok((rest, _)) ==> is_truncated(spec_rdn(cut(i@, rest@))),
    {
        let (rest, c) = match container(i, CLASS_UNIVERSAL, TAG_SET) {
            Ok(x) => x,
            Err(e) => { return Err(e); },
        };
        let set = match many(c, AttributeTypeAndValue::from_der, Ghost(attribute_reader())) {
            Ok(x) => x,
            Err(e) => { return Err(e); },
        };
        if set.len() == 0 {
            return Err(X509Error::InvalidX509Name);
        }
        Ok((rest, RelativeDistinguishedName { set }))
    }
}

/// True of the header of a universal element of one of the string types
/// that a name shows as text: UTF8String, NumericString, PrintableString,
/// IA5String.
pub open spec fn is_name_text(h: Header) -> bool {
    h.class == CLASS_UNIVERSAL && (h.tag == TAG_UTF8_STRING || h.tag == TAG_NUMERIC_STRING
        || h.tag == TAG_PRINTABLE_STRING || h.tag == TAG_IA5_STRING)
}

/// How the value of an attribute is written: as its text, for the four
/// string types; else as its bytes in upper-case hexadecimal.
pub open spec fn spec_attribute_value_text(v: DerObjectView) -> Result<Seq<char>, X509Error> {
    if is_name_text(v.header) {
        if valid_utf8(v.data) {
            Ok(decode_utf8(v.data))
        } else {
            Err(X509Error::InvalidX509Name)
        }
    } else {
        match spec_as_slice(v) {
            Ok(b) => Ok(spec_hex_upper(b)),
            Err(_) => Err(X509Error::InvalidX509Name),
        }
    }
}

/// How an attribute is written: the name of its type, `=`, its value.
pub open spec fn spec_attribute_text(a: AttributeTypeAndValueView) -> Result<
    Seq<char>,
    X509Error,
> {
    match spec_attribute_value_text(a.attr_value) {
        Ok(t) => Ok(spec_oid_name(a.attr_type) + "="@ + t),
        Err(e) => Err(e),
    }
}

/// One more text after those joined so far, with the separator between them.
pub open spec fn spec_join(acc: Seq<char>, sep: Seq<char>, t: Seq<char>) -> Seq<char> {
    if acc.len() == 0 {
        t
    } else {
        acc + sep + t
    }
}

/// How a relative distinguished name is written: its attributes in order,
/// with ` + ` between them.
pub open spec fn spec_rdn_text(set: Seq<AttributeTypeAndValueView>) -> Result<Seq<char>, X509Error>
    decreases set.len(),
{
    if set.len() == 0 {
        Ok(Seq::empty())
    } else {
        match spec_rdn_text(set.drop_last()) {
            Err(e) => Err(e),
            Ok(acc) => match spec_attribute_text(set.last()) {
                Err(e) => Err(e),
                Ok(t) => Ok(spec_join(acc, " + "@, t)),
            },
        }
    }
}

/// How a name is written: its relative distinguished names in order, with
/// `, ` between them.
pub open spec fn spec_name_text(rdn_seq: Seq<Seq<AttributeTypeAndValueView>>) -> Result<
    Seq<char>,
    X509Error,
>
    decreases rdn_seq.len(),
{
    if rdn_seq.len() == 0 {
        Ok(Seq::empty())
    } else {
        match spec_name_text(rdn_seq.drop_last()) {
            Err(e) => Err(e),
            Ok(acc) => match spec_rdn_text(rdn_seq.last()) {
                Err(e) => Err(e),
                Ok(t) => Ok(spec_join(acc, ", "@, t)),
            },
        }
    }
}

/// What a name shows as: its text, or a fixed text where it has none.
pub open spec fn spec_name_display(rdn_seq: Seq<Seq<AttributeTypeAndValueView>>) -> Seq<char> {
    match spec_name_text(rdn_seq) {
        Ok(s) => s,
        Err(_) => "<X509Error: Invalid X.509 name>"@,
    }
}

/// Writes the value of an attribute: text for the four string types, else
/// upper-case hexadecimal of its bytes.
pub fn attribute_value_to_string(attr: &DerObject, _attr_type: &Oid) -> (r: Result<
    String,
    X509Error,
>)
    ensures
        match r {
            Ok(s) => spec_attribute_value_text(attr@) == Ok::<Seq<char>, X509Error>(s@),
            Err(e) => spec_attribute_value_text(attr@) == Err::<Seq<char>, X509Error>(e),
        },
{
    let h = attr.header;
    let text = h.class == CLASS_UNIVERSAL && (h.tag == TAG_UTF8_STRING || h.tag
        == TAG_NUMERIC_STRING || h.tag == TAG_PRINTABLE_STRING || h.tag == TAG_IA5_STRING);
    if text {
        match str_from_utf8(attr.data) {
            Some(s) => Ok(String::from_str(s)),
            None => Err(X509Error::InvalidX509Name),
        }
    } else {
        match attr.as_slice() {
            Ok(b) => Ok(hex_upper(b)),
            Err(_) => Err(X509Error::InvalidX509Name),
        }
    }
}

/// Joins one more text to those joined so far.
fn join(acc: String, sep: &str, t: String) -> (r: String)
    ensures
        r@ == spec_join(acc@, sep@, t@),
{
    if acc.as_str().is_empty() {
        t
    } else {
        let mut r = acc;
        r.append(sep);
        r.append(t.as_str());
        r
    }
}

/// Writes one attribute: the name of its type, `=`, its value.
pub fn attribute_to_string(attr: &AttributeTypeAndValue) -> (r: Result<String, X509Error>)
    ensures
        match r {
            Ok(s) => spec_attribute_text(attr@) == Ok::<Seq<char>, X509Error>(s@),
            Err(e) => spec_attribute_text(attr@) == Err::<Seq<char>, X509Error>(e),
        },
{
    match attribute_value_to_string(&attr.attr_value, &attr.attr_type) {
        Err(e) => Err(e),
        Ok(t) => {
            let mut s = oid_name(&attr.attr_type);
            s.append("=");
            s.append(t.as_str());
            Ok(s)
        },
    }
}

/// Writes one relative distinguished name.
pub fn rdn_to_string(rdn: &RelativeDistinguishedName) -> (r: Result<String, X509Error>)
    ensures
        match r {
            Ok(s) => spec_rdn_text(rdn@) == Ok::<Seq<char>, X509Error>(s@),
            Err(e) => spec_rdn_text(rdn@) == Err::<Seq<char>, X509Error>(e),
        },
{
    let mut acc = String::new();
    let mut k: usize = 0;
    let n = rdn.set.len();
    proof {
        assert(rdn@.take(0) =~= Seq::<AttributeTypeAndValueView>::empty());
    }
    while k < n
        invariant
            k <= n,
            n == rdn.set@.len(),
            spec_rdn_text(rdn@.take(k as int)) == Ok::<Seq<char>, X509Error>(acc@),
        decreases n - k,
    {
        proof {
            assert(rdn@.take(k + 1).drop_last() =~= rdn@.take(k as int));
            assert(rdn@.take(k + 1).last() == rdn.set@[k as int]@);
        }
        match attribute_to_string(&rdn.set[k]) {
            Err(e) => {
                proof {
                    lemma_rdn_text_fails(rdn@, k + 1);
                }
                return Err(e);
            },
            Ok(t) => {
                acc = join(acc, " + ", t);
            },
        }
        k += 1;
    }
    proof {
        assert(rdn@.take(n as int) =~= rdn@);
    }
    Ok(acc)
}

/// Where the first `k` attributes cannot be written, the whole set cannot.
pub proof fn lemma_rdn_text_fails(set: Seq<AttributeTypeAndValueView>, k: int)
    requires
        0 <= k <= set.len(),
        spec_rdn_text(set.take(k)) is Err,
    ensures
        spec_rdn_text(set) == spec_rdn_text(set.take(k)),
    decreases set.len() - k,
{
    if k == set.len() {
        assert(set.take(k) =~= set);
    } else {
        assert(set.take(k + 1).drop_last() =~= set.take(k));
        lemma_rdn_text_fails(set, k + 1);
    }
}

/// Where the first `k` relative distinguished names cannot be written, the
/// whole name cannot.
pub proof fn lemma_name_text_fails(rdn_seq: Seq<Seq<AttributeTypeAndValueView>>, k: int)
    requires
        0 <= k <= rdn_seq.len(),
        spec_name_text(rdn_seq.take(k)) is Err,
    ensures
        spec_name_text(rdn_seq) == spec_name_text(rdn_seq.take(k)),
    decreases rdn_seq.len() - k,
{
    if k == rdn_seq.len() {
        assert(rdn_seq.take(k) =~= rdn_seq);
    } else {
        assert(rdn_seq.take(k + 1).drop_last() =~= rdn_seq.take(k));
        lemma_name_text_fails(rdn_seq, k + 1);
    }
}

/// Writes a name: relative distinguished names joined by `, `, the
/// attributes of each joined by ` + `.
pub fn x509name_to_string(rdn_seq: &[RelativeDistinguishedName]) -> (r: Result<String, X509Error>)
    ensures
        match r {
            Ok(s) => spec_name_text(views(rdn_seq@)) == Ok::<Seq<char>, X509Error>(s@),
            Err(e) => spec_name_text(views(rdn_seq@)) == Err::<Seq<char>, X509Error>(e),
        },
{
    let ghost all = views(rdn_seq@);
    let mut acc = String::new();
    let mut k: usize = 0;
    let n = rdn_seq.len();
    proof {
        assert(all.take(0) =~= Seq::<Seq<AttributeTypeAndValueView>>::empty());
    }
    while k < n
        invariant
            k <= n,
            n == rdn_seq@.len(),
            all == views(rdn_seq@),
            spec_name_text(all.take(k as int)) == Ok::<Seq<char>, X509Error>(acc@),
        decreases n - k,
    {
        proof {
            assert(all.take(k + 1).drop_last() =~= all.take(k as int));
            assert(all.take(k + 1).last() == rdn_seq@[k as int]@);
        }
        match rdn_to_string(&rdn_seq[k]) {
            Err(e) => {
                proof {
                    lemma_name_text_fails(all, k + 1);
                }
                return Err(e);
            },
            Ok(t) => {
                acc = join(acc, ", ", t);
            },
        }
        k += 1;
    }
    proof {
        assert(all.take(n as int) =~= all);
    }
    Ok(acc)
}

/// A name: its relative distinguished names in order, and the bytes that
/// encode it.
#[derive(Debug)]
pub struct X509Name<'a> {
    pub rdn_seq: Vec<RelativeDistinguishedName<'a>>,
    pub raw: &'a [u8],
}

/// What an `X509Name` holds.
pub struct X509NameView {
    pub rdn_seq: Seq<Seq<AttributeTypeAndValueView>>,
    pub raw: Seq<u8>,
}

impl<'a> View for X509Name<'a> {
    type V = X509NameView;

    open spec fn view(&self) -> X509NameView {
        X509NameView { rdn_seq: views(self.rdn_seq@), raw: self.raw@ }
    }
}

/// One name at the front of `i`: a SEQUENCE whose content is relative
/// distinguished names from end to end. Its raw bytes are the whole element.
pub open spec fn spec_name(i: Seq<u8>) -> Result<(Seq<u8>, X509NameView), X509Error> {
    match spec_container(i, CLASS_UNIVERSAL, TAG_SEQUENCE) {
        Err(e) => Err(e),
        Ok((rest, c)) => match spec_many(rdn_reader(), c) {
            Err(e) => Err(e),
            Ok(rdn_seq) => Ok((rest, X509NameView { rdn_seq, raw: span(i, rest) })),
        },
    }
}

/// The test that an attribute has the type `oid`.
pub open spec fn has_type(oid: Seq<u8>) -> spec_fn(AttributeTypeAndValueView) -> bool {
    |a: AttributeTypeAndValueView| a.attr_type == oid
}

/// The attributes of a name with the type `oid`, in the name's order.
pub open spec fn spec_by_oid(name: X509NameView, oid: Seq<u8>) -> Seq<AttributeTypeAndValueView> {
    name.rdn_seq.flatten().filter(has_type(oid))
}

impl<'a> X509Name<'a> {
    /// Reads one name.
    pub fn from_der(i: &'a [u8]) -> (r: Result<(&'a [u8], Self), X509Error>)
        ensures
            parsed(r) == spec_name(i@),
            consumes(i@, r),
            r matches Ok((rest, name)) ==> name@.rdn_seq.len() > 0 ==> is_truncated(
                spec_name(cut(i@, rest@)),
            ),
    {
        let (rest, c) = match container(i, CLASS_UNIVERSAL, TAG_SEQUENCE) {
            Ok(x) => x,
            Err(e) => { return Err(e); },
        };
        let rdn_seq = match many(c, RelativeDistinguishedName::from_der, Ghost(rdn_reader())) {
            Ok(x) => x,
            Err(e) => { return Err(e); },
        };
        let raw = consumed(i, rest);
        Ok((rest, X509Name { rdn_seq, raw }))
    }

    /// The name as text: `C=FR, O=Example, CN=a + CN=b`. A name with a
    /// value that has no text form shows as a fixed text instead.
    pub fn to_string(&self) -> (r: String)
        ensures
            r@ == spec_name_display(self@.rdn_seq),
    {
        match x509name_to_string(self.rdn_seq.as_slice()) {
            Ok(s) => s,
            Err(_) => String::from_str("<X509Error: Invalid X.509 name>"),
        }
    }

    /// The relative distinguished names, in order.
    pub fn iter_rdn<'b>(&'b self) -> (r: Vec<&'b RelativeDistinguishedName<'a>>)
        ensures
            views(r@) == self@.rdn_seq,
    {
        let mut out: Vec<&'b RelativeDistinguishedName<'a>> = Vec::new();
        let mut k: usize = 0;
        let n = self.rdn_seq.len();
        while k < n
            invariant
                k <= n,
                n == self.rdn_seq@.len(),
                views(out@) =~= self@.rdn_seq.take(k as int),
            decreases n - k,
        {
            proof {
                lemma_views_push(out@, &self.rdn_seq[k as int]);
                assert(self@.rdn_seq.take(k + 1) =~= self@.rdn_seq.take(k as int).push(
                    self.rdn_seq@[k as int]@,
                ));
            }
            out.push(&self.rdn_seq[k]);
            k += 1;
        }
        assert(self@.rdn_seq.take(n as int) =~= self@.rdn_seq);
        out
    }

    /// The attributes of all relative distinguished names, in order.
    pub fn iter_attributes<'b>(&'b self) -> (r: Vec<&'b AttributeTypeAndValue<'a>>)
        ensures
            views(r@) == self@.rdn_seq.flatten(),
    {
        let ghost all = self@.rdn_seq;
        let mut out: Vec<&'b AttributeTypeAndValue<'a>> = Vec::new();
        let mut k: usize = 0;
        let n = self.rdn_seq.len();
        proof {
            assert(all.take(0) =~= Seq::<Seq<AttributeTypeAndValueView>>::empty());
            assert(views(out@) =~= all.take(0).flatten());
        }
        while k < n
            invariant
                k <= n,
                n == self.rdn_seq@.len(),
                all == self@.rdn_seq,
                views(out@) == all.take(k as int).flatten(),
            decreases n - k,
        {
            let rdn = &self.rdn_seq[k];
            let m = rdn.set.len();
            let mut j: usize = 0;
            let ghost base = views(out@);
            while j < m
                invariant
                    j <= m,
                    m == rdn.set@.len(),
                    views(out@) =~= base + rdn@.take(j as int),
                decreases m - j,
            {
                proof {
                    lemma_views_push(out@, &rdn.set[j as int]);
                    assert(rdn@.take(j + 1) =~= rdn@.take(j as int).push(rdn.set@[j as int]@));
                }
                out.push(&rdn.set[j]);
                j += 1;
            }
            proof {
                assert(rdn@.take(m as int) =~= rdn@);
                assert(all.take(k + 1) =~= all.take(k as int).push(all[k as int]));
                all.take(k as int).lemma_flatten_push(all[k as int]);
            }
            k += 1;
        }
        assert(all.take(n as int) =~= all);
        out
    }

    /// The attributes of the name with the type `oid`, in order. An
    /// attribute type may occur more than once.
    pub fn iter_by_oid<'b>(&'b self, oid: &Oid) -> (r: Vec<&'b AttributeTypeAndValue<'a>>)
        ensures
            views(r@) == spec_by_oid(self@, oid@),
    {
        let all = self.iter_attributes();
        let ghost flat = self@.rdn_seq.flatten();
        let mut out: Vec<&'b AttributeTypeAndValue<'a>> = Vec::new();
        let mut k: usize = 0;
        let n = all.len();
        proof {
            reveal(Seq::filter);
            assert(flat.take(0) =~= Seq::<AttributeTypeAndValueView>::empty());
            assert(views(out@) =~= flat.take(0).filter(has_type(oid@)));
        }
        while k < n
            invariant
                k <= n,
                n == all@.len(),
                views(all@) == flat,
                views(out@) == flat.take(k as int).filter(has_type(oid@)),
            decreases n - k,
        {
            let a = all[k];
            proof {
                reveal(Seq::filter);
                assert(flat.take(k + 1).drop_last() =~= flat.take(k as int));
                assert(flat.take(k + 1).last() == a@);
                lemma_views_push(out@, a);
            }
            if a.attr_type.equals(oid) {
                out.push(a);
            }
            k += 1;
        }
        assert(flat.take(n as int) =~= flat);
        out
    }

    /// The commonName attributes of the name.
    pub fn iter_common_name<'b>(&'b self) -> (r: Vec<&'b AttributeTypeAndValue<'a>>)
        ensures
            views(r@) == spec_by_oid(self@, spec_oid_x509_common_name()),
    {
        self.iter_by_oid(&oid_x509_common_name())
    }

    /// The countryName attributes of the name.
    pub fn iter_country<'b>(&'b self) -> (r: Vec<&'b AttributeTypeAndValue<'a>>)
        ensures
            views(r@) == spec_by_oid(self@, spec_oid_x509_country_name()),
    {
        self.iter_by_oid(&oid_x509_country_name())
    }

    /// The organizationName attributes of the name.
    pub fn iter_organization<'b>(&'b self) -> (r: Vec<&'b AttributeTypeAndValue<'a>>)
        ensures
            views(r@) == spec_by_oid(self@, spec_oid_x509_organization_name()),
    {
        self.iter_by_oid(&oid_x509_organization_name())
    }

    /// The organizationalUnitName attributes of the name.
    pub fn iter_organizational_unit<'b>(&'b self) -> (r: Vec<&'b AttributeTypeAndValue<'a>>)
        ensures
            views(r@) == spec_by_oid(self@, spec_oid_x509_organizational_unit()),
    {
        self.iter_by_oid(&oid_x509_organizational_unit())
    }

    /// The stateOrProvinceName attributes of the name.
    pub fn iter_state_or_province<'b>(&'b self) -> (r: Vec<&'b AttributeTypeAndValue<'a>>)
        ensures
            views(r@) == spec_by_oid(self@, spec_oid_x509_state_or_province_name()),
    {
        self.iter_by_oid(&oid_x509_state_or_province_name())
    }

    /// The localityName attributes of the name.
    pub fn iter_locality<'b>(&'b self) -> (r: Vec<&'b AttributeTypeAndValue<'a>>)
        ensures
            views(r@) == spec_by_oid(self@, spec_oid_x509_locality_name()),
    {
        self.iter_by_oid(&oid_x509_locality_name())
    }

    /// The emailAddress attributes of the name.
    pub fn iter_email<'b>(&'b self) -> (r: Vec<&'b AttributeTypeAndValue<'a>>)
        ensures
            views(r@) == spec_by_oid(self@, spec_oid_pkcs9_email_address()),
    {
        self.iter_by_oid(&oid_pkcs9_email_address())
    }

    /// The bytes that encode the name.
    pub fn as_raw(&self) -> (r: &'a [u8])
        ensures
            r@ == self@.raw,
    {
        self.raw
    }
}

} // verus!
