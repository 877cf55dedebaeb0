//! General names, and the two extensions made of them: subjectAltName and
//! nameConstraints.
use crate::der::{
    ber_header, consumes, container, parsed, read_ber_header, spec_container, CLASS_CONTEXT,
    CLASS_UNIVERSAL, TAG_SEQUENCE,
};
use crate::error::X509Error;
use crate::extensions::{parse_implicit_u32, spec_implicit_u32};
use crate::name::{spec_name, X509Name, X509NameView};
use crate::oid::Oid;
use crate::repeated::{many, spec_many, views};
use crate::text::str_from_utf8;
use vstd::prelude::*;
use vstd::utf8::{decode_utf8, valid_utf8};

verus! {

/// One name of one of the forms that RFC 5280 lists. The forms that are
/// not decoded further keep the content of their element.
#[derive(Debug)]
pub enum GeneralName<'a> {
    OtherName(&'a [u8]),
    RFC822Name(&'a str),
    DNSName(&'a str),
    X400Address(&'a [u8]),
    DirectoryName(X509Name<'a>),
    EDIPartyName(&'a [u8]),
    URI(&'a str),
    IPAddress(&'a [u8]),
    RegisteredID(Oid<'a>),
}

/// What a `GeneralName` holds.
pub enum GeneralNameView {
    OtherName(Seq<u8>),
    RFC822Name(Seq<char>),
    DNSName(Seq<char>),
    X400Address(Seq<u8>),
    DirectoryName(X509NameView),
    EDIPartyName(Seq<u8>),
    URI(Seq<char>),
    IPAddress(Seq<u8>),
    RegisteredID(Seq<u8>),
}

impl<'a> View for GeneralName<'a> {
    type V = GeneralNameView;

    open spec fn view(&self) -> GeneralNameView {
        match self {
            GeneralName::OtherName(b) => GeneralNameView::OtherName(b@),
            GeneralName::RFC822Name(s) => GeneralNameView::RFC822Name(s@),
            GeneralName::DNSName(s) => GeneralNameView::DNSName(s@),
            GeneralName::X400Address(b) => GeneralNameView::X400Address(b@),
            GeneralName::DirectoryName(n) => GeneralNameView::DirectoryName(n@),
            GeneralName::EDIPartyName(b) => GeneralNameView::EDIPartyName(b@),
            GeneralName::URI(s) => GeneralNameView::URI(s@),
            GeneralName::IPAddress(b) => GeneralNameView::IPAddress(b@),
            GeneralName::RegisteredID(o) => GeneralNameView::RegisteredID(o@),
        }
    }
}

/// True when every byte is below 128.
pub open spec fn is_ascii_bytes(c: Seq<u8>) -> bool {
    forall|k: int| 0 <= k < c.len() ==> #[trigger] c[k] < 128
}

/// The text of an IA5String from its content: the bytes must be ASCII.
pub open spec fn spec_ia5_text(c: Seq<u8>) -> Result<Seq<char>, X509Error> {
    if is_ascii_bytes(c) && valid_utf8(c) {
        Ok(decode_utf8(c))
    } else {
        Err(X509Error::Malformed)
    }
}

/// Reads the content of an IA5String as text.
pub fn ia5_text<'a>(c: &'a [u8]) -> (r: Result<&'a str, X509Error>)
    ensures
        match r {
            Ok(s) => spec_ia5_text(c@) == Ok::<Seq<char>, X509Error>(s@),
            Err(e) => spec_ia5_text(c@) == Err::<Seq<char>, X509Error>(e),
        },
{
    let mut k: usize = 0;
    while k < c.len()
        invariant
            k <= c.len(),
            forall|j: int| 0 <= j < k ==> #[trigger] c@[j] < 128,
        decreases c.len() - k,
    {
        if c[k] >= 128 {
            return Err(X509Error::Malformed);
        }
        k += 1;
    }
    match str_from_utf8(c) {
        Some(s) => Ok(s),
        None => Err(X509Error::Malformed),
    }
}

/// The general name that the content `c` of an element with the context
/// tag `tag` stands for.
pub open spec fn spec_general_name_content(tag: u32, c: Seq<u8>) -> Result<
    GeneralNameView,
    X509Error,
> {
    if tag == 0 {
        Ok(GeneralNameView::OtherName(c))
    } else if tag == 1 {
        match spec_ia5_text(c) {
            Ok(s) => Ok(GeneralNameView::RFC822Name(s)),
            Err(e) => Err(e),
        }
    } else if tag == 2 {
        match spec_ia5_text(c) {
            Ok(s) => Ok(GeneralNameView::DNSName(s)),
            Err(e) => Err(e),
        }
    } else if tag == 3 {
        Ok(GeneralNameView::X400Address(c))
    } else if tag == 4 {
        match spec_name(c) {
            Err(e) => Err(e),
            Ok((c1, n)) => if c1.len() != 0 {
                Err(X509Error::InvalidX509Name)
            } else {
                Ok(GeneralNameView::DirectoryName(n))
            },
        }
    } else if tag == 5 {
        Ok(GeneralNameView::EDIPartyName(c))
    } else if tag == 6 {
        match spec_ia5_text(c) {
            Ok(s) => Ok(GeneralNameView::URI(s)),
            Err(e) => Err(e),
        }
    } else if tag == 7 {
        Ok(GeneralNameView::IPAddress(c))
    } else if tag == 8 {
        Ok(GeneralNameView::RegisteredID(c))
    } else {
        Err(X509Error::InvalidTag)
    }
}

/// One general name at the front of `i`: an element of the context class
/// with a tag from 0 to 8.
pub open spec fn spec_general_name(i: Seq<u8>) -> Result<(Seq<u8>, GeneralNameView), X509Error> {
    match ber_header(i) {
        Err(e) => Err(e),
        Ok((_, h)) => if h.class != CLASS_CONTEXT {
            Err(X509Error::InvalidTag)
        } else {
            match spec_container(i, CLASS_CONTEXT, h.tag) {
                Err(e) => Err(e),
                Ok((rest, c)) => match spec_general_name_content(h.tag, c) {
                    Err(e) => Err(e),
                    Ok(n) => Ok((rest, n)),
                },
            }
        },
    }
}

/// The reader of one general name, for `spec_many`.
pub open spec fn general_name_reader() -> spec_fn(Seq<u8>) -> Result<
    (Seq<u8>, GeneralNameView),
    X509Error,
> {
    |i: Seq<u8>| spec_general_name(i)
}

impl<'a> GeneralName<'a> {
    /// Makes the general name of an element's context tag and content.
    pub fn from_content(tag: u32, c: &'a [u8]) -> (r: Result<GeneralName<'a>, X509Error>)
        ensures
            match r {
                Ok(n) => spec_general_name_content(tag, c@) == Ok::<GeneralNameView, X509Error>(
                    n@,
                ),
                Err(e) => spec_general_name_content(tag, c@) == Err::<GeneralNameView, X509Error>(
                    e,
                ),
            },
    {
        if tag == 0 {
            Ok(GeneralName::OtherName(c))
        } else if tag == 1 {
            match ia5_text(c) {
                Ok(s) => Ok(GeneralName::RFC822Name(s)),
                Err(e) => Err(e),
            }
        } else if tag == 2 {
            match ia5_text(c) {
                Ok(s) => Ok(GeneralName::DNSName(s)),
                Err(e) => Err(e),
            }
        } else if tag == 3 {
            Ok(GeneralName::X400Address(c))
        } else if tag == 4 {
            match X509Name::from_der(c) {
                Err(e) => Err(e),
                Ok((c1, n)) => if c1.len() != 0 {
                    Err(X509Error::InvalidX509Name)
                } else {
                    Ok(GeneralName::DirectoryName(n))
                },
            }
        } else if tag == 5 {
            Ok(GeneralName::EDIPartyName(c))
        } else if tag == 6 {
            match ia5_text(c) {
                Ok(s) => Ok(GeneralName::URI(s)),
                Err(e) => Err(e),
            }
        } else if tag == 7 {
            Ok(GeneralName::IPAddress(c))
        } else if tag == 8 {
            Ok(GeneralName::RegisteredID(Oid::new(c)))
        } else {
            Err(X509Error::InvalidTag)
        }
    }

    /// Reads one general name.
    pub fn from_der(i: &'a [u8]) -> (r: Result<(&'a [u8], GeneralName<'a>), X509Error>)
        ensures
            parsed(r) == spec_general_name(i@),
            consumes(i@, r),
    {
        let h = match read_ber_header(i) {
            Ok((_, h)) => h,
            Err(e) => { return Err(e); },
        };
        if h.class != CLASS_CONTEXT {
            return Err(X509Error::InvalidTag);
        }
        let (rest, c) = match container(i, CLASS_CONTEXT, h.tag) {
            Ok(x) => x,
            Err(e) => { return Err(e); },
        };
        match GeneralName::from_content(h.tag, c) {
            Err(e) => Err(e),
            Ok(n) => Ok((rest, n)),
        }
    }
}

/// Other names of the subject, in the order of the extension.
#[derive(Debug)]
pub struct SubjectAlternativeName<'a> {
    pub general_names: Vec<GeneralName<'a>>,
}

impl<'a> View for SubjectAlternativeName<'a> {
    type V = Seq<GeneralNameView>;

    open spec fn view(&self) -> Seq<GeneralNameView> {
        views(self.general_names@)
    }
}

/// The content of a subjectAltName extension: a SEQUENCE whose content is
/// general names from end to end, and nothing more.
pub open spec fn spec_subject_alternative_name(v: Seq<u8>) -> Result<
    Seq<GeneralNameView>,
    X509Error,
> {
    match spec_container(v, CLASS_UNIVERSAL, TAG_SEQUENCE) {
        Err(e) => Err(e),
        Ok((rest, c)) => if rest.len() != 0 {
            Err(X509Error::InvalidExtensions)
        } else {
            spec_many(general_name_reader(), c)
        },
    }
}

/// Decodes the content of a subjectAltName extension.
pub fn parse_subject_alternative_name<'a>(v: &'a [u8]) -> (r: Result<
    SubjectAlternativeName<'a>,
    X509Error,
>)
    ensures
        match r {
            Ok(k) => spec_subject_alternative_name(v@) == Ok::<Seq<GeneralNameView>, X509Error>(
                k@,
            ),
            Err(e) => spec_subject_alternative_name(v@) == Err::<Seq<GeneralNameView>, X509Error>(
                e,
            ),
        },
{
    let (rest, c) = match container(v, CLASS_UNIVERSAL, TAG_SEQUENCE) {
        Ok(x) => x,
        Err(e) => { return Err(e); },
    };
    if rest.len() != 0 {
        return Err(X509Error::InvalidExtensions);
    }
    match many(c, GeneralName::from_der, Ghost(general_name_reader())) {
        Ok(general_names) => Ok(SubjectAlternativeName { general_names }),
        Err(e) => Err(e),
    }
}

/// A set of names given by its base, with the range of depths below the
/// base that the encoding states.
#[derive(Debug)]
pub struct GeneralSubtree<'a> {
    pub base: GeneralName<'a>,
    pub minimum: u32,
    pub maximum: Option<u32>,
}

/// What a `GeneralSubtree` holds.
pub struct GeneralSubtreeView {
    pub base: GeneralNameView,
    pub minimum: u32,
    pub maximum: Option<u32>,
}

impl<'a> View for GeneralSubtree<'a> {
    type V = GeneralSubtreeView;

    open spec fn view(&self) -> GeneralSubtreeView {
        GeneralSubtreeView { base: self.base@, minimum: self.minimum, maximum: self.maximum }
    }
}

/// One subtree at the front of `i`: a SEQUENCE of a general name, an
/// optional minimum tagged `[0]`, zero when absent, and an optional maximum
/// tagged `[1]`, and nothing more.
pub open spec fn spec_general_subtree(i: Seq<u8>) -> Result<
    (Seq<u8>, GeneralSubtreeView),
    X509Error,
> {
    match spec_container(i, CLASS_UNIVERSAL, TAG_SEQUENCE) {
        Err(e) => Err(e),
        Ok((rest, c)) => match spec_general_name(c) {
            Err(e) => Err(e),
            Ok((c1, base)) => match spec_implicit_u32(c1, 0) {
                Err(e) => Err(e),
                Ok((c2, minimum)) => match spec_implicit_u32(c2, 1) {
                    Err(e) => Err(e),
                    Ok((c3, maximum)) => if c3.len() != 0 {
                        Err(X509Error::InvalidExtensions)
                    } else {
                        Ok(
                            (
                                rest,
                                GeneralSubtreeView {
                                    base,
                                    minimum: match minimum {
                                        Some(m) => m,
                                        None => 0,
                                    },
                                    maximum,
                                },
                            ),
                        )
                    },
                },
            },
        },
    }
}

/// The reader of one subtree, for `spec_many`.
pub open spec fn general_subtree_reader() -> spec_fn(Seq<u8>) -> Result<
    (Seq<u8>, GeneralSubtreeView),
    X509Error,
> {
    |i: Seq<u8>| spec_general_subtree(i)
}

impl<'a> GeneralSubtree<'a> {
    /// Reads one subtree.
    pub fn from_der(i: &'a [u8]) -> (r: Result<(&'a [u8], GeneralSubtree<'a>), X509Error>)
        ensures
            parsed(r) == spec_general_subtree(i@),
            consumes(i@, r),
    {
        let (rest, c) = match container(i, CLASS_UNIVERSAL, TAG_SEQUENCE) {
            Ok(x) => x,
            Err(e) => { return Err(e); },
        };
        let (c1, base) = match GeneralName::from_der(c) {
            Ok(x) => x,
            Err(e) => { return Err(e); },
        };
        let (c2, minimum) = match parse_implicit_u32(c1, 0) {
            Ok(x) => x,
            Err(e) => { return Err(e); },
        };
        let (c3, maximum) = match parse_implicit_u32(c2, 1) {
            Ok(x) => x,
            Err(e) => { return Err(e); },
        };
        if c3.len() != 0 {
            return Err(X509Error::InvalidExtensions);
        }
        let minimum = match minimum {
            Some(m) => m,
            None => 0,
        };
        Ok((rest, GeneralSubtree { base, minimum, maximum }))
    }
}

/// The names that a certification authority may and may not certify.
#[derive(Debug)]
pub struct NameConstraints<'a> {
    pub permitted_subtrees: Option<Vec<GeneralSubtree<'a>>>,
    pub excluded_subtrees: Option<Vec<GeneralSubtree<'a>>>,
}

/// What a `NameConstraints` holds.
pub struct NameConstraintsView {
    pub permitted_subtrees: Option<Seq<GeneralSubtreeView>>,
    pub excluded_subtrees: Option<Seq<GeneralSubtreeView>>,
}

/// What an optional list of subtrees holds.
pub open spec fn subtrees_view(s: Option<Vec<GeneralSubtree>>) -> Option<Seq<GeneralSubtreeView>> {
    match s {
        Some(v) => Some(views(v@)),
        None => None,
    }
}

impl<'a> View for NameConstraints<'a> {
    type V = NameConstraintsView;

    open spec fn view(&self) -> NameConstraintsView {
        NameConstraintsView {
            permitted_subtrees: subtrees_view(self.permitted_subtrees),
            excluded_subtrees: subtrees_view(self.excluded_subtrees),
        }
    }
}

/// An optional list of subtrees behind the context tag `tag`: absent where
/// `i` does not start with that tag.
pub open spec fn spec_subtrees(i: Seq<u8>, tag: u32) -> Result<
    (Seq<u8>, Option<Seq<GeneralSubtreeView>>),
    X509Error,
> {
    if !crate::der::spec_starts_with(i, CLASS_CONTEXT, tag) {
        Ok((i, None))
    } else {
        match spec_container(i, CLASS_CONTEXT, tag) {
            Err(e) => Err(e),
            Ok((rest, c)) => match spec_many(general_subtree_reader(), c) {
                Err(e) => Err(e),
                Ok(list) => Ok((rest, Some(list))),
            },
        }
    }
}

/// Reads an optional list of subtrees behind a context tag.
pub fn parse_subtrees<'a>(i: &'a [u8], tag: u32) -> (r: Result<
    (&'a [u8], Option<Vec<GeneralSubtree<'a>>>),
    X509Error,
>)
    ensures
        match r {
            Ok((rest, s)) => spec_subtrees(i@, tag) == Ok::<
                (Seq<u8>, Option<Seq<GeneralSubtreeView>>),
                X509Error,
            >((rest@, subtrees_view(s))),
            Err(e) => spec_subtrees(i@, tag) == Err::<
                (Seq<u8>, Option<Seq<GeneralSubtreeView>>),
                X509Error,
            >(e),
        },
{
    if !crate::der::starts_with(i, CLASS_CONTEXT, tag) {
        return Ok((i, None));
    }
    let (rest, c) = match container(i, CLASS_CONTEXT, tag) {
        Ok(x) => x,
        Err(e) => { return Err(e); },
    };
    match many(c, GeneralSubtree::from_der, Ghost(general_subtree_reader())) {
        Err(e) => Err(e),
        Ok(list) => Ok((rest, Some(list))),
    }
}

/// The content of a nameConstraints extension: a SEQUENCE of two optional
/// lists of subtrees, tagged `[0]` and `[1]`, and nothing more.
pub open spec fn spec_name_constraints(v: Seq<u8>) -> Result<NameConstraintsView, X509Error> {
    match spec_container(v, CLASS_UNIVERSAL, TAG_SEQUENCE) {
        Err(e) => Err(e),
        Ok((rest, c)) => if rest.len() != 0 {
            Err(X509Error::InvalidExtensions)
        } else {
            match spec_subtrees(c, 0) {
                Err(e) => Err(e),
                Ok((c1, permitted_subtrees)) => match spec_subtrees(c1, 1) {
                    Err(e) => Err(e),
                    Ok((c2, excluded_subtrees)) => if c2.len() != 0 {
                        Err(X509Error::InvalidExtensions)
                    } else {
                        Ok(NameConstraintsView { permitted_subtrees, excluded_subtrees })
                    },
                },
            }
        },
    }
}

/// Decodes the content of a nameConstraints extension.
pub fn parse_name_constraints<'a>(v: &'a [u8]) -> (r: Result<NameConstraints<'a>, X509Error>)
    ensures
        match r {
            Ok(k) => spec_name_constraints(v@) == Ok::<NameConstraintsView, X509Error>(k@),
            Err(e) => spec_name_constraints(v@) == Err::<NameConstraintsView, X509Error>(e),
        },
{
    let (rest, c) = match container(v, CLASS_UNIVERSAL, TAG_SEQUENCE) {
        Ok(x) => x,
        Err(e) => { return Err(e); },
    };
    if rest.len() != 0 {
        return Err(X509Error::InvalidExtensions);
    }
    let (c1, permitted_subtrees) = match parse_subtrees(c, 0) {
        Ok(x) => x,
        Err(e) => { return Err(e); },
    };
    let (c2, excluded_subtrees) = match parse_subtrees(c1, 1) {
        Ok(x) => x,
        Err(e) => { return Err(e); },
    };
    if c2.len() != 0 {
        return Err(X509Error::InvalidExtensions);
    }
    Ok(NameConstraints { permitted_subtrees, excluded_subtrees })
}

} // verus!
