//! XML tokens, read with `quick_xml`: the start of each element with its
//! attributes, the end of each element, and the end of the document.
use vstd::prelude::*;
use quick_xml::events::Event;
use quick_xml::Reader;

verus! {

/// `quick_xml::Reader`, opaque to proofs.
#[verifier::external_type_specification]
#[verifier::external_body]
#[verifier::reject_recursive_types(R)]
pub struct ExXmlReader<R>(Reader<R>);

/// `quick_xml::Error`, carried by a failed read.
#[verifier::external_type_specification]
#[verifier::external_body]
pub struct ExXmlError(quick_xml::Error);

/// One attribute of a start tag: its raw name and its value, decoded and
/// unescaped, or none when decoding failed.
pub struct XmlAttribute {
    pub key: Vec<u8>,
    pub value: Option<String>,
}

/// One step of reading an XML document.
pub enum XmlToken {
    /// A start tag or an empty-element tag, with its raw name and its
    /// attributes in order; an attribute that could not be read is `None`.
    Open { name: Vec<u8>, attributes: Vec<Option<XmlAttribute>> },
    /// An end tag with its raw name.
    Close { name: Vec<u8> },
    /// The end of the document.
    Eof,
    /// A read that failed.
    Failed(quick_xml::Error),
    /// Text, a comment, a declaration or another event.
    Other,
}

/// The meaning of an [`XmlAttribute`].
pub struct AttributeView {
    pub key: Seq<u8>,
    pub value: Option<Seq<char>>,
}

/// The meaning of an [`XmlToken`].
pub enum TokenView {
    Open(Seq<u8>, Seq<Option<AttributeView>>),
    Close(Seq<u8>),
    Eof,
    Failed,
    Other,
}

/// The meaning of an optional attribute.
pub open spec fn attribute_view(a: Option<XmlAttribute>) -> Option<AttributeView> {
    match a {
        Some(x) => Some(
            AttributeView {
                key: x.key@,
                value: match x.value {
                    Some(v) => Some(v@),
                    None => None,
                },
            },
        ),
        None => None,
    }
}

/// The meanings of a list of optional attributes.
pub open spec fn attributes_view(v: Seq<Option<XmlAttribute>>) -> Seq<Option<AttributeView>> {
    v.map_values(|a: Option<XmlAttribute>| attribute_view(a))
}

impl View for XmlToken {
    type V = TokenView;

    open spec fn view(&self) -> TokenView {
        match self {
            XmlToken::Open { name, attributes } => TokenView::Open(
                name@,
                attributes_view(attributes@),
            ),
            XmlToken::Close { name } => TokenView::Close(name@),
            XmlToken::Eof => TokenView::Eof,
            XmlToken::Failed(_) => TokenView::Failed,
            XmlToken::Other => TokenView::Other,
        }
    }
}

/// A token after which reading stops: the end of the document or a failure.
pub open spec fn is_final(t: TokenView) -> bool {
    t is Eof || t is Failed
}

/// A token sequence that ends with its only final token.
pub open spec fn ends_once(s: Seq<TokenView>) -> bool {
    &&& s.len() > 0
    &&& is_final(s.last())
    &&& forall|i: int| 0 <= i < s.len() - 1 ==> !is_final(#[trigger] s[i])
}

/// What follows a first token that is not final still ends with its only
/// final token, and is shorter.
pub(crate) proof fn lemma_rest_ends_once(toks: Seq<TokenView>)
    requires
        ends_once(toks),
        !is_final(toks[0]),
    ensures
        ends_once(toks.drop_first()),
        toks.drop_first().len() < toks.len(),
{
    let rest = toks.drop_first();
    assert(toks.len() >= 2);
    assert forall|i: int| 0 <= i < rest.len() - 1 implies !is_final(#[trigger] rest[i]) by {
        assert(rest[i] == toks[i + 1]);
    }
}

/// The tokens that `quick_xml`, with text trimming on, reads from a document,
/// up to and including the first end of document or failure.
pub uninterp spec fn xml_tokens(xml: Seq<char>) -> Seq<TokenView>;

/// The tokens a reader has yet to give, up to and including the next end of
/// document or failure.
pub uninterp spec fn pending_tokens(reader: Reader<&[u8]>) -> Seq<TokenView>;

/// A reader over `xml` (`Reader::from_str`), with text trimming on
/// (`Config::trim_text(true)`). The tokens it will give are named
/// `xml_tokens(xml)`; as the reader consumes input with every event and stays
/// at the end after the end of the document or a failure, they end with one
/// final token and have no other.
#[verifier::external_body]
pub(crate) fn open_reader(xml: &str) -> (r: Reader<&[u8]>)
    ensures
        pending_tokens(r) == xml_tokens(xml@),
        ends_once(pending_tokens(r)),
{
    let mut reader = Reader::from_str(xml);
    reader.config_mut().trim_text(true);
    reader
}

/// Reads the next event (`Reader::read_event`) and converts it: start and
/// empty-element tags to `Open` with their names and their attributes
/// (`BytesStart::attributes`, each value through
/// `Attribute::decode_and_unescape_value`), end tags to `Close`, the end of
/// the document to `Eof`, an error to `Failed`. The token is the first
/// pending one; after a token that is not final the rest are pending.
#[verifier::external_body]
pub(crate) fn next_token(reader: &mut Reader<&[u8]>) -> (t: XmlToken)
    ensures
        pending_tokens(*old(reader)).len() > 0 ==> t@ == pending_tokens(*old(reader))[0],
        pending_tokens(*old(reader)).len() > 0 && !is_final(t@) ==> pending_tokens(*final(reader))
            == pending_tokens(*old(reader)).drop_first(),
{
    match reader.read_event() {
        Ok(Event::Start(e)) | Ok(Event::Empty(e)) => XmlToken::Open {
            name: e.name().as_ref().to_vec(),
            attributes: e.attributes().map(|a| a.ok().map(|a| XmlAttribute {
                key: a.key.as_ref().to_vec(),
                value: a.decode_and_unescape_value(reader.decoder()).ok().map(|v| v.into_owned()),
            })).collect(),
        },
        Ok(Event::End(e)) => XmlToken::Close { name: e.name().as_ref().to_vec() },
        Ok(Event::Eof) => XmlToken::Eof,
        Ok(_) => XmlToken::Other,
        Err(e) => XmlToken::Failed(e),
    }
}

/// The message of a reading error (`Display for quick_xml::Error`). Nothing
/// is stated of its text.
#[verifier::external_body]
pub(crate) fn error_message(e: &quick_xml::Error) -> String {
    format!("{}", e)
}

/// Whether two byte strings are equal.
pub fn bytes_equal(a: &[u8], b: &[u8]) -> (r: bool)
    ensures
        r == (a@ == b@),
{
    if a.len() != b.len() {
        return false;
    }
    let mut i: usize = 0;
    while i < a.len()
        invariant
            i <= a@.len() == b@.len(),
            forall|j: int| 0 <= j < i ==> a@[j] == b@[j],
        decreases a.len() - i,
    {
        if a[i] != b[i] {
            return false;
        }
        i = i + 1;
    }
    assert(a@ =~= b@);
    true
}

} // verus!
