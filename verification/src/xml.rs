//! Reading the tokens of an XML document.
//!
//! The `quick_xml` crate does the reading. What it yields is handed out as
//! plain values: elements with their attributes, the end of the input, a
//! fault, and everything else without its content.

use quick_xml::events::Event;
use vstd::prelude::*;

verus! {

/// Makes `quick_xml::Reader` known as a type whose values are carried
/// through unopened.
#[verifier::external_type_specification]
#[verifier::external_body]
#[verifier::reject_recursive_types(R)]
pub struct ExReader<R>(quick_xml::Reader<R>);

/// An attribute of an element, as it is written.
#[derive(Debug)]
pub struct XmlAttribute {
    pub key: String,
    pub value: String,
}

/// One token of a document.
#[derive(Debug)]
pub enum XmlToken {
    /// The opening tag of an element, or a tag that closes itself. An
    /// attribute that could not be read stands as `None`.
    Element { name: String, attributes: Vec<Option<XmlAttribute>> },
    /// A closing tag, text, a comment, a declaration or the like.
    Other,
    /// The end of the input.
    End,
    /// Markup that could not be read.
    Fault,
}

/// An attribute, as plain texts.
pub struct XmlAttributeView {
    pub key: Seq<char>,
    pub value: Seq<char>,
}

/// A token, as plain values.
pub enum XmlTokenView {
    Element { name: Seq<char>, attributes: Seq<Option<XmlAttributeView>> },
    Other,
    End,
    Fault,
}

impl View for XmlAttribute {
    type V = XmlAttributeView;

    open spec fn view(&self) -> XmlAttributeView {
        XmlAttributeView { key: self.key@, value: self.value@ }
    }
}

/// The views of a list of attributes.
pub open spec fn attribute_views(list: Seq<Option<XmlAttribute>>) -> Seq<Option<XmlAttributeView>> {
    Seq::new(
        list.len(),
        |i: int|
            match list[i] {
                Some(a) => Some(a@),
                None => None,
            },
    )
}

impl View for XmlToken {
    type V = XmlTokenView;

    open spec fn view(&self) -> XmlTokenView {
        match self {
            XmlToken::Element { name, attributes } => XmlTokenView::Element {
                name: name@,
                attributes: attribute_views(attributes@),
            },
            XmlToken::Other => XmlTokenView::Other,
            XmlToken::End => XmlTokenView::End,
            XmlToken::Fault => XmlTokenView::Fault,
        }
    }
}

/// The views of a list of tokens.
pub open spec fn token_views(list: Seq<XmlToken>) -> Seq<XmlTokenView> {
    Seq::new(list.len(), |i: int| list[i]@)
}

/// Whether a token ends a document: the end of the input or a fault.
pub open spec fn closes(token: XmlTokenView) -> bool {
    token is End || token is Fault
}

/// Whether a list of tokens holds one closing token, at its end.
pub open spec fn closed_once(tokens: Seq<XmlTokenView>) -> bool {
    &&& tokens.len() >= 1
    &&& closes(tokens.last())
    &&& forall|i: int| 0 <= i < tokens.len() - 1 ==> !closes(#[trigger] tokens[i])
}

/// The tokens that a reader which trims text yields for a document, up to
/// the end of the input or the first fault, that token included.
pub uninterp spec fn xml_tokens(text: Seq<char>) -> Seq<XmlTokenView>;

/// The tokens that a reader has yet to yield.
pub uninterp spec fn pending_tokens(reader: quick_xml::Reader<&[u8]>) -> Seq<XmlTokenView>;

/// Calls `Reader::from_str` and has the reader trim text, with
/// `Config::trim_text`. Trusted: the reader will yield the tokens of the
/// document; they are finitely many, since every token but the last takes
/// some of the input, and the last is the end of the input or a fault.
#[verifier::external_body]
pub(crate) fn open_reader<'a>(text: &'a str) -> (reader: quick_xml::Reader<&'a [u8]>)
    ensures
        pending_tokens(reader) == xml_tokens(text@),
        closed_once(pending_tokens(reader)),
{
    let mut reader = quick_xml::Reader::from_str(text);
    reader.config_mut().trim_text(true);
    reader
}

/// Calls `Reader::read_event_into` and copies what it yields: of an element
/// its name and its attributes. Trusted: the result is the first of the
/// tokens that the reader had yet to yield, and the others are left. Left
/// out: a call on a reader that has yielded all its tokens.
#[verifier::external_body]
pub(crate) fn read_token(reader: &mut quick_xml::Reader<&[u8]>) -> (token: XmlToken)
    requires
        pending_tokens(*old(reader)).len() > 0,
    ensures
        token@ == pending_tokens(*old(reader))[0],
        pending_tokens(*final(reader)) == pending_tokens(*old(reader)).skip(1),
{
    let mut buf = Vec::new();
    match reader.read_event_into(&mut buf) {
        Ok(Event::Start(e)) | Ok(Event::Empty(e)) => XmlToken::Element {
            name: e.name().into_inner().to_string(),
            attributes: e.attributes().map(|a| a.ok().map(|a| XmlAttribute {
                key: a.key.into_inner().to_string(),
                value: a.value.to_string(),
            })).collect(),
        },
        Ok(Event::Eof) => XmlToken::End,
        Ok(_) => XmlToken::Other,
        Err(_) => XmlToken::Fault,
    }
}

} // verus!
