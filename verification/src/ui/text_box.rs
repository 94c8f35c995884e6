//! A plain text element read out of markup.

use vstd::prelude::*;
use crate::ui::{UiAttributeValue, UiElement};
use crate::util::xml::XmlNode;

verus! {

/// A text element: optional element id and its character data.
pub struct TextBox {
    id: Option<String>,
    text: String,
}

impl TextBox {
    pub closed spec fn spec_id(self) -> Option<String> {
        self.id
    }

    pub closed spec fn spec_text(self) -> Seq<char> {
        self.text@
    }

    /// Reads a text element from its markup node: the `id` attribute and
    /// the node's character data, absent data read as empty.
    pub fn new(root: XmlNode) -> (r: Self)
        requires
            root.attribs.wf(),
        ensures
            r.spec_id() == root.attribs.spec_get("id"@),
            match root.text {
                Some(t) => r.spec_text() == t@,
                None => r.spec_text().len() == 0,
            },
    {
        let mut root = root;
        let id = root.remove_attrib("id");
        let text = match root.text {
            Some(t) => t,
            None => String::new(),
        };
        TextBox { id, text }
    }

    /// The character data this element shows.
    pub fn text(&self) -> (r: &String)
        ensures
            r@ == self.spec_text(),
    {
        &self.text
    }
}

impl UiElement for TextBox {
    fn kind(&self) -> (r: String)
        ensures
            r@ == "TextBox"@,
    {
        String::from_str("TextBox")
    }

    fn id(&self) -> (r: Option<String>)
        ensures
            r == self.spec_id(),
    {
        match &self.id {
            Some(s) => Some(s.clone()),
            None => None,
        }
    }

    fn set_attrib(&mut self, _attrib: String, _value: UiAttributeValue)
        ensures
            *final(self) == *old(self),
    {
    }
}

} // verus!
