//! A clickable menu entry read out of markup.

use vstd::prelude::*;
use crate::ui::{UiAttributeValue, UiElement};
use crate::util::xml::XmlNode;

verus! {

/// A menu entry: optional element id, display name, and the handler its
/// click invokes.
pub struct MenuItem {
    id: Option<String>,
    name: String,
    on_click: Option<String>,
}

impl MenuItem {
    pub closed spec fn spec_id(self) -> Option<String> {
        self.id
    }

    pub closed spec fn spec_name(self) -> Seq<char> {
        self.name@
    }

    pub closed spec fn spec_on_click(self) -> Option<String> {
        self.on_click
    }

    /// Reads a menu entry from its markup node: the `id`, `name` and
    /// `click` attributes, with an absent name read as empty.
    pub fn new(root: XmlNode) -> (r: Self)
        requires
            root.attribs.wf(),
        ensures
            r.spec_id() == root.attribs.spec_get("id"@),
            match root.attribs.spec_get("name"@) {
                Some(n) => r.spec_name() == n@,
                None => r.spec_name().len() == 0,
            },
            r.spec_on_click() == root.attribs.spec_get("click"@),
    {
        proof {
            reveal_strlit("id");
            reveal_strlit("name");
            reveal_strlit("click");
            assert("id"@.len() == 2 && "name"@.len() == 4 && "click"@.len() == 5);
        }
        let mut root = root;
        let id = root.remove_attrib("id");
        let name = match root.remove_attrib("name") {
            Some(n) => n,
            None => String::new(),
        };
        let on_click = root.remove_attrib("click");
        MenuItem { id, name, on_click }
    }

    /// The handler name a click invokes, if one was bound.
    pub fn on_click(&self) -> (r: &Option<String>)
        ensures
            *r == self.spec_on_click(),
    {
        &self.on_click
    }

    /// The display name.
    pub fn name(&self) -> (r: &String)
        ensures
            r@ == self.spec_name(),
    {
        &self.name
    }
}

impl UiElement for MenuItem {
    fn kind(&self) -> (r: String)
        ensures
            r@ == "MenuItem"@,
    {
        String::from_str("MenuItem")
    }

    fn id(&self) -> (r: Option<String>)
        ensures
            r == self.spec_id(),
    {
        match &self.id {
            Some(s) => Some(s.clone()),
            None => None,
        }
    }

    fn set_attrib(&mut self, _attrib: String, _value: UiAttributeValue)
        ensures
            *final(self) == *old(self),
    {
    }
}

} // verus!
