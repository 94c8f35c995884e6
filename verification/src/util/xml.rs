//! The node tree that declarative UI definitions are read into. Parsing
//! markup text into nodes happens outside this crate; the tree itself,
//! and how components pick their attributes out of it, is plain data.

use vstd::prelude::*;
use crate::util::storage::NameMap;

verus! {

/// One element of a parsed document: its tag name, optional character
/// data, attributes, and child nodes.
pub struct XmlNode {
    pub name: String,
    pub text: Option<String>,
    pub attribs: NameMap<String>,
    pub children: Vec<XmlNode>,
}

impl XmlNode {
    /// A childless element with the given tag name.
    pub fn new(name: String) -> (r: Self)
        ensures
            r.name@ == name@,
            r.text is None,
            r.attribs.wf(),
            r.attribs.len() == 0,
            r.children@.len() == 0,
    {
        XmlNode {
            name,
            text: None,
            attribs: NameMap::new(),
            children: Vec::new(),
        }
    }

    /// Takes the attribute named `key` out of the node, if present.
    pub fn remove_attrib(&mut self, key: &str) -> (r: Option<String>)
        ensures
            old(self).attribs.wf() ==> {
                &&& final(self).attribs.wf()
                &&& r == old(self).attribs.spec_get(key@)
                &&& !final(self).attribs.has_key(key@)
                &&& forall|k: Seq<char>| k != key@ ==>
                    final(self).attribs.spec_get(k) == old(self).attribs.spec_get(k)
            },
            final(self).name == old(self).name,
            final(self).text == old(self).text,
            final(self).children == old(self).children,
    {
        self.attribs.remove(key)
    }
}

impl Default for XmlNode {
    fn default() -> (r: Self)
        ensures
            r.name@.len() == 0,
            r.text is None,
            r.attribs.wf(),
            r.attribs.len() == 0,
            r.children@.len() == 0,
    {
        XmlNode {
            name: String::new(),
            text: None,
            attribs: NameMap::new(),
            children: Vec::new(),
        }
    }
}

} // verus!
