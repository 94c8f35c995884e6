//! Archives of UI contributions gathered from plugins.

use vstd::prelude::*;
use crate::ui::{UiModel, UiModelLoader, UiSourceLoader};
use crate::util::storage::NameMap;

verus! {

/// UI behavior models registered by plugins, keyed by tag name.
pub struct UiModelArchive<M: UiModel> {
    models: NameMap<M>,
}

impl<M: UiModel> UiModelArchive<M> {
    pub closed spec fn wf(self) -> bool {
        self.models.wf()
    }

    pub closed spec fn spec_models(self) -> NameMap<M> {
        self.models
    }

    pub fn new() -> (r: Self)
        ensures
            r.wf(),
            r.spec_models().len() == 0,
    {
        UiModelArchive { models: NameMap::new() }
    }

    /// The model registered under `name`, if any.
    pub fn lookup(&self, name: &str) -> (r: Option<&M>)
        ensures
            self.wf() ==> match r {
                Some(m) => self.spec_models().spec_get(name@) == Some(*m),
                None => self.spec_models().spec_get(name@) is None,
            },
    {
        self.models.get(name)
    }
}

impl<M: UiModel> Default for UiModelArchive<M> {
    fn default() -> (r: Self)
        ensures
            r.wf(),
            r.spec_models().len() == 0,
    {
        UiModelArchive { models: NameMap::new() }
    }
}

impl<M: UiModel> UiModelLoader<M> for UiModelArchive<M> {
    fn register(&mut self, name: &str, model: M)
        ensures
            old(self).wf() ==> {
                &&& final(self).wf()
                &&& final(self).spec_models().has_key(name@)
                &&& forall|k: Seq<char>| k != name@ ==>
                    final(self).spec_models().spec_get(k) == old(self).spec_models().spec_get(k)
            },
    {
        self.models.insert(name.to_owned(), model);
    }
}

/// UI markup sources registered by plugins, keyed by name.
pub struct UiTemplateSourceArchive {
    xml: NameMap<String>,
}

impl UiTemplateSourceArchive {
    pub closed spec fn wf(self) -> bool {
        self.xml.wf()
    }

    pub closed spec fn spec_sources(self) -> NameMap<String> {
        self.xml
    }

    pub fn new() -> (r: Self)
        ensures
            r.wf(),
            r.spec_sources().len() == 0,
    {
        UiTemplateSourceArchive { xml: NameMap::new() }
    }

    /// The markup registered under `name`, if any.
    pub fn get(&self, name: &str) -> (r: Option<&String>)
        ensures
            self.wf() ==> match r {
                Some(v) => self.spec_sources().spec_get(name@) == Some(*v),
                None => self.spec_sources().spec_get(name@) is None,
            },
    {
        self.xml.get(name)
    }
}

impl Default for UiTemplateSourceArchive {
    fn default() -> (r: Self)
        ensures
            r.wf(),
            r.spec_sources().len() == 0,
    {
        UiTemplateSourceArchive { xml: NameMap::new() }
    }
}

impl UiSourceLoader for UiTemplateSourceArchive {
    fn register(&mut self, name: String, xml: String)
        ensures
            old(self).wf() ==> {
                &&& final(self).wf()
                &&& final(self).spec_sources().spec_get(name@) == Some(xml)
                &&& forall|k: Seq<char>| k != name@ ==>
                    final(self).spec_sources().spec_get(k) == old(self).spec_sources().spec_get(k)
            },
    {
        self.xml.insert(name, xml);
    }
}

} // verus!
