//! Mesh models as the runtime sees them: index data over a counted set of
//! vertices. Vertex attributes (positions, normals, texture coordinates)
//! are the rendering backend's concern and live beside the backend, keyed
//! by the same model names.

use vstd::prelude::*;
use crate::util::storage::NameMap;

verus! {

/// How the index list is to be interpreted by the backend.
#[derive(Debug, Clone, Copy, PartialEq, Eq, Structural)]
pub enum PrimitiveType {
    TrianglesList,
}

/// A mesh: `indices` reference one of `vertex_count` vertices each.
#[derive(Debug)]
pub struct Model {
    pub vertex_count: u32,
    pub indices: Vec<u32>,
    pub primitive: PrimitiveType,
}

impl Model {
    /// True when every index references an existing vertex.
    pub open spec fn spec_valid(vertex_count: u32, indices: Seq<u32>) -> bool {
        forall|i: int| 0 <= i < indices.len() ==> indices[i] < vertex_count
    }

    /// Builds a model; fails exactly when some index is out of range.
    pub fn new(vertex_count: u32, indices: Vec<u32>, primitive: PrimitiveType) -> (r: Result<
        Model,
        String,
    >)
        ensures
            r is Ok <==> Self::spec_valid(vertex_count, indices@),
            r matches Ok(m) ==> m.vertex_count == vertex_count && m.indices@ == indices@
                && m.primitive == primitive,
    {
        let n = indices.len();
        let mut i: usize = 0;
        while i < n
            invariant
                n == indices@.len(),
                i <= n,
                forall|j: int| 0 <= j < i ==> indices@[j] < vertex_count,
            decreases n - i,
        {
            if indices[i] >= vertex_count {
                return Err("model index out of range".to_owned());
            }
            i += 1;
        }
        Ok(Model { vertex_count, indices, primitive })
    }
}

/// The built-in models of the runtime, keyed by name. Populated once at
/// construction; read-only afterwards.
pub struct ModelRepository {
    models: NameMap<std::rc::Rc<Model>>,
}

impl ModelRepository {
    pub closed spec fn wf(self) -> bool {
        self.models.wf()
    }

    pub closed spec fn has_model(self, name: Seq<char>) -> bool {
        self.models.has_key(name)
    }

    pub closed spec fn model_of(self, name: Seq<char>) -> std::rc::Rc<Model> {
        self.models.spec_get(name)->Some_0
    }

    /// A repository holding the one built-in model: the unit sprite quad,
    /// four vertices drawn as two triangles.
    pub fn new() -> (r: Self)
        ensures
            r.wf(),
            r.has_model("sprite"@),
    {
        let mut models: NameMap<std::rc::Rc<Model>> = NameMap::new();
        let mut indices: Vec<u32> = Vec::new();
        indices.push(0);
        indices.push(1);
        indices.push(2);
        indices.push(2);
        indices.push(3);
        indices.push(0);
        let sprite = match Model::new(4, indices, PrimitiveType::TrianglesList) {
            Ok(m) => m,
            Err(_) => vstd::pervasive::unreached(),
        };
        models.insert("sprite".to_owned(), std::rc::Rc::new(sprite));
        ModelRepository { models }
    }

    pub fn get(&self, id: &str) -> (r: Option<std::rc::Rc<Model>>)
        requires
            self.wf(),
        ensures
            match r {
                Some(m) => self.has_model(id@) && m == self.model_of(id@),
                None => !self.has_model(id@),
            },
    {
        match self.models.get(id) {
            Some(m) => Some(crate::util::rc_clone(m)),
            None => None,
        }
    }
}

} // verus!
