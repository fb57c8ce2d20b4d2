use vstd::prelude::*;

use crate::ecs::{kind_named, ComponentKind};
use crate::error::EcsError;

verus! {

/// The fields of the JSON object that `text` holds, in the order in which
/// serde_json's map keeps them, each as its name and its value written back
/// as JSON text; `None` when `text` is not a JSON object.
pub uninterp spec fn json_object_fields(text: Seq<char>) -> Option<Seq<(Seq<char>, Seq<char>)>>;

/// Relies on `serde_json::from_str` into a `serde_json::Value` (and on the
/// `Display` of each field's value, which writes it back as JSON text): the
/// result depends on the text alone.
#[verifier::external_body]
fn object_fields(text: &String) -> (r: Option<Vec<(String, String)>>)
    ensures
        r is Some <==> json_object_fields(text@) is Some,
        r matches Some(fields) ==> fields@.map_values(|f: (String, String)| (f.0@, f.1@))
            == json_object_fields(text@)->Some_0,
{
    match serde_json::from_str::<serde_json::Value>(text) {
        Ok(serde_json::Value::Object(object)) => Some(
            object.iter().map(|(name, value)| (name.clone(), value.to_string())).collect(),
        ),
        _ => None,
    }
}

/// The component kind that a field declares, with the field's value text.
pub open spec fn declared_field(field: (Seq<char>, Seq<char>)) -> Option<(ComponentKind, Seq<char>)> {
    match kind_named(field.0) {
        Some(kind) => Some((kind, field.1)),
        None => None,
    }
}

/// The fields, in order, whose name is a component kind, with that kind.
pub open spec fn declared_fields(fields: Seq<(Seq<char>, Seq<char>)>) -> Seq<(ComponentKind, Seq<char>)> {
    fields.filter_map(|field: (Seq<char>, Seq<char>)| declared_field(field))
}

/// The component fields among the fields of a prefab document: those named
/// after a component kind, with their kind and value text, in order; the
/// others are ignored.
pub fn declared_components(fields: &Vec<(String, String)>) -> (r: Vec<(ComponentKind, String)>)
    ensures
        r@.map_values(|c: (ComponentKind, String)| (c.0, c.1@)) == declared_fields(
            fields@.map_values(|f: (String, String)| (f.0@, f.1@)),
        ),
{
    let ghost view = fields@.map_values(|f: (String, String)| (f.0@, f.1@));
    let mut r: Vec<(ComponentKind, String)> = Vec::new();
    let mut i: usize = 0;
    while i < fields.len()
        invariant
            i <= fields@.len(),
            view == fields@.map_values(|f: (String, String)| (f.0@, f.1@)),
            r@.map_values(|c: (ComponentKind, String)| (c.0, c.1@)) == declared_fields(view.take(i as int)),
        decreases fields@.len() - i,
    {
        let ghost before = r@;
        proof {
            view.lemma_filter_map_take_succ(|field: (Seq<char>, Seq<char>)| declared_field(field), i as int);
        }
        match ComponentKind::from_name(&fields[i].0) {
            Some(kind) => {
                r.push((kind, fields[i].1.clone()));
                assert(r@.map_values(|c: (ComponentKind, String)| (c.0, c.1@)) =~= before.map_values(
                    |c: (ComponentKind, String)| (c.0, c.1@),
                ).push((kind, fields@[i as int].1@)));
            },
            None => {},
        }
        i = i + 1;
    }
    assert(view.take(fields@.len() as int) =~= view);
    r
}

/// The prefab documents known to the application, keyed by prefab name.
pub struct Resources {
    prefabs: Vec<(String, String)>,
}

impl View for Resources {
    type V = Map<Seq<char>, Seq<char>>;

    closed spec fn view(&self) -> Map<Seq<char>, Seq<char>> {
        Map::new(
            |name: Seq<char>| exists|i: int| 0 <= i < self.prefabs@.len() && self.prefabs@[i].0@ == name,
            |name: Seq<char>|
                self.prefabs@[choose|i: int| 0 <= i < self.prefabs@.len() && self.prefabs@[i].0@ == name].1@,
        )
    }
}

impl Resources {
    pub closed spec fn wf(&self) -> bool {
        forall|i: int, j: int|
            0 <= i < self.prefabs@.len() && 0 <= j < self.prefabs@.len() && i != j
                ==> (#[trigger] self.prefabs@[i]).0@ != (#[trigger] self.prefabs@[j]).0@
    }

    /// An empty catalogue.
    pub fn new() -> (r: Self)
        ensures
            r.wf(),
            r@ == Map::<Seq<char>, Seq<char>>::empty(),
    {
        let r = Resources { prefabs: Vec::new() };
        assert(r@ =~= Map::<Seq<char>, Seq<char>>::empty());
        r
    }

    fn position(&self, name: &String) -> (r: Option<usize>)
        requires
            self.wf(),
        ensures
            r matches Some(i) ==> i < self.prefabs@.len() && self.prefabs@[i as int].0@ == name@,
            r is None ==> forall|i: int| 0 <= i < self.prefabs@.len() ==> self.prefabs@[i].0@ != name@,
    {
        let mut i: usize = 0;
        while i < self.prefabs.len()
            invariant
                i <= self.prefabs@.len(),
                forall|j: int| 0 <= j < i ==> self.prefabs@[j].0@ != name@,
            decreases self.prefabs@.len() - i,
        {
            if self.prefabs[i].0 == *name {
                return Some(i);
            }
            i = i + 1;
        }
        None
    }

    /// The document of the prefab named `name`, if there is one.
    pub fn get(&self, name: &String) -> (r: Option<&String>)
        requires
            self.wf(),
        ensures
            r is Some <==> self@.contains_key(name@),
            r matches Some(d) ==> d@ == self@[name@],
    {
        match self.position(name) {
            Some(i) => {
                proof {
                    let c = choose|j: int| 0 <= j < self.prefabs@.len() && self.prefabs@[j].0@ == name@;
                    assert(c == i);
                }
                Some(&self.prefabs[i].1)
            },
            None => None,
        }
    }

    /// Records `document` as the prefab named `name`, replacing any earlier
    /// document of that name.
    pub fn insert(&mut self, name: String, document: String)
        requires
            old(self).wf(),
        ensures
            final(self).wf(),
            final(self)@ == old(self)@.insert(name@, document@),
    {
        let ghost key = name@;
        let ghost value = document@;
        match self.position(&name) {
            Some(i) => {
                self.prefabs.set(i, (name, document));
                proof {
                    assert forall|a: int, b: int|
                        0 <= a < self.prefabs@.len() && 0 <= b < self.prefabs@.len() && a != b implies (
                        #[trigger] self.prefabs@[a]).0@ != (#[trigger] self.prefabs@[b]).0@ by {
                        assert(old(self).prefabs@[a].0@ == self.prefabs@[a].0@);
                        assert(old(self).prefabs@[b].0@ == self.prefabs@[b].0@);
                    }
                    self.lemma_view_at(i as int);
                    assert forall|k: Seq<char>| k != key && #[trigger] old(self)@.contains_key(k) implies self@.contains_key(k)
                        && self@[k] == old(self)@[k] by {
                        let j = choose|j: int| 0 <= j < old(self).prefabs@.len() && old(self).prefabs@[j].0@ == k;
                        old(self).lemma_view_at(j);
                        self.lemma_view_at(j);
                    }
                    assert(self@ =~= old(self)@.insert(key, value));
                }
            },
            None => {
                self.prefabs.push((name, document));
                proof {
                    let n = old(self).prefabs@.len() as int;
                    self.lemma_view_at(n);
                    assert forall|k: Seq<char>| k != key && #[trigger] old(self)@.contains_key(k) implies self@.contains_key(k)
                        && self@[k] == old(self)@[k] by {
                        let j = choose|j: int| 0 <= j < old(self).prefabs@.len() && old(self).prefabs@[j].0@ == k;
                        old(self).lemma_view_at(j);
                        assert(self.prefabs@[j] == old(self).prefabs@[j]);
                        self.lemma_view_at(j);
                    }
                    assert forall|k: Seq<char>| #[trigger] self@.contains_key(k) && k != key implies old(self)@.contains_key(k) by {
                        let j = choose|j: int| 0 <= j < self.prefabs@.len() && self.prefabs@[j].0@ == k;
                        assert(j != n);
                        assert(old(self).prefabs@[j] == self.prefabs@[j]);
                    }
                    assert(self@ =~= old(self)@.insert(key, value));
                }
            },
        }
    }

    /// The component fields of the prefab named `name`: fails with
    /// [`EcsError::UnknownPrefab`] when there is no such prefab and with
    /// [`EcsError::MalformedPrefab`] when its document is not a JSON object.
    pub fn prefab_components(&self, name: &String) -> (r: Result<Vec<(ComponentKind, String)>, EcsError>)
        requires
            self.wf(),
        ensures
            !self@.contains_key(name@) ==> r == Err::<Vec<(ComponentKind, String)>, EcsError>(EcsError::UnknownPrefab),
            self@.contains_key(name@) && json_object_fields(self@[name@]) is None ==> r == Err::<
                Vec<(ComponentKind, String)>,
                EcsError,
            >(EcsError::MalformedPrefab),
            self@.contains_key(name@) && json_object_fields(self@[name@]) is Some ==> (r matches Ok(
                components,
            ) && components@.map_values(|c: (ComponentKind, String)| (c.0, c.1@)) == declared_fields(
                json_object_fields(self@[name@])->Some_0,
            )),
    {
        let document = match self.get(name) {
            Some(document) => document,
            None => return Err(EcsError::UnknownPrefab),
        };
        match object_fields(document) {
            Some(fields) => Ok(declared_components(&fields)),
            None => Err(EcsError::MalformedPrefab),
        }
    }

    /// The view maps the name of the entry at `i` to its document.
    proof fn lemma_view_at(&self, i: int)
        requires
            self.wf(),
            0 <= i < self.prefabs@.len(),
        ensures
            self@.contains_key(self.prefabs@[i].0@),
            self@[self.prefabs@[i].0@] == self.prefabs@[i].1@,
    {
        let name = self.prefabs@[i].0@;
        let c = choose|j: int| 0 <= j < self.prefabs@.len() && self.prefabs@[j].0@ == name;
        assert(c == i);
    }
}

} // verus!
